use uniondesk::codec::{
    decode_inner, encode_inner, read_record, write_record, Inner, Outgoing, MAX_RECORD,
};
use uniondesk::error::Error as CoreError;
use uniondesk::geom::{Double, Rect};
use uniondesk::identity::DeviceId;
use uniondesk::input::{
    CaptureOptions, CapturedEvent, InputError, InputEvent, KeyCode, Modifiers, MouseButton,
};
use uniondesk::key;
use uniondesk::net_error::Error;
use uniondesk::protocol::{
    noise_params, Blob, ClipboardPayload, DeviceInfo, FileChunk, InputControl, Message, OsKind,
    TransferId,
};

#[test]
fn file_chunk_round_trips() {
    let chunk = FileChunk {
        transfer: TransferId(7),
        index: 3,
        offset: 4096,
        data: vec![1, 2, 3, 4, 5],
    };
    let decoded = FileChunk::decode(&chunk.encode()).unwrap();
    assert_eq!(decoded, chunk);
}

#[test]
fn a_chunk_frame_has_its_fields_in_order() {
    let chunk = FileChunk {
        transfer: TransferId(0x0102_0304_0506_0708),
        index: 0x0a0b_0c0d,
        offset: 256,
        data: vec![9],
    };
    let bytes = chunk.encode();
    assert_eq!(
        bytes,
        vec![
            8, 7, 6, 5, 4, 3, 2, 1, 0x0d, 0x0c, 0x0b, 0x0a, 0, 1, 0, 0, 0, 0, 0, 0, 1, 0, 0, 0, 9
        ]
    );
    assert_eq!(bytes.len(), FileChunk::HEADER_LEN + 1);
}

#[test]
fn truncated_chunks_are_refused() {
    let chunk = FileChunk {
        transfer: TransferId(1),
        index: 0,
        offset: 0,
        data: vec![1, 2, 3],
    };
    let bytes = chunk.encode();
    match FileChunk::decode(&bytes[..23]) {
        Err(CoreError::Invalid(text)) => assert_eq!(text, "file chunk frame is truncated"),
        other => panic!("{other:?}"),
    }
    match FileChunk::decode(&bytes[..26]) {
        Err(CoreError::Invalid(text)) => assert_eq!(text, "file chunk payload is truncated"),
        other => panic!("{other:?}"),
    }
    let mut longer = bytes.clone();
    longer.push(77);
    assert_eq!(FileChunk::decode(&longer).unwrap(), chunk);
}

#[test]
fn blob_uses_base64_on_the_wire() {
    let blob = Blob::new(vec![0, 255, 16]);
    let json = serde_json::to_string(&Blob::encode(&blob.0)).unwrap();
    assert_eq!(json, "\"AP8Q\"");
    let text: String = serde_json::from_str(&json).unwrap();
    let back = Blob::new(Blob::decode(&text).unwrap());
    assert_eq!(back, blob);
}

#[test]
fn blobs_know_their_size() {
    let blob = Blob::new(vec![1, 2]);
    assert_eq!(blob.len(), 2);
    assert!(!blob.is_empty());
    assert!(Blob::new(Vec::new()).is_empty());
    assert!(Blob::decode("not base64").is_err());
}

#[test]
fn messages_tag_themselves() {
    let msg = Message::Ping { nonce: 42 };
    assert_eq!(msg.kind(), "ping");
}

fn info() -> DeviceInfo {
    DeviceInfo::new(DeviceId::from_text("me"), "desk", OsKind::Linux, Vec::new(), b"abc")
}

#[test]
fn every_message_has_its_word() {
    assert_eq!(Message::Hello { protocol: 1, device: info() }.kind(), "hello");
    assert_eq!(Message::HelloAck { protocol: 1, device: info() }.kind(), "hello_ack");
    assert_eq!(Message::PairRequired { code_hint: String::new() }.kind(), "pair_required");
    assert_eq!(
        Message::PairResponse { code: String::new(), device: info() }.kind(),
        "pair_response"
    );
    assert_eq!(Message::PairResult { accepted: true, reason: None }.kind(), "pair_result");
    assert_eq!(Message::Pong { nonce: 0 }.kind(), "pong");
    assert_eq!(Message::Displays { displays: Vec::new() }.kind(), "displays");
    assert_eq!(Message::Control(InputControl::ResetKeys).kind(), "control");
    assert_eq!(Message::Clipboard(ClipboardPayload::Clear).kind(), "clipboard");
    assert_eq!(
        Message::FileCancel { transfer: TransferId(1), reason: String::new() }.kind(),
        "file_cancel"
    );
    assert_eq!(Message::Bye { reason: String::new() }.kind(), "bye");
    assert_eq!(Message::Error { message: String::new() }.kind(), "error");
}

#[test]
fn input_and_control_are_urgent() {
    let press = InputEvent::Button { button: MouseButton::Left, down: true };
    assert!(Message::Input(press).is_urgent());
    assert!(Message::Control(InputControl::ResetKeys).is_urgent());
    assert!(!Message::Ping { nonce: 1 }.is_urgent());
    assert!(Outgoing::Message(Message::Input(press)).is_urgent());
    let chunk = FileChunk { transfer: TransferId(1), index: 0, offset: 0, data: Vec::new() };
    let chunk = Outgoing::Chunk(chunk);
    assert!(!chunk.is_urgent());
    assert_eq!(chunk.kind(), "chunk");
    assert_eq!(Outgoing::Message(Message::Pong { nonce: 1 }).kind(), "pong");
}

#[test]
fn a_device_announces_its_fingerprint_and_version() {
    let device = info();
    assert_eq!(device.fingerprint, "BA78-16BF-8F01-CFEA");
    assert_eq!(device.version, "0.1.0");
    assert!(noise_params().is_ok());
}

#[test]
fn systems_are_told_apart_by_their_target() {
    assert_eq!(OsKind::current("windows"), OsKind::Windows);
    assert_eq!(OsKind::current("macos"), OsKind::Macos);
    assert_eq!(OsKind::current("linux"), OsKind::Linux);
    assert_eq!(OsKind::current("freebsd"), OsKind::Unknown);
    assert_eq!(OsKind::Macos.label(), "macOS");
}

#[test]
fn clipboard_payloads_are_weighed_in_bytes() {
    let text = ClipboardPayload::Text { text: "h\u{e9}".to_string() };
    assert_eq!(text.kind(), "text");
    assert_eq!(text.approx_bytes(), 3);
    assert!(text.is_heavier_than(2));
    assert!(!text.is_heavier_than(3));
    let files = ClipboardPayload::Files { paths: vec!["ab".to_string(), "cde".to_string()] };
    assert_eq!(files.kind(), "files");
    assert_eq!(files.approx_bytes(), 5);
    assert!(files.is_heavier_than(4));
    assert!(!files.is_heavier_than(5));
    let image = ClipboardPayload::Image { width: 1, height: 1, png: Blob::new(vec![0; 9]) };
    assert_eq!(image.kind(), "image");
    assert_eq!(image.approx_bytes(), 9);
    assert_eq!(ClipboardPayload::Clear.approx_bytes(), 0);
    assert_eq!(ClipboardPayload::Clear.kind(), "clear");
}

#[test]
fn records_round_trip_through_a_pipe() {
    let chunk = FileChunk {
        transfer: TransferId(1),
        index: 0,
        offset: 0,
        data: vec![9; 1024],
    };
    let encoded = encode_inner(&Inner::Chunk(chunk)).unwrap();
    let pipe = write_record(&encoded).unwrap();
    let len = read_record(&pipe[..4]).unwrap();
    let buf = pipe[4..4 + len].to_vec();
    assert_eq!(buf, encoded);
    let again = FileChunk {
        transfer: TransferId(1),
        index: 0,
        offset: 0,
        data: vec![9; 1024],
    };
    assert_eq!(decode_inner(&buf).unwrap(), Inner::Chunk(again));
}

#[test]
fn oversized_records_are_refused_before_they_hit_the_wire() {
    let err = write_record(&vec![0u8; MAX_RECORD + 1]).unwrap_err();
    assert!(matches!(err, Error::Range(_)));
    assert_eq!(
        err.message(),
        "value is out of range: record of 65536 bytes exceeds the 65535 byte limit"
    );
}

#[test]
fn records_are_refused_for_their_own_reasons() {
    assert_eq!(
        read_record(&[0, 0, 1, 0]).unwrap_err().message(),
        "value is out of range: peer announced a 65536 byte record"
    );
    assert_eq!(read_record(&[255, 255, 0, 0]).unwrap(), 65535);
    let json = Inner::Json(vec![b'x'; MAX_RECORD]);
    assert_eq!(
        encode_inner(&json).unwrap_err().message(),
        "value is out of range: control message of 65535 bytes exceeds the record limit"
    );
    let fits = encode_inner(&Inner::Json(vec![b'x'; MAX_RECORD - 1])).unwrap();
    assert_eq!(fits.len(), MAX_RECORD);
    assert_eq!(decode_inner(&fits).unwrap(), Inner::Json(vec![b'x'; MAX_RECORD - 1]));
    assert_eq!(
        decode_inner(&[]).unwrap_err().message(),
        "protocol error: empty record"
    );
    assert_eq!(
        decode_inner(&[7, 1]).unwrap_err().message(),
        "protocol error: unknown record tag 7"
    );
    assert_eq!(
        decode_inner(&[1, 1]).unwrap_err().message(),
        "protocol error: invalid argument: file chunk frame is truncated"
    );
}

#[test]
fn connection_errors_speak_in_sentences() {
    assert_eq!(Error::Io("x".to_string()).message(), "i/o error: x");
    assert_eq!(Error::crypto("x").message(), "cryptographic error: x");
    assert_eq!(
        Error::Version { local: 1, remote: 12 }.message(),
        "the remote peer spoke an incompatible protocol version (12, we speak 1)"
    );
    assert_eq!(
        Error::IdentityChanged { expected: "a".to_string(), actual: "b".to_string() }.message(),
        "the peer identity changed: expected key a, received b"
    );
    assert_eq!(Error::PairRejected("x".to_string()).message(), "pairing was rejected: x");
    assert_eq!(Error::Closed("x".to_string()).message(), "connection closed: x");
    assert_eq!(Error::Other("x".to_string()).message(), "x");
    assert_eq!(
        Error::from_shared(CoreError::Json("eof".to_string())).message(),
        "protocol error: eof"
    );
    assert_eq!(
        Error::from_shared(CoreError::Io("gone".to_string())).message(),
        "i/o error: gone"
    );
    assert_eq!(
        Error::from_shared(CoreError::invalid("bad")).message(),
        "invalid argument: bad"
    );
}

#[test]
fn keys_have_names() {
    assert_eq!(KeyCode(key::A).name(), Some("A"));
    assert_eq!(KeyCode(key::ScrollLock).name(), Some("ScrollLock"));
    assert_eq!(KeyCode(key::BrightnessDown).name(), Some("BrightnessDown"));
    assert_eq!(KeyCode(key::MetaRight).display(), "MetaRight");
    assert_eq!(KeyCode(0x32).name(), None);
    assert_eq!(KeyCode(0x02).display(), "hid-0x02");
    assert_eq!(KeyCode(0xabc).display(), "hid-0xabc");
    assert!(KeyCode(KeyCode::UNKNOWN).is_unknown());
    assert!(!KeyCode(key::Enter).is_unknown());
}

#[test]
fn modifiers_are_independent() {
    let mut held = Modifiers::empty();
    held.set(Modifiers::CTRL, true);
    held.set(Modifiers::ALT, true);
    assert!(held.ctrl() && held.alt() && !held.shift() && !held.meta());
    held.set(Modifiers::CTRL, false);
    assert!(!held.ctrl() && held.alt());
    assert!(held.contains(Modifiers::ALT | Modifiers::SHIFT));
    assert_eq!(Modifiers::default(), Modifiers(Modifiers::NONE));
}

#[test]
fn presses_are_told_from_other_input() {
    let zero = Double::from_bits(Double::ZERO_BITS);
    assert!(InputEvent::Button { button: MouseButton::X2, down: true }.is_press());
    assert!(!InputEvent::MoveRel { dx: zero, dy: zero }.is_press());
    let lift = CapturedEvent::Key {
        code: KeyCode(key::A),
        down: false,
        modifiers: Modifiers::empty(),
    };
    assert!(!lift.is_press());
    assert!(CaptureOptions::off().is_off());
    assert_eq!(InputError::ThreadGone.message(), "the input thread is no longer running");
    assert_eq!(
        InputError::Platform("x".to_string()).message(),
        "input backend failure: x"
    );
    assert_eq!(InputError::Unsupported("x".to_string()).message(), "x");
    assert_eq!(Rect::new(zero, zero, zero, zero).height, zero);
    assert_eq!(f64::from_bits(Double::FALLBACK_WIDTH_BITS), 1920.0);
    assert_eq!(f64::from_bits(Double::FALLBACK_HEIGHT_BITS), 1080.0);
}
