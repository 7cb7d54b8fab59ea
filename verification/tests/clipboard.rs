use uniondesk::clipboard::{
    decode_png, digest_of_snapshot, encode_png, image_of_frame, snapshot, snapshot_image,
    snapshot_text, wants_image, write_plan, ClipboardError, ClipboardEvent, ClipboardWatch, ClipboardWrite, Image, Limits,
    PngColor, PngFrame,
};
use uniondesk::protocol::{Blob, ClipboardPayload};

#[test]
fn png_round_trip_preserves_pixels() {
    let pixels: Vec<u8> = (0..(4 * 3 * 4)).map(|i| (i * 7) as u8).collect();
    let encoded = encode_png(4, 3, &pixels).unwrap();
    let image = decode_png(&encoded).unwrap();
    assert_eq!((image.width, image.height), (4, 3));
    assert_eq!(image.rgba, pixels);
}

#[test]
fn digests_distinguish_content_and_are_stable() {
    let a = Some(ClipboardPayload::Text { text: "hello".into() });
    let b = Some(ClipboardPayload::Text { text: "hello ".into() });
    assert_eq!(digest_of_snapshot(&a), digest_of_snapshot(&a));
    assert_ne!(digest_of_snapshot(&a), digest_of_snapshot(&b));
    assert_eq!(digest_of_snapshot(&None), None);
}

#[test]
fn text_and_image_with_the_same_body_do_not_collide() {
    let text = Some(ClipboardPayload::Text { text: "abc".into() });
    let image = Some(ClipboardPayload::Image {
        width: 1,
        height: 1,
        png: Blob::new(b"abc".to_vec()),
    });
    assert_ne!(digest_of_snapshot(&text), digest_of_snapshot(&image));
}

#[test]
fn a_digest_is_half_a_sha256_of_the_tagged_content() {
    // SHA-256 of the byte 03 starts with 084fed08b978af4d7d196a7446a86b58.
    assert_eq!(
        digest_of_snapshot(&Some(ClipboardPayload::Clear)).unwrap(),
        [
            0x08, 0x4f, 0xed, 0x08, 0xb9, 0x78, 0xaf, 0x4d, 0x7d, 0x19, 0x6a, 0x74, 0x46, 0xa8,
            0x6b, 0x58
        ]
    );
    let files = Some(ClipboardPayload::Files { paths: vec!["a".into(), "b".into()] });
    let joined = Some(ClipboardPayload::Files { paths: vec!["ab".into()] });
    assert_ne!(digest_of_snapshot(&files), digest_of_snapshot(&joined));
}

#[test]
fn images_of_the_wrong_size_have_no_file() {
    assert!(matches!(encode_png(2, 2, &[0; 15]), Err(ClipboardError::Image(_))));
    assert!(matches!(encode_png(0, 2, &[]), Err(ClipboardError::Image(_))));
    assert!(matches!(decode_png(b"not a png"), Err(ClipboardError::Image(_))));
}

#[test]
fn frames_become_four_byte_pixels() {
    let frame = PngFrame {
        width: 2,
        height: 1,
        color: PngColor::Rgb,
        used: 6,
        buffer: vec![1, 2, 3, 4, 5, 6, 99, 99],
    };
    let image = image_of_frame(frame).unwrap();
    assert_eq!(image.rgba, vec![1, 2, 3, 255, 4, 5, 6, 255]);
    let gray = PngFrame {
        width: 1,
        height: 1,
        color: PngColor::GrayscaleAlpha,
        used: 1,
        buffer: vec![1],
    };
    assert_eq!(
        image_of_frame(gray),
        Err(ClipboardError::Image("unsupported PNG colour type GrayscaleAlpha".to_string()))
    );
}

#[test]
fn text_is_taken_within_its_limits() {
    let limits = Limits { text: true, images: true, max_bytes: 3 };
    let text = |s: &str| Some(s.to_string());
    assert_eq!(
        snapshot_text(limits, text("abc")),
        Some(ClipboardPayload::Text { text: "abc".to_string() })
    );
    assert_eq!(snapshot_text(limits, text("abcd")), None);
    assert_eq!(snapshot_text(limits, text("")), None);
    assert_eq!(snapshot_text(limits, None), None);
    let off = Limits { text: false, ..limits };
    assert_eq!(snapshot_text(off, text("abc")), None);
    assert_eq!(Limits::default().max_bytes, 8 * 1024 * 1024);
}

#[test]
fn images_are_taken_within_their_limits() {
    let image = Image { width: 1, height: 1, rgba: vec![1, 2, 3, 4] };
    let limits = Limits::default();
    match snapshot_image(limits, &image) {
        Some(ClipboardPayload::Image { width: 1, height: 1, png }) => {
            assert_eq!(decode_png(&png.0).unwrap(), image);
        }
        other => panic!("{other:?}"),
    }
    assert_eq!(snapshot_image(Limits { max_bytes: 1, ..limits }, &image), None);
    assert_eq!(snapshot_image(Limits { images: false, ..limits }, &image), None);
}

#[test]
fn images_count_only_without_text() {
    let image = Image { width: 1, height: 1, rgba: vec![1, 2, 3, 4] };
    let limits = Limits { max_bytes: 1_000, ..Limits::default() };
    let text = |s: &str| Some(s.to_string());
    assert_eq!(
        snapshot(limits, text("hi"), Some(&image)),
        Some(ClipboardPayload::Text { text: "hi".to_string() })
    );
    // A text that is too long hides the image all the same.
    assert_eq!(snapshot(limits, text(&"x".repeat(1_001)), Some(&image)), None);
    assert!(!wants_image(limits, &text("hi")));
    for (limits, text) in [
        (limits, None),
        (limits, text("")),
        (Limits { text: false, ..limits }, text("hi")),
    ] {
        assert!(wants_image(limits, &text));
        assert!(matches!(
            snapshot(limits, text, Some(&image)),
            Some(ClipboardPayload::Image { width: 1, height: 1, .. })
        ));
    }
    assert_eq!(snapshot(Limits { images: false, ..limits }, None, Some(&image)), None);
    assert_eq!(snapshot(limits, None, None), None);
}

#[test]
fn payloads_are_written_by_their_kind() {
    let text = ClipboardPayload::Text { text: "x".to_string() };
    assert_eq!(write_plan(&text), Ok(ClipboardWrite::SetText("x".to_string())));
    assert_eq!(write_plan(&ClipboardPayload::Clear), Ok(ClipboardWrite::Clear));
    let files = ClipboardPayload::Files { paths: Vec::new() };
    assert_eq!(write_plan(&files), Ok(ClipboardWrite::Nothing));
    let png = encode_png(1, 1, &[9, 8, 7, 6]).unwrap();
    let image = ClipboardPayload::Image { width: 1, height: 1, png: Blob::new(png) };
    assert_eq!(
        write_plan(&image),
        Ok(ClipboardWrite::SetImage(Image { width: 1, height: 1, rgba: vec![9, 8, 7, 6] }))
    );
    let broken = ClipboardPayload::Image { width: 1, height: 1, png: Blob::new(vec![1]) };
    assert!(write_plan(&broken).is_err());
    assert_eq!(
        ClipboardError::Unavailable("x".to_string()).message(),
        "clipboard unavailable: x"
    );
    assert_eq!(
        ClipboardError::Image("x".to_string()).message(),
        "image could not be decoded: x"
    );
    assert_eq!(
        ClipboardError::WorkerGone.message(),
        "the clipboard worker is not running"
    );
}

#[test]
fn an_applied_payload_is_not_echoed() {
    let text = |s: &str| ClipboardPayload::Text { text: s.to_string() };
    let mut watch = ClipboardWatch::start(Limits::default(), 350, &Some(text("start")), 1_000);
    assert!(!watch.poll_due(1_349));
    assert!(watch.poll_due(1_350));
    assert!(!watch.poll_due(1_699));
    assert_eq!(watch.on_poll(Some(text("start"))), None);
    watch.on_applied(text("remote"));
    assert_eq!(watch.on_poll(Some(text("remote"))), None);
    assert_eq!(
        watch.on_poll(Some(text("local"))),
        Some(ClipboardEvent::Changed(text("local")))
    );
    assert_eq!(watch.on_poll(Some(text("local"))), None);
    assert_eq!(watch.on_poll(None), None);
    watch.on_limits(Limits { text: false, ..Limits::default() }, &None);
    assert_eq!(watch.on_poll(None), None);
}
