//! The peer to peer vocabulary.

use vstd::prelude::*;
use vstd::string::*;
use vstd::utf8::encode_utf8;

use crate::bytes::{
    le_bytes, le_value, lemma_byte_ranges, lemma_le_round_trip, lemma_le_value_range, push_le,
    read_le,
};
use crate::encoding::{
    base64_bytes, base64_decode, base64_encode, base64_text, bytes_result, decoded, Base64Fault,
};
use crate::error::{Error, ErrorModel, Result};
use crate::geom::{DisplayInfo, DisplayModel, Double, Side};
use crate::identity::{fingerprint_of, fingerprint_text, DeviceId};
use crate::input::InputEvent;
use crate::noise::{is_ours, parse_params, NOISE_PATTERN};
use crate::text::same_text;

verus! {

/// The parameters of the Noise pattern that every session uses.
pub fn noise_params() -> (out: Result<snow::params::NoiseParams>)
    ensures
        out matches Ok(params) && is_ours(params),
{
    match parse_params(NOISE_PATTERN) {
        Ok(params) => Ok(params),
        Err(e) => Err(Error::Key(e)),
    }
}

/// The release of this build, announced to peers.
pub const VERSION: &'static str = "0.1.0";

#[derive(Clone, Copy, Debug, PartialEq, Eq, Structural)]
pub enum OsKind {
    Windows,
    Macos,
    Linux,
    Unknown,
}

impl OsKind {
    /// The kind of the operating system with the given target name.
    pub open spec fn of_target(target: Seq<char>) -> OsKind {
        if target == "windows"@ {
            OsKind::Windows
        } else if target == "macos"@ {
            OsKind::Macos
        } else if target == "linux"@ {
            OsKind::Linux
        } else {
            OsKind::Unknown
        }
    }

    /// The kind of system this program was built for, from the name that the compiler
    /// gives its target.
    pub fn current(target: &str) -> (out: Self)
        ensures
            out == OsKind::of_target(target@),
    {
        if same_text(target, "windows") {
            OsKind::Windows
        } else if same_text(target, "macos") {
            OsKind::Macos
        } else if same_text(target, "linux") {
            OsKind::Linux
        } else {
            OsKind::Unknown
        }
    }

    /// The name of the system on screen.
    pub open spec fn title(self) -> Seq<char> {
        match self {
            OsKind::Windows => "Windows"@,
            OsKind::Macos => "macOS"@,
            OsKind::Linux => "Linux"@,
            OsKind::Unknown => "Unknown"@,
        }
    }

    pub fn label(self) -> (out: &'static str)
        ensures
            out@ == self.title(),
    {
        match self {
            OsKind::Windows => "Windows",
            OsKind::Macos => "macOS",
            OsKind::Linux => "Linux",
            OsKind::Unknown => "Unknown",
        }
    }
}

impl DeepView for OsKind {
    type V = OsKind;

    open spec fn deep_view(&self) -> OsKind {
        *self
    }
}

/// Identity a peer announces once the encrypted channel is up.
#[derive(Debug, PartialEq)]
pub struct DeviceInfo {
    pub device_id: DeviceId,
    pub name: String,
    pub os: OsKind,
    pub version: String,
    pub fingerprint: String,
    pub displays: Vec<DisplayInfo>,
}

#[verifier::ext_equal]
pub struct DeviceInfoModel {
    pub device_id: Seq<char>,
    pub name: Seq<char>,
    pub os: OsKind,
    pub version: Seq<char>,
    pub fingerprint: Seq<char>,
    pub displays: Seq<DisplayModel>,
}

impl DeepView for DeviceInfo {
    type V = DeviceInfoModel;

    open spec fn deep_view(&self) -> DeviceInfoModel {
        DeviceInfoModel {
            device_id: self.device_id@,
            name: self.name@,
            os: self.os,
            version: self.version@,
            fingerprint: self.fingerprint@,
            displays: self.displays.deep_view(),
        }
    }
}

impl Clone for DeviceInfo {
    fn clone(&self) -> (out: Self)
        ensures
            out.deep_view() == self.deep_view(),
    {
        DeviceInfo {
            device_id: self.device_id.clone(),
            name: self.name.clone(),
            os: self.os,
            version: self.version.clone(),
            fingerprint: self.fingerprint.clone(),
            displays: crate::geom::clone_displays(&self.displays),
        }
    }
}

impl DeviceInfo {
    pub fn new(
        device_id: DeviceId,
        name: &str,
        os: OsKind,
        displays: Vec<DisplayInfo>,
        public_key: &[u8],
    ) -> (out: Self)
        ensures
            out.deep_view() == (DeviceInfoModel {
                device_id: device_id@,
                name: name@,
                os,
                version: VERSION@,
                fingerprint: fingerprint_text(public_key@),
                displays: displays.deep_view(),
            }),
    {
        DeviceInfo {
            device_id,
            name: name.to_owned(),
            os,
            version: VERSION.to_owned(),
            fingerprint: fingerprint_of(public_key),
            displays,
        }
    }
}

/// Identifies one file transfer across a session.
#[derive(Clone, Copy, Debug, PartialEq, Eq, Hash, Structural)]
pub struct TransferId(pub u64);

impl DeepView for TransferId {
    type V = TransferId;

    open spec fn deep_view(&self) -> TransferId {
        *self
    }
}

#[derive(Debug, PartialEq)]
pub struct FileEntry {
    pub index: u32,
    pub name: String,
    pub relative_path: String,
    pub size: u64,
    pub is_dir: bool,
}

#[verifier::ext_equal]
pub struct FileEntryModel {
    pub index: u32,
    pub name: Seq<char>,
    pub relative_path: Seq<char>,
    pub size: u64,
    pub is_dir: bool,
}

impl DeepView for FileEntry {
    type V = FileEntryModel;

    open spec fn deep_view(&self) -> FileEntryModel {
        FileEntryModel {
            index: self.index,
            name: self.name@,
            relative_path: self.relative_path@,
            size: self.size,
            is_dir: self.is_dir,
        }
    }
}

impl Clone for FileEntry {
    fn clone(&self) -> (out: Self)
        ensures
            out == *self,
    {
        FileEntry {
            index: self.index,
            name: self.name.clone(),
            relative_path: self.relative_path.clone(),
            size: self.size,
            is_dir: self.is_dir,
        }
    }
}

#[derive(Debug, PartialEq)]
pub struct FileOffer {
    pub transfer: TransferId,
    pub sender_name: String,
    pub total_bytes: u64,
    pub files: Vec<FileEntry>,
}

#[verifier::ext_equal]
pub struct FileOfferModel {
    pub transfer: TransferId,
    pub sender_name: Seq<char>,
    pub total_bytes: u64,
    pub files: Seq<FileEntryModel>,
}

impl DeepView for FileOffer {
    type V = FileOfferModel;

    open spec fn deep_view(&self) -> FileOfferModel {
        FileOfferModel {
            transfer: self.transfer,
            sender_name: self.sender_name@,
            total_bytes: self.total_bytes,
            files: self.files.deep_view(),
        }
    }
}

#[derive(Debug, PartialEq)]
pub struct FileAccept {
    pub transfer: TransferId,
    pub rejected: Vec<u32>,
}

#[verifier::ext_equal]
pub struct FileAcceptModel {
    pub transfer: TransferId,
    pub rejected: Seq<u32>,
}

impl DeepView for FileAccept {
    type V = FileAcceptModel;

    open spec fn deep_view(&self) -> FileAcceptModel {
        FileAcceptModel { transfer: self.transfer, rejected: self.rejected@ }
    }
}

#[derive(Clone, Copy, Debug, PartialEq, Eq, Structural)]
pub struct FileProgressReport {
    pub transfer: TransferId,
    pub index: u32,
    pub bytes_done: u64,
}

#[derive(Debug, PartialEq)]
pub struct FileFinished {
    pub transfer: TransferId,
    pub failed: Vec<(u32, String)>,
}

#[verifier::ext_equal]
pub struct FileFinishedModel {
    pub transfer: TransferId,
    pub failed: Seq<(u32, Seq<char>)>,
}

impl DeepView for FileFinished {
    type V = FileFinishedModel;

    open spec fn deep_view(&self) -> FileFinishedModel {
        FileFinishedModel { transfer: self.transfer, failed: self.failed.deep_view() }
    }
}

/// Bytes that travel as base64 inside an otherwise textual envelope.
#[derive(Debug, PartialEq)]
pub struct Blob(pub Vec<u8>);

impl View for Blob {
    type V = Seq<u8>;

    open spec fn view(&self) -> Seq<u8> {
        self.0@
    }
}

impl Blob {
    pub fn new(bytes: Vec<u8>) -> (out: Self)
        ensures
            out.0 == bytes,
    {
        Blob(bytes)
    }

    pub fn len(&self) -> (out: usize)
        ensures
            out == self@.len(),
    {
        self.0.len()
    }

    pub fn is_empty(&self) -> (out: bool)
        ensures
            out == (self@.len() == 0),
    {
        self.0.len() == 0
    }

    /// The text under which bytes travel. Reading it gives the same bytes back.
    pub fn encode(bytes: &[u8]) -> (out: String)
        requires
            (bytes@.len() + 2) / 3 * 4 <= isize::MAX,
        ensures
            out@ == base64_text(bytes@),
            base64_bytes(encode_utf8(out@)) == decoded(bytes@),
    {
        base64_encode(bytes)
    }

    /// The bytes that travel under a text.
    pub fn decode(text: &str) -> (out: std::result::Result<Vec<u8>, Base64Fault>)
        ensures
            bytes_result(out) == base64_bytes(encode_utf8(text@)),
    {
        base64_decode(text.as_bytes())
    }
}

/// One clipboard flavour. Only the newest flavour is propagated.
#[derive(Debug, PartialEq)]
pub enum ClipboardPayload {
    Text { text: String },
    /// PNG encoded image plus its pixel dimensions.
    Image { width: u32, height: u32, png: Blob },
    /// A list of local paths, used by the "copy files" gesture.
    Files { paths: Vec<String> },
    Clear,
}

#[verifier::ext_equal]
pub enum ClipboardModel {
    Text { text: Seq<char> },
    Image { width: u32, height: u32, png: Seq<u8> },
    Files { paths: Seq<Seq<char>> },
    Clear,
}

impl DeepView for ClipboardPayload {
    type V = ClipboardModel;

    open spec fn deep_view(&self) -> ClipboardModel {
        match self {
            ClipboardPayload::Text { text } => ClipboardModel::Text { text: text@ },
            ClipboardPayload::Image { width, height, png } => ClipboardModel::Image {
                width: *width,
                height: *height,
                png: png@,
            },
            ClipboardPayload::Files { paths } => ClipboardModel::Files { paths: paths.deep_view() },
            ClipboardPayload::Clear => ClipboardModel::Clear,
        }
    }
}

/// A copy of some bytes.
pub fn clone_bytes(bytes: &Vec<u8>) -> (out: Vec<u8>)
    ensures
        out@ == bytes@,
{
    let out = bytes.clone();
    assert(out@ =~= bytes@);
    out
}

impl Clone for ClipboardPayload {
    fn clone(&self) -> (out: Self)
        ensures
            out.deep_view() == self.deep_view(),
    {
        match self {
            ClipboardPayload::Text { text } => ClipboardPayload::Text { text: text.clone() },
            ClipboardPayload::Image { width, height, png } => ClipboardPayload::Image {
                width: *width,
                height: *height,
                png: Blob(clone_bytes(&png.0)),
            },
            ClipboardPayload::Files { paths } => {
                let copy = paths.clone();
                assert(copy.deep_view() =~= paths.deep_view());
                ClipboardPayload::Files { paths: copy }
            },
            ClipboardPayload::Clear => ClipboardPayload::Clear,
        }
    }
}

/// The number of bytes that some texts take together.
pub open spec fn total_text_bytes(texts: Seq<Seq<char>>) -> nat
    decreases texts.len(),
{
    if texts.len() == 0 {
        0
    } else {
        total_text_bytes(texts.drop_last()) + encode_utf8(texts.last()).len()
    }
}

proof fn lemma_total_text_bytes_grows(texts: Seq<Seq<char>>, n: int)
    requires
        0 <= n <= texts.len(),
    ensures
        total_text_bytes(texts.take(n)) <= total_text_bytes(texts),
    decreases texts.len(),
{
    if n < texts.len() {
        lemma_total_text_bytes_grows(texts.drop_last(), n);
        assert(texts.drop_last().take(n) =~= texts.take(n));
    } else {
        assert(texts.take(n) =~= texts);
    }
}

impl ClipboardModel {
    /// The word for a flavour.
    pub open spec fn word(self) -> Seq<char> {
        match self {
            ClipboardModel::Text { .. } => "text"@,
            ClipboardModel::Image { .. } => "image"@,
            ClipboardModel::Files { .. } => "files"@,
            ClipboardModel::Clear => "clear"@,
        }
    }

    /// The size that is held against the limit.
    pub open spec fn weight(self) -> nat {
        match self {
            ClipboardModel::Text { text } => encode_utf8(text).len(),
            ClipboardModel::Image { png, .. } => png.len(),
            ClipboardModel::Files { paths } => total_text_bytes(paths),
            ClipboardModel::Clear => 0,
        }
    }
}

impl ClipboardPayload {
    pub fn kind(&self) -> (out: &'static str)
        ensures
            out@ == self.deep_view().word(),
    {
        match self {
            ClipboardPayload::Text { .. } => "text",
            ClipboardPayload::Image { .. } => "image",
            ClipboardPayload::Files { .. } => "files",
            ClipboardPayload::Clear => "clear",
        }
    }

    /// Whether the payload is above the given size.
    pub fn is_heavier_than(&self, limit: usize) -> (out: bool)
        ensures
            out == (self.deep_view().weight() > limit),
    {
        match self {
            ClipboardPayload::Text { text } => text.as_str().as_bytes().len() > limit,
            ClipboardPayload::Image { png, .. } => png.len() > limit,
            ClipboardPayload::Files { paths } => {
                let ghost all = paths.deep_view();
                let mut sum: usize = 0;
                let mut i: usize = 0;
                while i < paths.len()
                    invariant
                        i <= paths@.len(),
                        all == paths.deep_view(),
                        sum == total_text_bytes(all.take(i as int)),
                        sum <= limit,
                        self.deep_view().weight() == total_text_bytes(all),
                    decreases paths@.len() - i,
                {
                    let more: usize = paths[i].as_str().as_bytes().len();
                    proof {
                        lemma_total_text_bytes_grows(all, i as int + 1);
                        assert(all.take(i as int + 1).drop_last() =~= all.take(i as int));
                    }
                    if more > limit - sum {
                        return true;
                    }
                    sum = sum + more;
                    i += 1;
                }
                assert(all.take(i as int) =~= all);
                false
            },
            ClipboardPayload::Clear => false,
        }
    }

    pub fn approx_bytes(&self) -> (out: usize)
        requires
            self.deep_view() is Files ==> self.deep_view().weight() <= usize::MAX,
        ensures
            out == self.deep_view().weight(),
    {
        match self {
            ClipboardPayload::Text { text } => text.as_str().as_bytes().len(),
            ClipboardPayload::Image { png, .. } => png.len(),
            ClipboardPayload::Files { paths } => {
                let ghost all = paths.deep_view();
                let mut sum: usize = 0;
                let mut i: usize = 0;
                while i < paths.len()
                    invariant
                        i <= paths@.len(),
                        all == paths.deep_view(),
                        sum == total_text_bytes(all.take(i as int)),
                        total_text_bytes(all) <= usize::MAX,
                    decreases paths@.len() - i,
                {
                    proof {
                        lemma_total_text_bytes_grows(all, i as int + 1);
                        assert(all.take(i as int + 1).drop_last() =~= all.take(i as int));
                    }
                    sum = sum + paths[i].as_str().len();
                    i += 1;
                }
                assert(all.take(i as int) =~= all);
                sum
            },
            ClipboardPayload::Clear => 0,
        }
    }
}

/// Control messages that drive the keyboard/mouse handover.
#[derive(Clone, Copy, Debug, PartialEq, Eq, Structural)]
pub enum InputControl {
    /// Take control of the peer's cursor, entering at `x`/`y` in the peer's own
    /// desktop coordinates. `return_side` names the edge the peer must send the
    /// cursor back through.
    Enter { x: Double, y: Double, return_side: Side, keyboard: bool },
    /// Give control back; the peer parks its cursor at `x`/`y`.
    Release { x: Double, y: Double },
    /// The peer's cursor reached the returning edge and control should come home.
    ReturnHome { x: Double, y: Double },
    /// Every modifier and button was released by the peer.
    ResetKeys,
}

/// The complete peer to peer vocabulary.
#[allow(inconsistent_fields)]
#[derive(Debug, PartialEq)]
pub enum Message {
    Hello { protocol: u32, device: DeviceInfo },
    HelloAck { protocol: u32, device: DeviceInfo },
    /// Sent by the machine that is being asked to trust someone.
    PairRequired { code_hint: String },
    /// The code the user typed on the local machine.
    PairResponse { code: String, device: DeviceInfo },
    PairResult { accepted: bool, reason: Option<String> },
    Ping { nonce: u64 },
    Pong { nonce: u64 },
    Displays { displays: Vec<DisplayInfo> },
    Input(InputEvent),
    Control(InputControl),
    Clipboard(ClipboardPayload),
    FileOffer(FileOffer),
    FileAccept(FileAccept),
    FileProgress(FileProgressReport),
    FileFinished(FileFinished),
    FileCancel { transfer: TransferId, reason: String },
    Bye { reason: String },
    Error { message: String },
}

/// A message, by its contents.
#[allow(inconsistent_fields)]
#[verifier::ext_equal]
pub enum MessageModel {
    Hello { protocol: u32, device: DeviceInfoModel },
    HelloAck { protocol: u32, device: DeviceInfoModel },
    PairRequired { code_hint: Seq<char> },
    PairResponse { code: Seq<char>, device: DeviceInfoModel },
    PairResult { accepted: bool, reason: Option<Seq<char>> },
    Ping { nonce: u64 },
    Pong { nonce: u64 },
    Displays { displays: Seq<DisplayModel> },
    Input(InputEvent),
    Control(InputControl),
    Clipboard(ClipboardModel),
    FileOffer(FileOfferModel),
    FileAccept(FileAcceptModel),
    FileProgress(FileProgressReport),
    FileFinished(FileFinishedModel),
    FileCancel { transfer: TransferId, reason: Seq<char> },
    Bye { reason: Seq<char> },
    Error { message: Seq<char> },
}

impl DeepView for Message {
    type V = MessageModel;

    open spec fn deep_view(&self) -> MessageModel {
        match self {
            Message::Hello { protocol, device } => MessageModel::Hello {
                protocol: *protocol,
                device: device.deep_view(),
            },
            Message::HelloAck { protocol, device } => MessageModel::HelloAck {
                protocol: *protocol,
                device: device.deep_view(),
            },
            Message::PairRequired { code_hint } => MessageModel::PairRequired {
                code_hint: code_hint@,
            },
            Message::PairResponse { code, device } => MessageModel::PairResponse {
                code: code@,
                device: device.deep_view(),
            },
            Message::PairResult { accepted, reason } => MessageModel::PairResult {
                accepted: *accepted,
                reason: reason.deep_view(),
            },
            Message::Ping { nonce } => MessageModel::Ping { nonce: *nonce },
            Message::Pong { nonce } => MessageModel::Pong { nonce: *nonce },
            Message::Displays { displays } => MessageModel::Displays {
                displays: displays.deep_view(),
            },
            Message::Input(event) => MessageModel::Input(*event),
            Message::Control(control) => MessageModel::Control(*control),
            Message::Clipboard(payload) => MessageModel::Clipboard(payload.deep_view()),
            Message::FileOffer(offer) => MessageModel::FileOffer(offer.deep_view()),
            Message::FileAccept(accept) => MessageModel::FileAccept(accept.deep_view()),
            Message::FileProgress(report) => MessageModel::FileProgress(*report),
            Message::FileFinished(done) => MessageModel::FileFinished(done.deep_view()),
            Message::FileCancel { transfer, reason } => MessageModel::FileCancel {
                transfer: *transfer,
                reason: reason@,
            },
            Message::Bye { reason } => MessageModel::Bye { reason: reason@ },
            Message::Error { message } => MessageModel::Error { message: message@ },
        }
    }
}

impl MessageModel {
    /// Whether a message must not wait behind bulk traffic.
    pub open spec fn urgent(self) -> bool {
        self is Input || self is Control
    }

    /// The word by which a message is tagged.
    pub open spec fn word(self) -> Seq<char> {
        match self {
            MessageModel::Hello { .. } => "hello"@,
            MessageModel::HelloAck { .. } => "hello_ack"@,
            MessageModel::PairRequired { .. } => "pair_required"@,
            MessageModel::PairResponse { .. } => "pair_response"@,
            MessageModel::PairResult { .. } => "pair_result"@,
            MessageModel::Ping { .. } => "ping"@,
            MessageModel::Pong { .. } => "pong"@,
            MessageModel::Displays { .. } => "displays"@,
            MessageModel::Input(_) => "input"@,
            MessageModel::Control(_) => "control"@,
            MessageModel::Clipboard(_) => "clipboard"@,
            MessageModel::FileOffer(_) => "file_offer"@,
            MessageModel::FileAccept(_) => "file_accept"@,
            MessageModel::FileProgress(_) => "file_progress"@,
            MessageModel::FileFinished(_) => "file_finished"@,
            MessageModel::FileCancel { .. } => "file_cancel"@,
            MessageModel::Bye { .. } => "bye"@,
            MessageModel::Error { .. } => "error"@,
        }
    }
}

impl Message {
    /// Input events are latency critical and are always written ahead of bulk
    /// traffic, regardless of when they were queued.
    pub fn is_urgent(&self) -> (out: bool)
        ensures
            out == self.deep_view().urgent(),
    {
        matches!(self, Message::Input(_) | Message::Control(_))
    }

    pub fn kind(&self) -> (out: &'static str)
        ensures
            out@ == self.deep_view().word(),
    {
        match self {
            Message::Hello { .. } => "hello",
            Message::HelloAck { .. } => "hello_ack",
            Message::PairRequired { .. } => "pair_required",
            Message::PairResponse { .. } => "pair_response",
            Message::PairResult { .. } => "pair_result",
            Message::Ping { .. } => "ping",
            Message::Pong { .. } => "pong",
            Message::Displays { .. } => "displays",
            Message::Input(_) => "input",
            Message::Control(_) => "control",
            Message::Clipboard(_) => "clipboard",
            Message::FileOffer(_) => "file_offer",
            Message::FileAccept(_) => "file_accept",
            Message::FileProgress(_) => "file_progress",
            Message::FileFinished(_) => "file_finished",
            Message::FileCancel { .. } => "file_cancel",
            Message::Bye { .. } => "bye",
            Message::Error { .. } => "error",
        }
    }
}

/// Binary side channel frame: raw file payload, never base64.
#[derive(Debug, PartialEq)]
pub struct FileChunk {
    pub transfer: TransferId,
    pub index: u32,
    pub offset: u64,
    pub data: Vec<u8>,
}

#[verifier::ext_equal]
pub struct FileChunkModel {
    pub transfer: TransferId,
    pub index: u32,
    pub offset: u64,
    pub data: Seq<u8>,
}

impl DeepView for FileChunk {
    type V = FileChunkModel;

    open spec fn deep_view(&self) -> FileChunkModel {
        FileChunkModel {
            transfer: self.transfer,
            index: self.index,
            offset: self.offset,
            data: self.data@,
        }
    }
}

/// The frame of a chunk: transfer (8 bytes), index (4), offset (8), length (4), then
/// the data.
pub open spec fn chunk_frame(chunk: FileChunkModel) -> Seq<u8> {
    le_bytes(chunk.transfer.0 as nat, 8) + le_bytes(chunk.index as nat, 4) + le_bytes(
        chunk.offset as nat,
        8,
    ) + le_bytes(chunk.data.len(), 4) + chunk.data
}

/// What a frame holds, or what is wrong with it.
pub open spec fn chunk_of_frame(bytes: Seq<u8>) -> std::result::Result<
    FileChunkModel,
    ErrorModel,
> {
    if bytes.len() < 24 {
        Err(ErrorModel::Invalid("file chunk frame is truncated"@))
    } else {
        let len = le_value(bytes.subrange(20, 24));
        if bytes.len() < 24 + len {
            Err(ErrorModel::Invalid("file chunk payload is truncated"@))
        } else {
            Ok(
                FileChunkModel {
                    transfer: TransferId(le_value(bytes.subrange(0, 8)) as u64),
                    index: le_value(bytes.subrange(8, 12)) as u32,
                    offset: le_value(bytes.subrange(12, 20)) as u64,
                    data: bytes.subrange(24, 24 + len as int),
                },
            )
        }
    }
}

/// The outcome of decoding a chunk, by its contents.
pub open spec fn chunk_result(r: Result<FileChunk>) -> std::result::Result<
    FileChunkModel,
    ErrorModel,
> {
    match r {
        Ok(chunk) => Ok(chunk.deep_view()),
        Err(e) => Err(e.deep_view()),
    }
}

impl FileChunk {
    /// transfer(8) + index(4) + offset(8) + len(4)
    pub const HEADER_LEN: usize = 24;

    pub fn encode(&self) -> (out: Vec<u8>)
        ensures
            out@ == chunk_frame(self.deep_view()),
    {
        let mut out: Vec<u8> = Vec::new();
        push_le(&mut out, self.transfer.0, 8);
        push_le(&mut out, self.index as u64, 4);
        push_le(&mut out, self.offset, 8);
        push_le(&mut out, self.data.len() as u64, 4);
        let data = clone_bytes(&self.data);
        out.extend_from_slice(data.as_slice());
        assert(out@ =~= chunk_frame(self.deep_view()));
        out
    }

    pub fn decode(bytes: &[u8]) -> (out: Result<Self>)
        ensures
            chunk_result(out) == chunk_of_frame(bytes@),
    {
        if bytes.len() < Self::HEADER_LEN {
            return Err(Error::invalid("file chunk frame is truncated"));
        }
        proof {
            lemma_byte_ranges();
            lemma_le_value_range(bytes@.subrange(8, 12));
            lemma_le_value_range(bytes@.subrange(20, 24));
        }
        let transfer: u64 = read_le(bytes, 0, 8);
        let index: u32 = read_le(bytes, 8, 12) as u32;
        let offset: u64 = read_le(bytes, 12, 20);
        let len: u64 = read_le(bytes, 20, 24);
        if ((bytes.len() - Self::HEADER_LEN) as u64) < len {
            return Err(Error::invalid("file chunk payload is truncated"));
        }
        let end: usize = Self::HEADER_LEN + len as usize;
        let data = vstd::slice::slice_to_vec(
            vstd::slice::slice_subrange(bytes, Self::HEADER_LEN, end),
        );
        assert(data@ =~= bytes@.subrange(24, end as int));
        Ok(FileChunk { transfer: TransferId(transfer), index, offset, data })
    }
}

/// Decoding an encoded chunk gives the chunk back, for data whose length fits in its
/// field.
pub proof fn law_chunk_round_trip(chunk: FileChunkModel)
    requires
        chunk.data.len() <= u32::MAX,
    ensures
        chunk_of_frame(chunk_frame(chunk)) == Ok::<FileChunkModel, ErrorModel>(chunk),
{
    let a = le_bytes(chunk.transfer.0 as nat, 8);
    let b = le_bytes(chunk.index as nat, 4);
    let c = le_bytes(chunk.offset as nat, 8);
    let d = le_bytes(chunk.data.len(), 4);
    lemma_byte_ranges();
    lemma_le_round_trip(chunk.transfer.0 as nat, 8);
    lemma_le_round_trip(chunk.index as nat, 4);
    lemma_le_round_trip(chunk.offset as nat, 8);
    lemma_le_round_trip(chunk.data.len(), 4);
    let frame = chunk_frame(chunk);
    assert(frame.subrange(0, 8) =~= a);
    assert(frame.subrange(8, 12) =~= b);
    assert(frame.subrange(12, 20) =~= c);
    assert(frame.subrange(20, 24) =~= d);
    assert(frame.subrange(24, 24 + chunk.data.len() as int) =~= chunk.data);
}

} // verus!
