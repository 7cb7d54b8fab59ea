//! Clipboard synchronisation.
//!
//! The clipboard is polled rather than hooked. Every platform exposes a
//! "changed" notification, but each one has different failure modes around
//! apps that keep the clipboard open, and a 350 ms poll costs nothing while
//! being far more predictable. Content is identified by a hash, which also
//! stops a payload we just applied from being echoed back to its sender.

use vstd::prelude::*;
use vstd::string::*;
use vstd::utf8::encode_utf8;

use crate::bytes::{le_bytes, push_le};
use crate::encoding::{sha256, sha256_of};
use crate::protocol::{Blob, ClipboardModel, ClipboardPayload};
use crate::text::cat2;

verus! {

#[derive(Debug, PartialEq)]
pub enum ClipboardError {
    Unavailable(String),
    Image(String),
    WorkerGone,
}

pub type Result<T, E = ClipboardError> = std::result::Result<T, E>;

/// A clipboard error, by its contents.
#[verifier::ext_equal]
pub enum ClipboardErrorModel {
    Unavailable(Seq<char>),
    Image(Seq<char>),
    WorkerGone,
}

impl DeepView for ClipboardError {
    type V = ClipboardErrorModel;

    open spec fn deep_view(&self) -> ClipboardErrorModel {
        match self {
            ClipboardError::Unavailable(text) => ClipboardErrorModel::Unavailable(text@),
            ClipboardError::Image(text) => ClipboardErrorModel::Image(text@),
            ClipboardError::WorkerGone => ClipboardErrorModel::WorkerGone,
        }
    }
}

impl ClipboardErrorModel {
    /// The sentence shown for an error.
    pub open spec fn sentence(self) -> Seq<char> {
        match self {
            ClipboardErrorModel::Unavailable(text) => "clipboard unavailable: "@ + text,
            ClipboardErrorModel::Image(text) => "image could not be decoded: "@ + text,
            ClipboardErrorModel::WorkerGone => "the clipboard worker is not running"@,
        }
    }
}

impl ClipboardError {
    /// The sentence shown for the error.
    pub fn message(&self) -> (out: String)
        ensures
            out@ == self.deep_view().sentence(),
    {
        match self {
            ClipboardError::Unavailable(text) => cat2("clipboard unavailable: ", text.as_str()),
            ClipboardError::Image(text) => cat2("image could not be decoded: ", text.as_str()),
            ClipboardError::WorkerGone => "the clipboard worker is not running".to_owned(),
        }
    }
}

/// What the watcher reports.
#[derive(Debug, PartialEq)]
pub enum ClipboardEvent {
    /// Local clipboard content changed.
    Changed(ClipboardPayload),
    /// The watcher could not read the clipboard; usually transient.
    Error(String),
}

/// A report, by its contents.
#[verifier::ext_equal]
pub enum ClipboardEventModel {
    Changed(ClipboardModel),
    Error(Seq<char>),
}

impl DeepView for ClipboardEvent {
    type V = ClipboardEventModel;

    open spec fn deep_view(&self) -> ClipboardEventModel {
        match self {
            ClipboardEvent::Changed(payload) => ClipboardEventModel::Changed(payload.deep_view()),
            ClipboardEvent::Error(text) => ClipboardEventModel::Error(text@),
        }
    }
}

/// Limits applied before content is handed to the transport.
#[derive(Clone, Copy, Debug, PartialEq, Eq, Structural)]
pub struct Limits {
    pub text: bool,
    pub images: bool,
    pub max_bytes: usize,
}

impl Default for Limits {
    fn default() -> (out: Self)
        ensures
            out == (Limits { text: true, images: true, max_bytes: 0x80_0000 }),
    {
        Limits { text: true, images: true, max_bytes: 8 * 1024 * 1024 }
    }
}

/// The colour layouts that a PNG file can have.
#[derive(Clone, Copy, Debug, PartialEq, Eq, Structural)]
pub enum PngColor {
    Grayscale,
    Rgb,
    Indexed,
    GrayscaleAlpha,
    Rgba,
}

impl PngColor {
    /// The name of a layout.
    pub open spec fn word(self) -> Seq<char> {
        match self {
            PngColor::Grayscale => "Grayscale"@,
            PngColor::Rgb => "Rgb"@,
            PngColor::Indexed => "Indexed"@,
            PngColor::GrayscaleAlpha => "GrayscaleAlpha"@,
            PngColor::Rgba => "Rgba"@,
        }
    }

    fn label(self) -> (out: &'static str)
        ensures
            out@ == self.word(),
    {
        match self {
            PngColor::Grayscale => "Grayscale",
            PngColor::Rgb => "Rgb",
            PngColor::Indexed => "Indexed",
            PngColor::GrayscaleAlpha => "GrayscaleAlpha",
            PngColor::Rgba => "Rgba",
        }
    }
}

/// The first frame of a PNG file, by its contents.
#[verifier::ext_equal]
pub struct PngFrameModel {
    pub width: u32,
    pub height: u32,
    pub color: PngColor,
    pub data: Seq<u8>,
}

/// The first frame of a PNG file, at the start of a buffer.
#[derive(Debug, PartialEq)]
pub struct PngFrame {
    pub width: u32,
    pub height: u32,
    pub color: PngColor,
    /// How much of the buffer the frame takes.
    pub used: usize,
    pub buffer: Vec<u8>,
}

/// The PNG file of an image with four bytes per pixel.
pub uninterp spec fn png_file(width: u32, height: u32, rgba: Seq<u8>) -> Seq<u8>;

/// The room that the first frame of a PNG file takes; `None` where its header cannot be
/// read.
pub uninterp spec fn png_room(file: Seq<u8>) -> Option<usize>;

/// The first frame of a PNG file, read into a buffer of `room` zero bytes; `None` where it
/// cannot be read.
pub uninterp spec fn png_frame(file: Seq<u8>, room: nat) -> Option<PngFrameModel>;

/// Whether pixels make an image of the given size: one that is not empty, with four bytes
/// for each pixel.
pub open spec fn image_fits(width: u32, height: u32, rgba: Seq<u8>) -> bool {
    width > 0 && height > 0 && rgba.len() == 4 * width * height
}

/// The frame of an image with four bytes per pixel.
pub open spec fn rgba_frame(width: u32, height: u32, rgba: Seq<u8>) -> Option<PngFrameModel> {
    Some(PngFrameModel { width, height, color: PngColor::Rgba, data: rgba })
}

/// `png::Encoder::write_header` and `png::Writer::write_image_data`, for eight bit RGBA.
///
/// Claims that the call succeeds exactly where the image is not empty and the pixels have
/// its size, that the file then depends on the size and the pixels alone, and that reading
/// it with `png::Decoder` gives the same size and pixels back. The last is claimed for rows
/// that stay well inside the decoder's allocation limit. Sizes whose product overflows are
/// left out: the call panics there.
#[verifier::external_body]
fn png_encode(width: u32, height: u32, rgba: &[u8]) -> (out: std::result::Result<Vec<u8>, String>)
    requires
        4 * width * height <= isize::MAX,
    ensures
        out is Ok <==> image_fits(width, height, rgba@),
        out matches Ok(file) ==> file@ == png_file(width, height, rgba@),
        out matches Ok(file) ==> (width <= 0x40_0000 ==> png_room(file@) == Some(
            (4 * width * height) as usize,
        )),
        out matches Ok(file) ==> (width <= 0x40_0000 ==> png_frame(file@, rgba@.len())
            == rgba_frame(width, height, rgba@)),
{
    let mut out = Vec::new();
    let mut encoder = png::Encoder::new(&mut out, width, height);
    encoder.set_color(png::ColorType::Rgba);
    encoder.set_depth(png::BitDepth::Eight);
    let mut writer = encoder.write_header().map_err(|e| e.to_string())?;
    writer.write_image_data(rgba).map_err(|e| e.to_string())?;
    drop(writer);
    Ok(out)
}

/// `png::Decoder::read_info` and `png::Reader::output_buffer_size`.
///
/// Claims that the outcome depends on the file alone.
#[verifier::external_body]
fn png_header(file: &[u8]) -> (out: std::result::Result<usize, String>)
    ensures
        png_room(file@) == match out {
            Ok(room) => Some(room),
            Err(_) => None,
        },
{
    png::Decoder::new(file).read_info().map(|reader| reader.output_buffer_size()).map_err(
        |e| e.to_string(),
    )
}

/// `png::Reader::next_frame` on the file from its start, into a buffer of zero bytes.
///
/// Claims that the outcome then depends on the file and the size of the buffer alone, and
/// that the frame is at the start of the buffer. Buffers that hold anything else are left
/// out: interlaced rows with several pixels per byte are merged into what is there.
#[verifier::external_body]
fn png_decode(file: &[u8], mut buffer: Vec<u8>) -> (out: std::result::Result<PngFrame, String>)
    requires
        forall|i: int| 0 <= i < buffer@.len() ==> #[trigger] buffer@[i] == 0,
    ensures
        match out {
            Ok(frame) => frame.used <= frame.buffer@.len() && png_frame(file@, buffer@.len())
                == Some(
                PngFrameModel {
                    width: frame.width,
                    height: frame.height,
                    color: frame.color,
                    data: frame.buffer@.take(frame.used as int),
                },
            ),
            Err(_) => png_frame(file@, buffer@.len()) is None,
        },
{
    let mut reader = png::Decoder::new(file).read_info().map_err(|e| e.to_string())?;
    let info = reader.next_frame(&mut buffer).map_err(|e| e.to_string())?;
    let color = match info.color_type {
        png::ColorType::Grayscale => PngColor::Grayscale,
        png::ColorType::Rgb => PngColor::Rgb,
        png::ColorType::Indexed => PngColor::Indexed,
        png::ColorType::GrayscaleAlpha => PngColor::GrayscaleAlpha,
        png::ColorType::Rgba => PngColor::Rgba,
    };
    Ok(
        PngFrame { width: info.width, height: info.height, color, used: info.buffer_size(), buffer },
    )
}

/// Encodes an image with four bytes per pixel.
pub fn encode_png(width: usize, height: usize, rgba: &[u8]) -> (out: Result<Vec<u8>>)
    requires
        4 * (width as u32) * (height as u32) <= isize::MAX,
    ensures
        out is Ok <==> image_fits(width as u32, height as u32, rgba@),
        out matches Err(e) ==> e is Image,
        out matches Ok(file) ==> file@ == png_file(width as u32, height as u32, rgba@),
        out matches Ok(file) ==> (width as u32 <= 0x40_0000 ==> decoded_image(file@) == Ok::<
            ImageModel,
            Option<ClipboardErrorModel>,
        >(ImageModel { width: width as u32, height: height as u32, rgba: rgba@ })),
{
    match png_encode(width as u32, height as u32, rgba) {
        Ok(file) => {
            proof {
                if width as u32 <= 0x40_0000 {
                    assert(rgba@.take(rgba@.len() as int) =~= rgba@);
                }
            }
            Ok(file)
        },
        Err(e) => Err(ClipboardError::Image(e)),
    }
}

/// Pixels without an alpha value, each with a full one added.
pub open spec fn with_alpha(rgb: Seq<u8>) -> Seq<u8> {
    Seq::new(
        rgb.len() / 3 * 4,
        |i: int|
            if i % 4 == 3 {
                255
            } else {
                rgb[i / 4 * 3 + i % 4]
            },
    )
}

fn expand_rgb(rgb: &Vec<u8>) -> (out: Vec<u8>)
    ensures
        out@ == with_alpha(rgb@),
{
    let mut out: Vec<u8> = Vec::new();
    let len: usize = rgb.len();
    let pixels: usize = len / 3;
    let mut i: usize = 0;
    while i < pixels
        invariant
            i <= pixels,
            len == rgb@.len(),
            pixels == len / 3,
            out@ =~= with_alpha(rgb@).take(4 * i),
        decreases pixels - i,
    {
        let ghost before = out@;
        assert(3 * i + 3 <= len);
        out.push(rgb[3 * i]);
        out.push(rgb[3 * i + 1]);
        out.push(rgb[3 * i + 2]);
        out.push(255);
        proof {
            let want = with_alpha(rgb@);
            assert(want[4 * i] == rgb@[3 * i]);
            assert(want[4 * i + 1] == rgb@[3 * i + 1]);
            assert(want[4 * i + 2] == rgb@[3 * i + 2]);
            assert(want[4 * i + 3] == 255);
            assert forall|j: int| 0 <= j < 4 * i + 4 implies out@[j] == want[j] by {
                if j < 4 * i {
                    assert(before[j] == want.take(4 * i)[j]);
                }
            }
        }
        i += 1;
    }
    assert(out@ =~= with_alpha(rgb@));
    out
}

/// An image with four bytes per pixel.
#[derive(Debug, PartialEq)]
pub struct Image {
    pub width: usize,
    pub height: usize,
    pub rgba: Vec<u8>,
}

#[verifier::ext_equal]
pub struct ImageModel {
    pub width: u32,
    pub height: u32,
    pub rgba: Seq<u8>,
}

/// The image that a frame holds. Layouts other than RGB and RGBA are refused.
pub open spec fn frame_image(frame: PngFrameModel) -> std::result::Result<
    ImageModel,
    Option<ClipboardErrorModel>,
> {
    match frame.color {
        PngColor::Rgba => Ok(
            ImageModel { width: frame.width, height: frame.height, rgba: frame.data },
        ),
        PngColor::Rgb => Ok(
            ImageModel { width: frame.width, height: frame.height, rgba: with_alpha(frame.data) },
        ),
        other => Err(
            Some(ClipboardErrorModel::Image("unsupported PNG colour type "@ + other.word())),
        ),
    }
}

/// The image in a PNG file, or the error that refuses it; where the file itself cannot be
/// read the words of the error are open.
pub open spec fn decoded_image(file: Seq<u8>) -> std::result::Result<
    ImageModel,
    Option<ClipboardErrorModel>,
> {
    match png_room(file) {
        None => Err(None),
        Some(room) => match png_frame(file, room as nat) {
            None => Err(None),
            Some(frame) => frame_image(frame),
        },
    }
}

/// Whether the outcome of decoding is the one that `want` describes.
pub open spec fn image_outcome(
    out: Result<Image>,
    want: std::result::Result<ImageModel, Option<ClipboardErrorModel>>,
) -> bool {
    match (out, want) {
        (Ok(image), Ok(model)) => image.width == model.width && image.height == model.height
            && image.rgba@ == model.rgba,
        (Err(e), Err(Some(model))) => e.deep_view() == model,
        (Err(e), Err(None)) => e is Image,
        _ => false,
    }
}

/// Turns a frame into an image with four bytes per pixel.
pub fn image_of_frame(frame: PngFrame) -> (out: Result<Image>)
    requires
        frame.used <= frame.buffer@.len(),
    ensures
        image_outcome(
            out,
            frame_image(
                PngFrameModel {
                    width: frame.width,
                    height: frame.height,
                    color: frame.color,
                    data: frame.buffer@.take(frame.used as int),
                },
            ),
        ),
{
    let mut buffer = frame.buffer;
    let ghost whole = buffer@;
    buffer.truncate(frame.used);
    assert(buffer@ =~= whole.take(frame.used as int));
    let width: usize = frame.width as usize;
    let height: usize = frame.height as usize;
    match frame.color {
        PngColor::Rgba => Ok(Image { width, height, rgba: buffer }),
        PngColor::Rgb => Ok(Image { width, height, rgba: expand_rgb(&buffer) }),
        other => Err(
            ClipboardError::Image(cat2("unsupported PNG colour type ", other.label())),
        ),
    }
}

/// Decodes a PNG back into the RGBA8 buffer the clipboard wants.
pub fn decode_png(bytes: &[u8]) -> (out: Result<Image>)
    ensures
        image_outcome(out, decoded_image(bytes@)),
{
    let room: usize = match png_header(bytes) {
        Ok(room) => room,
        Err(e) => return Err(ClipboardError::Image(e)),
    };
    let buffer: Vec<u8> = vec![0u8; room];
    match png_decode(bytes, buffer) {
        Ok(frame) => image_of_frame(frame),
        Err(e) => Err(ClipboardError::Image(e)),
    }
}

/// Paths one after the other, each ended by a zero byte.
pub open spec fn joined_paths(paths: Seq<Seq<char>>) -> Seq<u8>
    decreases paths.len(),
{
    if paths.len() == 0 {
        Seq::empty()
    } else {
        joined_paths(paths.drop_last()) + encode_utf8(paths.last()) + seq![0u8]
    }
}

/// What is hashed of a payload: a tag for its kind, then its contents.
pub open spec fn tagged(payload: ClipboardModel) -> Seq<u8> {
    match payload {
        ClipboardModel::Text { text } => seq![0u8] + encode_utf8(text),
        ClipboardModel::Image { width, height, png } => seq![1u8] + le_bytes(width as nat, 4)
            + le_bytes(height as nat, 4) + png,
        ClipboardModel::Files { paths } => seq![2u8] + joined_paths(paths),
        ClipboardModel::Clear => seq![3u8],
    }
}

/// The digest by which clipboard content is recognised.
pub open spec fn digest_of(payload: Option<ClipboardModel>) -> Option<Seq<u8>> {
    match payload {
        Some(p) => Some(sha256(tagged(p)).take(16)),
        None => None,
    }
}

/// A digest, by its contents.
pub open spec fn digest_view(digest: Option<[u8; 16]>) -> Option<Seq<u8>> {
    match digest {
        Some(d) => Some(d@),
        None => None,
    }
}

/// Computes the digest by which clipboard content is recognised.
pub fn digest_of_snapshot(payload: &Option<ClipboardPayload>) -> (out: Option<[u8; 16]>)
    ensures
        digest_view(out) == digest_of(payload.deep_view()),
{
    let payload = match payload {
        Some(payload) => payload,
        None => return None,
    };
    let mut bytes: Vec<u8> = Vec::new();
    match payload {
        ClipboardPayload::Text { text } => {
            bytes.push(0);
            bytes.extend_from_slice(text.as_str().as_bytes());
            assert(bytes@ =~= tagged(payload.deep_view()));
        },
        ClipboardPayload::Image { width, height, png } => {
            bytes.push(1);
            push_le(&mut bytes, *width as u64, 4);
            push_le(&mut bytes, *height as u64, 4);
            bytes.extend_from_slice(png.0.as_slice());
            assert(bytes@ =~= tagged(payload.deep_view()));
        },
        ClipboardPayload::Files { paths } => {
            bytes.push(2);
            let mut i: usize = 0;
            assert(bytes@ =~= seq![2u8] + joined_paths(paths.deep_view().take(0)));
            while i < paths.len()
                invariant
                    i <= paths@.len(),
                    bytes@ == seq![2u8] + joined_paths(paths.deep_view().take(i as int)),
                decreases paths@.len() - i,
            {
                let ghost before = bytes@;
                bytes.extend_from_slice(paths[i].as_str().as_bytes());
                bytes.push(0);
                proof {
                    let next = paths.deep_view().take(i as int + 1);
                    assert(next.drop_last() =~= paths.deep_view().take(i as int));
                    assert(bytes@ =~= before + encode_utf8(paths@[i as int]@) + seq![0u8]);
                    assert(bytes@ =~= seq![2u8] + joined_paths(next));
                }
                i += 1;
            }
            assert(paths.deep_view().take(i as int) =~= paths.deep_view());
        },
        ClipboardPayload::Clear => {
            bytes.push(3);
            assert(bytes@ =~= tagged(payload.deep_view()));
        },
    }
    let digest = sha256_of(bytes.as_slice());
    let mut out = [0u8;16];
    let mut k: usize = 0;
    while k < 16
        invariant
            k <= 16,
            digest@.len() == 32,
            forall|j: int| 0 <= j < k ==> out@[j] == digest@[j],
        decreases 16 - k,
    {
        out[k] = digest[k];
        k += 1;
    }
    assert(out@ =~= digest@.take(16));
    Some(out)
}

/// Payloads of different kinds are never hashed from the same bytes, and neither are
/// different texts or different images.
pub proof fn law_payloads_are_hashed_apart(a: ClipboardModel, b: ClipboardModel)
    ensures
        a.word() != b.word() ==> tagged(a) != tagged(b),
        a is Text && b is Text && tagged(a) == tagged(b) ==> a == b,
        a is Image && b is Image && tagged(a) == tagged(b) ==> a == b,
{
    assert(tagged(a).len() > 0 && tagged(b).len() > 0);
    let tag = |p: ClipboardModel|
        match p {
            ClipboardModel::Text { .. } => 0u8,
            ClipboardModel::Image { .. } => 1u8,
            ClipboardModel::Files { .. } => 2u8,
            ClipboardModel::Clear => 3u8,
        };
    assert(tagged(a)[0] == tag(a));
    assert(tagged(b)[0] == tag(b));
    if tagged(a) == tagged(b) {
        match (a, b) {
            (ClipboardModel::Text { text: x }, ClipboardModel::Text { text: y }) => {
                assert(tagged(a).skip(1) =~= encode_utf8(x));
                assert(tagged(b).skip(1) =~= encode_utf8(y));
                vstd::utf8::encode_utf8_decode_utf8(x);
                vstd::utf8::encode_utf8_decode_utf8(y);
            },
            (
                ClipboardModel::Image { width: w1, height: h1, png: p1 },
                ClipboardModel::Image { width: w2, height: h2, png: p2 },
            ) => {
                crate::bytes::lemma_byte_ranges();
                crate::bytes::lemma_le_round_trip(w1 as nat, 4);
                crate::bytes::lemma_le_round_trip(w2 as nat, 4);
                crate::bytes::lemma_le_round_trip(h1 as nat, 4);
                crate::bytes::lemma_le_round_trip(h2 as nat, 4);
                assert(tagged(a).subrange(1, 5) =~= le_bytes(w1 as nat, 4));
                assert(tagged(b).subrange(1, 5) =~= le_bytes(w2 as nat, 4));
                assert(tagged(a).subrange(5, 9) =~= le_bytes(h1 as nat, 4));
                assert(tagged(b).subrange(5, 9) =~= le_bytes(h2 as nat, 4));
                assert(tagged(a).skip(9) =~= p1);
                assert(tagged(b).skip(9) =~= p2);
            },
            _ => {},
        }
    }
}

/// The payload that clipboard text makes: none where it is empty, too long or not wanted.
pub open spec fn text_payload(limits: Limits, text: Option<Seq<char>>) -> Option<ClipboardModel> {
    match text {
        Some(t) => if limits.text && t.len() > 0 && encode_utf8(t).len() <= limits.max_bytes {
            Some(ClipboardModel::Text { text: t })
        } else {
            None
        },
        None => None,
    }
}

/// Takes clipboard text into a payload.
pub fn snapshot_text(limits: Limits, text: Option<String>) -> (out: Option<ClipboardPayload>)
    ensures
        out.deep_view() == text_payload(limits, text.deep_view()),
{
    match text {
        Some(found) => {
            let bytes: usize = found.as_str().as_bytes().len();
            assert(bytes == encode_utf8(found@).len());
            if limits.text && found.as_str().unicode_len() > 0 && bytes <= limits.max_bytes {
                Some(ClipboardPayload::Text { text: found })
            } else {
                None
            }
        },
        None => None,
    }
}

/// The payload that an image with four bytes per pixel makes: none where its file is too
/// long, it has no file, or images are not wanted.
pub open spec fn image_payload(
    limits: Limits,
    width: u32,
    height: u32,
    rgba: Seq<u8>,
) -> Option<ClipboardModel> {
    let png = png_file(width, height, rgba);
    if limits.images && image_fits(width, height, rgba) && png.len() <= limits.max_bytes {
        Some(ClipboardModel::Image { width, height, png })
    } else {
        None
    }
}

/// Takes a clipboard image into a payload.
pub fn snapshot_image(limits: Limits, image: &Image) -> (out: Option<ClipboardPayload>)
    requires
        4 * (image.width as u32) * (image.height as u32) <= isize::MAX,
    ensures
        out.deep_view() == image_payload(
            limits,
            image.width as u32,
            image.height as u32,
            image.rgba@,
        ),
{
    if !limits.images {
        return None;
    }
    match encode_png(image.width, image.height, image.rgba.as_slice()) {
        Ok(png) => {
            if png.len() <= limits.max_bytes {
                Some(
                    ClipboardPayload::Image {
                        width: image.width as u32,
                        height: image.height as u32,
                        png: Blob(png),
                    },
                )
            } else {
                None
            }
        },
        Err(_) => None,
    }
}

/// An optional image, by what is encoded of it.
pub open spec fn image_view(image: Option<&Image>) -> Option<ImageModel> {
    match image {
        Some(found) => Some(
            ImageModel {
                width: found.width as u32,
                height: found.height as u32,
                rgba: found.rgba@,
            },
        ),
        None => None,
    }
}

/// Whether there is text that is wanted.
pub open spec fn text_decides(limits: Limits, text: Option<Seq<char>>) -> bool {
    limits.text && (text matches Some(t) && t.len() > 0)
}

/// The payload that the contents of the clipboard make. Text that is wanted decides alone,
/// even where it is too long; images are only considered when there is none.
pub open spec fn clipboard_payload(
    limits: Limits,
    text: Option<Seq<char>>,
    image: Option<ImageModel>,
) -> Option<ClipboardModel> {
    if text_decides(limits, text) {
        text_payload(limits, text)
    } else {
        match image {
            Some(found) => image_payload(limits, found.width, found.height, found.rgba),
            None => None,
        }
    }
}

/// Whether an image counts beside the text that was found.
pub fn wants_image(limits: Limits, text: &Option<String>) -> (out: bool)
    ensures
        out == (limits.images && !text_decides(limits, text.deep_view())),
{
    let text_found = match text {
        Some(found) => limits.text && found.as_str().unicode_len() > 0,
        None => false,
    };
    limits.images && !text_found
}

/// Takes what is in the clipboard into a payload. Text is preferred because it is both
/// cheaper to compare and the common case. Images are only considered when no text is
/// present.
pub fn snapshot(limits: Limits, text: Option<String>, image: Option<&Image>) -> (out: Option<
    ClipboardPayload,
>)
    requires
        image matches Some(found) ==> 4 * (found.width as u32) * (found.height as u32)
            <= isize::MAX,
    ensures
        out.deep_view() == clipboard_payload(limits, text.deep_view(), image_view(image)),
{
    if wants_image(limits, &text) {
        match image {
            Some(found) => snapshot_image(limits, found),
            None => None,
        }
    } else {
        snapshot_text(limits, text)
    }
}

/// Text that is wanted hides every image, and text that is not there or not wanted hides
/// none.
pub proof fn law_images_count_only_without_text(
    limits: Limits,
    text: Option<Seq<char>>,
    image: Option<ImageModel>,
)
    ensures
        text_decides(limits, text) ==> clipboard_payload(limits, text, image) == clipboard_payload(
            limits,
            text,
            None,
        ),
        !text_decides(limits, text) ==> clipboard_payload(limits, text, image)
            == clipboard_payload(limits, None, image),
{
}

/// How to write a payload into the clipboard.
#[derive(Debug, PartialEq)]
pub enum ClipboardWrite {
    SetText(String),
    SetImage(Image),
    Clear,
    /// File lists need platform specific formats; drag and drop covers the same use.
    Nothing,
}

/// Decides how a payload is written into the clipboard.
pub fn write_plan(payload: &ClipboardPayload) -> (out: Result<ClipboardWrite>)
    ensures
        match payload.deep_view() {
            ClipboardModel::Text { text } => out matches Ok(ClipboardWrite::SetText(t)) && t@
                == text,
            ClipboardModel::Image { png, .. } => match out {
                Ok(ClipboardWrite::SetImage(image)) => image_outcome(
                    Ok(image),
                    decoded_image(png),
                ),
                Ok(_) => false,
                Err(e) => image_outcome(Err(e), decoded_image(png)),
            },
            ClipboardModel::Files { .. } => out == Ok::<ClipboardWrite, ClipboardError>(
                ClipboardWrite::Nothing,
            ),
            ClipboardModel::Clear => out == Ok::<ClipboardWrite, ClipboardError>(
                ClipboardWrite::Clear,
            ),
        },
{
    match payload {
        ClipboardPayload::Text { text } => Ok(ClipboardWrite::SetText(text.clone())),
        ClipboardPayload::Image { png, .. } => match decode_png(png.0.as_slice()) {
            Ok(image) => Ok(ClipboardWrite::SetImage(image)),
            Err(e) => Err(e),
        },
        ClipboardPayload::Files { .. } => Ok(ClipboardWrite::Nothing),
        ClipboardPayload::Clear => Ok(ClipboardWrite::Clear),
    }
}

/// What the worker remembers between two polls.
#[derive(Debug, PartialEq)]
pub struct ClipboardWatch {
    pub last: Option<[u8; 16]>,
    pub limits: Limits,
    pub interval_ms: u64,
    /// Milliseconds on the monotonic clock.
    pub next_poll_ms: u64,
}

fn same_digest(a: &Option<[u8; 16]>, b: &Option<[u8; 16]>) -> (out: bool)
    ensures
        out == (digest_view(*a) == digest_view(*b)),
{
    match (a, b) {
        (Some(x), Some(y)) => {
            let mut k: usize = 0;
            while k < 16
                invariant
                    k <= 16,
                    digest_view(*a) == Some(x@),
                    digest_view(*b) == Some(y@),
                    forall|j: int| 0 <= j < k ==> x@[j] == y@[j],
                decreases 16 - k,
            {
                if x[k] != y[k] {
                    assert(x@[k as int] != y@[k as int]);
                    return false;
                }
                k += 1;
            }
            assert(x@ =~= y@);
            true
        },
        (None, None) => true,
        _ => false,
    }
}

/// The moment of the next poll.
pub open spec fn poll_after(now_ms: u64, interval_ms: u64) -> u64 {
    if now_ms + interval_ms <= u64::MAX {
        (now_ms + interval_ms) as u64
    } else {
        u64::MAX
    }
}

/// What a poll reports that finds `current` after content with the digest `last`.
pub open spec fn report(last: Option<Seq<u8>>, current: Option<ClipboardModel>) -> Option<
    ClipboardEventModel,
> {
    if digest_of(current) == last {
        None
    } else {
        match current {
            Some(payload) => Some(ClipboardEventModel::Changed(payload)),
            None => None,
        }
    }
}

impl ClipboardWatch {
    /// Starts watching. Nothing is reported until the content actually differs
    /// from what was already on the clipboard at startup.
    pub fn start(
        limits: Limits,
        interval_ms: u64,
        current: &Option<ClipboardPayload>,
        now_ms: u64,
    ) -> (out: Self)
        ensures
            digest_view(out.last) == digest_of(current.deep_view()),
            out.limits == limits,
            out.interval_ms == interval_ms,
            out.next_poll_ms == poll_after(now_ms, interval_ms),
    {
        ClipboardWatch {
            last: digest_of_snapshot(current),
            limits,
            interval_ms,
            next_poll_ms: now_ms.saturating_add(interval_ms),
        }
    }

    /// Remote content was written into the clipboard: remembered so that the next poll
    /// does not relay it back.
    pub fn on_applied(&mut self, payload: ClipboardPayload)
        ensures
            digest_view(final(self).last) == digest_of(Some(payload.deep_view())),
            final(self).limits == old(self).limits,
            final(self).interval_ms == old(self).interval_ms,
            final(self).next_poll_ms == old(self).next_poll_ms,
    {
        let whole = Some(payload);
        self.last = digest_of_snapshot(&whole);
    }

    /// The limits changed; `current` is what the clipboard holds under the new ones.
    pub fn on_limits(&mut self, limits: Limits, current: &Option<ClipboardPayload>)
        ensures
            digest_view(final(self).last) == digest_of(current.deep_view()),
            final(self).limits == limits,
            final(self).interval_ms == old(self).interval_ms,
            final(self).next_poll_ms == old(self).next_poll_ms,
    {
        self.limits = limits;
        self.last = digest_of_snapshot(current);
    }

    /// Whether it is time to look at the clipboard again; plans the look after that.
    pub fn poll_due(&mut self, now_ms: u64) -> (out: bool)
        ensures
            out == (now_ms >= old(self).next_poll_ms),
            final(self).next_poll_ms == if out {
                poll_after(now_ms, old(self).interval_ms)
            } else {
                old(self).next_poll_ms
            },
            final(self).last == old(self).last,
            final(self).limits == old(self).limits,
            final(self).interval_ms == old(self).interval_ms,
    {
        if now_ms < self.next_poll_ms {
            return false;
        }
        self.next_poll_ms = now_ms.saturating_add(self.interval_ms);
        true
    }

    /// Takes what the clipboard holds now and reports it where it is new.
    pub fn on_poll(&mut self, current: Option<ClipboardPayload>) -> (out: Option<ClipboardEvent>)
        ensures
            digest_view(final(self).last) == digest_of(current.deep_view()),
            out.deep_view() == report(digest_view(old(self).last), current.deep_view()),
            final(self).limits == old(self).limits,
            final(self).interval_ms == old(self).interval_ms,
            final(self).next_poll_ms == old(self).next_poll_ms,
    {
        let digest = digest_of_snapshot(&current);
        if same_digest(&digest, &self.last) {
            return None;
        }
        self.last = digest;
        match current {
            Some(payload) => Some(ClipboardEvent::Changed(payload)),
            None => None,
        }
    }
}

/// A payload that was just applied is not reported by a poll that finds it still there,
/// and neither is what was there at the start.
pub proof fn law_applied_payload_is_not_echoed(payload: ClipboardModel)
    ensures
        report(digest_of(Some(payload)), Some(payload)) is None,
{
}

/// A poll that finds what the poll before it found reports nothing.
pub proof fn law_unchanged_content_is_reported_once(current: Option<ClipboardModel>)
    ensures
        report(digest_of(current), current) is None,
{
}

} // verus!
