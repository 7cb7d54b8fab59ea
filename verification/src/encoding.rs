//! Base64, hexadecimal and SHA-256.

use vstd::prelude::*;

use base64::Engine;
use sha2::Digest;

verus! {

/// Why a text is not base64.
#[derive(Clone, Copy, Debug, PartialEq, Eq, Structural)]
pub enum Base64Fault {
    /// A byte outside the alphabet, and where it stands.
    InvalidByte { offset: usize, byte: u8 },
    /// The number of symbols cannot be a whole encoding.
    InvalidLength { length: usize },
    /// The last symbol carries bits that no byte uses.
    InvalidLastSymbol { offset: usize, byte: u8 },
    /// Padding is missing or stands in the wrong place.
    InvalidPadding,
}

/// The standard, padded base64 encoding of `bytes`.
pub uninterp spec fn base64_text(bytes: Seq<u8>) -> Seq<char>;

/// What standard, padded base64 decoding makes of the text with the bytes `text`.
pub uninterp spec fn base64_bytes(text: Seq<u8>) -> Result<Seq<u8>, Base64Fault>;

/// The result of a fallible computation on bytes, by its contents.
pub open spec fn bytes_result<E>(r: Result<Vec<u8>, E>) -> Result<Seq<u8>, E> {
    match r {
        Ok(bytes) => Ok(bytes@),
        Err(e) => Err(e),
    }
}

/// A decoding that gave `bytes`.
pub open spec fn decoded(bytes: Seq<u8>) -> Result<Seq<u8>, Base64Fault> {
    Ok(bytes)
}

/// `base64::Engine::encode` with the engine `STANDARD`.
///
/// Claims that the text depends on the bytes alone, and that decoding the bytes of
/// that text with the same engine gives the same bytes back. Inputs whose
/// encoding would be longer than an allocation can be are left out: the call panics
/// there.
#[verifier::external_body]
pub(crate) fn base64_encode(bytes: &[u8]) -> (out: String)
    requires
        (bytes@.len() + 2) / 3 * 4 <= isize::MAX,
    ensures
        out@ == base64_text(bytes@),
        base64_bytes(vstd::utf8::encode_utf8(out@)) == decoded(bytes@),
{
    base64::engine::general_purpose::STANDARD.encode(bytes)
}

/// `base64::Engine::decode` with the engine `STANDARD`.
///
/// Claims that the outcome depends on the bytes of the text alone. The cases of the
/// error are handed on one by one.
#[verifier::external_body]
pub(crate) fn base64_decode(text: &[u8]) -> (out: Result<Vec<u8>, Base64Fault>)
    ensures
        bytes_result(out) == base64_bytes(text@),
{
    base64::engine::general_purpose::STANDARD.decode(text).map_err(|e| match e {
        base64::DecodeError::InvalidByte(offset, byte) => Base64Fault::InvalidByte { offset, byte },
        base64::DecodeError::InvalidLength(length) => Base64Fault::InvalidLength { length },
        base64::DecodeError::InvalidLastSymbol(offset, byte) => {
            Base64Fault::InvalidLastSymbol { offset, byte }
        },
        base64::DecodeError::InvalidPadding => Base64Fault::InvalidPadding,
    })
}

/// The SHA-256 digest of `bytes`.
pub uninterp spec fn sha256(bytes: Seq<u8>) -> Seq<u8>;

/// `sha2::Sha256::digest`.
///
/// Claims that the digest depends on the bytes alone and is 32 bytes long.
#[verifier::external_body]
pub(crate) fn sha256_of(bytes: &[u8]) -> (out: Vec<u8>)
    ensures
        out@ == sha256(bytes@),
        out@.len() == 32,
{
    sha2::Sha256::digest(bytes).to_vec()
}

/// A lower case hexadecimal digit.
pub open spec fn hex_digit(d: int) -> char {
    if d < 10 {
        (48 + d) as char
    } else {
        (87 + d) as char
    }
}

/// Two lower case hexadecimal digits for each byte, the high half first.
pub open spec fn hex_text(bytes: Seq<u8>) -> Seq<char> {
    Seq::new(
        2 * bytes.len(),
        |i: int|
            hex_digit(
                if i % 2 == 0 {
                    bytes[i / 2] as int / 16
                } else {
                    bytes[i / 2] as int % 16
                },
            ),
    )
}

/// `hex::encode`.
///
/// Claims that each byte becomes its two lower case hexadecimal digits, in order.
/// Inputs whose encoding would be longer than an allocation can be are left out.
#[verifier::external_body]
pub(crate) fn hex_encode(bytes: &[u8]) -> (out: String)
    requires
        2 * bytes@.len() <= isize::MAX,
    ensures
        out@ == hex_text(bytes@),
{
    hex::encode(bytes)
}

} // verus!
