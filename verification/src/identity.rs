//! Who a machine is: its id, its key pair and the fingerprint people compare.

use std::time::SystemTime;

use vstd::prelude::*;
use vstd::string::*;
use vstd::utf8::encode_utf8;

use crate::bytes::comes_back;
use crate::clock::{now_unix, unix_time};
use crate::encoding::{
    base64_bytes, base64_decode, base64_encode, base64_text, decoded, hex_digit, hex_encode,
    hex_text, sha256, sha256_of, Base64Fault,
};
use crate::error::{Error, ErrorModel, Result};
use crate::noise::{generate_keypair, public_half, KeyPair};
use crate::protocol::noise_params;
use crate::text::{
    cat2, chars_of, cut_before, decimal, format_decimal, text_between, to_upper, up_to, upper,
    upper_text,
};

verus! {

/// Stable identifier for a machine, independent of its network address.
#[derive(Debug, PartialEq)]
pub struct DeviceId(pub String);

impl DeepView for DeviceId {
    type V = Seq<char>;

    open spec fn deep_view(&self) -> Seq<char> {
        self.0@
    }
}

impl View for DeviceId {
    type V = Seq<char>;

    open spec fn view(&self) -> Seq<char> {
        self.0@
    }
}

impl Clone for DeviceId {
    fn clone(&self) -> (out: Self)
        ensures
            out == *self,
    {
        DeviceId(self.0.clone())
    }
}

/// The shape of a random (version 4) UUID: groups of 8, 4, 4, 4 and 12 lower case
/// hexadecimal digits, the third starting with the version.
pub open spec fn uuid_shape(s: Seq<char>) -> bool {
    &&& s.len() == 36
    &&& forall|i: int|
        0 <= i < 36 ==> if i == 8 || i == 13 || i == 18 || i == 23 {
            #[trigger] s[i] == '-'
        } else {
            '0' <= s[i] <= '9' || 'a' <= s[i] <= 'f'
        }
    &&& s[14] == '4'
}

/// `uuid::Uuid::new_v4`, written by its `Display`.
///
/// Claims the shape of the text: hyphenated lower case groups and the version digit.
/// The digits themselves come by chance.
#[verifier::external_body]
fn random_uuid() -> (out: String)
    ensures
        uuid_shape(out@),
{
    uuid::Uuid::new_v4().to_string()
}

impl DeviceId {
    pub fn new() -> (out: Self)
        ensures
            uuid_shape(out@),
    {
        DeviceId(random_uuid())
    }

    /// The id with the given text.
    pub fn from_text(text: &str) -> (out: Self)
        ensures
            out@ == text@,
    {
        DeviceId(text.to_owned())
    }

    pub fn as_str(&self) -> (out: &str)
        ensures
            out@ == self@,
    {
        self.0.as_str()
    }

    /// Short form used in logs and in the UI.
    pub fn short(&self) -> (out: &str)
        ensures
            out@ == up_to(self@, '-'),
    {
        cut_before(self.0.as_str(), '-')
    }

    /// Whether two ids are the same.
    pub fn same(&self, other: &DeviceId) -> (out: bool)
        ensures
            out == (self@ == other@),
    {
        self.0 == other.0
    }
}

/// Long lived Noise static key material for this machine.
///
/// The private key never leaves the device and is stored with owner-only
/// permissions. Peers are pinned to the matching public key, which is what makes
/// reconnect automatic after the first pairing.
#[derive(Debug, PartialEq)]
pub struct DeviceIdentity {
    pub version: u32,
    pub device_id: DeviceId,
    pub created_at: u64,
    pub private_key: String,
    pub public_key: String,
}

#[verifier::ext_equal]
pub struct DeviceIdentityModel {
    pub version: u32,
    pub device_id: Seq<char>,
    pub created_at: u64,
    pub private_key: Seq<char>,
    pub public_key: Seq<char>,
}

impl DeepView for DeviceIdentity {
    type V = DeviceIdentityModel;

    open spec fn deep_view(&self) -> DeviceIdentityModel {
        DeviceIdentityModel {
            version: self.version,
            device_id: self.device_id@,
            created_at: self.created_at,
            private_key: self.private_key@,
            public_key: self.public_key@,
        }
    }
}

impl Clone for DeviceIdentity {
    fn clone(&self) -> (out: Self)
        ensures
            out == *self,
    {
        DeviceIdentity {
            version: self.version,
            device_id: self.device_id.clone(),
            created_at: self.created_at,
            private_key: self.private_key.clone(),
            public_key: self.public_key.clone(),
        }
    }
}

/// What base64 decoding makes of a text.
pub open spec fn decoded_text(text: Seq<char>) -> std::result::Result<Seq<u8>, Base64Fault> {
    base64_bytes(encode_utf8(text))
}

/// The bytes of a stored private key, or what is wrong with it.
pub open spec fn private_key_bytes(text: Seq<char>) -> std::result::Result<Seq<u8>, ErrorModel> {
    match decoded_text(text) {
        Err(fault) => Err(ErrorModel::Base64(fault)),
        Ok(raw) => if raw.len() != 32 {
            Err(ErrorModel::Key("expected a 32 byte private key, found "@ + decimal(raw.len())))
        } else {
            Ok(raw)
        },
    }
}

/// The outcome of reading key bytes, by its contents.
pub open spec fn key_result(r: Result<Vec<u8>>) -> std::result::Result<Seq<u8>, ErrorModel> {
    match r {
        Ok(bytes) => Ok(bytes@),
        Err(e) => Err(e.deep_view()),
    }
}

/// Whether both keys of an identity can be read, and the public one belongs to the private
/// one.
pub open spec fn holds_a_pair(identity: DeviceIdentityModel) -> bool {
    match (private_key_bytes(identity.private_key), decoded_text(identity.public_key)) {
        (Ok(private), Ok(public)) => private.len() == 32 && public.len() == 32 && public
            == public_half(private),
        _ => false,
    }
}

/// Whether this is the identity to use where `stored` was found on disk: the stored one as
/// it is, or a fresh one with a key pair of its own, created at the time that the clock
/// showed.
pub open spec fn loads(
    stored: Option<DeviceIdentityModel>,
    identity: DeviceIdentityModel,
    fresh: bool,
) -> bool {
    match stored {
        Some(found) => identity == found && !fresh,
        None => {
            &&& fresh
            &&& uuid_shape(identity.device_id)
            &&& identity.version == 1
            &&& holds_a_pair(identity)
            &&& exists|time: SystemTime| identity.created_at == #[trigger] unix_time(time)
        },
    }
}

/// The file with the identity after it was loaded: a fresh identity is written, and a file
/// that was found is left alone.
pub open spec fn file_after_loading(
    file: Option<Seq<u8>>,
    write: spec_fn(DeviceIdentityModel) -> Seq<u8>,
    identity: DeviceIdentityModel,
    fresh: bool,
) -> Option<Seq<u8>> {
    if fresh {
        Some(write(identity))
    } else {
        file
    }
}

/// What is read from a file, where there is one.
pub open spec fn read_file(
    file: Option<Seq<u8>>,
    read: spec_fn(Seq<u8>) -> Option<DeviceIdentityModel>,
) -> Option<DeviceIdentityModel> {
    match file {
        Some(contents) => read(contents),
        None => None,
    }
}

/// A machine keeps its identity: loading it a second time gives the one of the first time
/// and leaves the file alone, in whatever form identities are written, as long as what was
/// written reads back. A file that cannot be read is another matter: nothing is loaded
/// from it.
pub proof fn law_an_identity_is_created_once(
    file: Option<Seq<u8>>,
    write: spec_fn(DeviceIdentityModel) -> Seq<u8>,
    read: spec_fn(Seq<u8>) -> Option<DeviceIdentityModel>,
    first: DeviceIdentityModel,
    first_fresh: bool,
    second: DeviceIdentityModel,
    second_fresh: bool,
)
    requires
        file matches Some(contents) ==> read(contents) is Some,
        comes_back(write, read, first),
        loads(read_file(file, read), first, first_fresh),
        loads(
            read_file(file_after_loading(file, write, first, first_fresh), read),
            second,
            second_fresh,
        ),
    ensures
        second == first,
        !second_fresh,
        first_fresh <==> file is None,
        file_after_loading(
            file_after_loading(file, write, first, first_fresh),
            write,
            second,
            second_fresh,
        ) == file_after_loading(file, write, first, first_fresh),
{
}

/// An identity read from disk, or a fresh one that has to be written there.
#[derive(Debug, PartialEq)]
pub struct LoadedIdentity {
    pub identity: DeviceIdentity,
    pub fresh: bool,
}

impl DeviceIdentity {
    pub const FILE_VERSION: u32 = 1;

    /// Creates a fresh key pair at the time that the clock shows. Both keys can be read back,
    /// and they belong together.
    pub fn generate(device_id: DeviceId) -> (out: Result<Self>)
        ensures
            out matches Ok(id) && id.version == 1 && id.device_id == device_id && holds_a_pair(
                id.deep_view(),
            )
                && exists|time: SystemTime| id.created_at == #[trigger] unix_time(time),
    {
        let params = match noise_params() {
            Ok(params) => params,
            Err(e) => return Err(e),
        };
        match generate_keypair(params) {
            Ok(pair) => Ok(DeviceIdentity::from_keypair(device_id, now_unix(), &pair)),
            Err(e) => Err(Error::Key(e)),
        }
    }

    /// The identity that holds a given key pair.
    pub fn from_keypair(device_id: DeviceId, created_at: u64, pair: &KeyPair) -> (out: Self)
        requires
            pair.private@.len() == 32,
            pair.public@.len() == 32,
        ensures
            out.deep_view() == (DeviceIdentityModel {
                version: 1,
                device_id: device_id@,
                created_at,
                private_key: base64_text(pair.private@),
                public_key: base64_text(pair.public@),
            }),
            out.device_id == device_id,
            private_key_bytes(out.private_key@) == Ok::<Seq<u8>, ErrorModel>(pair.private@),
            decoded_text(out.public_key@) == decoded(pair.public@),
    {
        DeviceIdentity {
            version: Self::FILE_VERSION,
            device_id,
            created_at,
            private_key: base64_encode(pair.private.as_slice()),
            public_key: base64_encode(pair.public.as_slice()),
        }
    }

    pub fn private_key(&self) -> (out: Result<Vec<u8>>)
        ensures
            key_result(out) == private_key_bytes(self.private_key@),
    {
        match base64_decode(self.private_key.as_str().as_bytes()) {
            Err(fault) => Err(Error::Base64(fault)),
            Ok(raw) => {
                if raw.len() != 32 {
                    Err(
                        Error::Key(
                            cat2(
                                "expected a 32 byte private key, found ",
                                format_decimal(raw.len() as u64).as_str(),
                            ),
                        ),
                    )
                } else {
                    Ok(raw)
                }
            },
        }
    }

    pub fn public_key_raw(&self) -> (out: Result<Vec<u8>>)
        ensures
            key_result(out) == match decoded_text(self.public_key@) {
                Ok(raw) => Ok::<Seq<u8>, ErrorModel>(raw),
                Err(fault) => Err(ErrorModel::Base64(fault)),
            },
    {
        match base64_decode(self.public_key.as_str().as_bytes()) {
            Ok(raw) => Ok(raw),
            Err(fault) => Err(Error::Base64(fault)),
        }
    }

    pub fn public_key_base64(&self) -> (out: &str)
        ensures
            out@ == self.public_key@,
    {
        self.public_key.as_str()
    }

    pub fn fingerprint(&self) -> (out: String)
        ensures
            out@ == fingerprint_text(
                match decoded_text(self.public_key@) {
                    Ok(raw) => raw,
                    Err(_) => Seq::empty(),
                },
            ),
            fingerprint_shape(out@),
    {
        match self.public_key_raw() {
            Ok(raw) => fingerprint_of(raw.as_slice()),
            Err(_) => {
                let none: Vec<u8> = Vec::new();
                fingerprint_of(none.as_slice())
            },
        }
    }

    /// Takes the identity found on disk, or creates a fresh one on first run.
    pub fn load_or_create(stored: Option<DeviceIdentity>) -> (out: Result<LoadedIdentity>)
        ensures
            out matches Ok(loaded) && loads(
                stored.deep_view(),
                loaded.identity.deep_view(),
                loaded.fresh,
            ),
            stored matches Some(identity) ==> out == Ok::<LoadedIdentity, Error>(
                LoadedIdentity { identity, fresh: false },
            ),
    {
        match stored {
            Some(identity) => Ok(LoadedIdentity { identity, fresh: false }),
            None => match DeviceIdentity::generate(DeviceId::new()) {
                Ok(identity) => Ok(LoadedIdentity { identity, fresh: true }),
                Err(e) => Err(e),
            },
        }
    }
}

/// The first eight bytes of a digest in upper case hexadecimal, in groups of four
/// digits.
pub open spec fn grouped_digits(digest: Seq<u8>) -> Seq<char> {
    let digits = upper_text(hex_text(digest.take(8)));
    digits.subrange(0, 4) + "-"@ + digits.subrange(4, 8) + "-"@ + digits.subrange(8, 12) + "-"@
        + digits.subrange(12, 16)
}

/// The fingerprint of a public key.
pub open spec fn fingerprint_text(public_key: Seq<u8>) -> Seq<char> {
    grouped_digits(sha256(public_key))
}

/// Four groups of four upper case hexadecimal digits with hyphens between them.
pub open spec fn fingerprint_shape(s: Seq<char>) -> bool {
    &&& s.len() == 19
    &&& forall|i: int|
        0 <= i < 19 ==> if i == 4 || i == 9 || i == 14 {
            #[trigger] s[i] == '-'
        } else {
            '0' <= s[i] <= '9' || 'A' <= s[i] <= 'F'
        }
}

/// Short human readable digest of a public key, shown during pairing.
pub fn fingerprint_of(public_key: &[u8]) -> (out: String)
    ensures
        out@ == fingerprint_text(public_key@),
        fingerprint_shape(out@),
{
    let digest = sha256_of(public_key);
    let head = vstd::slice::slice_subrange(digest.as_slice(), 0, 8);
    let upper_hex = to_upper(hex_encode(head).as_str());
    let digits = chars_of(upper_hex.as_str());
    assert(digest@.take(8) =~= digest@.subrange(0, 8));
    let mut out = text_between(&digits, 0, 4);
    out.append("-");
    out.append(text_between(&digits, 4, 8).as_str());
    out.append("-");
    out.append(text_between(&digits, 8, 12).as_str());
    out.append("-");
    out.append(text_between(&digits, 12, 16).as_str());
    proof {
        law_fingerprint_shape(digest@);
    }
    out
}

/// Whatever the digest, its grouped digits have the shape of a fingerprint.
pub proof fn law_fingerprint_shape(digest: Seq<u8>)
    requires
        digest.len() >= 8,
    ensures
        fingerprint_shape(grouped_digits(digest)),
{
    reveal_strlit("-");
    let bytes = digest.take(8);
    let digits = upper_text(hex_text(bytes));
    assert forall|i: int| 0 <= i < 16 implies '0' <= #[trigger] digits[i] <= '9' || 'A' <= digits[i]
        <= 'F' by {
        let d = if i % 2 == 0 {
            bytes[i / 2] as int / 16
        } else {
            bytes[i / 2] as int % 16
        };
        assert(0 <= d < 16);
        assert(hex_text(bytes)[i] == hex_digit(d));
        assert(digits[i] == upper(hex_digit(d)));
    }
    let f = grouped_digits(digest);
    assert forall|i: int| 0 <= i < 19 implies if i == 4 || i == 9 || i == 14 {
        #[trigger] f[i] == '-'
    } else {
        '0' <= f[i] <= '9' || 'A' <= f[i] <= 'F'
    } by {
        if i < 4 {
            assert(f[i] == digits[i]);
        } else if 4 < i && i < 9 {
            assert(f[i] == digits[i - 1]);
        } else if 9 < i && i < 14 {
            assert(f[i] == digits[i - 2]);
        } else if 14 < i {
            assert(f[i] == digits[i - 3]);
        }
    }
}

} // verus!
