//! Key pairs, the handshake and the sealed channel, by the Noise protocol.

use vstd::prelude::*;
use vstd::string::*;

verus! {

/// Noise pattern used for every peer session.
///
/// `XX` is used because it authenticates both sides with static keys while still
/// allowing a first-time connection with an unknown peer, which is exactly the
/// situation a pairing flow needs.
pub const NOISE_PATTERN: &'static str = "Noise_XX_25519_ChaChaPoly_BLAKE2s";

#[verifier::external_type_specification]
#[verifier::external_body]
pub struct ExNoiseParams(snow::params::NoiseParams);

/// A static key pair.
#[derive(Debug)]
pub struct KeyPair {
    pub private: Vec<u8>,
    pub public: Vec<u8>,
}

/// What `<snow::params::NoiseParams as FromStr>::from_str` makes of a pattern; `None` where
/// it knows no such pattern.
pub uninterp spec fn params_of(pattern: Seq<char>) -> Option<snow::params::NoiseParams>;

/// Whether these are the parameters of the pattern that every session uses.
pub open spec fn is_ours(params: snow::params::NoiseParams) -> bool {
    params_of("Noise_XX_25519_ChaChaPoly_BLAKE2s"@) == Some(params)
}

/// `<snow::params::NoiseParams as FromStr>::from_str`.
///
/// Claims that the outcome depends on the pattern alone, and that the pattern of this
/// library is one that the crate knows. An error is handed on in the crate's own words, of
/// which nothing is claimed.
#[verifier::external_body]
pub(crate) fn parse_params(pattern: &str) -> (out: Result<snow::params::NoiseParams, String>)
    ensures
        params_of(pattern@) == match out {
            Ok(params) => Some(params),
            Err(_) => None,
        },
        pattern@ == "Noise_XX_25519_ChaChaPoly_BLAKE2s"@ ==> out is Ok,
{
    pattern.parse().map_err(|e: snow::Error| e.to_string())
}

/// The public key that belongs to a private one, on the curve of the default resolver.
pub uninterp spec fn public_half(private: Seq<u8>) -> Seq<u8>;

/// `snow::Builder::generate_keypair`.
///
/// Claims that both keys are 32 bytes long, the length of the only curve that the crate's
/// default resolver offers, that the public key is the one that belongs to the private
/// key, and that the call succeeds for the pattern of this library. The private key comes
/// by chance.
#[verifier::external_body]
pub(crate) fn generate_keypair(params: snow::params::NoiseParams) -> (out: Result<
    KeyPair,
    String,
>)
    ensures
        out matches Ok(pair) ==> pair.private@.len() == 32 && pair.public@.len() == 32
            && pair.public@ == public_half(pair.private@),
        is_ours(params) ==> out is Ok,
{
    snow::Builder::new(params).generate_keypair().map(
        |pair| KeyPair { private: pair.private, public: pair.public },
    ).map_err(|e| e.to_string())
}

#[verifier::external_type_specification]
#[verifier::external_body]
pub struct ExHandshakeState(snow::HandshakeState);

#[verifier::external_type_specification]
#[verifier::external_body]
pub struct ExTransportState(snow::StatelessTransportState);

/// What `snow::Builder::build_initiator` gives for a pattern and a static private key;
/// `None` where it refuses.
pub uninterp spec fn initiator_state(
    params: snow::params::NoiseParams,
    private: Seq<u8>,
) -> Option<snow::HandshakeState>;

/// `snow::Builder::build_initiator` with a static key of the curve's length.
///
/// Claims that the state depends on the pattern and the key alone: chance is drawn on only
/// as messages are written. Claims that the call succeeds for the pattern of this library.
#[verifier::external_body]
pub(crate) fn start_initiator(
    params: snow::params::NoiseParams,
    private: &[u8],
) -> (out: Result<snow::HandshakeState, String>)
    requires
        private@.len() == 32,
    ensures
        initiator_state(params, private@) == match out {
            Ok(state) => Some(state),
            Err(_) => None,
        },
        is_ours(params) ==> out is Ok,
{
    snow::Builder::new(params).local_private_key(private).build_initiator().map_err(
        |e| e.to_string(),
    )
}

/// What `snow::Builder::build_responder` gives for a pattern and a static private key;
/// `None` where it refuses.
pub uninterp spec fn responder_state(
    params: snow::params::NoiseParams,
    private: Seq<u8>,
) -> Option<snow::HandshakeState>;

/// `snow::Builder::build_responder` with a static key of the curve's length.
///
/// Claims that the state depends on the pattern and the key alone: chance is drawn on only
/// as messages are written. Claims that the call succeeds for the pattern of this library.
#[verifier::external_body]
pub(crate) fn start_responder(
    params: snow::params::NoiseParams,
    private: &[u8],
) -> (out: Result<snow::HandshakeState, String>)
    requires
        private@.len() == 32,
    ensures
        responder_state(params, private@) == match out {
            Ok(state) => Some(state),
            Err(_) => None,
        },
        is_ours(params) ==> out is Ok,
{
    snow::Builder::new(params).local_private_key(private).build_responder().map_err(
        |e| e.to_string(),
    )
}

/// Whether `snow::HandshakeState::write_message`, called on `before` with `payload`, can
/// give `message` and leave `after`. Chance decides which of the possible messages it is.
pub uninterp spec fn handshake_wrote(
    before: snow::HandshakeState,
    payload: Seq<u8>,
    message: Seq<u8>,
    after: snow::HandshakeState,
) -> bool;

/// What `snow::HandshakeState::read_message`, called on `before` with `message` and room
/// for the largest payload, gives: the payload and the state after it; `None` where it
/// refuses the message.
pub uninterp spec fn handshake_read(before: snow::HandshakeState, message: Seq<u8>) -> Option<
    (Seq<u8>, snow::HandshakeState),
>;

/// Whether a message takes one machine from `writer` to `written` and the machine that it
/// is sent to from `reader` to `taken`, and its payload comes through.
pub open spec fn passes(
    writer: snow::HandshakeState,
    written: snow::HandshakeState,
    reader: snow::HandshakeState,
    taken: snow::HandshakeState,
    payload: Seq<u8>,
    message: Seq<u8>,
) -> bool {
    handshake_wrote(writer, payload, message, written) && handshake_read(reader, message) == Some(
        (payload, taken),
    )
}

/// Whether two machines that hold the private keys `ours` and `theirs` can be in these
/// states after `step` messages of one handshake: `i` began it and `r` answers.
pub open spec fn in_step(
    step: nat,
    ours: Seq<u8>,
    theirs: Seq<u8>,
    i: snow::HandshakeState,
    r: snow::HandshakeState,
) -> bool
    decreases step,
{
    if step == 0 {
        ours.len() == 32 && theirs.len() == 32 && exists|params: snow::params::NoiseParams| #[trigger]
            is_ours(params) && initiator_state(params, ours) == Some(i) && responder_state(
                params,
                theirs,
            ) == Some(r)
    } else {
        exists|
            before: (snow::HandshakeState, snow::HandshakeState),
            payload: Seq<u8>,
            message: Seq<u8>,
        |
            #[trigger] stepped(step, before, (i, r), payload, message) && in_step(
                (step - 1) as nat,
                ours,
                theirs,
                before.0,
                before.1,
            )
    }
}

/// Whether message number `step` of a handshake takes the two machines from one pair of
/// states to another: the machine that began sends the odd ones.
pub open spec fn stepped(
    step: nat,
    before: (snow::HandshakeState, snow::HandshakeState),
    after: (snow::HandshakeState, snow::HandshakeState),
    payload: Seq<u8>,
    message: Seq<u8>,
) -> bool {
    if step % 2 == 1 {
        passes(before.0, after.0, before.1, after.1, payload, message)
    } else {
        passes(before.1, after.1, before.0, after.0, payload, message)
    }
}

/// Whether a machine in this state, `step` messages into a handshake, is the one to write.
pub open spec fn writes_at(step: nat, state: snow::HandshakeState) -> bool {
    exists|ours: Seq<u8>, theirs: Seq<u8>, i: snow::HandshakeState, r: snow::HandshakeState|
        #[trigger]
        in_step(step, ours, theirs, i, r) && state == if step % 2 == 0 {
            i
        } else {
            r
        }
}

/// `snow::HandshakeState::write_message` with room for the largest message.
///
/// Claims that on success the message stands at the start of the buffer and is one that
/// the call can give for this state and payload. Claims that a machine whose turn it is
/// succeeds exactly where the message fits: the keys and tags of the three messages take
/// 48, 96 and 64 bytes.
#[verifier::external_body]
pub(crate) fn handshake_write(
    state: &mut snow::HandshakeState,
    payload: &[u8],
    buffer: &mut Vec<u8>,
) -> (out: Result<usize, String>)
    requires
        old(buffer)@.len() == 65535,
    ensures
        final(buffer)@.len() == old(buffer)@.len(),
        out matches Ok(len) ==> len <= final(buffer)@.len() && handshake_wrote(
            *old(state),
            payload@,
            final(buffer)@.take(len as int),
            *final(state),
        ),
        writes_at(0, *old(state)) ==> (out is Ok <==> payload@.len() + 48 <= 65535),
        writes_at(1, *old(state)) ==> (out is Ok <==> payload@.len() + 96 <= 65535),
        writes_at(2, *old(state)) ==> (out is Ok <==> payload@.len() + 64 <= 65535),
{
    state.write_message(payload, buffer).map_err(|e| e.to_string())
}

/// Whether `message` is one that the machine at the other end of this machine's handshake
/// can have written, after `step` messages, with the given payload.
pub open spec fn is_due(
    step: nat,
    state: snow::HandshakeState,
    payload: Seq<u8>,
    message: Seq<u8>,
) -> bool {
    exists|
        ours: Seq<u8>,
        theirs: Seq<u8>,
        i: snow::HandshakeState,
        r: snow::HandshakeState,
        written: snow::HandshakeState,
    |
        #![trigger in_step(step, ours, theirs, i, r), handshake_wrote(i, payload, message, written)]
        #![trigger in_step(step, ours, theirs, i, r), handshake_wrote(r, payload, message, written)]
        in_step(step, ours, theirs, i, r) && if step % 2 == 0 {
            state == r && handshake_wrote(i, payload, message, written)
        } else {
            state == i && handshake_wrote(r, payload, message, written)
        }
}

/// Whether reading a message gave the payload that the machine at the other end wrote.
pub open spec fn reads_back(
    state: snow::HandshakeState,
    message: Seq<u8>,
    out: Result<usize, String>,
    buffer: Seq<u8>,
) -> bool {
    forall|step: nat, payload: Seq<u8>|
        step < 3 && #[trigger] is_due(step, state, payload, message) ==> (out matches Ok(len)
            && buffer.take(len as int) == payload)
}

/// `snow::HandshakeState::read_message` with room for the largest payload.
///
/// Claims that the outcome depends on the state and the message alone, and that the
/// payload stands at the start of the buffer. Claims that a machine reads back the payload
/// that the machine at the other end of its handshake wrote.
#[verifier::external_body]
pub(crate) fn handshake_take(
    state: &mut snow::HandshakeState,
    message: &[u8],
    buffer: &mut Vec<u8>,
) -> (out: Result<usize, String>)
    requires
        old(buffer)@.len() == 65535,
    ensures
        final(buffer)@.len() == old(buffer)@.len(),
        out matches Ok(len) ==> len <= final(buffer)@.len() && handshake_read(*old(state), message@)
            == Some((final(buffer)@.take(len as int), *final(state))),
        out is Err ==> handshake_read(*old(state), message@) is None,
        reads_back(*old(state), message@, out, final(buffer)@),
{
    state.read_message(message, buffer).map_err(|e| e.to_string())
}

/// What `snow::HandshakeState::get_remote_static` gives for a state.
pub uninterp spec fn remote_static_of(state: snow::HandshakeState) -> Option<Seq<u8>>;

/// Whether a machine in this state has completed a handshake with one that holds the
/// private key `theirs`.
pub open spec fn met(state: snow::HandshakeState, theirs: Seq<u8>) -> bool {
    exists|ours: Seq<u8>, other: snow::HandshakeState|
        #![trigger in_step(3, ours, theirs, state, other)]
        #![trigger in_step(3, theirs, ours, other, state)]
        in_step(3, ours, theirs, state, other) || in_step(3, theirs, ours, other, state)
}

/// Whether a key is the public key of every machine with which one in this state can have
/// completed a handshake.
pub open spec fn is_proven(state: snow::HandshakeState, key: Option<Seq<u8>>) -> bool {
    forall|theirs: Seq<u8>| #[trigger] met(state, theirs) ==> key == Some(public_half(theirs))
}

/// `snow::HandshakeState::get_remote_static`.
///
/// Claims that the key depends on the state alone and has the curve's length, and that
/// after a complete handshake it is the public key of the machine at the other end.
#[verifier::external_body]
pub(crate) fn handshake_remote_static(state: &snow::HandshakeState) -> (out: Option<Vec<u8>>)
    ensures
        out.deep_view() == remote_static_of(*state),
        out matches Some(key) ==> key@.len() == 32,
        is_proven(*state, out.deep_view()),
{
    state.get_remote_static().map(|key| key.to_vec())
}

/// What `snow::HandshakeState::into_stateless_transport_mode` gives for a state; `None`
/// where the handshake is not finished.
pub uninterp spec fn transport_of(state: snow::HandshakeState) -> Option<
    snow::StatelessTransportState,
>;

/// Whether a machine in this state has completed a handshake.
pub open spec fn is_complete(state: snow::HandshakeState) -> bool {
    exists|theirs: Seq<u8>| #[trigger] met(state, theirs)
}

/// `snow::HandshakeState::into_stateless_transport_mode`.
///
/// Claims that the outcome depends on the state alone, and that the call succeeds after a
/// complete handshake.
#[verifier::external_body]
pub(crate) fn into_transport(state: snow::HandshakeState) -> (out: Result<
    snow::StatelessTransportState,
    String,
>)
    ensures
        transport_of(state) == match out {
            Ok(transport) => Some(transport),
            Err(_) => None,
        },
        is_complete(state) ==> out is Ok,
{
    state.into_stateless_transport_mode().map_err(|e| e.to_string())
}

/// Whether these are the two ends of a channel that one handshake made.
pub open spec fn facing(
    near: snow::StatelessTransportState,
    far: snow::StatelessTransportState,
) -> bool {
    exists|ours: Seq<u8>, theirs: Seq<u8>, i: snow::HandshakeState, r: snow::HandshakeState|
        #[trigger]
        in_step(3, ours, theirs, i, r) && ((transport_of(i) == Some(near) && transport_of(r)
            == Some(far)) || (transport_of(r) == Some(near) && transport_of(i) == Some(far)))
}

/// The record that `snow::StatelessTransportState::write_message` makes of a payload under
/// a nonce, given room for the largest record; `None` where it refuses.
pub uninterp spec fn sealed(
    state: snow::StatelessTransportState,
    nonce: u64,
    payload: Seq<u8>,
) -> Option<Seq<u8>>;

/// The payload that `snow::StatelessTransportState::read_message` finds in a record under a
/// nonce, given room for the largest payload; `None` where it refuses the record.
pub uninterp spec fn opened(
    state: snow::StatelessTransportState,
    nonce: u64,
    record: Seq<u8>,
) -> Option<Seq<u8>>;

/// Whether sealing a payload gave a record that the other end of the channel opens.
pub open spec fn comes_through(
    state: snow::StatelessTransportState,
    nonce: u64,
    payload: Seq<u8>,
    out: Result<usize, String>,
    buffer: Seq<u8>,
) -> bool {
    forall|far: snow::StatelessTransportState| #[trigger]
        facing(state, far) ==> (out matches Ok(len) && opened(far, nonce, buffer.take(len as int))
            == Some(payload))
}

/// `snow::StatelessTransportState::write_message` with room for the largest record.
///
/// Claims that the outcome depends on the state, the nonce and the payload alone, that the
/// record stands at the start of the buffer and is sixteen bytes longer than the payload,
/// that a payload for which no such record fits is refused, and so is the largest nonce.
/// Claims that the ends of a channel refuse nothing else, and that each opens under the
/// same nonce what the other sealed.
#[verifier::external_body]
pub(crate) fn transport_write(
    state: &snow::StatelessTransportState,
    nonce: u64,
    payload: &[u8],
    buffer: &mut Vec<u8>,
) -> (out: Result<usize, String>)
    requires
        old(buffer)@.len() == 65535,
    ensures
        final(buffer)@.len() == old(buffer)@.len(),
        out matches Ok(len) ==> len == payload@.len() + 16 && len <= final(buffer)@.len() && sealed(
            *state,
            nonce,
            payload@,
        ) == Some(final(buffer)@.take(len as int)),
        out is Err ==> sealed(*state, nonce, payload@) is None,
        out is Ok ==> payload@.len() + 16 <= 65535 && nonce < u64::MAX,
        payload@.len() + 16 <= 65535 && nonce < u64::MAX ==> comes_through(
            *state,
            nonce,
            payload@,
            out,
            final(buffer)@,
        ),
{
    state.write_message(nonce, payload, buffer).map_err(|e| e.to_string())
}

/// `snow::StatelessTransportState::read_message` with room for the largest payload.
///
/// Claims that the outcome depends on the state, the nonce and the record alone, that the
/// payload stands at the start of the buffer and is sixteen bytes shorter than the record,
/// and that a record beyond the largest one is refused.
#[verifier::external_body]
pub(crate) fn transport_read(
    state: &snow::StatelessTransportState,
    nonce: u64,
    record: &[u8],
    buffer: &mut Vec<u8>,
) -> (out: Result<usize, String>)
    requires
        old(buffer)@.len() == 65535,
    ensures
        final(buffer)@.len() == old(buffer)@.len(),
        out matches Ok(len) ==> len + 16 == record@.len() && len <= final(buffer)@.len() && opened(
            *state,
            nonce,
            record@,
        ) == Some(final(buffer)@.take(len as int)),
        out is Err ==> opened(*state, nonce, record@) is None,
        record@.len() > 65535 ==> out is Err,
{
    state.read_message(nonce, record, buffer).map_err(|e| e.to_string())
}

} // verus!
