//! Encrypted peer sessions.
//!
//! The handshake is Noise `XX`, which authenticates both static keys but still
//! lets two strangers complete a connection — the trust decision is then made by
//! the engine, using the pinned key store and, for new peers, a pairing code.

use vstd::prelude::*;
use vstd::string::*;

use crate::codec::{
    announced_length, decode_inner, encode_inner, framed, inner_bytes, inner_of, write_record,
    Inner, InnerModel, MAX_RECORD,
};
use crate::identity::{private_key_bytes, DeviceIdentity};
use crate::net_error::{from_core, Error, ErrorModel, Result};
use crate::noise::{
    facing, handshake_read, handshake_remote_static, handshake_take, handshake_write,
    handshake_wrote, in_step, initiator_state, into_transport, is_complete, is_due, is_ours,
    met, opened, public_half, remote_static_of, responder_state, sealed,
    start_initiator, start_responder, stepped, transport_of, transport_read, transport_write,
    writes_at,
};
use crate::protocol::{noise_params, DeviceInfo};

verus! {

/// How long a handshake may take, in seconds.
pub const HANDSHAKE_TIMEOUT_SECS: u64 = 12;

/// Messages that may wait ahead of bulk traffic.
pub const URGENT_QUEUE: usize = 2048;

/// Messages that may wait behind bulk traffic.
pub const NORMAL_QUEUE: usize = 256;

/// Which side of a handshake this machine is on.
#[derive(Clone, Copy, Debug, PartialEq, Eq, Structural)]
pub enum Role {
    Initiator,
    Responder,
}

/// What comes next in a handshake.
#[derive(Clone, Copy, Debug, PartialEq, Eq, Structural)]
pub enum Move {
    /// Send a message without a payload.
    SendEmpty,
    /// Send a message that carries this machine's identity.
    SendHello,
    /// Receive a message without a payload.
    ReceiveEmpty,
    /// Receive a message that carries the peer's identity.
    ReceiveHello,
    /// Nothing: the handshake is complete.
    Done,
}

/// The move after `step` messages. Both identities travel encrypted.
pub open spec fn move_at(role: Role, step: int) -> Move {
    match role {
        Role::Initiator => if step == 0 {
            Move::SendEmpty
        } else if step == 1 {
            Move::ReceiveHello
        } else if step == 2 {
            Move::SendHello
        } else {
            Move::Done
        },
        Role::Responder => if step == 0 {
            Move::ReceiveEmpty
        } else if step == 1 {
            Move::SendHello
        } else if step == 2 {
            Move::ReceiveHello
        } else {
            Move::Done
        },
    }
}

/// At every step one side sends what the other receives, and each side sends its identity
/// once.
pub proof fn law_the_two_roles_fit(step: int)
    requires
        0 <= step < 3,
    ensures
        move_at(Role::Initiator, step) is SendEmpty <==> move_at(
            Role::Responder,
            step,
        ) is ReceiveEmpty,
        move_at(Role::Initiator, step) is SendHello <==> move_at(
            Role::Responder,
            step,
        ) is ReceiveHello,
        move_at(Role::Initiator, step) is ReceiveHello <==> move_at(
            Role::Responder,
            step,
        ) is SendHello,
        !(move_at(Role::Initiator, step) is Done),
        !(move_at(Role::Responder, step) is Done),
{
}

/// Result of the cryptographic handshake.
#[derive(Debug, PartialEq)]
pub struct HandshakeOutcome {
    /// Static public key of the peer, as proven by the handshake.
    pub remote_static: Vec<u8>,
    pub hello: DeviceInfo,
    pub initiator: bool,
}

/// A handshake under way.
pub struct Handshake {
    pub state: snow::HandshakeState,
    pub role: Role,
    /// How many messages have been exchanged.
    pub step: u8,
}

impl Handshake {
    /// What comes next.
    pub open spec fn awaits(&self) -> Move {
        move_at(self.role, self.step as int)
    }

    /// Whether this is the beginning of a handshake on the given side, with the given
    /// private key.
    pub open spec fn begins(&self, role: Role, private: Seq<u8>) -> bool {
        self.role == role && self.step == 0 && private.len() == 32
            && exists|params: snow::params::NoiseParams| #[trigger]
            is_ours(params) && Some(self.state) == match role {
                Role::Initiator => initiator_state(params, private),
                Role::Responder => responder_state(params, private),
            }
    }

    /// Begins a handshake with this machine's private key. It fails exactly where that key
    /// cannot be read, with the reason.
    pub fn start(identity: &DeviceIdentity, role: Role) -> (out: Result<Handshake>)
        ensures
            match private_key_bytes(identity.private_key@) {
                Ok(private) => out matches Ok(handshake) && handshake.begins(role, private),
                Err(e) => out matches Err(found) && found.deep_view() == from_core(e),
            },
    {
        let params = match noise_params() {
            Ok(params) => params,
            Err(e) => return Err(Error::from_shared(e)),
        };
        let private = match identity.private_key() {
            Ok(private) => private,
            Err(e) => return Err(Error::from_shared(e)),
        };
        let started = match role {
            Role::Initiator => start_initiator(params, private.as_slice()),
            Role::Responder => start_responder(params, private.as_slice()),
        };
        match started {
            Ok(state) => Ok(Handshake { state, role, step: 0 }),
            Err(e) => Err(Error::Crypto(e)),
        }
    }

    /// What comes next.
    pub fn next(&self) -> (out: Move)
        ensures
            out == self.awaits(),
    {
        match self.role {
            Role::Initiator => if self.step == 0 {
                Move::SendEmpty
            } else if self.step == 1 {
                Move::ReceiveHello
            } else if self.step == 2 {
                Move::SendHello
            } else {
                Move::Done
            },
            Role::Responder => if self.step == 0 {
                Move::ReceiveEmpty
            } else if self.step == 1 {
                Move::SendHello
            } else if self.step == 2 {
                Move::ReceiveHello
            } else {
                Move::Done
            },
        }
    }

    /// Makes the next message, which carries `hello` where this machine's identity is due.
    pub fn write(&mut self, hello: &[u8]) -> (out: Result<Vec<u8>>)
        requires
            old(self).awaits() is SendEmpty || old(self).awaits() is SendHello,
        ensures
            final(self).role == old(self).role,
            out matches Ok(message) ==> final(self).step == old(self).step + 1 && message@.len()
                <= MAX_RECORD && handshake_wrote(
                old(self).state,
                if old(self).awaits() is SendHello {
                    hello@
                } else {
                    Seq::empty()
                },
                message@,
                final(self).state,
            ),
            out matches Err(e) ==> e is Crypto && final(self).step == old(self).step,
            writes_at(0, old(self).state) && old(self).awaits() is SendEmpty ==> out is Ok,
            writes_at(1, old(self).state) && old(self).awaits() is SendHello ==> (out is Ok
                <==> hello@.len() + 96 <= MAX_RECORD),
            writes_at(2, old(self).state) && old(self).awaits() is SendHello ==> (out is Ok
                <==> hello@.len() + 64 <= MAX_RECORD),
    {
        let mut buffer: Vec<u8> = vec![0u8; MAX_RECORD];
        let nothing: Vec<u8> = Vec::new();
        assert(nothing@ =~= Seq::<u8>::empty());
        let carries = matches!(self.next(), Move::SendHello);
        let written = if carries {
            handshake_write(&mut self.state, hello, &mut buffer)
        } else {
            handshake_write(&mut self.state, nothing.as_slice(), &mut buffer)
        };
        match written {
            Ok(len) => {
                self.step = self.step + 1;
                let ghost whole = buffer@;
                buffer.truncate(len);
                assert(buffer@ =~= whole.take(len as int));
                Ok(buffer)
            },
            Err(e) => Err(Error::Crypto(e)),
        }
    }

    /// Takes the next message and gives its payload.
    pub fn read(&mut self, message: &[u8]) -> (out: Result<Vec<u8>>)
        requires
            old(self).awaits() is ReceiveEmpty || old(self).awaits() is ReceiveHello,
        ensures
            final(self).role == old(self).role,
            match handshake_read(old(self).state, message@) {
                Some((payload, after)) => out matches Ok(found) && found@ == payload
                    && final(self).state == after && final(self).step == old(self).step + 1,
                None => out matches Err(e) && e is Crypto && final(self).step == old(self).step,
            },
            forall|step: nat, payload: Seq<u8>|
                step < 3 && #[trigger] is_due(step, old(self).state, payload, message@) ==> (
                out matches Ok(found) && found@ == payload),
    {
        let mut buffer: Vec<u8> = vec![0u8; MAX_RECORD];
        match handshake_take(&mut self.state, message, &mut buffer) {
            Ok(len) => {
                self.step = self.step + 1;
                let ghost whole = buffer@;
                buffer.truncate(len);
                assert(buffer@ =~= whole.take(len as int));
                Ok(buffer)
            },
            Err(e) => Err(Error::Crypto(e)),
        }
    }

    /// Ends a complete handshake: the key that the peer proved, and the sealed channel.
    pub fn finish(self) -> (out: Result<(Vec<u8>, Transport)>)
        requires
            self.awaits() is Done,
        ensures
            match (remote_static_of(self.state), transport_of(self.state)) {
                (None, _) => out matches Err(e) && e.deep_view() == ErrorModel::Crypto(
                    "peer never presented a static key"@,
                ),
                (Some(_), None) => out matches Err(e) && e is Crypto,
                (Some(key), Some(state)) => out matches Ok((found, transport)) && found@ == key
                    && found@.len() == 32 && transport.state == state && transport.send_nonce == 0
                    && transport.receive_nonce == 0,
            },
            is_complete(self.state) ==> out is Ok,
            forall|theirs: Seq<u8>| #[trigger]
                met(self.state, theirs) ==> (out matches Ok((found, transport)) && found@
                    == public_half(theirs)),
    {
        let key = match handshake_remote_static(&self.state) {
            Some(key) => key,
            None => return Err(Error::crypto("peer never presented a static key")),
        };
        assert(Some(key@) == remote_static_of(self.state)) by {
            assert(key.deep_view() =~= key@);
        }
        match into_transport(self.state) {
            Ok(state) => Ok((key, Transport { state, send_nonce: 0, receive_nonce: 0 })),
            Err(e) => Err(Error::Crypto(e)),
        }
    }
}

/// A sealed channel. Each direction counts its records.
pub struct Transport {
    pub state: snow::StatelessTransportState,
    pub send_nonce: u64,
    pub receive_nonce: u64,
}

/// The number after `n`, starting over at zero after the largest.
pub open spec fn next_nonce(n: u64) -> u64 {
    if n == u64::MAX {
        0
    } else {
        (n + 1) as u64
    }
}

/// What sending an item over a channel gives: the bytes to write, or an error; where the
/// channel itself refuses, the words of the error are open.
pub open spec fn sent(
    state: snow::StatelessTransportState,
    nonce: u64,
    item: InnerModel,
) -> std::result::Result<Seq<u8>, Option<ErrorModel>> {
    match inner_bytes(item) {
        Err(e) => Err(Some(e)),
        Ok(plain) => match sealed(state, nonce, plain) {
            None => Err(None),
            Some(record) => match framed(record) {
                Ok(bytes) => Ok(bytes),
                Err(e) => Err(Some(e)),
            },
        },
    }
}

/// What a record that came over a channel holds, or the error that refuses it; where the
/// channel itself refuses, the words of the error are open.
pub open spec fn received(
    state: snow::StatelessTransportState,
    nonce: u64,
    record: Seq<u8>,
) -> std::result::Result<InnerModel, Option<ErrorModel>> {
    match opened(state, nonce, record) {
        None => Err(None),
        Some(plain) => match inner_of(plain) {
            Ok(item) => Ok(item),
            Err(e) => Err(Some(e)),
        },
    }
}

/// Whether an error is the one that `want` describes.
pub open spec fn error_fits(error: Error, want: Option<ErrorModel>) -> bool {
    match want {
        Some(model) => error.deep_view() == model,
        None => error is Crypto,
    }
}

/// Whether a sealed item fits in one record.
pub open spec fn fits_in_record(item: InnerModel) -> bool {
    inner_bytes(item) matches Ok(plain) && plain.len() + 16 <= MAX_RECORD
}

/// Whether bytes from the wire are one record, and it holds the item for a channel that
/// opens it under the given nonce.
pub open spec fn arrives(
    far: snow::StatelessTransportState,
    nonce: u64,
    bytes: Seq<u8>,
    item: InnerModel,
) -> bool {
    announced_length(bytes.take(4)) == Ok::<nat, ErrorModel>((bytes.len() - 4) as nat) && received(
        far,
        nonce,
        bytes.skip(4),
    ) == Ok::<InnerModel, Option<ErrorModel>>(item)
}

impl Transport {
    /// Seals an item and frames the record: the bytes to write.
    pub fn send(&mut self, item: &Inner) -> (out: Result<Vec<u8>>)
        ensures
            final(self).state == old(self).state,
            final(self).receive_nonce == old(self).receive_nonce,
            match sent(old(self).state, old(self).send_nonce, item.deep_view()) {
                Ok(bytes) => out matches Ok(found) && found@ == bytes && final(self).send_nonce
                    == next_nonce(old(self).send_nonce),
                Err(want) => out matches Err(e) && error_fits(e, want) && final(self).send_nonce
                    == old(self).send_nonce,
            },
            forall|far: snow::StatelessTransportState| #[trigger]
                facing(old(self).state, far) && fits_in_record(item.deep_view())
                    && old(self).send_nonce < u64::MAX ==> (out matches Ok(bytes) && arrives(
                    far,
                    old(self).send_nonce,
                    bytes@,
                    item.deep_view(),
                )),
    {
        let plain = match encode_inner(item) {
            Ok(plain) => plain,
            Err(e) => return Err(e),
        };
        let mut buffer: Vec<u8> = vec![0u8; MAX_RECORD];
        match transport_write(&self.state, self.send_nonce, plain.as_slice(), &mut buffer) {
            Ok(len) => {
                let ghost whole = buffer@;
                buffer.truncate(len);
                assert(buffer@ =~= whole.take(len as int));
                proof {
                    assert forall|far: snow::StatelessTransportState| #[trigger]
                        facing(self.state, far) && fits_in_record(item.deep_view())
                            && self.send_nonce < u64::MAX implies sent(
                        self.state,
                        self.send_nonce,
                        item.deep_view(),
                    ) matches Ok(bytes) && arrives(
                        far,
                        self.send_nonce,
                        bytes,
                        item.deep_view(),
                    ) by {
                        law_what_is_sent_is_received(
                            self.state,
                            far,
                            self.send_nonce,
                            item.deep_view(),
                        );
                    }
                }
                match write_record(buffer.as_slice()) {
                    Ok(bytes) => {
                        self.send_nonce = self.send_nonce.wrapping_add(1);
                        Ok(bytes)
                    },
                    Err(e) => Err(e),
                }
            },
            Err(e) => Err(Error::Crypto(e)),
        }
    }

    /// Opens a record.
    pub fn receive(&mut self, record: &[u8]) -> (out: Result<Inner>)
        ensures
            final(self).state == old(self).state,
            final(self).send_nonce == old(self).send_nonce,
            match received(old(self).state, old(self).receive_nonce, record@) {
                Ok(item) => out matches Ok(found) && found.deep_view() == item
                    && final(self).receive_nonce == next_nonce(old(self).receive_nonce),
                Err(want) => out matches Err(e) && error_fits(e, want)
                    && final(self).receive_nonce == old(self).receive_nonce,
            },
    {
        let mut buffer: Vec<u8> = vec![0u8; MAX_RECORD];
        match transport_read(&self.state, self.receive_nonce, record, &mut buffer) {
            Ok(len) => {
                let ghost whole = buffer@;
                buffer.truncate(len);
                assert(buffer@ =~= whole.take(len as int));
                match decode_inner(buffer.as_slice()) {
                    Ok(item) => {
                        self.receive_nonce = self.receive_nonce.wrapping_add(1);
                        Ok(item)
                    },
                    Err(e) => Err(e),
                }
            },
            Err(e) => Err(Error::Crypto(e)),
        }
    }
}

/// What one end of a channel sends is what the other end receives, as long as that other
/// end opens under the same nonce what this end sealed.
pub proof fn law_what_is_sent_is_received(
    from: snow::StatelessTransportState,
    to: snow::StatelessTransportState,
    nonce: u64,
    item: InnerModel,
)
    requires
        item matches InnerModel::Chunk(chunk) ==> chunk.data.len() <= u32::MAX,
        inner_bytes(item) matches Ok(plain) && sealed(from, nonce, plain) matches Some(record)
            && opened(to, nonce, record) == Some(plain) && record.len() <= MAX_RECORD,
    ensures
        sent(from, nonce, item) matches Ok(bytes) && arrives(to, nonce, bytes, item),
{
    let plain = inner_bytes(item)->Ok_0;
    let record = sealed(from, nonce, plain)->Some_0;
    crate::codec::law_record_round_trip(record);
    crate::codec::law_inner_round_trip(item);
}

/// One end of a channel whose handshake is complete.
pub struct End {
    /// Static public key of the peer, as proven by the handshake.
    pub remote_static: Vec<u8>,
    /// What the peer said of itself.
    pub hello: Vec<u8>,
    pub transport: Transport,
}

impl End {
    /// Whether this end has met a peer with the given private key and introduction, and
    /// has sent and received nothing since.
    pub open spec fn has_met(&self, private: Seq<u8>, hello: Seq<u8>) -> bool {
        self.remote_static@ == public_half(private) && self.hello@ == hello
            && self.transport.send_nonce == 0 && self.transport.receive_nonce == 0
    }
}

/// Runs a full handshake between two identities in memory: each end learns the key that
/// the other one holds and what it says of itself, and the two ends form one channel.
#[verifier::spinoff_prover]
pub fn in_memory_pair(
    a: &DeviceIdentity,
    a_hello: &[u8],
    b: &DeviceIdentity,
    b_hello: &[u8],
) -> (out: Result<(End, End)>)
    ensures
        match (private_key_bytes(a.private_key@), private_key_bytes(b.private_key@)) {
            (Err(e), _) => out matches Err(found) && found.deep_view() == from_core(e),
            (Ok(_), Err(e)) => out matches Err(found) && found.deep_view() == from_core(e),
            (Ok(a_key), Ok(b_key)) => if a_hello@.len() + 64 <= MAX_RECORD && b_hello@.len() + 96
                <= MAX_RECORD {
                out matches Ok((near, far)) && near.has_met(b_key, b_hello@) && far.has_met(
                    a_key,
                    a_hello@,
                ) && facing(near.transport.state, far.transport.state) && facing(
                    far.transport.state,
                    near.transport.state,
                )
            } else {
                out matches Err(found) && found is Crypto
            },
        },
{
    let mut near = match Handshake::start(a, Role::Initiator) {
        Ok(handshake) => handshake,
        Err(e) => return Err(e),
    };
    let mut far = match Handshake::start(b, Role::Responder) {
        Ok(handshake) => handshake,
        Err(e) => return Err(e),
    };
    let ghost a_key = private_key_bytes(a.private_key@)->Ok_0;
    let ghost b_key = private_key_bytes(b.private_key@)->Ok_0;
    let ghost (i0, r0) = (near.state, far.state);
    assert(in_step(0, a_key, b_key, i0, r0));
    assert(writes_at(0, i0));
    let first = match near.write(a_hello) {
        Ok(message) => message,
        Err(e) => return Err(e),
    };
    let ghost i1 = near.state;
    assert(is_due(0, r0, Seq::empty(), first@)) by {
        assert(in_step(0, a_key, b_key, i0, r0));
        assert(handshake_wrote(i0, Seq::empty(), first@, i1));
    }
    match far.read(first.as_slice()) {
        Ok(_) => {},
        Err(e) => return Err(e),
    }
    let ghost r1 = far.state;
    proof {
        assert(stepped(1, (i0, r0), (i1, r1), Seq::empty(), first@));
        assert(in_step(1, a_key, b_key, i1, r1));
        assert(writes_at(1, r1));
    }
    let second = match far.write(b_hello) {
        Ok(message) => message,
        Err(e) => return Err(e),
    };
    let ghost r2 = far.state;
    assert(is_due(1, i1, b_hello@, second@)) by {
        assert(in_step(1, a_key, b_key, i1, r1));
        assert(handshake_wrote(r1, b_hello@, second@, r2));
    }
    let to_near = match near.read(second.as_slice()) {
        Ok(hello) => hello,
        Err(e) => return Err(e),
    };
    let ghost i2 = near.state;
    proof {
        assert(stepped(2, (i1, r1), (i2, r2), b_hello@, second@));
        assert(in_step(2, a_key, b_key, i2, r2));
        assert(writes_at(2, i2));
    }
    let third = match near.write(a_hello) {
        Ok(message) => message,
        Err(e) => return Err(e),
    };
    let ghost i3 = near.state;
    assert(is_due(2, r2, a_hello@, third@)) by {
        assert(in_step(2, a_key, b_key, i2, r2));
        assert(handshake_wrote(i2, a_hello@, third@, i3));
    }
    let to_far = match far.read(third.as_slice()) {
        Ok(hello) => hello,
        Err(e) => return Err(e),
    };
    let ghost r3 = far.state;
    proof {
        assert(stepped(3, (i2, r2), (i3, r3), a_hello@, third@));
        assert(in_step(3, a_key, b_key, i3, r3));
        assert(met(i3, b_key));
        assert(met(r3, a_key));
    }
    let (near_key, near_transport) = match near.finish() {
        Ok(found) => found,
        Err(e) => return Err(e),
    };
    let (far_key, far_transport) = match far.finish() {
        Ok(found) => found,
        Err(e) => return Err(e),
    };
    assert(facing(near_transport.state, far_transport.state));
    assert(facing(far_transport.state, near_transport.state));
    Ok(
        (
            End { remote_static: near_key, hello: to_near, transport: near_transport },
            End { remote_static: far_key, hello: to_far, transport: far_transport },
        ),
    )
}

} // verus!
