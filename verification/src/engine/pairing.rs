//! Sessions coming up, and machines learning to trust each other.

use vstd::prelude::*;
use vstd::string::*;

use crate::config::{plain_link, EdgeLink, PeerRecord, PeerRecordModel, SettingsModel};
use crate::encoding::{base64_encode, base64_text};
use crate::engine::rules::{own_info, session_closed, MAX_ATTEMPTS};
use crate::engine::state::{
    Action, ActionModel, Engine, EngineModel, Established, Moment, Pairing, PairingModel, Session,
    SessionModel,
};
use crate::geom::{clone_displays, Side};
use crate::identity::DeviceId;
use crate::keyed::{
    find, holds, index_of, lemma_index_of, position, put, remove_all, replace_or_push, without,
};
use crate::protocol::{DeviceInfoModel, Message, MessageModel};
use crate::text::{
    cat2, cat3, chars_of, comes_before, decimal, decimal_fixed, format_decimal, format_fixed,
    precedes, same_text,
};
use crate::view::{ConnectionModel, ConnectionState};

verus! {

/// `rand::random`. Nothing is claimed of the number: it comes by chance.
#[verifier::external_body]
pub(crate) fn random_number() -> u64 {
    rand::random()
}

/// The text form of a public key, as it is pinned.
pub fn base64_key(bytes: &[u8]) -> (out: String)
    requires
        (bytes@.len() + 2) / 3 * 4 <= isize::MAX,
    ensures
        out@ == base64_text(bytes@),
{
    base64_encode(bytes)
}

/// The decimal digits in a text.
pub open spec fn digits_of(code: Seq<char>) -> Seq<char>
    decreases code.len(),
{
    if code.len() == 0 {
        code
    } else if '0' <= code.last() <= '9' {
        digits_of(code.drop_last()).push(code.last())
    } else {
        digits_of(code.drop_last())
    }
}

/// Keeps the decimal digits of what the user typed.
pub fn normalize_code(code: &str) -> (out: String)
    ensures
        out@ == digits_of(code@),
{
    let chars = chars_of(code);
    let mut out = String::new();
    let mut i: usize = 0;
    assert(digits_of(code@.take(0)) =~= Seq::<char>::empty());
    assert(out@ =~= Seq::<char>::empty());
    while i < chars.len()
        invariant
            i <= chars@.len(),
            chars@ == code@,
            out@ == digits_of(code@.take(i as int)),
        decreases chars@.len() - i,
    {
        assert(code@.take(i as int + 1).drop_last() =~= code@.take(i as int));
        let c = chars[i];
        if '0' <= c && c <= '9' {
            out.push(c);
        }
        i += 1;
    }
    assert(code@.take(i as int) =~= code@);
    out
}

/// The six digit code that a random number stands for.
#[verifier::opaque]
pub open spec fn code_of(draw: u64) -> Seq<char> {
    decimal_fixed(((draw as u32) % 1_000_000) as nat, 6)
}

/// The six digit code that a random number stands for.
pub fn pairing_code(draw: u64) -> (out: String)
    ensures
        out@ == code_of(draw),
{
    proof {
        reveal(code_of);
    }
    let short: u32 = draw as u32;
    format_fixed((short % 1_000_000) as u64, 6)
}

/// A code is six decimal digits, and typing it as it is shown matches it.
pub proof fn law_code_is_six_digits(draw: u64)
    ensures
        code_of(draw).len() == 6,
        forall|i: int| 0 <= i < 6 ==> '0' <= #[trigger] code_of(draw)[i] <= '9',
        digits_of(code_of(draw)) == code_of(draw),
{
    reveal(code_of);
    lemma_fixed_digits(((draw as u32) % 1_000_000) as nat, 6);
    lemma_digits_of_digits(code_of(draw));
}

proof fn lemma_fixed_digits(n: nat, width: nat)
    ensures
        decimal_fixed(n, width).len() == width,
        forall|i: int| 0 <= i < width ==> '0' <= #[trigger] decimal_fixed(n, width)[i] <= '9',
    decreases width,
{
    if width > 0 {
        lemma_fixed_digits(n / 10, (width - 1) as nat);
        let head = decimal_fixed(n / 10, (width - 1) as nat);
        assert forall|i: int| 0 <= i < width implies '0' <= #[trigger] decimal_fixed(n, width)[i]
            <= '9' by {
            if i < width - 1 {
                assert(decimal_fixed(n, width)[i] == head[i]);
            }
        }
    }
}

proof fn lemma_digits_of_digits(code: Seq<char>)
    requires
        forall|i: int| 0 <= i < code.len() ==> '0' <= #[trigger] code[i] <= '9',
    ensures
        digits_of(code) == code,
    decreases code.len(),
{
    if code.len() > 0 {
        let head = code.drop_last();
        assert forall|i: int| 0 <= i < head.len() implies '0' <= #[trigger] head[i] <= '9' by {
            assert(head[i] == code[i]);
        }
        lemma_digits_of_digits(head);
        assert(head.push(code.last()) =~= code);
    }
}

/// A connection whose handshake is complete, by its contents.
#[verifier::ext_equal]
pub struct EstablishedModel {
    pub connection: u64,
    pub initiator: bool,
    pub remote_static: Seq<u8>,
    pub info: DeviceInfoModel,
    pub extent: Option<(u64, u64)>,
}

impl DeepView for Established {
    type V = EstablishedModel;

    open spec fn deep_view(&self) -> EstablishedModel {
        EstablishedModel {
            connection: self.connection,
            initiator: self.initiator,
            remote_static: self.remote_static@,
            info: self.info.deep_view(),
            extent: self.extent,
        }
    }
}

/// A session whose key has a text form and whose pairing is not used up.
pub open spec fn session_sound(session: SessionModel) -> bool {
    &&& session.remote_static.len() <= 0xffff
    &&& session.pairing matches Some(pairing) ==> pairing.attempts < MAX_ATTEMPTS
}

/// Every session is sound.
pub open spec fn sessions_sound(sessions: Seq<SessionModel>) -> bool {
    forall|i: int| 0 <= i < sessions.len() ==> session_sound(#[trigger] sessions[i])
}

/// This side shows a code and waits for the other user to type it. The other machine is
/// told that a code is wanted, not which one.
#[verifier::opaque]
pub open spec fn pairing_requested(
    m: EngineModel,
    peer: Seq<char>,
    draw: u64,
    at: Moment,
) -> EngineModel {
    match find(m.sessions, peer) {
        None => m,
        Some(session) => m.with_session(
            SessionModel {
                state: ConnectionModel::Pairing,
                pairing: Some(
                    PairingModel {
                        code_to_share: Some(code_of(draw)),
                        awaiting_code: false,
                        attempts: 0,
                        typed: false,
                    },
                ),
                ..session
            },
        ).does(
            ActionModel::Send {
                connection: session.connection,
                message: MessageModel::PairRequired { code_hint: Seq::empty() },
            },
        ).publishes(at),
    }
}

/// The trust store after a trusted machine came back under the given name.
#[verifier::opaque]
pub open spec fn seen_again(
    peers: Seq<PeerRecordModel>,
    peer: Seq<char>,
    name: Seq<char>,
    unix: u64,
) -> Seq<PeerRecordModel> {
    match find(peers, peer) {
        Some(record) => put(
            peers,
            PeerRecordModel { last_seen: Some(unix), name, last_address: None, ..record },
        ),
        None => peers,
    }
}

/// Whether the machine with id `me` prefers a connection to `peer` that this side
/// started, or did not start: the machine with the smaller id is the one whose
/// connection is kept.
pub open spec fn preferred(me: Seq<char>, peer: Seq<char>, initiator: bool) -> bool {
    initiator == precedes(me, peer)
}

/// Whether a machine presents another key than the one that is pinned for it.
pub open spec fn key_changed(m: EngineModel, e: EstablishedModel) -> bool {
    find(m.peers, e.info.device_id) matches Some(record) && record.public_key != base64_text(
        e.remote_static,
    )
}

/// What is said of a machine that presents another key.
pub open spec fn key_alarm(name: Seq<char>) -> Seq<char> {
    name
        + " presented a different key than the one you paired with. The connection was refused; forget the machine and pair again if you replaced it."@
}

/// A connection is refused because its machine presents another key.
#[verifier::opaque]
pub open spec fn key_refused(m: EngineModel, e: EstablishedModel, at: Moment) -> EngineModel {
    m.alarms(key_alarm(e.info.name)).does(
        ActionModel::Send {
            connection: e.connection,
            message: MessageModel::Bye { reason: "identity changed"@ },
        },
    ).does(ActionModel::Close { connection: e.connection }).publishes(at)
}

/// The session that an accepted connection makes.
pub open spec fn new_session(e: EstablishedModel, trusted: bool, at: Moment) -> SessionModel {
    SessionModel {
        connection: e.connection,
        initiator: e.initiator,
        remote_static: e.remote_static,
        info: e.info,
        trusted,
        state: if trusted {
            ConnectionModel::Connected
        } else {
            ConnectionModel::Pairing
        },
        pairing: None,
        displays: e.info.displays,
        extent: e.extent,
        last_rx: at.ms,
    }
}

/// A session was accepted: it takes the place of an earlier one with the same machine.
#[verifier::opaque]
pub open spec fn session_accepted(
    m: EngineModel,
    e: EstablishedModel,
    draw: u64,
    at: Moment,
) -> EngineModel {
    let peer = e.info.device_id;
    let trusted = holds(m.peers, peer);
    let added = m.with_session(new_session(e, trusted, at));
    let replaced = match find(m.sessions, peer) {
        Some(previous) => added.does(ActionModel::Close { connection: previous.connection }),
        None => added,
    };
    let listening = replaced.does(ActionModel::Listen { connection: e.connection, peer });
    let known = EngineModel {
        peers: seen_again(m.peers, peer, e.info.name, at.unix),
        ..listening
    }.does(ActionModel::SavePeers);
    let greeted = if trusted {
        known.informs("Connected to "@ + e.info.name + "."@).sends_displays(peer)
    } else if precedes(peer, m.identity.device_id) {
        pairing_requested(known, peer, draw, at)
    } else {
        known.does(ActionModel::HandoffLater { peer })
    };
    greeted.publishes(at)
}

/// A connection with the right key is kept unless there is a better one already.
#[verifier::opaque]
pub open spec fn session_weighed(
    m: EngineModel,
    e: EstablishedModel,
    draw: u64,
    at: Moment,
) -> EngineModel {
    let me = m.identity.device_id;
    let peer = e.info.device_id;
    if find(m.sessions, peer) matches Some(existing) && preferred(me, peer, existing.initiator)
        && !preferred(me, peer, e.initiator) {
        m.does(ActionModel::Close { connection: e.connection })
    } else {
        session_accepted(m, e, draw, at)
    }
}

/// The key of a connection is held against the one that is pinned.
#[verifier::opaque]
pub open spec fn key_checked(
    m: EngineModel,
    e: EstablishedModel,
    draw: u64,
    at: Moment,
) -> EngineModel {
    if key_changed(m, e) {
        key_refused(m, e, at)
    } else {
        session_weighed(m, e, draw, at)
    }
}

/// A connection came up.
#[verifier::opaque]
pub open spec fn session_established(
    m: EngineModel,
    e: EstablishedModel,
    draw: u64,
    at: Moment,
) -> EngineModel {
    key_checked(
        EngineModel { connecting: without(m.connecting, e.info.device_id), ..m },
        e,
        draw,
        at,
    )
}

/// Nothing happened on the side that shows no code: it asks for one itself.
#[verifier::opaque]
pub open spec fn pairing_handed_off(
    m: EngineModel,
    peer: Seq<char>,
    draw: u64,
    at: Moment,
) -> EngineModel {
    match find(m.sessions, peer) {
        Some(session) => if !session.trusted && (session.pairing matches Some(pairing)
            ==> !pairing.awaiting_code) {
            pairing_requested(m, peer, draw, at)
        } else {
            m
        },
        None => m,
    }
}

/// A machine is trusted from now on, with the key that it proved.
#[verifier::opaque]
pub open spec fn peer_remembered(m: EngineModel, session: SessionModel, at: Moment) -> EngineModel {
    EngineModel {
        peers: put(
            m.peers,
            PeerRecordModel {
                device_id: session.info.device_id,
                name: session.info.name,
                public_key: base64_text(session.remote_static),
                fingerprint: session.info.fingerprint,
                os: session.info.os,
                last_seen: Some(at.unix),
                last_address: None,
            },
        ),
        ..m
    }.does(ActionModel::SavePeers)
}

/// The side on which the machine `me` puts a freshly paired machine.
pub open spec fn default_side(me: Seq<char>, peer: Seq<char>) -> Side {
    if precedes(me, peer) {
        Side::Right
    } else {
        Side::Left
    }
}

/// A freshly paired machine has an edge, so that it is usable at once.
#[verifier::opaque]
pub open spec fn link_ensured(m: EngineModel, peer: Seq<char>, name: Seq<char>) -> EngineModel {
    if holds(m.settings.links, peer) {
        m
    } else {
        EngineModel {
            settings: SettingsModel {
                links: put(
                    m.settings.links,
                    plain_link(peer, name, default_side(m.identity.device_id, peer)),
                ),
                ..m.settings
            },
            ..m
        }.does(ActionModel::SaveSettings)
    }
}

/// A session between machines that trust each other.
pub open spec fn paired(session: SessionModel) -> SessionModel {
    SessionModel { trusted: true, state: ConnectionModel::Connected, pairing: None, ..session }
}

/// The answer to a code.
pub open spec fn pair_result(
    session: SessionModel,
    accepted: bool,
    reason: Option<Seq<char>>,
) -> ActionModel {
    ActionModel::Send {
        connection: session.connection,
        message: MessageModel::PairResult { accepted, reason },
    }
}

/// The other user typed a code that does not match.
#[verifier::opaque]
pub open spec fn code_refused(
    m: EngineModel,
    session: SessionModel,
    pairing: PairingModel,
    at: Moment,
) -> EngineModel {
    let attempts = (pairing.attempts + 1) as u8;
    let answered = m.with_session(
        SessionModel { pairing: Some(PairingModel { attempts, ..pairing }), ..session },
    ).does(pair_result(session, false, Some("the code did not match"@)));
    if attempts >= MAX_ATTEMPTS {
        session_closed(
            answered.warns("Too many wrong pairing codes; the connection was closed."@),
            session.info.device_id,
            at,
        )
    } else {
        answered.warns(
            "That code did not match. "@ + decimal(attempts as nat) + " of 3 attempts used."@,
        )
    }
}

/// The other user typed a code.
#[verifier::opaque]
pub open spec fn pair_responded(
    m: EngineModel,
    peer: Seq<char>,
    code: Seq<char>,
    at: Moment,
) -> EngineModel {
    match find(m.sessions, peer) {
        None => m,
        Some(session) => match session.pairing {
            Some(pairing) => match pairing.code_to_share {
                Some(expected) => if digits_of(code) == digits_of(expected) {
                    link_ensured(
                        peer_remembered(m, session, at).with_session(paired(session)),
                        peer,
                        session.info.name,
                    ).does(pair_result(session, true, None)).informs(
                        "Paired with "@ + session.info.name + "."@,
                    ).sends_displays(peer).publishes(at)
                } else {
                    code_refused(m, session, pairing, at).publishes(at)
                },
                None => m.does(
                    pair_result(
                        session,
                        false,
                        Some("this machine is not showing a pairing code"@),
                    ),
                ),
            },
            None => m.does(
                pair_result(session, false, Some("this machine is not showing a pairing code"@)),
            ),
        },
    }
}

/// Whether the user of this machine typed a code for a session.
pub open spec fn has_typed(session: SessionModel) -> bool {
    session.pairing matches Some(pairing) && pairing.typed
}

/// Whether a code that was typed here waits to be judged: this side shows none itself.
pub open spec fn awaits_judgement(session: SessionModel) -> bool {
    session.pairing matches Some(pairing) && pairing.awaiting_code && pairing.code_to_share is None
        && pairing.typed
}

/// The other side judged a code. That it accepts one counts only where the user of this
/// machine typed one and this machine shows none: nobody can accept what was not typed.
#[verifier::opaque]
pub open spec fn pair_judged(
    m: EngineModel,
    peer: Seq<char>,
    accepted: bool,
    reason: Option<Seq<char>>,
    at: Moment,
) -> EngineModel {
    match find(m.sessions, peer) {
        None => m,
        Some(session) => if accepted && !awaits_judgement(session) {
            m.publishes(at)
        } else if accepted {
            link_ensured(peer_remembered(m, session, at), peer, session.info.name).with_session(
                paired(session),
            ).informs("Paired with "@ + session.info.name + "."@).sends_displays(peer).publishes(at)
        } else {
            let message = match reason {
                Some(text) => text,
                None => "pairing rejected"@,
            };
            m.with_session(
                SessionModel {
                    state: ConnectionModel::Failed { reason: message },
                    pairing: None,
                    ..session
                },
            ).warns("Pairing rejected: "@ + message).publishes(at)
        },
    }
}

/// A session for which the local user typed a code. Where nothing was asked for, as after
/// a wrong code, the answer to this one is awaited all the same.
pub open spec fn typed_for(session: SessionModel) -> SessionModel {
    if session.trusted {
        session
    } else {
        SessionModel {
            pairing: Some(
                match session.pairing {
                    Some(pairing) => PairingModel { typed: true, ..pairing },
                    None => PairingModel {
                        code_to_share: None,
                        awaiting_code: true,
                        attempts: 0,
                        typed: true,
                    },
                },
            ),
            ..session
        }
    }
}

/// The local user answered a request to pair.
#[verifier::opaque]
pub open spec fn pairing_answered(
    m: EngineModel,
    peer: Seq<char>,
    code: Option<Seq<char>>,
    accept: bool,
    at: Moment,
) -> EngineModel {
    match find(m.sessions, peer) {
        None => m,
        Some(session) => if !accept {
            session_closed(
                m.does(pair_result(session, false, Some("the request was declined"@))),
                peer,
                at,
            ).publishes(at)
        } else {
            match code {
                Some(text) => m.with_session(typed_for(session)).does(
                    ActionModel::Send {
                        connection: session.connection,
                        message: MessageModel::PairResponse { code: text, device: own_info(m) },
                    },
                ),
                None => m,
            }
        },
    }
}

impl Engine {
    /// Called by the side that wants the other user to type a code.
    pub fn request_pairing(&mut self, peer: &DeviceId, draw: u64, at: Moment)
        ensures
            final(self).deep_view() == pairing_requested(old(self).deep_view(), peer@, draw, at),
    {
        proof {
            reveal(pairing_requested);
        }
        let i: usize = position(&self.sessions, peer);
        if i >= self.sessions.len() {
            return;
        }
        let code = pairing_code(draw);
        let ghost before = self.sessions.deep_view();
        let session = &mut self.sessions[i];
        session.state = ConnectionState::Pairing;
        session.pairing = Some(
            Pairing { code_to_share: Some(code), awaiting_code: false, attempts: 0, typed: false },
        );
        let connection: u64 = session.connection;
        assert(self.sessions.deep_view() =~= put(
            before,
            SessionModel {
                state: ConnectionModel::Pairing,
                pairing: Some(
                    PairingModel {
                        code_to_share: Some(code_of(draw)),
                        awaiting_code: false,
                        attempts: 0,
                        typed: false,
                    },
                ),
                ..before[i as int]
            },
        ));
        let code_hint = String::new();
        assert(code_hint@ =~= Seq::<char>::empty());
        self.emit(Action::Send { connection, message: Message::PairRequired { code_hint } });
        self.publish(at);
    }

    /// The side that shows no code waited long enough.
    pub fn on_pairing_handoff(&mut self, peer: &DeviceId, draw: u64, at: Moment)
        ensures
            final(self).deep_view() == pairing_handed_off(old(self).deep_view(), peer@, draw, at),
    {
        proof {
            reveal(pairing_handed_off);
        }
        let needs_code = match self.session(peer) {
            Some(session) => !session.trusted && match &session.pairing {
                Some(pairing) => !pairing.awaiting_code,
                None => true,
            },
            None => false,
        };
        if needs_code {
            self.request_pairing(peer, draw, at);
        }
    }

    /// A connection came up.
    #[verifier::spinoff_prover]
    pub fn on_session_established(&mut self, established: Established, draw: u64, at: Moment)
        requires
            established.remote_static@.len() <= 0xffff,
        ensures
            final(self).deep_view() == session_established(
                old(self).deep_view(),
                established.deep_view(),
                draw,
                at,
            ),
    {
        proof {
            reveal(session_established);
        }
        let peer = established.info.device_id.clone();
        let _ = remove_all(&mut self.connecting, &peer);
        self.check_key(established, draw, at);
    }

    #[verifier::spinoff_prover]
    fn check_key(&mut self, established: Established, draw: u64, at: Moment)
        requires
            established.remote_static@.len() <= 0xffff,
        ensures
            final(self).deep_view() == key_checked(
                old(self).deep_view(),
                established.deep_view(),
                draw,
                at,
            ),
    {
        proof {
            reveal(key_checked);
        }
        let key = base64_key(established.remote_static.as_slice());
        let trusted = match self.peers.get(&established.info.device_id) {
            Some(record) => {
                if !same_text(record.public_key.as_str(), key.as_str()) {
                    self.refuse_key(established, at);
                    return;
                }
                true
            },
            None => false,
        };
        self.weigh_session(established, trusted, draw, at);
    }

    #[verifier::spinoff_prover]
    fn weigh_session(&mut self, established: Established, trusted: bool, draw: u64, at: Moment)
        requires
            trusted == holds(
                old(self).deep_view().peers,
                established.deep_view().info.device_id,
            ),
        ensures
            final(self).deep_view() == session_weighed(
                old(self).deep_view(),
                established.deep_view(),
                draw,
                at,
            ),
    {
        proof {
            reveal(session_weighed);
        }
        // Both sides may dial at the same moment; the machine with the smaller
        // device id is the one whose connection is kept.
        let peer = established.info.device_id.clone();
        let mine_first = comes_before(self.identity.device_id.as_str(), peer.as_str());
        let is_preferred = established.initiator == mine_first;
        let redundant = match self.session(&peer) {
            Some(existing) => existing.initiator == mine_first && !is_preferred,
            None => false,
        };
        if redundant {
            self.emit(Action::Close { connection: established.connection });
        } else {
            self.accept_session(established, trusted, draw, at);
        }
    }

    #[verifier::spinoff_prover]
    fn refuse_key(&mut self, established: Established, at: Moment)
        ensures
            final(self).deep_view() == key_refused(
                old(self).deep_view(),
                established.deep_view(),
                at,
            ),
    {
        proof {
            reveal(key_refused);
        }
        let connection: u64 = established.connection;
        let text = cat2(
            established.info.name.as_str(),
            " presented a different key than the one you paired with. The connection was refused; forget the machine and pair again if you replaced it.",
        );
        self.alarm(text.as_str());
        self.emit(
            Action::Send {
                connection,
                message: Message::Bye { reason: "identity changed".to_owned() },
            },
        );
        self.emit(Action::Close { connection });
        self.publish(at);
    }

    #[verifier::spinoff_prover]
    fn accept_session(&mut self, established: Established, trusted: bool, draw: u64, at: Moment)
        requires
            trusted == holds(
                old(self).deep_view().peers,
                established.deep_view().info.device_id,
            ),
        ensures
            final(self).deep_view() == session_accepted(
                old(self).deep_view(),
                established.deep_view(),
                draw,
                at,
            ),
    {
        proof {
            reveal(session_accepted);
        }
        let ghost e = established.deep_view();
        let connection: u64 = established.connection;
        let peer = established.info.device_id.clone();
        let theirs_first = comes_before(peer.as_str(), self.identity.device_id.as_str());
        let previous = match self.session(&peer) {
            Some(existing) => Some(existing.connection),
            None => None,
        };
        let displays = clone_displays(&established.info.displays);
        let name = established.info.name.clone();
        let session = Session {
            connection,
            initiator: established.initiator,
            remote_static: established.remote_static,
            info: established.info,
            trusted,
            state: if trusted {
                ConnectionState::Connected
            } else {
                ConnectionState::Pairing
            },
            pairing: None,
            displays,
            extent: established.extent,
            last_rx: at.ms,
        };
        assert(session.deep_view() == new_session(e, trusted, at));
        replace_or_push(&mut self.sessions, &peer, session);
        if let Some(old_connection) = previous {
            self.emit(Action::Close { connection: old_connection });
        }
        self.emit(Action::Listen { connection, peer: peer.clone() });
        self.note_seen(&peer, name.as_str(), at.unix);
        self.emit(Action::SavePeers);

        if trusted {
            let text = cat3("Connected to ", name.as_str(), ".");
            self.inform(text.as_str());
            self.send_displays(&peer);
        } else if theirs_first {
            // The larger device id shows the code so only one side ever offers one.
            self.request_pairing(&peer, draw, at);
        } else {
            self.emit(Action::HandoffLater { peer });
        }
        self.publish(at);
    }

    fn note_seen(&mut self, peer: &DeviceId, name: &str, unix: u64)
        ensures
            final(self).deep_view() == (EngineModel {
                peers: seen_again(old(self).deep_view().peers, peer@, name@, unix),
                ..old(self).deep_view()
            }),
    {
        proof {
            reveal(seen_again);
            lemma_index_of(self.peers.deep_view(), peer@);
        }
        match self.peers.get_mut(peer) {
            Some(record) => {
                record.last_seen = Some(unix);
                record.name = name.to_owned();
                record.last_address = None;
            },
            None => {},
        }
    }

    fn remember_peer(&mut self, i: usize, at: Moment)
        requires
            i < old(self).sessions@.len(),
            old(self).sessions@[i as int].remote_static@.len() <= 0xffff,
        ensures
            final(self).deep_view() == peer_remembered(
                old(self).deep_view(),
                old(self).deep_view().sessions[i as int],
                at,
            ),
            final(self).deep_view().sessions == old(self).deep_view().sessions,
    {
        proof {
            reveal(peer_remembered);
        }
        let session = &self.sessions[i];
        let record = PeerRecord {
            device_id: session.info.device_id.clone(),
            name: session.info.name.clone(),
            public_key: base64_key(session.remote_static.as_slice()),
            fingerprint: session.info.fingerprint.clone(),
            os: session.info.os,
            last_seen: Some(at.unix),
            last_address: None,
        };
        let _ = self.peers.upsert(record);
        self.emit(Action::SavePeers);
    }

    /// Gives a freshly paired machine a default edge so it is usable at once.
    pub fn ensure_link(&mut self, peer: &DeviceId, name: &str)
        ensures
            final(self).deep_view() == link_ensured(old(self).deep_view(), peer@, name@),
            final(self).deep_view().sessions == old(self).deep_view().sessions,
    {
        proof {
            reveal(link_ensured);
        }
        if self.settings.link_for(peer).is_some() {
            return;
        }
        let side = if comes_before(self.identity.device_id.as_str(), peer.as_str()) {
            Side::Right
        } else {
            Side::Left
        };
        self.settings.set_link(EdgeLink::new(peer.clone(), name, side));
        self.emit(Action::SaveSettings);
    }

    fn mark_paired(&mut self, i: usize)
        requires
            i < old(self).sessions@.len(),
            i == index_of(
                old(self).deep_view().sessions,
                old(self).deep_view().sessions[i as int].info.device_id,
            ),
        ensures
            final(self).deep_view() == old(self).deep_view().with_session(
                paired(old(self).deep_view().sessions[i as int]),
            ),
    {
        let ghost before = self.sessions.deep_view();
        let session = &mut self.sessions[i];
        session.trusted = true;
        session.state = ConnectionState::Connected;
        session.pairing = None;
        assert(self.sessions.deep_view() =~= put(before, paired(before[i as int])));
    }

    /// The other user typed a code.
    #[verifier::spinoff_prover]
    pub fn on_pair_response(&mut self, peer: &DeviceId, code: &str, at: Moment)
        requires
            at.valid(),
            sessions_sound(old(self).deep_view().sessions),
        ensures
            final(self).deep_view() == pair_responded(old(self).deep_view(), peer@, code@, at),
    {
        proof {
            reveal(pair_responded);
        }
        let ghost m = self.deep_view();
        let i: usize = position(&self.sessions, peer);
        if i >= self.sessions.len() {
            return;
        }
        assert(session_sound(m.sessions[i as int]));
        let connection: u64 = self.sessions[i].connection;
        let expected = match &self.sessions[i].pairing {
            Some(pairing) => match &pairing.code_to_share {
                Some(expected) => Some(expected.clone()),
                None => None,
            },
            None => None,
        };
        let expected = match expected {
            Some(expected) => expected,
            None => {
                self.emit(
                    Action::Send {
                        connection,
                        message: Message::PairResult {
                            accepted: false,
                            reason: Some("this machine is not showing a pairing code".to_owned()),
                        },
                    },
                );
                return;
            },
        };
        let given = normalize_code(code);
        let wanted = normalize_code(expected.as_str());
        if same_text(given.as_str(), wanted.as_str()) {
            let name = self.sessions[i].info.name.clone();
            self.remember_peer(i, at);
            self.mark_paired(i);
            self.ensure_link(peer, name.as_str());
            self.emit(
                Action::Send {
                    connection,
                    message: Message::PairResult { accepted: true, reason: None },
                },
            );
            let text = cat3("Paired with ", name.as_str(), ".");
            self.inform(text.as_str());
            self.send_displays(peer);
        } else {
            self.refuse_code(i, at);
        }
        self.publish(at);
    }

    #[verifier::spinoff_prover]
    fn refuse_code(&mut self, i: usize, at: Moment)
        requires
            at.valid(),
            i < old(self).sessions@.len(),
            session_sound(old(self).deep_view().sessions[i as int]),
            old(self).deep_view().sessions[i as int].pairing is Some,
            i == index_of(
                old(self).deep_view().sessions,
                old(self).deep_view().sessions[i as int].info.device_id,
            ),
        ensures
            final(self).deep_view() == code_refused(
                old(self).deep_view(),
                old(self).deep_view().sessions[i as int],
                old(self).deep_view().sessions[i as int].pairing->Some_0,
                at,
            ),
    {
        proof {
            reveal(code_refused);
        }
        let ghost before = self.sessions.deep_view();
        let peer = self.sessions[i].info.device_id.clone();
        let connection: u64 = self.sessions[i].connection;
        let mut attempts: u8 = 0;
        let session = &mut self.sessions[i];
        match &mut session.pairing {
            Some(pairing) => {
                pairing.attempts = pairing.attempts + 1;
                attempts = pairing.attempts;
            },
            None => {},
        }
        proof {
            let old_session = before[i as int];
            let pairing = old_session.pairing->Some_0;
            let next = SessionModel {
                pairing: Some(
                    PairingModel { attempts: (pairing.attempts + 1) as u8, ..pairing },
                ),
                ..old_session
            };
            assert(self.sessions.deep_view() =~= put(before, next));
        }
        self.emit(
            Action::Send {
                connection,
                message: Message::PairResult {
                    accepted: false,
                    reason: Some("the code did not match".to_owned()),
                },
            },
        );
        if attempts >= MAX_ATTEMPTS {
            self.warn("Too many wrong pairing codes; the connection was closed.");
            self.close_session(&peer, at);
        } else {
            let count = format_decimal(attempts as u64);
            let text = cat3("That code did not match. ", count.as_str(), " of 3 attempts used.");
            self.warn(text.as_str());
        }
    }

    /// The other side judged the code that was typed here. Acceptance counts only where a
    /// code was typed.
    #[verifier::spinoff_prover]
    pub fn on_pair_result(
        &mut self,
        peer: &DeviceId,
        accepted: bool,
        reason: Option<String>,
        at: Moment,
    )
        requires
            sessions_sound(old(self).deep_view().sessions),
        ensures
            final(self).deep_view() == pair_judged(
                old(self).deep_view(),
                peer@,
                accepted,
                reason.deep_view(),
                at,
            ),
    {
        proof {
            reveal(pair_judged);
        }
        let ghost m = self.deep_view();
        let i: usize = position(&self.sessions, peer);
        if i >= self.sessions.len() {
            return;
        }
        assert(session_sound(m.sessions[i as int]));
        let awaited = match &self.sessions[i].pairing {
            Some(pairing) => pairing.awaiting_code && pairing.code_to_share.is_none()
                && pairing.typed,
            None => false,
        };
        if accepted && !awaited {
            self.publish(at);
            return;
        }
        if accepted {
            let name = self.sessions[i].info.name.clone();
            self.remember_peer(i, at);
            self.ensure_link(peer, name.as_str());
            self.mark_paired(i);
            let text = cat3("Paired with ", name.as_str(), ".");
            self.inform(text.as_str());
            self.send_displays(peer);
        } else {
            let message = match reason {
                Some(text) => text,
                None => "pairing rejected".to_owned(),
            };
            let ghost before = self.sessions.deep_view();
            let session = &mut self.sessions[i];
            session.state = ConnectionState::Failed { reason: message.clone() };
            session.pairing = None;
            assert(self.sessions.deep_view() =~= put(
                before,
                SessionModel {
                    state: ConnectionModel::Failed { reason: message@ },
                    pairing: None,
                    ..before[i as int]
                },
            ));
            let text = cat2("Pairing rejected: ", message.as_str());
            self.warn(text.as_str());
        }
        self.publish(at);
    }

    /// The local user answered a request to pair.
    #[verifier::spinoff_prover]
    pub fn answer_pairing(
        &mut self,
        peer: &DeviceId,
        code: Option<String>,
        accept: bool,
        at: Moment,
    )
        requires
            at.valid(),
        ensures
            final(self).deep_view() == pairing_answered(
                old(self).deep_view(),
                peer@,
                code.deep_view(),
                accept,
                at,
            ),
    {
        proof {
            reveal(pairing_answered);
        }
        let i: usize = position(&self.sessions, peer);
        if i >= self.sessions.len() {
            return;
        }
        let connection: u64 = self.sessions[i].connection;
        if !accept {
            self.emit(
                Action::Send {
                    connection,
                    message: Message::PairResult {
                        accepted: false,
                        reason: Some("the request was declined".to_owned()),
                    },
                },
            );
            self.close_session(peer, at);
            self.publish(at);
            return;
        }
        match code {
            Some(code) => {
                let ghost before = self.sessions.deep_view();
                let ghost asked = self.deep_view();
                if !self.sessions[i].trusted {
                    let session = &mut self.sessions[i];
                    match &mut session.pairing {
                        Some(pairing) => {
                            pairing.typed = true;
                        },
                        None => {
                            session.pairing = Some(
                                Pairing {
                                    code_to_share: None,
                                    awaiting_code: true,
                                    attempts: 0,
                                    typed: true,
                                },
                            );
                        },
                    }
                }
                assert(self.sessions.deep_view() =~= put(before, typed_for(before[i as int])));
                proof {
                    reveal(own_info);
                    assert(own_info(self.deep_view()) == own_info(asked));
                }
                let device = self.device_info();
                self.emit(
                    Action::Send { connection, message: Message::PairResponse { code, device } },
                );
            },
            None => {},
        }
    }
}

} // verus!
