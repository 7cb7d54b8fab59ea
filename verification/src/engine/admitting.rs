//! What connecting to a machine and pairing with it promises.

use vstd::prelude::*;

use crate::config::{EdgeLinkModel, PeerRecordModel, SettingsModel};
use crate::encoding::base64_text;
use crate::engine::dispatch::{code_required, handled, heard_of, Event};
use crate::engine::meeting::{
    closes, dialling_but, lemma_closes, lemma_meets, lemma_parting, lemma_published, meets,
};
use crate::engine::pairing::{
    code_of, code_refused, digits_of, key_checked, key_refused, link_ensured, pair_judged,
    pair_responded, pairing_answered, pairing_handed_off, pairing_requested, peer_remembered,
    seen_again, session_accepted, session_established, session_weighed, EstablishedModel,
};
use crate::engine::rules::{own_info, public_key_of, session_closed};
use crate::engine::snapshot::{lemma_shows_itself, snapshot_of};
use crate::engine::state::{
    ActionModel, Command, EngineModel, Established, Moment, PairingModel, SessionModel,
};
use crate::engine::steering::{heard_from, lemma_heard_from, says};
use crate::geom::{Double, Side};
use crate::identity::{fingerprint_text, DeviceId};
use crate::keyed::{find, law_find_after_put, law_put_leaves_others, lemma_index_of, put};
use crate::naming::{law_six_digits_have_the_value, value_of};
use crate::protocol::{DeviceInfo, DeviceInfoModel, Message, MessageModel};
use crate::text::{decimal, precedes};
use crate::view::{ConnectionModel, NoticeModel};

verus! {

/// The characters of a code that count: its decimal digits.
pub open spec fn counts(code: Seq<char>) -> Seq<char> {
    code.filter(|c: char| '0' <= c <= '9')
}

proof fn lemma_counts(code: Seq<char>)
    ensures
        digits_of(code) == counts(code),
    decreases code.len(),
{
    reveal(Seq::filter);
    if code.len() > 0 {
        lemma_counts(code.drop_last());
    }
}

/// Whether `after` trusts the same machines as `before`, but for the one of `record`.
pub open spec fn remembers(
    before: Seq<PeerRecordModel>,
    after: Seq<PeerRecordModel>,
    record: PeerRecordModel,
) -> bool {
    forall|id: Seq<char>| #[trigger]
        find(after, id) == if id == record.device_id {
            Some(record)
        } else {
            find(before, id)
        }
}

proof fn lemma_remembers(before: Seq<PeerRecordModel>, record: PeerRecordModel)
    ensures
        remembers(before, put(before, record), record),
{
    law_find_after_put(before, record);
    assert forall|id: Seq<char>| id != record.device_id implies #[trigger] find(
        put(before, record),
        id,
    ) == find(before, id) by {
        law_put_leaves_others(before, record, id);
    }
}

/// Whether a machine shows another key than the one it was paired with.
pub open spec fn shows_another_key(m: EngineModel, e: EstablishedModel) -> bool {
    find(m.peers, e.info.device_id) matches Some(record) && record.public_key != base64_text(
        e.remote_static,
    )
}

/// Whether a new connection is the lesser one of two to the same machine: of two machines
/// the one whose id comes first keeps the connection that it started.
pub open spec fn is_lesser(m: EngineModel, e: EstablishedModel) -> bool {
    let first = precedes(m.identity.device_id, e.info.device_id);
    find(m.sessions, e.info.device_id) matches Some(existing) && existing.initiator == first
        && e.initiator != first
}

#[verifier::spinoff_prover]
proof fn lemma_refused_key(m: EngineModel, e: EstablishedModel, at: Moment)
    ensures
        ({
            let after = key_refused(m, e, at);
            &&& after == (EngineModel { out: after.out, ..m })
            &&& after.out == m.out + refuses(after, e, at)
        }),
{
    reveal(key_refused);
    let after = key_refused(m, e, at);
    lemma_shows_itself(after, at.unix);
    assert(after.out =~= m.out + refuses(after, e, at));
}

/// What is asked for when a machine is refused for its key.
pub open spec fn refuses(after: EngineModel, e: EstablishedModel, at: Moment) -> Seq<ActionModel> {
    seq![
        ActionModel::Notify(
            NoticeModel::Error {
                message: e.info.name
                    + " presented a different key than the one you paired with. The connection was refused; forget the machine and pair again if you replaced it."@,
            },
        ),
        ActionModel::Send {
            connection: e.connection,
            message: MessageModel::Bye { reason: "identity changed"@ },
        },
        ActionModel::Close { connection: e.connection },
        ActionModel::Publish(snapshot_of(after, at.unix)),
    ]
}

/// A machine that shows another key than the one it was paired with is refused: it is told
/// so, the connection is closed and the user is warned; nothing else changes.
#[verifier::spinoff_prover]
pub proof fn law_another_key_is_refused(
    m: EngineModel,
    established: Established,
    draw: u64,
    at: Moment,
)
    requires
        shows_another_key(m, established.deep_view()),
    ensures
        ({
            let e = established.deep_view();
            let after = handled(m, Event::SessionEstablished(established), draw, at);
            &&& after == (EngineModel {
                connecting: dialling_but(m, e.info.device_id),
                out: after.out,
                ..m
            })
            &&& after.out == m.out + refuses(after, e, at)
        }),
{
    reveal(session_established);
    reveal(key_checked);
    let e = established.deep_view();
    lemma_parting(m, e.info.device_id);
    lemma_refused_key(
        EngineModel { connecting: dialling_but(m, e.info.device_id), ..m },
        e,
        at,
    );
}

/// The lesser one of two connections to the same machine is closed, and the session that is
/// there goes on.
#[verifier::spinoff_prover]
pub proof fn law_the_lesser_connection_is_closed(
    m: EngineModel,
    established: Established,
    draw: u64,
    at: Moment,
)
    requires
        !shows_another_key(m, established.deep_view()),
        is_lesser(m, established.deep_view()),
    ensures
        handled(m, Event::SessionEstablished(established), draw, at) == (EngineModel {
            connecting: dialling_but(m, established.deep_view().info.device_id),
            out: m.out.push(ActionModel::Close { connection: established.deep_view().connection }),
            ..m
        }),
{
    reveal(session_established);
    reveal(key_checked);
    reveal(session_weighed);
    lemma_parting(m, established.deep_view().info.device_id);
}

/// The session with which a connection starts.
pub open spec fn first_session(
    m: EngineModel,
    e: EstablishedModel,
    draw: u64,
    at: Moment,
) -> SessionModel {
    let known = find(m.peers, e.info.device_id) is Some;
    SessionModel {
        connection: e.connection,
        initiator: e.initiator,
        remote_static: e.remote_static,
        info: e.info,
        trusted: known,
        state: if known {
            ConnectionModel::Connected
        } else {
            ConnectionModel::Pairing
        },
        pairing: if !known && precedes(e.info.device_id, m.identity.device_id) {
            Some(
                PairingModel {
                    code_to_share: Some(code_of(draw)),
                    awaiting_code: false,
                    attempts: 0,
                    typed: false,
                },
            )
        } else {
            None
        },
        displays: e.info.displays,
        extent: e.extent,
        last_rx: at.ms,
    }
}

/// Whether the trust store of `after` is that of `m`, but for the time and the name under
/// which the machine of a connection was seen.
pub open spec fn sees_again(
    m: EngineModel,
    after: EngineModel,
    e: EstablishedModel,
    at: Moment,
) -> bool {
    match find(m.peers, e.info.device_id) {
        Some(record) => remembers(
            m.peers,
            after.peers,
            PeerRecordModel {
                name: e.info.name,
                last_seen: Some(at.unix),
                last_address: None,
                ..record
            },
        ),
        None => after.peers == m.peers,
    }
}

/// What is asked for when a connection is kept, but for the pictures: the earlier one to the
/// same machine is closed, what comes over the new one is listened to, and the machine is
/// greeted. A trusted one is told of the displays here. Of two strangers, the one whose id
/// comes last shows a code and the other one waits for it.
pub open spec fn greets(
    m: EngineModel,
    e: EstablishedModel,
) -> Seq<ActionModel> {
    let peer = e.info.device_id;
    (match find(m.sessions, peer) {
        Some(previous) => seq![ActionModel::Close { connection: previous.connection }],
        None => Seq::empty(),
    }) + seq![ActionModel::Listen { connection: e.connection, peer }, ActionModel::SavePeers] + (
    if find(m.peers, peer) is Some {
        seq![
            ActionModel::Notify(
                NoticeModel::Info { message: "Connected to "@ + e.info.name + "."@ },
            ),
            ActionModel::Send {
                connection: e.connection,
                message: MessageModel::Displays { displays: m.displays },
            },
        ]
    } else if precedes(peer, m.identity.device_id) {
        seq![
            ActionModel::Send {
                connection: e.connection,
                message: MessageModel::PairRequired { code_hint: Seq::empty() },
            },
        ]
    } else {
        seq![ActionModel::HandoffLater { peer }]
    })
}

proof fn lemma_sees_again(m: EngineModel, e: EstablishedModel, at: Moment)
    ensures
        sees_again(
            m,
            EngineModel {
                peers: seen_again(m.peers, e.info.device_id, e.info.name, at.unix),
                ..m
            },
            e,
            at,
        ),
{
    reveal(seen_again);
    lemma_index_of(m.peers, e.info.device_id);
    if let Some(record) = find(m.peers, e.info.device_id) {
        lemma_remembers(
            m.peers,
            PeerRecordModel {
                last_seen: Some(at.unix),
                name: e.info.name,
                last_address: None,
                ..record
            },
        );
    }
}

#[verifier::spinoff_prover]
#[verifier::rlimit(60)]
proof fn lemma_friend_accepted(m: EngineModel, e: EstablishedModel, draw: u64, at: Moment)
    requires
        find(m.peers, e.info.device_id) is Some,
    ensures
        ({
            let after = session_accepted(m, e, draw, at);
            &&& meets(m, after, first_session(m, e, draw, at))
            &&& sees_again(m, after, e, at)
            &&& after == (EngineModel {
                sessions: after.sessions,
                peers: after.peers,
                out: after.out,
                ..m
            })
            &&& after.out == m.out + greets(m, e) + seq![ActionModel::Publish(snapshot_of(after, at.unix))]
        }),
{
    reveal(session_accepted);
    let after = session_accepted(m, e, draw, at);
    let first = first_session(m, e, draw, at);
    assert(first == crate::engine::pairing::new_session(e, true, at));
    lemma_meets(m, first);
    lemma_sees_again(m, e, at);
    lemma_shows_itself(after, at.unix);
    assert(after.sessions == m.with_session(first).sessions);
    assert(find(after.sessions, e.info.device_id) == Some(first));
    assert(after.out =~= m.out + greets(m, e) + seq![
        ActionModel::Publish(snapshot_of(after, at.unix)),
    ]);
}

#[verifier::spinoff_prover]
#[verifier::rlimit(60)]
proof fn lemma_waiting_accepted(m: EngineModel, e: EstablishedModel, draw: u64, at: Moment)
    requires
        find(m.peers, e.info.device_id) is None,
        !precedes(e.info.device_id, m.identity.device_id),
    ensures
        ({
            let after = session_accepted(m, e, draw, at);
            &&& meets(m, after, first_session(m, e, draw, at))
            &&& sees_again(m, after, e, at)
            &&& after == (EngineModel {
                sessions: after.sessions,
                peers: after.peers,
                out: after.out,
                ..m
            })
            &&& after.out == m.out + greets(m, e) + seq![ActionModel::Publish(snapshot_of(after, at.unix))]
        }),
{
    reveal(session_accepted);
    let after = session_accepted(m, e, draw, at);
    let first = first_session(m, e, draw, at);
    assert(first == crate::engine::pairing::new_session(e, false, at));
    lemma_meets(m, first);
    lemma_sees_again(m, e, at);
    lemma_shows_itself(after, at.unix);
    assert(after.sessions == m.with_session(first).sessions);
    assert(after.out =~= m.out + greets(m, e) + seq![
        ActionModel::Publish(snapshot_of(after, at.unix)),
    ]);
}

/// Asking for a code makes the session one that shows it, and tells so.
proof fn lemma_requested(m: EngineModel, peer: Seq<char>, draw: u64, at: Moment)
    requires
        find(m.sessions, peer) is Some,
    ensures
        ({
            let after = pairing_requested(m, peer, draw, at);
            let session = find(m.sessions, peer)->Some_0;
            &&& meets(m, after, shows_code(session, code_of(draw)))
            &&& after == (EngineModel { sessions: after.sessions, out: after.out, ..m })
            &&& after.out == m.out.push(
                ActionModel::Send {
                    connection: session.connection,
                    message: MessageModel::PairRequired { code_hint: Seq::empty() },
                },
            ).push(ActionModel::Publish(snapshot_of(after, at.unix)))
        }),
{
    reveal(pairing_requested);
    let after = pairing_requested(m, peer, draw, at);
    let session = find(m.sessions, peer)->Some_0;
    lemma_shows_itself(after, at.unix);
    lemma_meets(m, shows_code(session, code_of(draw)));
    assert(after.sessions == m.with_session(shows_code(session, code_of(draw))).sessions);
}

#[verifier::spinoff_prover]
#[verifier::rlimit(60)]
proof fn lemma_showing_accepted(m: EngineModel, e: EstablishedModel, draw: u64, at: Moment)
    requires
        find(m.peers, e.info.device_id) is None,
        precedes(e.info.device_id, m.identity.device_id),
    ensures
        ({
            let after = session_accepted(m, e, draw, at);
            &&& meets(m, after, first_session(m, e, draw, at))
            &&& sees_again(m, after, e, at)
            &&& after == (EngineModel {
                sessions: after.sessions,
                peers: after.peers,
                out: after.out,
                ..m
            })
            &&& after.out == m.out + greets(m, e) + seq![
                ActionModel::Publish(snapshot_of(after, at.unix)),
                ActionModel::Publish(snapshot_of(after, at.unix)),
            ]
        }),
{
    reveal(session_accepted);
    let peer = e.info.device_id;
    let after = session_accepted(m, e, draw, at);
    let plain = crate::engine::pairing::new_session(e, false, at);
    let first = first_session(m, e, draw, at);
    assert(first == shows_code(plain, code_of(draw)));
    lemma_meets(m, plain);
    lemma_sees_again(m, e, at);
    let added = m.with_session(plain);
    let replaced = match find(m.sessions, peer) {
        Some(previous) => added.does(ActionModel::Close { connection: previous.connection }),
        None => added,
    };
    let known = EngineModel {
        peers: seen_again(m.peers, peer, e.info.name, at.unix),
        ..replaced.does(ActionModel::Listen { connection: e.connection, peer })
    }.does(ActionModel::SavePeers);
    assert(find(known.sessions, peer) == Some(plain));
    lemma_requested(known, peer, draw, at);
    let asked = pairing_requested(known, peer, draw, at);
    lemma_published(asked, at);
    assert(after == asked.publishes(at));
    crate::engine::snapshot::law_requests_are_not_shown(after, asked.out, at.unix);
    assert(asked == (EngineModel { out: asked.out, ..after }));
    assert(after.out =~= m.out + greets(m, e) + seq![
        ActionModel::Publish(snapshot_of(after, at.unix)),
        ActionModel::Publish(snapshot_of(after, at.unix)),
    ]);
    assert forall|id: Seq<char>| #[trigger]
        find(after.sessions, id) == if id == first.info.device_id {
            Some(first)
        } else {
            find(m.sessions, id)
        } by {
        assert(find(asked.sessions, id) == find(after.sessions, id));
        assert(id != peer ==> find(known.sessions, id) == find(m.sessions, id)) by {
            assert(find(added.sessions, id) == find(known.sessions, id));
        }
    }
}

/// A connection that is kept makes the session with its machine: connected at once where the
/// machine is trusted, and to be paired first where it is not. The key that it proved, the
/// facts that it told and the time are those of the session. Nobody is trusted by it.
#[verifier::spinoff_prover]
pub proof fn law_a_kept_connection_makes_a_session(
    m: EngineModel,
    established: Established,
    draw: u64,
    at: Moment,
)
    requires
        !shows_another_key(m, established.deep_view()),
        !is_lesser(m, established.deep_view()),
    ensures
        ({
            let e = established.deep_view();
            let after = handled(m, Event::SessionEstablished(established), draw, at);
            let shows_a_code = find(m.peers, e.info.device_id) is None && precedes(
                e.info.device_id,
                m.identity.device_id,
            );
            &&& meets(m, after, first_session(m, e, draw, at))
            &&& sees_again(m, after, e, at)
            &&& after == (EngineModel {
                connecting: dialling_but(m, e.info.device_id),
                sessions: after.sessions,
                peers: after.peers,
                out: after.out,
                ..m
            })
            &&& after.out == m.out + greets(m, e) + if shows_a_code {
                seq![
                    ActionModel::Publish(snapshot_of(after, at.unix)),
                    ActionModel::Publish(snapshot_of(after, at.unix)),
                ]
            } else {
                seq![ActionModel::Publish(snapshot_of(after, at.unix))]
            }
        }),
{
    reveal(session_established);
    reveal(key_checked);
    reveal(session_weighed);
    let e = established.deep_view();
    lemma_parting(m, e.info.device_id);
    let free = EngineModel { connecting: dialling_but(m, e.info.device_id), ..m };
    if find(m.peers, e.info.device_id) is Some {
        lemma_friend_accepted(free, e, draw, at);
    } else if precedes(e.info.device_id, m.identity.device_id) {
        lemma_showing_accepted(free, e, draw, at);
    } else {
        lemma_waiting_accepted(free, e, draw, at);
    }
}

/// A session for which this machine shows a code that nobody has tried yet.
pub open spec fn shows_code(session: SessionModel, code: Seq<char>) -> SessionModel {
    SessionModel {
        state: ConnectionModel::Pairing,
        pairing: Some(
            PairingModel {
                code_to_share: Some(code),
                awaiting_code: false,
                attempts: 0,
                typed: false,
            },
        ),
        ..session
    }
}

#[verifier::spinoff_prover]
proof fn lemma_handed_off(m: EngineModel, peer: Seq<char>, draw: u64, at: Moment)
    ensures
        ({
            let after = pairing_handed_off(m, peer, draw, at);
            match find(m.sessions, peer) {
                None => after == m,
                Some(session) => if session.trusted || (session.pairing matches Some(pairing)
                    && pairing.awaiting_code) {
                    after == m
                } else {
                    &&& meets(m, after, shows_code(session, code_of(draw)))
                    &&& after == (EngineModel { sessions: after.sessions, out: after.out, ..m })
                    &&& after.out == m.out.push(
                        ActionModel::Send {
                            connection: session.connection,
                            message: MessageModel::PairRequired { code_hint: Seq::empty() },
                        },
                    ).push(ActionModel::Publish(snapshot_of(after, at.unix)))
                },
            }
        }),
{
    reveal(pairing_handed_off);
    reveal(pairing_requested);
    let after = pairing_handed_off(m, peer, draw, at);
    lemma_index_of(m.sessions, peer);
    if let Some(session) = find(m.sessions, peer) {
        if !session.trusted && !(session.pairing matches Some(pairing) && pairing.awaiting_code) {
            lemma_shows_itself(after, at.unix);
            lemma_meets(m, shows_code(session, code_of(draw)));
            assert(after.sessions == m.with_session(
                shows_code(session, code_of(draw)),
            ).sessions);
        }
    }
}

/// Where the other machine did not show a code in time, this one shows one; the other is
/// told that a code is wanted, not which one.
#[verifier::spinoff_prover]
pub proof fn law_the_waiting_side_shows_a_code(
    m: EngineModel,
    peer: DeviceId,
    draw: u64,
    at: Moment,
)
    ensures
        ({
            let after = handled(m, Event::PairingHandoff { peer }, draw, at);
            match find(m.sessions, peer@) {
                None => after == m,
                Some(session) => if session.trusted || (session.pairing matches Some(pairing)
                    && pairing.awaiting_code) {
                    after == m
                } else {
                    &&& meets(m, after, shows_code(session, code_of(draw)))
                    &&& after == (EngineModel { sessions: after.sessions, out: after.out, ..m })
                    &&& after.out == m.out.push(
                        ActionModel::Send {
                            connection: session.connection,
                            message: MessageModel::PairRequired { code_hint: Seq::empty() },
                        },
                    ).push(ActionModel::Publish(snapshot_of(after, at.unix)))
                },
            }
        }),
{
    lemma_handed_off(m, peer@, draw, at);
}

/// A session in which the code that the other machine shows is awaited here.
pub open spec fn awaits_code(session: SessionModel) -> SessionModel {
    SessionModel {
        state: ConnectionModel::Pairing,
        pairing: Some(
            PairingModel {
                code_to_share: None,
                awaiting_code: true,
                attempts: 0,
                typed: session.pairing matches Some(pairing) && pairing.typed,
            },
        ),
        ..session
    }
}

#[verifier::spinoff_prover]
proof fn lemma_required(m: EngineModel, peer: Seq<char>, at: Moment)
    ensures
        ({
            let after = code_required(m, peer, at);
            &&& after == (EngineModel { sessions: after.sessions, out: after.out, ..m })
            &&& after.out == m.out.push(ActionModel::Publish(snapshot_of(after, at.unix)))
            &&& match find(m.sessions, peer) {
                Some(session) => if session.trusted {
                    after.sessions == m.sessions
                } else {
                    meets(m, after, awaits_code(session))
                },
                None => after.sessions == m.sessions,
            }
        }),
{
    reveal(code_required);
    let after = code_required(m, peer, at);
    lemma_shows_itself(after, at.unix);
    if let Some(session) = find(m.sessions, peer) {
        lemma_meets(m, awaits_code(session));
        assert(!session.trusted ==> after.sessions == m.with_session(
            awaits_code(session),
        ).sessions);
    }
}

/// Where the other machine shows a code, the user of this one is asked for it, unless the
/// two trust each other already.
#[verifier::spinoff_prover]
pub proof fn law_a_shown_code_is_asked_for(
    m: EngineModel,
    peer: DeviceId,
    code_hint: String,
    extent: Option<(u64, u64)>,
    draw: u64,
    at: Moment,
)
    ensures
        ({
            let message = Message::PairRequired { code_hint };
            let after = handled(m, says(peer, message, extent), draw, at);
            &&& after == (EngineModel { sessions: after.sessions, out: after.out, ..m })
            &&& after.out == m.out.push(ActionModel::Publish(snapshot_of(after, at.unix)))
            &&& match find(m.sessions, peer@) {
                Some(session) => if session.trusted {
                    heard_from(m, after, peer@, at)
                } else {
                    meets(m, after, awaits_code(SessionModel { last_rx: at.ms, ..session }))
                },
                None => after.sessions == m.sessions,
            }
        }),
{
    lemma_heard_from(m, peer@, at);
    let heard = heard_of(m, peer@, at);
    lemma_required(heard, peer@, at);
    lemma_index_of(m.sessions, peer@);
    if find(m.sessions, peer@) is None {
        assert(heard == m) by {
            reveal(heard_of);
        }
    }
    assert(find(heard.sessions, peer@) is Some <==> find(m.sessions, peer@) is Some);
    let after = handled(
        m,
        says(peer, Message::PairRequired { code_hint }, extent),
        draw,
        at,
    );
    if let Some(session) = find(m.sessions, peer@) {
        lemma_meets_when_heard(
            m,
            after,
            peer@,
            awaits_code(SessionModel { last_rx: at.ms, ..session }),
            at,
        );
    }
}

/// What a session with `peer` becomes is the same whether the peer was heard of or not.
proof fn lemma_meets_when_heard(
    m: EngineModel,
    after: EngineModel,
    peer: Seq<char>,
    session: SessionModel,
    at: Moment,
)
    requires
        session.info.device_id == peer,
    ensures
        meets(heard_of(m, peer, at), after, session) ==> meets(m, after, session),
{
    lemma_heard_from(m, peer, at);
    let heard = heard_of(m, peer, at);
    if meets(heard, after, session) {
        assert forall|id: Seq<char>| #[trigger]
            find(after.sessions, id) == if id == session.info.device_id {
                Some(session)
            } else {
                find(m.sessions, id)
            } by {
            assert(id != peer ==> find(heard.sessions, id) == find(m.sessions, id));
        }
    }
}

/// A session between machines that trust each other.
pub open spec fn is_paired(session: SessionModel) -> SessionModel {
    SessionModel { trusted: true, state: ConnectionModel::Connected, pairing: None, ..session }
}

/// What is remembered of a machine once it is trusted: what it told of itself, and the key
/// that it proved.
pub open spec fn record_of(session: SessionModel, at: Moment) -> PeerRecordModel {
    PeerRecordModel {
        device_id: session.info.device_id,
        name: session.info.name,
        public_key: base64_text(session.remote_static),
        fingerprint: session.info.fingerprint,
        os: session.info.os,
        last_seen: Some(at.unix),
        last_address: None,
    }
}

/// The edge that a machine gets when it is paired: of two machines the one whose id comes
/// first has the other on its right, and the other has it on its left.
pub open spec fn first_edge(m: EngineModel, peer: Seq<char>, name: Seq<char>) -> EdgeLinkModel {
    let first = precedes(m.identity.device_id, peer);
    EdgeLinkModel {
        peer,
        peer_name: name,
        local_side: if first {
            Side::Right
        } else {
            Side::Left
        },
        remote_side: if first {
            Side::Left
        } else {
            Side::Right
        },
        local_range: (Double { bits: Double::ZERO_BITS }, Double { bits: Double::ONE_BITS }),
        remote_range: (Double { bits: Double::ZERO_BITS }, Double { bits: Double::ONE_BITS }),
        enabled: true,
    }
}

/// Whether the links of `after` are those of `m`, and one to `peer` where there was none.
pub open spec fn has_an_edge(
    m: EngineModel,
    after: EngineModel,
    peer: Seq<char>,
    name: Seq<char>,
) -> bool {
    if find(m.settings.links, peer) is Some {
        after.settings == m.settings
    } else {
        &&& after.settings == (SettingsModel { links: after.settings.links, ..m.settings })
        &&& forall|id: Seq<char>| #[trigger]
            find(after.settings.links, id) == if id == peer {
                Some(first_edge(m, peer, name))
            } else {
                find(m.settings.links, id)
            }
    }
}

/// Whether `after` is `m` in which the machine of `session` has become trusted.
pub open spec fn trusts_from_now(
    m: EngineModel,
    after: EngineModel,
    session: SessionModel,
    at: Moment,
) -> bool {
    let peer = session.info.device_id;
    &&& meets(m, after, is_paired(session))
    &&& remembers(m.peers, after.peers, record_of(session, at))
    &&& has_an_edge(m, after, peer, session.info.name)
    &&& after == (EngineModel {
        sessions: after.sessions,
        peers: after.peers,
        settings: after.settings,
        out: after.out,
        ..m
    })
}

/// What is asked for to remember a machine that has become trusted.
pub open spec fn saves(m: EngineModel, peer: Seq<char>) -> Seq<ActionModel> {
    if find(m.settings.links, peer) is Some {
        seq![ActionModel::SavePeers]
    } else {
        seq![ActionModel::SavePeers, ActionModel::SaveSettings]
    }
}

/// What is asked for once two machines trust each other.
pub open spec fn welcomes(m: EngineModel, session: SessionModel) -> Seq<ActionModel> {
    seq![
        ActionModel::Notify(NoticeModel::Info { message: "Paired with "@ + session.info.name + "."@ }),
        ActionModel::Send {
            connection: session.connection,
            message: MessageModel::Displays { displays: m.displays },
        },
    ]
}

#[verifier::spinoff_prover]
proof fn lemma_edge(m: EngineModel, peer: Seq<char>, name: Seq<char>)
    ensures
        ({
            let after = link_ensured(m, peer, name);
            &&& has_an_edge(m, after, peer, name)
            &&& after == (EngineModel { settings: after.settings, out: after.out, ..m })
            &&& after.out == if find(m.settings.links, peer) is Some {
                m.out
            } else {
                m.out.push(ActionModel::SaveSettings)
            }
        }),
{
    reveal(link_ensured);
    let after = link_ensured(m, peer, name);
    if find(m.settings.links, peer) is None {
        let link = first_edge(m, peer, name);
        assert(link == crate::config::plain_link(
            peer,
            name,
            crate::engine::pairing::default_side(m.identity.device_id, peer),
        ));
        law_find_after_put(m.settings.links, link);
        assert forall|id: Seq<char>| id != peer implies #[trigger] find(after.settings.links, id)
            == find(m.settings.links, id) by {
            law_put_leaves_others(m.settings.links, link, id);
        }
    }
}

#[verifier::spinoff_prover]
proof fn lemma_right_code(
    m: EngineModel,
    peer: Seq<char>,
    code: Seq<char>,
    session: SessionModel,
    pairing: PairingModel,
    expected: Seq<char>,
    at: Moment,
)
    requires
        find(m.sessions, peer) == Some(session),
        session.pairing == Some(pairing),
        pairing.code_to_share == Some(expected),
        counts(code) == counts(expected),
    ensures
        ({
            let after = pair_responded(m, peer, code, at);
            &&& trusts_from_now(m, after, session, at)
            &&& after.out == m.out + saves(m, peer) + seq![
                ActionModel::Send {
                    connection: session.connection,
                    message: MessageModel::PairResult { accepted: true, reason: None },
                },
            ] + welcomes(m, session) + seq![ActionModel::Publish(snapshot_of(after, at.unix))]
        }),
{
    reveal(pair_responded);
    reveal(peer_remembered);
    lemma_counts(code);
    lemma_counts(expected);
    lemma_index_of(m.sessions, peer);
    let after = pair_responded(m, peer, code, at);
    lemma_shows_itself(after, at.unix);
    lemma_meets(m, is_paired(session));
    lemma_remembers(m.peers, record_of(session, at));
    let known = peer_remembered(m, session, at).with_session(is_paired(session));
    assert(known.peers == put(m.peers, record_of(session, at)));
    assert(known.sessions == m.with_session(is_paired(session)).sessions);
    lemma_edge(known, peer, session.info.name);
    assert(first_edge(known, peer, session.info.name) == first_edge(m, peer, session.info.name));
    assert(find(known.sessions, peer) == Some(is_paired(session)));
    assert(after.out =~= m.out + saves(m, peer) + seq![
        ActionModel::Send {
            connection: session.connection,
            message: MessageModel::PairResult { accepted: true, reason: None },
        },
    ] + welcomes(m, session) + seq![ActionModel::Publish(snapshot_of(after, at.unix))]);
}

/// The right code for the one that is shown here makes its machine trusted: with the key
/// that it proved, at an edge of this desktop, and told so.
#[verifier::spinoff_prover]
pub proof fn law_the_right_code_pairs(
    m: EngineModel,
    peer: DeviceId,
    code: String,
    device: DeviceInfo,
    extent: Option<(u64, u64)>,
    draw: u64,
    at: Moment,
    session: SessionModel,
    pairing: PairingModel,
    expected: Seq<char>,
)
    requires
        find(m.sessions, peer@) == Some(session),
        session.pairing == Some(pairing),
        pairing.code_to_share == Some(expected),
        counts(code@) == counts(expected),
    ensures
        ({
            let message = Message::PairResponse { code, device };
            let after = handled(m, says(peer, message, extent), draw, at);
            let now = SessionModel { last_rx: at.ms, ..session };
            &&& trusts_from_now(m, after, now, at)
            &&& after.out == m.out + saves(m, peer@) + seq![
                ActionModel::Send {
                    connection: session.connection,
                    message: MessageModel::PairResult { accepted: true, reason: None },
                },
            ] + welcomes(m, session) + seq![ActionModel::Publish(snapshot_of(after, at.unix))]
        }),
{
    lemma_heard_from(m, peer@, at);
    lemma_index_of(m.sessions, peer@);
    let heard = heard_of(m, peer@, at);
    let now = SessionModel { last_rx: at.ms, ..session };
    lemma_right_code(heard, peer@, code@, now, pairing, expected, at);
    let after = handled(m, says(peer, Message::PairResponse { code, device }, extent), draw, at);
    lemma_meets_when_heard(m, after, peer@, is_paired(now), at);
    assert(first_edge(heard, peer@, now.info.name) == first_edge(m, peer@, now.info.name));
}

/// The answer that a code did not match.
pub open spec fn says_no(session: SessionModel, reason: Seq<char>) -> ActionModel {
    ActionModel::Send {
        connection: session.connection,
        message: MessageModel::PairResult { accepted: false, reason: Some(reason) },
    }
}

/// A session whose code was tried once more.
pub open spec fn tried_again(session: SessionModel, pairing: PairingModel) -> SessionModel {
    SessionModel {
        pairing: Some(PairingModel { attempts: (pairing.attempts + 1) as u8, ..pairing }),
        ..session
    }
}

#[verifier::spinoff_prover]
proof fn lemma_wrong_code(
    m: EngineModel,
    peer: Seq<char>,
    code: Seq<char>,
    session: SessionModel,
    pairing: PairingModel,
    expected: Seq<char>,
    at: Moment,
)
    requires
        find(m.sessions, peer) == Some(session),
        session.pairing == Some(pairing),
        pairing.code_to_share == Some(expected),
        pairing.attempts < 2,
        counts(code) != counts(expected),
    ensures
        ({
            let after = pair_responded(m, peer, code, at);
            &&& meets(m, after, tried_again(session, pairing))
            &&& after == (EngineModel { sessions: after.sessions, out: after.out, ..m })
            &&& after.out == m.out + seq![
                says_no(session, "the code did not match"@),
                ActionModel::Notify(
                    NoticeModel::Warning {
                        message: "That code did not match. "@ + decimal(
                            (pairing.attempts + 1) as nat,
                        ) + " of 3 attempts used."@,
                    },
                ),
                ActionModel::Publish(snapshot_of(after, at.unix)),
            ]
        }),
{
    reveal(pair_responded);
    reveal(code_refused);
    lemma_counts(code);
    lemma_counts(expected);
    let after = pair_responded(m, peer, code, at);
    lemma_shows_itself(after, at.unix);
    lemma_meets(m, tried_again(session, pairing));
    assert(after.sessions == m.with_session(tried_again(session, pairing)).sessions);
    assert(after.out =~= m.out + seq![
        says_no(session, "the code did not match"@),
        ActionModel::Notify(
            NoticeModel::Warning {
                message: "That code did not match. "@ + decimal((pairing.attempts + 1) as nat)
                    + " of 3 attempts used."@,
            },
        ),
        ActionModel::Publish(snapshot_of(after, at.unix)),
    ]);
}

/// A first or second wrong code is counted and refused; nobody becomes trusted.
#[verifier::spinoff_prover]
pub proof fn law_a_wrong_code_is_counted(
    m: EngineModel,
    peer: DeviceId,
    code: String,
    device: DeviceInfo,
    extent: Option<(u64, u64)>,
    draw: u64,
    at: Moment,
    session: SessionModel,
    pairing: PairingModel,
    expected: Seq<char>,
)
    requires
        find(m.sessions, peer@) == Some(session),
        session.pairing == Some(pairing),
        pairing.code_to_share == Some(expected),
        pairing.attempts < 2,
        counts(code@) != counts(expected),
    ensures
        ({
            let message = Message::PairResponse { code, device };
            let after = handled(m, says(peer, message, extent), draw, at);
            let now = SessionModel { last_rx: at.ms, ..session };
            &&& meets(m, after, tried_again(now, pairing))
            &&& after == (EngineModel { sessions: after.sessions, out: after.out, ..m })
            &&& after.out == m.out + seq![
                says_no(session, "the code did not match"@),
                ActionModel::Notify(
                    NoticeModel::Warning {
                        message: "That code did not match. "@ + decimal(
                            (pairing.attempts + 1) as nat,
                        ) + " of 3 attempts used."@,
                    },
                ),
                ActionModel::Publish(snapshot_of(after, at.unix)),
            ]
        }),
{
    lemma_heard_from(m, peer@, at);
    lemma_index_of(m.sessions, peer@);
    let heard = heard_of(m, peer@, at);
    let now = SessionModel { last_rx: at.ms, ..session };
    lemma_wrong_code(heard, peer@, code@, now, pairing, expected, at);
    let after = handled(m, says(peer, Message::PairResponse { code, device }, extent), draw, at);
    lemma_meets_when_heard(m, after, peer@, tried_again(now, pairing), at);
}

#[verifier::spinoff_prover]
proof fn lemma_last_wrong_code(
    m: EngineModel,
    peer: Seq<char>,
    code: Seq<char>,
    session: SessionModel,
    pairing: PairingModel,
    expected: Seq<char>,
    at: Moment,
)
    requires
        find(m.sessions, peer) == Some(session),
        session.pairing == Some(pairing),
        pairing.code_to_share == Some(expected),
        pairing.attempts == 2,
        counts(code) != counts(expected),
    ensures
        ({
            let after = pair_responded(m, peer, code, at);
            &&& after.out.len() > 0
            &&& after.out.last() == ActionModel::Publish(snapshot_of(after, at.unix))
            &&& closes(
                m.with_session(tried_again(session, pairing)),
                EngineModel { out: after.out.drop_last(), ..after },
                peer,
                seq![
                    says_no(session, "the code did not match"@),
                    ActionModel::Notify(
                        NoticeModel::Warning {
                            message: "Too many wrong pairing codes; the connection was closed."@,
                        },
                    ),
                ],
                at,
            )
        }),
{
    reveal(pair_responded);
    reveal(code_refused);
    lemma_counts(code);
    lemma_counts(expected);
    lemma_index_of(m.sessions, peer);
    let counted = m.with_session(tried_again(session, pairing));
    let last_words = seq![
        says_no(session, "the code did not match"@),
        ActionModel::Notify(
            NoticeModel::Warning {
                message: "Too many wrong pairing codes; the connection was closed."@,
            },
        ),
    ];
    let warned = counted.does(says_no(session, "the code did not match"@)).warns(
        "Too many wrong pairing codes; the connection was closed."@,
    );
    assert(warned.out =~= counted.out + last_words);
    assert(warned == (EngineModel { out: counted.out + last_words, ..counted }));
    lemma_closes(counted, peer, last_words, at);
    lemma_published(session_closed(warned, peer, at), at);
}

/// A third wrong code closes the connection.
#[verifier::spinoff_prover]
pub proof fn law_the_last_wrong_code_closes(
    m: EngineModel,
    peer: DeviceId,
    code: String,
    device: DeviceInfo,
    extent: Option<(u64, u64)>,
    draw: u64,
    at: Moment,
    session: SessionModel,
    pairing: PairingModel,
    expected: Seq<char>,
)
    requires
        find(m.sessions, peer@) == Some(session),
        session.pairing == Some(pairing),
        pairing.code_to_share == Some(expected),
        pairing.attempts == 2,
        counts(code@) != counts(expected),
    ensures
        ({
            let message = Message::PairResponse { code, device };
            let after = handled(m, says(peer, message, extent), draw, at);
            let now = SessionModel { last_rx: at.ms, ..session };
            &&& after.out.len() > 0
            &&& after.out.last() == ActionModel::Publish(snapshot_of(after, at.unix))
            &&& closes(
                heard_of(m, peer@, at).with_session(tried_again(now, pairing)),
                EngineModel { out: after.out.drop_last(), ..after },
                peer@,
                seq![
                    says_no(session, "the code did not match"@),
                    ActionModel::Notify(
                        NoticeModel::Warning {
                            message: "Too many wrong pairing codes; the connection was closed."@,
                        },
                    ),
                ],
                at,
            )
        }),
{
    lemma_heard_from(m, peer@, at);
    lemma_index_of(m.sessions, peer@);
    let heard = heard_of(m, peer@, at);
    let now = SessionModel { last_rx: at.ms, ..session };
    lemma_last_wrong_code(heard, peer@, code@, now, pairing, expected, at);
}

proof fn lemma_unasked_code(m: EngineModel, peer: Seq<char>, code: Seq<char>, at: Moment)
    requires
        find(m.sessions, peer) matches Some(session) && (session.pairing matches Some(pairing)
            ==> pairing.code_to_share is None),
    ensures
        pair_responded(m, peer, code, at) == (EngineModel {
            out: m.out.push(
                says_no(
                    find(m.sessions, peer)->Some_0,
                    "this machine is not showing a pairing code"@,
                ),
            ),
            ..m
        }),
{
    reveal(pair_responded);
}

/// A code that comes while none is shown is refused, and changes nothing.
#[verifier::spinoff_prover]
pub proof fn law_an_unasked_code_is_refused(
    m: EngineModel,
    peer: DeviceId,
    code: String,
    device: DeviceInfo,
    extent: Option<(u64, u64)>,
    draw: u64,
    at: Moment,
)
    requires
        find(m.sessions, peer@) matches Some(session) && (session.pairing matches Some(pairing)
            ==> pairing.code_to_share is None),
    ensures
        ({
            let message = Message::PairResponse { code, device };
            let after = handled(m, says(peer, message, extent), draw, at);
            &&& heard_from(m, after, peer@, at)
            &&& after == (EngineModel { sessions: after.sessions, out: after.out, ..m })
            &&& after.out == m.out.push(
                says_no(
                    find(m.sessions, peer@)->Some_0,
                    "this machine is not showing a pairing code"@,
                ),
            )
        }),
{
    lemma_heard_from(m, peer@, at);
    let heard = heard_of(m, peer@, at);
    assert(find(heard.sessions, peer@) is Some);
    lemma_unasked_code(heard, peer@, code@, at);
}

#[verifier::spinoff_prover]
proof fn lemma_accepted_code(m: EngineModel, peer: Seq<char>, session: SessionModel, at: Moment)
    requires
        find(m.sessions, peer) == Some(session),
        session.pairing matches Some(pairing) && pairing.awaiting_code
            && pairing.code_to_share is None && pairing.typed,
    ensures
        forall|reason: Option<Seq<char>>|
            ({
                let after = #[trigger] pair_judged(m, peer, true, reason, at);
                &&& trusts_from_now(m, after, session, at)
                &&& after.out == m.out + saves(m, peer) + welcomes(m, session) + seq![
                    ActionModel::Publish(snapshot_of(after, at.unix)),
                ]
            }),
{
    assert forall|reason: Option<Seq<char>>|
        ({
            let after = #[trigger] pair_judged(m, peer, true, reason, at);
            &&& trusts_from_now(m, after, session, at)
            &&& after.out == m.out + saves(m, peer) + welcomes(m, session) + seq![
                ActionModel::Publish(snapshot_of(after, at.unix)),
            ]
        }) by {
        reveal(pair_judged);
        reveal(peer_remembered);
        lemma_index_of(m.sessions, peer);
        let after = pair_judged(m, peer, true, reason, at);
        lemma_shows_itself(after, at.unix);
        lemma_meets(m, is_paired(session));
        lemma_remembers(m.peers, record_of(session, at));
        let known = peer_remembered(m, session, at);
        assert(known.peers == put(m.peers, record_of(session, at)));
        lemma_edge(known, peer, session.info.name);
        assert(first_edge(known, peer, session.info.name) == first_edge(
            m,
            peer,
            session.info.name,
        ));
        assert(after.sessions == m.with_session(is_paired(session)).sessions);
        assert(after.out =~= m.out + saves(m, peer) + welcomes(m, session) + seq![
            ActionModel::Publish(snapshot_of(after, at.unix)),
        ]);
    }
}

/// Where the other machine accepts the code that was typed here, it is trusted here too.
#[verifier::spinoff_prover]
pub proof fn law_an_accepted_code_pairs(
    m: EngineModel,
    peer: DeviceId,
    reason: Option<String>,
    extent: Option<(u64, u64)>,
    draw: u64,
    at: Moment,
    session: SessionModel,
)
    requires
        find(m.sessions, peer@) == Some(session),
        session.pairing matches Some(pairing) && pairing.awaiting_code
            && pairing.code_to_share is None && pairing.typed,
    ensures
        ({
            let message = Message::PairResult { accepted: true, reason };
            let after = handled(m, says(peer, message, extent), draw, at);
            let now = SessionModel { last_rx: at.ms, ..session };
            &&& trusts_from_now(m, after, now, at)
            &&& after.out == m.out + saves(m, peer@) + welcomes(m, session) + seq![
                ActionModel::Publish(snapshot_of(after, at.unix)),
            ]
        }),
{
    lemma_heard_from(m, peer@, at);
    lemma_index_of(m.sessions, peer@);
    let heard = heard_of(m, peer@, at);
    let now = SessionModel { last_rx: at.ms, ..session };
    lemma_accepted_code(heard, peer@, now, at);
    let message = Message::PairResult { accepted: true, reason };
    let after = handled(m, says(peer, message, extent), draw, at);
    assert(after == pair_judged(heard, peer@, true, reason.deep_view(), at));
    lemma_meets_when_heard(m, after, peer@, is_paired(now), at);
    assert(first_edge(heard, peer@, now.info.name) == first_edge(m, peer@, now.info.name));
}

#[verifier::spinoff_prover]
proof fn lemma_rejected_code(
    m: EngineModel,
    peer: Seq<char>,
    reason: Option<Seq<char>>,
    session: SessionModel,
    at: Moment,
)
    requires
        find(m.sessions, peer) == Some(session),
    ensures
        ({
            let after = pair_judged(m, peer, false, reason, at);
            let why = match reason {
                Some(text) => text,
                None => "pairing rejected"@,
            };
            &&& meets(
                m,
                after,
                SessionModel {
                    state: ConnectionModel::Failed { reason: why },
                    pairing: None,
                    ..session
                },
            )
            &&& after == (EngineModel { sessions: after.sessions, out: after.out, ..m })
            &&& after.out == m.out.push(
                ActionModel::Notify(
                    NoticeModel::Warning { message: "Pairing rejected: "@ + why },
                ),
            ).push(ActionModel::Publish(snapshot_of(after, at.unix)))
        }),
{
    reveal(pair_judged);
    let after = pair_judged(m, peer, false, reason, at);
    let why = match reason {
        Some(text) => text,
        None => "pairing rejected"@,
    };
    let failed = SessionModel {
        state: ConnectionModel::Failed { reason: why },
        pairing: None,
        ..session
    };
    lemma_shows_itself(after, at.unix);
    lemma_meets(m, failed);
    assert(after.sessions == m.with_session(failed).sessions);
}

/// Where the other machine rejects the code, the pairing is over and the user is told why.
#[verifier::spinoff_prover]
pub proof fn law_a_rejected_code_ends_the_pairing(
    m: EngineModel,
    peer: DeviceId,
    reason: Option<String>,
    extent: Option<(u64, u64)>,
    draw: u64,
    at: Moment,
    session: SessionModel,
)
    requires
        find(m.sessions, peer@) == Some(session),
    ensures
        ({
            let message = Message::PairResult { accepted: false, reason };
            let after = handled(m, says(peer, message, extent), draw, at);
            let why = match reason.deep_view() {
                Some(text) => text,
                None => "pairing rejected"@,
            };
            &&& meets(
                m,
                after,
                SessionModel {
                    state: ConnectionModel::Failed { reason: why },
                    pairing: None,
                    last_rx: at.ms,
                    ..session
                },
            )
            &&& after == (EngineModel { sessions: after.sessions, out: after.out, ..m })
            &&& after.out == m.out.push(
                ActionModel::Notify(
                    NoticeModel::Warning { message: "Pairing rejected: "@ + why },
                ),
            ).push(ActionModel::Publish(snapshot_of(after, at.unix)))
        }),
{
    lemma_heard_from(m, peer@, at);
    lemma_index_of(m.sessions, peer@);
    let heard = heard_of(m, peer@, at);
    let now = SessionModel { last_rx: at.ms, ..session };
    lemma_rejected_code(heard, peer@, reason.deep_view(), now, at);
    let message = Message::PairResult { accepted: false, reason };
    let after = handled(m, says(peer, message, extent), draw, at);
    let why = match reason.deep_view() {
        Some(text) => text,
        None => "pairing rejected"@,
    };
    lemma_meets_when_heard(
        m,
        after,
        peer@,
        SessionModel { state: ConnectionModel::Failed { reason: why }, pairing: None, ..now },
        at,
    );
}

proof fn lemma_unheard_judgement(
    m: EngineModel,
    peer: Seq<char>,
    code: Seq<char>,
    accepted: bool,
    reason: Option<Seq<char>>,
    at: Moment,
)
    ensures
        find(m.sessions, peer) is None ==> pair_responded(m, peer, code, at) == m && pair_judged(
            m,
            peer,
            accepted,
            reason,
            at,
        ) == m,
        find(m.sessions, peer) matches Some(session) ==> (accepted && !(
        session.pairing matches Some(pairing) && pairing.awaiting_code
            && pairing.code_to_share is None && pairing.typed) ==> pair_judged(
            m,
            peer,
            accepted,
            reason,
            at,
        ) == m.publishes(at)),
{
    reveal(pair_responded);
    reveal(pair_judged);
}

/// A code, or the judgement of one, that comes without a session means nothing; nor does the
/// acceptance of a code that nobody typed here.
#[verifier::spinoff_prover]
pub proof fn law_an_unasked_judgement_means_nothing(
    m: EngineModel,
    peer: DeviceId,
    code: String,
    device: DeviceInfo,
    accepted: bool,
    reason: Option<String>,
    extent: Option<(u64, u64)>,
    draw: u64,
    at: Moment,
)
    ensures
        find(m.sessions, peer@) is None ==> handled(
            m,
            says(peer, Message::PairResponse { code, device }, extent),
            draw,
            at,
        ) == m,
        find(m.sessions, peer@) is None ==> handled(
            m,
            says(peer, Message::PairResult { accepted, reason }, extent),
            draw,
            at,
        ) == m,
        find(m.sessions, peer@) matches Some(session) ==> (accepted && !(
        session.pairing matches Some(pairing) && pairing.awaiting_code
            && pairing.code_to_share is None && pairing.typed) ==> ({
            let message = Message::PairResult { accepted, reason };
            let after = handled(m, says(peer, message, extent), draw, at);
            &&& heard_from(m, after, peer@, at)
            &&& after == (EngineModel { sessions: after.sessions, out: after.out, ..m })
            &&& after.out == m.out.push(ActionModel::Publish(snapshot_of(after, at.unix)))
        })),
{
    lemma_heard_from(m, peer@, at);
    let heard = heard_of(m, peer@, at);
    if find(m.sessions, peer@) is None {
        assert(heard == m) by {
            reveal(heard_of);
        }
    }
    assert(find(heard.sessions, peer@) is Some <==> find(m.sessions, peer@) is Some);
    lemma_unheard_judgement(heard, peer@, code@, accepted, reason.deep_view(), at);
    lemma_shows_itself(heard.publishes(at), at.unix);
}

/// What this machine tells of itself.
pub open spec fn tells_of_itself(m: EngineModel) -> DeviceInfoModel {
    DeviceInfoModel {
        device_id: m.identity.device_id,
        name: m.settings.device_name,
        os: m.os,
        version: crate::protocol::VERSION@,
        fingerprint: fingerprint_text(public_key_of(m)),
        displays: m.displays,
    }
}

#[verifier::spinoff_prover]
proof fn lemma_answered(
    m: EngineModel,
    peer: Seq<char>,
    code: Option<Seq<char>>,
    session: SessionModel,
    at: Moment,
)
    requires
        find(m.sessions, peer) == Some(session),
    ensures
        ({
            let after = pairing_answered(m, peer, code, false, at);
            &&& after.out.len() > 0
            &&& after.out.last() == ActionModel::Publish(snapshot_of(after, at.unix))
            &&& closes(
                m,
                EngineModel { out: after.out.drop_last(), ..after },
                peer,
                seq![says_no(session, "the request was declined"@)],
                at,
            )
        }),
        code is None ==> pairing_answered(m, peer, code, true, at) == m,
        code matches Some(text) ==> ({
            let after = pairing_answered(m, peer, code, true, at);
            &&& after == (EngineModel { sessions: after.sessions, out: after.out, ..m })
            &&& after.out == m.out.push(
                ActionModel::Send {
                    connection: session.connection,
                    message: MessageModel::PairResponse { code: text, device: tells_of_itself(m) },
                },
            )
            &&& meets(m, after, with_typed_code(session))
        }),
{
    reveal(pairing_answered);
    reveal(own_info);
    lemma_index_of(m.sessions, peer);
    let last_words = seq![says_no(session, "the request was declined"@)];
    let spoken = m.does(says_no(session, "the request was declined"@));
    assert(spoken.out =~= m.out + last_words);
    assert(spoken == (EngineModel { out: m.out + last_words, ..m }));
    lemma_closes(m, peer, last_words, at);
    lemma_published(session_closed(spoken, peer, at), at);
    lemma_meets(m, with_typed_code(session));
    assert(with_typed_code(session) == crate::engine::pairing::typed_for(session));
}

/// A session for which the user of this machine typed a code, whose judgement is awaited;
/// between machines that trust each other there is none to await.
pub open spec fn with_typed_code(session: SessionModel) -> SessionModel {
    if session.trusted {
        session
    } else {
        match session.pairing {
            Some(pairing) => SessionModel {
                pairing: Some(PairingModel { typed: true, ..pairing }),
                ..session
            },
            None => SessionModel {
                pairing: Some(
                    PairingModel {
                        code_to_share: None,
                        awaiting_code: true,
                        attempts: 0,
                        typed: true,
                    },
                ),
                ..session
            },
        }
    }
}

/// The code that the user types goes to the machine that it is for, as it was typed. A
/// request that the user declines is refused and the connection closed.
#[verifier::spinoff_prover]
pub proof fn law_the_answer_of_the_user_is_passed_on(
    m: EngineModel,
    peer: DeviceId,
    code: Option<String>,
    accept: bool,
    draw: u64,
    at: Moment,
)
    ensures
        ({
            let event = Event::Command(Command::AnswerPairing { peer, code, accept });
            let after = handled(m, event, draw, at);
            match find(m.sessions, peer@) {
                None => after == m,
                Some(session) => if !accept {
                    &&& after.out.len() > 0
                    &&& after.out.last() == ActionModel::Publish(snapshot_of(after, at.unix))
                    &&& closes(
                        m,
                        EngineModel { out: after.out.drop_last(), ..after },
                        peer@,
                        seq![says_no(session, "the request was declined"@)],
                        at,
                    )
                } else {
                    match code.deep_view() {
                        None => after == m,
                        Some(text) => {
                            &&& after == (EngineModel {
                                sessions: after.sessions,
                                out: after.out,
                                ..m
                            })
                            &&& after.out == m.out.push(
                                ActionModel::Send {
                                    connection: session.connection,
                                    message: MessageModel::PairResponse {
                                        code: text,
                                        device: tells_of_itself(m),
                                    },
                                },
                            )
                            &&& meets(m, after, with_typed_code(session))
                        },
                    }
                },
            }
        }),
{
    match find(m.sessions, peer@) {
        None => {
            reveal(pairing_answered);
        },
        Some(session) => {
            lemma_answered(m, peer@, code.deep_view(), session, at);
        },
    }
}

/// The code that is shown is the number that was drawn, cut to six digits: every draw below
/// a million shows itself.
pub proof fn law_the_drawn_number_is_the_code(draw: u64)
    ensures
        code_of(draw).len() == 6,
        value_of(code_of(draw)) == (draw as u32) % 1_000_000,
        draw < 1_000_000 ==> value_of(code_of(draw)) == draw,
{
    reveal(code_of);
    law_six_digits_have_the_value(((draw as u32) % 1_000_000) as nat);
}

} // verus!
