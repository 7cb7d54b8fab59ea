//! What finding machines, connecting to them and parting from them promises.

use vstd::prelude::*;

use crate::discovery::{first_v4, DiscoveredModel, DiscoveryEvent, DiscoveryModel, SocketModel};
use crate::engine::dispatch::{
    connection_failed, disconnected, displays_received, handled, heard_of, Event,
};
use crate::engine::rules::{
    brought_home, control_released, discovery_answered, handover_ended, held_released,
    session_closed, session_ended, transfers_failed,
};
use crate::engine::services::{machine_discovered, peer_dialled};
use crate::engine::snapshot::{lemma_shows_itself, snapshot_of};
use crate::engine::state::{
    ActionModel, Command, ControlModel, EngineModel, Moment, SessionModel, TransferEntryModel,
};
use crate::engine::steering::{
    at_home, heard_from, homecoming, lemma_heard_from, lemma_lifts_everything, lifts_everything,
    says,
};
use crate::geom::DisplayInfo;
use crate::identity::DeviceId;
use crate::keyed::{
    find, holds, law_find_after_put, law_find_after_without, law_put_leaves_others, lemma_holds,
    lemma_index_of, lemma_without, put, without, Keyed,
};
use crate::protocol::{DeviceInfo, Message, MessageModel};
use crate::text::{decimal, precedes};
use crate::view::{NoticeModel, TransferState};

verus! {

/// A state that is shown is the same state, with its picture at the end of what is asked for.
pub proof fn lemma_published(m: EngineModel, at: Moment)
    ensures
        ({
            let shown = m.publishes(at);
            &&& shown.out.len() > 0
            &&& shown.out.last() == ActionModel::Publish(snapshot_of(shown, at.unix))
            &&& EngineModel { out: shown.out.drop_last(), ..shown } == m
        }),
{
    lemma_shows_itself(m.publishes(at), at.unix);
    assert(m.publishes(at).out.drop_last() =~= m.out);
}

/// Taking out a key leaves the items with other keys, in their order.
pub proof fn lemma_without_filter<T: Keyed>(s: Seq<T>, k: T::Key, keep: spec_fn(T) -> bool)
    requires
        forall|x: T| #[trigger] keep(x) == (x.key() != k),
    ensures
        without(s, k) == s.filter(keep),
    decreases s.len(),
{
    reveal(Seq::filter);
    if s.len() > 0 {
        lemma_without_filter(s.drop_last(), k, keep);
    }
}

/// The sessions with other machines than `peer`.
pub open spec fn sessions_but(m: EngineModel, peer: Seq<char>) -> Seq<SessionModel> {
    m.sessions.filter(|session: SessionModel| session.info.device_id != peer)
}

/// Whether an id is another one than that of `peer`.
pub open spec fn is_other(peer: Seq<char>) -> spec_fn(Seq<char>) -> bool {
    |id: Seq<char>| id != peer
}

/// The machines other than `peer` that are being dialled.
pub open spec fn dialling_but(m: EngineModel, peer: Seq<char>) -> Seq<Seq<char>> {
    m.connecting.filter(is_other(peer))
}

pub proof fn lemma_parting(m: EngineModel, peer: Seq<char>)
    ensures
        without(m.sessions, peer) == sessions_but(m, peer),
        without(m.connecting, peer) == dialling_but(m, peer),
        find(sessions_but(m, peer), peer) is None,
        !holds(m.sessions, peer) ==> sessions_but(m, peer) == m.sessions,
        !holds(m.connecting, peer) ==> dialling_but(m, peer) == m.connecting,
{
    lemma_without_filter(
        m.sessions,
        peer,
        |session: SessionModel| session.info.device_id != peer,
    );
    lemma_without_filter(m.connecting, peer, is_other(peer));
    law_find_after_without(m.sessions, peer);
    lemma_without(m.sessions, peer);
    lemma_without(m.connecting, peer);
}

/// Whether `after` is `m` with no handover between this machine and `peer`, which is no
/// longer connected. Where this machine drove it, the input is at home. Where it drove this
/// machine, everything that it held down is lifted. Otherwise nothing is different.
#[verifier::opaque]
pub open spec fn lets_go(
    m: EngineModel,
    after: EngineModel,
    peer: Seq<char>,
    at: Moment,
) -> bool {
    match m.control {
        ControlModel::Controlling { peer: driven, placed, peer_cursor } => if driven == peer {
            &&& at_home(m, after, at)
            &&& after.last_scroll_lock == m.last_scroll_lock
            &&& after.out == m.out + homecoming(m, peer, placed, peer_cursor).push(
                ActionModel::Publish(snapshot_of(after, at.unix)),
            )
        } else {
            after == m
        },
        ControlModel::Controlled { peer: driver, .. } => if driver == peer {
            &&& after == (EngineModel {
                control: ControlModel::Local,
                held_keys: Seq::empty(),
                held_buttons: Seq::empty(),
                out: after.out,
                ..m
            })
            &&& after.out.len() >= m.out.len()
            &&& after.out.take(m.out.len() as int) == m.out
            &&& lifts_everything(m, after.out.skip(m.out.len() as int))
        } else {
            after == m
        },
        ControlModel::Local => after == m,
    }
}

#[verifier::spinoff_prover]
pub proof fn lemma_lets_go(m: EngineModel, peer: Seq<char>, at: Moment)
    ensures
        lets_go(m, handover_ended(m, peer, at), peer, at),
{
    reveal(lets_go);
    reveal(handover_ended);
    reveal(control_released);
    reveal(brought_home);
    let after = handover_ended(m, peer, at);
    match m.control {
        ControlModel::Controlling { peer: driven, placed, peer_cursor } => {
            if driven == peer {
                lemma_shows_itself(after, at.unix);
                assert(after.out =~= m.out + homecoming(m, peer, placed, peer_cursor).push(
                    ActionModel::Publish(snapshot_of(after, at.unix)),
                ));
            }
        },
        ControlModel::Controlled { peer: driver, .. } => {
            if driver == peer {
                lemma_lifts_everything(m);
                assert(after.out == held_released(m).out);
            }
        },
        ControlModel::Local => {},
    }
}

/// Whether the transfers of `after` are those of `m`, of which the ones that ran with `peer`
/// failed.
pub open spec fn fails_transfers(m: EngineModel, after: EngineModel, peer: Seq<char>) -> bool {
    &&& after.transfers.len() == m.transfers.len()
    &&& forall|i: int|
        0 <= i < m.transfers.len() ==> #[trigger] after.transfers[i] == match m.transfers[i] {
            TransferEntryModel::Outgoing { transfer, state } => TransferEntryModel::Outgoing {
                transfer,
                state: if transfer.peer == peer && state == TransferState::Active {
                    TransferState::Failed
                } else {
                    state
                },
            },
            TransferEntryModel::Incoming { transfer, state, error } => TransferEntryModel::Incoming {
                transfer,
                state: if transfer.peer == peer && state == TransferState::Active {
                    TransferState::Failed
                } else {
                    state
                },
                error,
            },
        }
}

/// Whether `after` is `m` without its session with `peer`: no handover with it goes on, what
/// was being transferred failed, and nothing else is different.
pub open spec fn parts(m: EngineModel, after: EngineModel, peer: Seq<char>, at: Moment) -> bool {
    &&& lets_go(
        EngineModel {
            sessions: sessions_but(m, peer),
            connecting: dialling_but(m, peer),
            ..m
        },
        EngineModel { transfers: m.transfers, out: after.out.drop_last(), ..after },
        peer,
        at,
    )
    &&& fails_transfers(m, after, peer)
    &&& after.out.len() > 0
    &&& after.out.last() == ActionModel::Publish(snapshot_of(after, at.unix))
}

#[verifier::spinoff_prover]
pub proof fn lemma_parts(m: EngineModel, peer: Seq<char>, at: Moment)
    ensures
        find(m.sessions, peer) is None ==> session_ended(m, peer, at) == m,
        find(m.sessions, peer) is Some ==> parts(m, session_ended(m, peer, at), peer, at),
{
    reveal(session_ended);
    lemma_parting(m, peer);
    let after = session_ended(m, peer, at);
    if holds(m.sessions, peer) {
        let gone = EngineModel {
            sessions: sessions_but(m, peer),
            connecting: dialling_but(m, peer),
            ..m
        };
        lemma_lets_go(gone, peer, at);
        let free = handover_ended(gone, peer, at);
        assert(free.transfers == m.transfers) by {
            reveal(handover_ended);
            reveal(control_released);
            reveal(brought_home);
            reveal(held_released);
        }
        reveal(transfers_failed);
        lemma_shows_itself(after, at.unix);
        assert(after.out.drop_last() =~= free.out);
        assert(EngineModel { transfers: m.transfers, out: after.out.drop_last(), ..after } =~= free);
    }
}

/// Where the connection to a machine is lost, its session is over and no other; a session
/// that is not there cannot be lost.
#[verifier::spinoff_prover]
pub proof fn law_a_lost_connection_ends_its_session(
    m: EngineModel,
    peer: DeviceId,
    draw: u64,
    at: Moment,
)
    ensures
        find(m.sessions, peer@) is None ==> handled(m, Event::SessionEnded { peer }, draw, at) == m,
        find(m.sessions, peer@) is Some ==> parts(
            m,
            handled(m, Event::SessionEnded { peer }, draw, at),
            peer@,
            at,
        ),
{
    lemma_parts(m, peer@, at);
}

proof fn lemma_without_forgets<T: Keyed>(s: Seq<T>, item: T)
    requires
        holds(s, item.key()),
    ensures
        without(put(s, item), item.key()) == without(s, item.key()),
{
    lemma_index_of(s, item.key());
    lemma_without_update(s, crate::keyed::index_of(s, item.key()), item);
}

proof fn lemma_without_update<T: Keyed>(s: Seq<T>, i: int, item: T)
    requires
        0 <= i < s.len(),
        s[i].key() == item.key(),
    ensures
        without(s.update(i, item), item.key()) == without(s, item.key()),
    decreases s.len(),
{
    let changed = s.update(i, item);
    if i == s.len() - 1 {
        assert(changed.drop_last() =~= s.drop_last());
    } else {
        assert(changed.drop_last() =~= s.drop_last().update(i, item));
        lemma_without_update(s.drop_last(), i, item);
    }
}

/// A word of goodbye ends the session just as a lost connection does.
#[verifier::spinoff_prover]
pub proof fn law_a_goodbye_ends_the_session(
    m: EngineModel,
    peer: DeviceId,
    reason: String,
    extent: Option<(u64, u64)>,
    draw: u64,
    at: Moment,
)
    ensures
        handled(m, says(peer, Message::Bye { reason }, extent), draw, at) == handled(
            m,
            Event::SessionEnded { peer },
            draw,
            at,
        ),
{
    reveal(session_ended);
    reveal(heard_of);
    lemma_index_of(m.sessions, peer@);
    let heard = heard_of(m, peer@, at);
    if let Some(session) = find(m.sessions, peer@) {
        let next = SessionModel { last_rx: at.ms, ..session };
        law_find_after_put(m.sessions, next);
        lemma_without_forgets(m.sessions, next);
        assert(EngineModel {
            sessions: without(heard.sessions, peer@),
            connecting: without(heard.connecting, peer@),
            ..heard
        } == (EngineModel {
            sessions: without(m.sessions, peer@),
            connecting: without(m.connecting, peer@),
            ..m
        }));
    }
}

/// Whether `after` is `m` without its session with `peer`, closed from this side after
/// `last_words`: no handover with it goes on, and nothing else is different.
#[verifier::opaque]
pub open spec fn closes(
    m: EngineModel,
    after: EngineModel,
    peer: Seq<char>,
    last_words: Seq<ActionModel>,
    at: Moment,
) -> bool {
    lets_go(
        EngineModel {
            sessions: sessions_but(m, peer),
            out: m.out + match find(m.sessions, peer) {
                Some(session) => last_words.push(
                    ActionModel::Close { connection: session.connection },
                ),
                None => last_words,
            },
            ..m
        },
        after,
        peer,
        at,
    )
}

#[verifier::spinoff_prover]
pub proof fn lemma_closes(m: EngineModel, peer: Seq<char>, last_words: Seq<ActionModel>, at: Moment)
    ensures
        closes(
            m,
            session_closed(EngineModel { out: m.out + last_words, ..m }, peer, at),
            peer,
            last_words,
            at,
        ),
{
    reveal(closes);
    reveal(session_closed);
    lemma_parting(m, peer);
    let spoken = EngineModel { out: m.out + last_words, ..m };
    let gone = match find(m.sessions, peer) {
        Some(session) => EngineModel {
            sessions: sessions_but(m, peer),
            ..spoken
        }.does(ActionModel::Close { connection: session.connection }),
        None => spoken,
    };
    let told = EngineModel {
        sessions: sessions_but(m, peer),
        out: m.out + match find(m.sessions, peer) {
            Some(session) => last_words.push(
                ActionModel::Close { connection: session.connection },
            ),
            None => last_words,
        },
        ..m
    };
    assert(gone.out =~= told.out);
    assert(gone == told);
    lemma_lets_go(gone, peer, at);
}

#[verifier::spinoff_prover]
proof fn lemma_disconnects(m: EngineModel, peer: Seq<char>, at: Moment)
    ensures
        ({
            let after = disconnected(m, peer, at);
            &&& after.out.len() > 0
            &&& after.out.last() == ActionModel::Publish(snapshot_of(after, at.unix))
            &&& closes(
                m,
                EngineModel { out: after.out.drop_last(), ..after },
                peer,
                match find(m.sessions, peer) {
                    Some(session) => seq![
                        ActionModel::Send {
                            connection: session.connection,
                            message: MessageModel::Bye { reason: "disconnected locally"@ },
                        },
                    ],
                    None => Seq::empty(),
                },
                at,
            )
        }),
{
    reveal(disconnected);
    let last_words = match find(m.sessions, peer) {
        Some(session) => seq![
            ActionModel::Send {
                connection: session.connection,
                message: MessageModel::Bye { reason: "disconnected locally"@ },
            },
        ],
        None => Seq::empty(),
    };
    let spoken = m.sends(peer, MessageModel::Bye { reason: "disconnected locally"@ });
    assert(spoken.out =~= m.out + last_words);
    assert(spoken == (EngineModel { out: m.out + last_words, ..m }));
    lemma_closes(m, peer, last_words, at);
    lemma_published(session_closed(spoken, peer, at), at);
}

/// A machine that the user disconnects from is told so, and the connection is closed.
#[verifier::spinoff_prover]
pub proof fn law_a_disconnect_closes_the_connection(
    m: EngineModel,
    peer: DeviceId,
    draw: u64,
    at: Moment,
)
    ensures
        ({
            let after = handled(m, Event::Command(Command::Disconnect(peer)), draw, at);
            &&& after.out.len() > 0
            &&& after.out.last() == ActionModel::Publish(snapshot_of(after, at.unix))
            &&& closes(
                m,
                EngineModel { out: after.out.drop_last(), ..after },
                peer@,
                match find(m.sessions, peer@) {
                    Some(session) => seq![
                        ActionModel::Send {
                            connection: session.connection,
                            message: MessageModel::Bye { reason: "disconnected locally"@ },
                        },
                    ],
                    None => Seq::empty(),
                },
                at,
            )
        }),
{
    lemma_disconnects(m, peer@, at);
}

/// A connection that does not come up is no longer awaited, and the user is told why.
#[verifier::spinoff_prover]
pub proof fn law_a_failed_connection_is_told(
    m: EngineModel,
    peer: Option<DeviceId>,
    message: String,
    draw: u64,
    at: Moment,
)
    ensures
        ({
            let after = handled(m, Event::ConnectionFailed { peer, message }, draw, at);
            &&& after == (EngineModel {
                connecting: match peer.deep_view() {
                    Some(id) => dialling_but(m, id),
                    None => m.connecting,
                },
                out: after.out,
                ..m
            })
            &&& after.out == m.out.push(
                ActionModel::Notify(NoticeModel::Error { message: message@ }),
            ).push(ActionModel::Publish(snapshot_of(after, at.unix)))
        }),
{
    reveal(connection_failed);
    lemma_shows_itself(
        handled(m, Event::ConnectionFailed { peer, message }, draw, at),
        at.unix,
    );
    if let Some(id) = peer.deep_view() {
        lemma_parting(m, id);
    }
}

/// Whether a machine is dialled at its address at position `i`: the first one of the older
/// family, or the first one at all where it has none of that family.
pub open spec fn dials_at(found: DiscoveredModel, i: int) -> bool {
    &&& 0 <= i < found.addresses.len()
    &&& if found.addresses[i].v4 {
        forall|j: int| 0 <= j < i ==> !(#[trigger] found.addresses[j]).v4
    } else {
        i == 0 && forall|j: int|
            0 <= j < found.addresses.len() ==> !(#[trigger] found.addresses[j]).v4
    }
}

proof fn lemma_first_is_first(found: DiscoveredModel)
    ensures
        0 <= first_v4(found.addresses) <= found.addresses.len(),
        first_v4(found.addresses) < found.addresses.len()
            ==> found.addresses[first_v4(found.addresses)].v4,
        forall|j: int|
            0 <= j < first_v4(found.addresses) ==> !(#[trigger] found.addresses[j]).v4,
    decreases found.addresses.len(),
{
    if found.addresses.len() > 0 && !found.addresses[0].v4 {
        let rest = DiscoveredModel { addresses: found.addresses.drop_first(), ..found };
        lemma_first_is_first(rest);
        assert(forall|j: int|
            0 < j < found.addresses.len() ==> #[trigger] found.addresses[j] == rest.addresses[j
                - 1]);
    }
}

/// Whether `after` is `m` with an attempt to reach `peer`: it is dialled where it is, under
/// the name that it told; one that is connected or being dialled already is left alone, and
/// of one that is nowhere to be seen the user is told.
pub open spec fn dials(m: EngineModel, after: EngineModel, peer: Seq<char>) -> bool {
    if find(m.sessions, peer) is Some || m.connecting.contains(peer) {
        after == m
    } else {
        match find(m.table, peer) {
            None => after == (EngineModel {
                out: m.out.push(
                    ActionModel::Notify(
                        NoticeModel::Warning {
                            message:
                                "That machine is not visible right now. Check that UnionDesk is running there."@,
                        },
                    ),
                ),
                ..m
            }),
            Some(found) => if found.addresses.len() == 0 {
                after == m
            } else {
                exists|i: int| #[trigger]
                    dials_at(found, i) && after == (EngineModel {
                        connecting: m.connecting.push(peer),
                        out: m.out.push(
                            ActionModel::Dial {
                                address: SocketModel { ip: found.addresses[i], port: found.port },
                                name: Some(found.name),
                                expected: Some(peer),
                            },
                        ),
                        ..m
                    })
            },
        }
    }
}

#[verifier::spinoff_prover]
proof fn lemma_dials(m: EngineModel, peer: Seq<char>)
    ensures
        dials(m, peer_dialled(m, peer), peer),
{
    reveal(peer_dialled);
    let after = peer_dialled(m, peer);
    lemma_holds(m.connecting, peer);
    assert(holds(m.connecting, peer) == m.connecting.contains(peer)) by {
        if m.connecting.contains(peer) {
            let i = choose|i: int| 0 <= i < m.connecting.len() && m.connecting[i] == peer;
            assert(m.connecting[i].key() == peer);
        }
    }
    if holds(m.sessions, peer) || holds(m.connecting, peer) {
        assert(after == m);
        assert(dials(m, after, peer));
    } else {
        match find(m.table, peer) {
            None => {
                assert(after.out == m.out.push(
                    ActionModel::Notify(
                        NoticeModel::Warning {
                            message:
                                "That machine is not visible right now. Check that UnionDesk is running there."@,
                        },
                    ),
                ));
                assert(dials(m, after, peer));
            },
            Some(found) => {
                lemma_first_is_first(found);
                match found.best() {
                    None => {
                        assert(after == m);
                        assert(dials(m, after, peer));
                    },
                    Some(address) => {
                        let first = first_v4(found.addresses);
                        let i = if first < found.addresses.len() {
                            first
                        } else {
                            0
                        };
                        assert(dials_at(found, i));
                        assert(dials(m, after, peer));
                    },
                }
            },
        }
    }
}

/// A machine that the user picks is dialled where discovery saw it.
#[verifier::spinoff_prover]
pub proof fn law_a_picked_machine_is_dialled(m: EngineModel, peer: DeviceId, draw: u64, at: Moment)
    ensures
        dials(m, handled(m, Event::Command(Command::Connect(peer)), draw, at), peer@),
{
    lemma_dials(m, peer@);
}

/// Whether `after` has the machines of `m` in sight, and `found` with what was seen of it:
/// the new facts, but the old addresses where none were seen, and the way by which it was
/// seen first.
pub open spec fn sees(
    before: Seq<DiscoveredModel>,
    after: Seq<DiscoveredModel>,
    found: DiscoveredModel,
) -> bool {
    forall|id: Seq<char>| #[trigger]
        find(after, id) == if id == found.device_id {
            Some(
                match find(before, id) {
                    None => found,
                    Some(previous) => DiscoveredModel {
                        device_id: found.device_id,
                        name: found.name,
                        os: found.os,
                        fingerprint: found.fingerprint,
                        addresses: if found.addresses.len() > 0 {
                            found.addresses
                        } else {
                            previous.addresses
                        },
                        port: found.port,
                        source: previous.source,
                        last_seen: found.last_seen,
                    },
                },
            )
        } else {
            find(before, id)
        }
}

/// Whether a machine that was found is dialled at once: it is a trusted one that shows the
/// fingerprint which is known of it, and the id of this machine comes first of the two.
pub open spec fn reconnects(m: EngineModel, found: DiscoveredModel) -> bool {
    &&& find(m.peers, found.device_id) matches Some(record)
    &&& record.fingerprint == found.fingerprint
    &&& precedes(m.identity.device_id, found.device_id)
    &&& find(m.sessions, found.device_id) is None
    &&& !m.connecting.contains(found.device_id)
}

#[verifier::spinoff_prover]
proof fn lemma_found(m: EngineModel, found: DiscoveredModel, at: Moment)
    requires
        found.device_id != m.identity.device_id,
    ensures
        ({
            let after = machine_discovered(m, DiscoveryModel::Found(found), at);
            &&& sees(m.table, after.table, found)
            &&& after.out.len() > 0
            &&& after.out.last() == ActionModel::Publish(snapshot_of(after, at.unix))
            &&& if reconnects(m, found) {
                dials(
                    EngineModel { table: after.table, ..m },
                    EngineModel { out: after.out.drop_last(), ..after },
                    found.device_id,
                )
            } else {
                EngineModel { out: after.out.drop_last(), ..after } == (EngineModel {
                    table: after.table,
                    ..m
                })
            }
        }),
{
    reveal(machine_discovered);
    let after = machine_discovered(m, DiscoveryModel::Found(found), at);
    let noted = EngineModel { table: crate::discovery::sighted(m.table, found), ..m };
    lemma_index_of(m.table, found.device_id);
    let item = match find(m.table, found.device_id) {
        Some(previous) => crate::discovery::merged(previous, found),
        None => found,
    };
    law_find_after_put(m.table, item);
    assert forall|id: Seq<char>| id != found.device_id implies #[trigger] find(noted.table, id)
        == find(m.table, id) by {
        law_put_leaves_others(m.table, item, id);
    }
    lemma_holds(m.connecting, found.device_id);
    assert(holds(m.connecting, found.device_id) == m.connecting.contains(found.device_id)) by {
        if m.connecting.contains(found.device_id) {
            let i = choose|i: int|
                0 <= i < m.connecting.len() && m.connecting[i] == found.device_id;
            assert(m.connecting[i].key() == found.device_id);
        }
    }
    lemma_shows_itself(after, at.unix);
    lemma_dials(noted, found.device_id);
    let dialled = peer_dialled(noted, found.device_id);
    assert(dialled.table == noted.table) by {
        reveal(peer_dialled);
    }
    let before = EngineModel { out: after.out.drop_last(), ..after };
    if reconnects(m, found) {
        assert(before.out =~= dialled.out);
        assert(before =~= dialled);
    } else {
        assert(before.out =~= m.out);
    }
}

/// A machine that discovery finds is in sight with what was seen of it. A trusted one is
/// dialled at once by the machine whose id comes first. This machine never sees itself.
#[verifier::spinoff_prover]
pub proof fn law_a_found_machine_is_in_sight(
    m: EngineModel,
    event: DiscoveryEvent,
    found: DiscoveredModel,
    draw: u64,
    at: Moment,
)
    requires
        event.deep_view() == DiscoveryModel::Found(found),
    ensures
        ({
            let after = handled(m, Event::Discovered(event), draw, at);
            if found.device_id == m.identity.device_id {
                after == m
            } else {
                &&& sees(m.table, after.table, found)
                &&& after.out.len() > 0
                &&& after.out.last() == ActionModel::Publish(snapshot_of(after, at.unix))
                &&& if reconnects(m, found) {
                    dials(
                        EngineModel { table: after.table, ..m },
                        EngineModel { out: after.out.drop_last(), ..after },
                        found.device_id,
                    )
                } else {
                    EngineModel { out: after.out.drop_last(), ..after } == (EngineModel {
                        table: after.table,
                        ..m
                    })
                }
            }
        }),
{
    if found.device_id == m.identity.device_id {
        reveal(machine_discovered);
    } else {
        lemma_found(m, found, at);
    }
}

/// A machine that discovery lost is out of sight, and no other is.
#[verifier::spinoff_prover]
pub proof fn law_a_lost_machine_is_out_of_sight(
    m: EngineModel,
    event: DiscoveryEvent,
    id: Seq<char>,
    draw: u64,
    at: Moment,
)
    requires
        event.deep_view() == DiscoveryModel::Lost(id),
    ensures
        ({
            let after = handled(m, Event::Discovered(event), draw, at);
            if find(m.table, id) is None {
                after == m
            } else {
                &&& after == (EngineModel {
                    table: m.table.filter(|found: DiscoveredModel| found.device_id != id),
                    out: after.out,
                    ..m
                })
                &&& after.out == m.out.push(ActionModel::Publish(snapshot_of(after, at.unix)))
            }
        }),
{
    reveal(machine_discovered);
    lemma_shows_itself(handled(m, Event::Discovered(event), draw, at), at.unix);
    lemma_without_filter(m.table, id, |found: DiscoveredModel| found.device_id != id);
}

/// Discovery that was started is ready and needs no further start; where it was not, the
/// user is told why and it is tried again.
#[verifier::spinoff_prover]
pub proof fn law_started_discovery_is_ready(
    m: EngineModel,
    error: Option<String>,
    draw: u64,
    at: Moment,
)
    ensures
        handled(m, Event::DiscoveryStarted { error }, draw, at) == match error.deep_view() {
            None => EngineModel { discovery_ready: true, discovery_dirty: false, ..m },
            Some(reason) => EngineModel {
                out: m.out.push(
                    ActionModel::Notify(
                        NoticeModel::Warning { message: "Peer discovery failed: "@ + reason },
                    ),
                ),
                ..m
            },
        },
{
    reveal(discovery_answered);
}

/// The port that was bound is the one that is shown; a port that cannot be had and a folder
/// that cannot be opened are told, and change nothing.
#[verifier::spinoff_prover]
pub proof fn law_the_bound_port_is_shown(
    m: EngineModel,
    port: u16,
    message: String,
    shown: String,
    error: String,
    draw: u64,
    at: Moment,
)
    ensures
        ({
            let after = handled(m, Event::ListenerBound(port), draw, at);
            &&& after == (EngineModel { listening_port: port, out: after.out, ..m })
            &&& after.out == m.out.push(
                ActionModel::Notify(
                    NoticeModel::Info {
                        message: "Listening for peers on port "@ + decimal(port as nat) + "."@,
                    },
                ),
            ).push(ActionModel::Publish(snapshot_of(after, at.unix)))
        }),
        handled(m, Event::ListenerFailed(message), draw, at) == (EngineModel {
            out: m.out.push(
                ActionModel::Notify(
                    NoticeModel::Error {
                        message: "Port "@ + decimal(m.settings.port as nat)
                            + " is not available: "@ + message@,
                    },
                ),
            ),
            ..m
        }),
        handled(m, Event::FolderFailed { shown, error }, draw, at) == (EngineModel {
            out: m.out.push(
                ActionModel::Notify(
                    NoticeModel::Error { message: "Could not open "@ + shown@ + ": "@ + error@ },
                ),
            ),
            ..m
        }),
{
    lemma_shows_itself(handled(m, Event::ListenerBound(port), draw, at), at.unix);
}

/// Whether `after` differs from `m` in that the session with `peer` was just heard of, and
/// in what is asked for.
pub open spec fn only_hears(m: EngineModel, after: EngineModel, peer: Seq<char>, at: Moment) -> bool {
    &&& heard_from(m, after, peer, at)
    &&& after == (EngineModel { sessions: after.sessions, out: after.out, ..m })
}

/// A sign of life is answered with the same number, to the machine that asked for it.
#[verifier::spinoff_prover]
pub proof fn law_a_sign_of_life_is_answered(
    m: EngineModel,
    peer: DeviceId,
    nonce: u64,
    extent: Option<(u64, u64)>,
    draw: u64,
    at: Moment,
)
    ensures
        ({
            let after = handled(m, says(peer, Message::Ping { nonce }, extent), draw, at);
            &&& only_hears(m, after, peer@, at)
            &&& after.out == match find(m.sessions, peer@) {
                Some(session) => m.out.push(
                    ActionModel::SendEither {
                        connection: session.connection,
                        message: MessageModel::Pong { nonce },
                    },
                ),
                None => m.out,
            }
        }),
{
    lemma_heard_from(m, peer@, at);
    let heard = heard_of(m, peer@, at);
    assert(find(heard.sessions, peer@) is Some <==> find(m.sessions, peer@) is Some);
}

/// The answer to a sign of life, and a greeting that comes late, only show that the machine
/// is there; an error that it reports is shown as well.
#[verifier::spinoff_prover]
pub proof fn law_plain_words_are_only_heard(
    m: EngineModel,
    peer: DeviceId,
    nonce: u64,
    device: DeviceInfo,
    protocol: u32,
    message: String,
    extent: Option<(u64, u64)>,
    draw: u64,
    at: Moment,
)
    ensures
        ({
            let after = handled(m, says(peer, Message::Pong { nonce }, extent), draw, at);
            only_hears(m, after, peer@, at) && after.out == m.out
        }),
        ({
            let hello = Message::Hello { protocol, device };
            let after = handled(m, says(peer, hello, extent), draw, at);
            only_hears(m, after, peer@, at) && after.out == m.out
        }),
        ({
            let hello = Message::HelloAck { protocol, device };
            let after = handled(m, says(peer, hello, extent), draw, at);
            only_hears(m, after, peer@, at) && after.out == m.out
        }),
        ({
            let after = handled(m, says(peer, Message::Error { message }, extent), draw, at);
            only_hears(m, after, peer@, at) && after.out == m.out.push(
                ActionModel::Notify(NoticeModel::Error { message: "Peer error: "@ + message@ }),
            )
        }),
{
    lemma_heard_from(m, peer@, at);
}

/// The displays that a machine reports are those of its session from then on.
#[verifier::spinoff_prover]
pub proof fn law_reported_displays_are_known(
    m: EngineModel,
    peer: DeviceId,
    displays: Vec<DisplayInfo>,
    extent: Option<(u64, u64)>,
    draw: u64,
    at: Moment,
)
    ensures
        ({
            let after = handled(m, says(peer, Message::Displays { displays }, extent), draw, at);
            &&& after == (EngineModel { sessions: after.sessions, out: after.out, ..m })
            &&& forall|id: Seq<char>| #[trigger]
                find(after.sessions, id) == match find(m.sessions, id) {
                    Some(session) => Some(
                        if id == peer@ {
                            SessionModel {
                                displays: displays.deep_view(),
                                extent,
                                last_rx: at.ms,
                                ..session
                            }
                        } else {
                            session
                        },
                    ),
                    None => None,
                }
            &&& after.out == m.out.push(ActionModel::Publish(snapshot_of(after, at.unix)))
        }),
{
    lemma_heard_from(m, peer@, at);
    lemma_displays(heard_of(m, peer@, at), peer@, displays.deep_view(), extent, at);
}

/// Whether `after` has the sessions of `m`, but for the one with `session.info.device_id`,
/// which is `session`.
pub open spec fn meets(m: EngineModel, after: EngineModel, session: SessionModel) -> bool {
    forall|id: Seq<char>| #[trigger]
        find(after.sessions, id) == if id == session.info.device_id {
            Some(session)
        } else {
            find(m.sessions, id)
        }
}

pub proof fn lemma_meets(m: EngineModel, session: SessionModel)
    ensures
        meets(m, m.with_session(session), session),
{
    law_find_after_put(m.sessions, session);
    assert forall|id: Seq<char>| id != session.info.device_id implies #[trigger] find(
        m.with_session(session).sessions,
        id,
    ) == find(m.sessions, id) by {
        law_put_leaves_others(m.sessions, session, id);
    }
}

#[verifier::spinoff_prover]
proof fn lemma_displays(
    m: EngineModel,
    peer: Seq<char>,
    displays: Seq<crate::geom::DisplayModel>,
    extent: Option<(u64, u64)>,
    at: Moment,
)
    ensures
        ({
            let after = displays_received(m, peer, displays, extent, at);
            &&& after == (EngineModel { sessions: after.sessions, out: after.out, ..m })
            &&& match find(m.sessions, peer) {
                Some(session) => meets(m, after, SessionModel { displays, extent, ..session }),
                None => after.sessions == m.sessions,
            }
            &&& find(m.sessions, peer) matches Some(session) ==> session.info.device_id == peer
            &&& after.out == m.out.push(ActionModel::Publish(snapshot_of(after, at.unix)))
        }),
{
    reveal(displays_received);
    lemma_index_of(m.sessions, peer);
    let after = displays_received(m, peer, displays, extent, at);
    lemma_shows_itself(after, at.unix);
    if let Some(session) = find(m.sessions, peer) {
        lemma_meets(m, SessionModel { displays, extent, ..session });
        assert(after.sessions == m.with_session(
            SessionModel { displays, extent, ..session },
        ).sessions);
    }
}

} // verus!
