//! What starting, tidying up, showing the state and leaving promise.

use vstd::prelude::*;

use crate::config::{PeerRecordModel, SettingsModel};
use crate::discovery::{pruned, AdvertiseModel, DiscoverSource, DiscoveredModel, SocketModel};
use crate::engine::meeting::{dials_at, lemma_parting, sessions_but};
use crate::engine::rules::{
    brought_home, control_released, discovery_rebuilt, handover_ended, held_released,
    own_advertisement, public_key_of, session_ended, transfers_failed,
};
use crate::engine::services::{
    farewells, housekept, new_engine, pinged, sessions_ended, shut_down, silent_peers,
    some_displays, tidied,
};
use crate::engine::snapshot::{
    all_peer_views, found_shown, found_views, lemma_shows_itself, record_shown, record_views,
    session_shown, session_views, snapshot_of, transfer_shown,
};
use crate::engine::state::{
    ActionModel, ControlModel, EngineModel, Moment, SessionModel, TransferEntryModel,
};
use crate::engine::steering::{lemma_lifts_everything, lifts_everything};
use crate::geom::{DisplayModel, Double, Rect};
use crate::identity::{fingerprint_text, DeviceIdentityModel};
use crate::keyed::{distinct, find, holds, lemma_holds, Keyed};
use crate::protocol::{MessageModel, OsKind};
use crate::sorted::{in_rank_order, law_sorting_keeps_the_items};
use crate::text::{decimal, up_to};
use crate::transfer::{IncomingModel, OutgoingModel};
use crate::view::{
    ConnectionModel, ControlModeModel, DeviceViewModel, PairingViewModel, PeerViewModel,
    TransferDirection, TransferFileModel, TransferState, TransferViewModel,
};

verus! {

/// Two ways to pick that agree on every item pick the same.
proof fn lemma_same_filter<T>(s: Seq<T>, f: spec_fn(T) -> bool, g: spec_fn(T) -> bool)
    requires
        forall|i: int| 0 <= i < s.len() ==> f(#[trigger] s[i]) == g(s[i]),
    ensures
        s.filter(f) == s.filter(g),
    decreases s.len(),
{
    reveal(Seq::filter);
    if s.len() > 0 {
        let head = s.drop_last();
        assert(forall|i: int| 0 <= i < head.len() ==> #[trigger] head[i] == s[i]);
        lemma_same_filter(head, f, g);
        assert(s[s.len() - 1] == s.last());
    }
}

/// Picking twice picks what both ways pick.
proof fn lemma_filter_twice<T>(
    s: Seq<T>,
    f: spec_fn(T) -> bool,
    g: spec_fn(T) -> bool,
    h: spec_fn(T) -> bool,
)
    requires
        forall|x: T| #[trigger] h(x) == (f(x) && g(x)),
    ensures
        s.filter(f).filter(g) == s.filter(h),
    decreases s.len(),
{
    reveal(Seq::filter);
    if s.len() > 0 {
        let head = s.drop_last();
        lemma_filter_twice(head, f, g, h);
        if f(s.last()) {
            assert(s.filter(f).drop_last() =~= head.filter(f));
            assert(s.filter(f).last() == s.last());
        }
    }
}

/// Whether a session has been heard of within the last 25 seconds.
pub open spec fn is_lively(at: Moment) -> spec_fn(SessionModel) -> bool {
    |session: SessionModel| at.ms - session.last_rx <= 25_000
}

/// The machines whose sessions have been silent for longer than that.
pub open spec fn gone_silent(m: EngineModel, at: Moment, id: Seq<char>) -> bool {
    exists|i: int|
        0 <= i < m.sessions.len() && (#[trigger] m.sessions[i]).info.device_id == id
            && !is_lively(at)(m.sessions[i])
}

/// Whether a session is with none of the first `n` of some machines.
pub open spec fn is_with_none(ids: Seq<Seq<char>>, n: nat) -> spec_fn(SessionModel) -> bool {
    |session: SessionModel| !ids.take(n as int).contains(session.info.device_id)
}

/// How a transfer is after the session with its machine went away, or did not.
pub open spec fn failed_if(entry: TransferEntryModel, lost: bool) -> TransferEntryModel {
    match entry {
        TransferEntryModel::Outgoing { transfer, state } => TransferEntryModel::Outgoing {
            transfer,
            state: if lost && state == TransferState::Active {
                TransferState::Failed
            } else {
                state
            },
        },
        TransferEntryModel::Incoming { transfer, state, error } => TransferEntryModel::Incoming {
            transfer,
            state: if lost && state == TransferState::Active {
                TransferState::Failed
            } else {
                state
            },
            error,
        },
    }
}

/// The machine at the other end of a transfer.
pub open spec fn far_end(entry: TransferEntryModel) -> Seq<char> {
    match entry {
        TransferEntryModel::Outgoing { transfer, .. } => transfer.peer,
        TransferEntryModel::Incoming { transfer, .. } => transfer.peer,
    }
}

/// The machine with which a handover goes on, in either direction.
pub open spec fn hands_with(control: ControlModel) -> Option<Seq<char>> {
    match control {
        ControlModel::Local => None,
        ControlModel::Controlling { peer, .. } => Some(peer),
        ControlModel::Controlled { peer, .. } => Some(peer),
    }
}

/// Whether a machine is one of the first `n` of some machines.
pub open spec fn among(ids: Seq<Seq<char>>, n: nat, id: Seq<char>) -> bool {
    ids.take(n as int).contains(id)
}

/// Whether `after` is `m` without the sessions with the first `n` of some machines.
pub open spec fn lost_first(
    m: EngineModel,
    after: EngineModel,
    ids: Seq<Seq<char>>,
    n: nat,
) -> bool {
    &&& after.sessions == m.sessions.filter(is_with_none(ids, n))
    &&& after.transfers.len() == m.transfers.len()
    &&& forall|i: int|
        0 <= i < m.transfers.len() ==> #[trigger] after.transfers[i] == failed_if(
            m.transfers[i],
            among(ids, n, far_end(m.transfers[i])),
        )
    &&& after.control == (if hands_with(m.control) matches Some(peer) && among(ids, n, peer) {
        ControlModel::Local
    } else {
        m.control
    })
    &&& after == (EngineModel {
        sessions: after.sessions,
        connecting: after.connecting,
        transfers: after.transfers,
        control: after.control,
        capture_active: after.capture_active,
        last_cursor: after.last_cursor,
        settle_until: after.settle_until,
        held_keys: after.held_keys,
        held_buttons: after.held_buttons,
        out: after.out,
        ..m
    })
}

#[verifier::spinoff_prover]
proof fn lemma_one_lost(m: EngineModel, peer: Seq<char>, at: Moment)
    requires
        holds(m.sessions, peer),
    ensures
        ({
            let after = session_ended(m, peer, at);
            &&& after.sessions == sessions_but(m, peer)
            &&& after.transfers.len() == m.transfers.len()
            &&& forall|i: int|
                0 <= i < m.transfers.len() ==> #[trigger] after.transfers[i] == failed_if(
                    m.transfers[i],
                    far_end(m.transfers[i]) == peer,
                )
            &&& after.control == (if hands_with(m.control) == Some(peer) {
                ControlModel::Local
            } else {
                m.control
            })
            &&& after == (EngineModel {
                sessions: after.sessions,
                connecting: after.connecting,
                transfers: after.transfers,
                control: after.control,
                capture_active: after.capture_active,
                last_cursor: after.last_cursor,
                settle_until: after.settle_until,
                held_keys: after.held_keys,
                held_buttons: after.held_buttons,
                out: after.out,
                ..m
            })
        }),
{
    reveal(session_ended);
    reveal(handover_ended);
    reveal(control_released);
    reveal(brought_home);
    reveal(held_released);
    reveal(transfers_failed);
    lemma_parting(m, peer);
}

#[verifier::spinoff_prover]
proof fn lemma_all_lost(m: EngineModel, ids: Seq<Seq<char>>, n: nat, at: Moment)
    requires
        n <= ids.len(),
        forall|i: int, j: int| 0 <= i < j < ids.len() ==> #[trigger] ids[i] != #[trigger] ids[j],
        forall|i: int| 0 <= i < ids.len() ==> holds(m.sessions, #[trigger] ids[i]),
    ensures
        lost_first(m, sessions_ended(m, ids, n, at), ids, n),
    decreases n,
{
    let after = sessions_ended(m, ids, n, at);
    if n == 0 {
        assert(ids.take(0) =~= Seq::<Seq<char>>::empty());
        lemma_keeps_all(m.sessions, is_with_none(ids, 0));
    } else {
        let k = (n - 1) as nat;
        lemma_all_lost(m, ids, k, at);
        let before = sessions_ended(m, ids, k, at);
        let peer = ids[n - 1];
        lemma_take_more(ids, n);
        assert(holds(before.sessions, peer)) by {
            lemma_holds(m.sessions, peer);
            lemma_holds(before.sessions, peer);
            let i = choose|i: int|
                0 <= i < m.sessions.len() && (#[trigger] m.sessions[i]).key() == peer;
            assert(!among(ids, k, peer)) by {
                if among(ids, k, peer) {
                    let j = choose|j: int|
                        0 <= j < ids.take(k as int).len() && ids.take(k as int)[j] == peer;
                    assert(ids[j] == peer);
                }
            }
            assert(is_with_none(ids, k)(m.sessions[i]));
            lemma_filter_has(m.sessions, is_with_none(ids, k), i);
            let j = choose|j: int|
                0 <= j < before.sessions.len() && before.sessions[j] == m.sessions[i];
            assert(before.sessions[j].key() == peer);
        }
        lemma_one_lost(before, peer, at);
        let other = |session: SessionModel| session.info.device_id != peer;
        assert forall|x: SessionModel| #[trigger] is_with_none(ids, n)(x) == (is_with_none(ids, k)(
            x,
        ) && other(x)) by {
            assert(among(ids, n, x.info.device_id) == (among(ids, k, x.info.device_id)
                || x.info.device_id == peer));
        }
        lemma_filter_twice(m.sessions, is_with_none(ids, k), other, is_with_none(ids, n));
        assert(after.sessions == m.sessions.filter(is_with_none(ids, n)));
        assert forall|i: int| 0 <= i < m.transfers.len() implies #[trigger] after.transfers[i]
            == failed_if(m.transfers[i], among(ids, n, far_end(m.transfers[i]))) by {
            assert(before.transfers[i] == failed_if(
                m.transfers[i],
                among(ids, k, far_end(m.transfers[i])),
            ));
            assert(among(ids, n, far_end(m.transfers[i])) == (among(
                ids,
                k,
                far_end(m.transfers[i]),
            ) || far_end(m.transfers[i]) == peer));
        }
        if let Some(hand) = hands_with(m.control) {
            assert(among(ids, n, hand) == (among(ids, k, hand) || hand == peer));
        }
    }
}

proof fn lemma_take_more(ids: Seq<Seq<char>>, n: nat)
    requires
        0 < n <= ids.len(),
    ensures
        forall|id: Seq<char>| #[trigger]
            among(ids, n, id) == (among(ids, (n - 1) as nat, id) || id == ids[n - 1]),
{
    let k = (n - 1) as nat;
    assert forall|id: Seq<char>| #[trigger] among(ids, n, id) == (among(ids, k, id) || id == ids[n
        - 1]) by {
        if among(ids, n, id) {
            let j = choose|j: int| 0 <= j < ids.take(n as int).len() && ids.take(n as int)[j] == id;
            if j < k {
                assert(ids.take(k as int)[j] == id);
            }
        }
        if among(ids, k, id) {
            let j = choose|j: int| 0 <= j < ids.take(k as int).len() && ids.take(k as int)[j] == id;
            assert(ids.take(n as int)[j] == id);
        }
        if id == ids[n - 1] {
            assert(ids.take(n as int)[n - 1] == id);
        }
    }
}

proof fn lemma_keeps_all<T>(s: Seq<T>, f: spec_fn(T) -> bool)
    requires
        forall|i: int| 0 <= i < s.len() ==> f(#[trigger] s[i]),
    ensures
        s.filter(f) == s,
    decreases s.len(),
{
    reveal(Seq::filter);
    if s.len() > 0 {
        let head = s.drop_last();
        assert(forall|i: int| 0 <= i < head.len() ==> #[trigger] head[i] == s[i]);
        lemma_keeps_all(head, f);
        assert(s[s.len() - 1] == s.last());
        assert(s =~= head.push(s.last()));
    }
}

proof fn lemma_filter_has<T>(s: Seq<T>, f: spec_fn(T) -> bool, i: int)
    requires
        0 <= i < s.len(),
        f(s[i]),
    ensures
        s.filter(f).contains(s[i]),
    decreases s.len(),
{
    reveal(Seq::filter);
    let head = s.drop_last();
    if i == s.len() - 1 {
        assert(s.filter(f)[s.filter(f).len() - 1] == s[i]);
    } else {
        lemma_filter_has(head, f, i);
        let j = choose|j: int| 0 <= j < head.filter(f).len() && head.filter(f)[j] == s[i];
        assert(s.filter(f)[j] == s[i]);
    }
}

/// Whether one of the first `n` sessions is with the given machine and has gone silent.
pub open spec fn silent_among(
    sessions: Seq<SessionModel>,
    n: nat,
    at: Moment,
    id: Seq<char>,
) -> bool {
    exists|i: int|
        0 <= i < n && (#[trigger] sessions[i]).info.device_id == id && !is_lively(at)(sessions[i])
}

proof fn lemma_silent(sessions: Seq<SessionModel>, n: nat, at: Moment)
    requires
        n <= sessions.len(),
        distinct(sessions),
    ensures
        ({
            let ids = silent_peers(sessions, n, at);
            &&& forall|k: int|
                0 <= k < ids.len() ==> silent_among(sessions, n, at, #[trigger] ids[k])
            &&& forall|i: int|
                0 <= i < n && !is_lively(at)(#[trigger] sessions[i]) ==> ids.contains(
                    sessions[i].info.device_id,
                )
            &&& forall|i: int, j: int|
                0 <= i < j < ids.len() ==> #[trigger] ids[i] != #[trigger] ids[j]
        }),
    decreases n,
{
    if n > 0 {
        let k = (n - 1) as nat;
        lemma_silent(sessions, k, at);
        let before = silent_peers(sessions, k, at);
        let ids = silent_peers(sessions, n, at);
        assert forall|i: int| 0 <= i < n && !is_lively(at)(#[trigger] sessions[i]) implies ids.contains(
            sessions[i].info.device_id,
        ) by {
            if i < k {
                let j = choose|j: int|
                    0 <= j < before.len() && before[j] == sessions[i].info.device_id;
                assert(ids[j] == sessions[i].info.device_id);
            } else {
                assert(ids[ids.len() - 1] == sessions[i].info.device_id);
            }
        }
        assert forall|a: int| 0 <= a < ids.len() implies silent_among(
            sessions,
            n,
            at,
            #[trigger] ids[a],
        ) by {
            if a < before.len() {
                assert(ids[a] == before[a]);
                assert(silent_among(sessions, k, at, before[a]));
                let i = choose|i: int|
                    0 <= i < k && (#[trigger] sessions[i]).info.device_id == before[a]
                        && !is_lively(at)(sessions[i]);
                assert(sessions[i].info.device_id == ids[a]);
            } else {
                assert(sessions[n - 1].info.device_id == ids[a]);
            }
        }
        assert forall|a: int, b: int| 0 <= a < b < ids.len() implies #[trigger] ids[a]
            != #[trigger] ids[b] by {
            assert(ids[a] == before[a]);
            if b < before.len() {
                assert(ids[b] == before[b]);
            } else {
                assert(silent_among(sessions, k, at, before[a]));
                let i = choose|i: int|
                    0 <= i < k && (#[trigger] sessions[i]).info.device_id == before[a]
                        && !is_lively(at)(sessions[i]);
                assert(sessions[i].key() != sessions[n - 1].key());
            }
        }
    }
}

/// The signs of life that are asked for: one of each connected session, in their order, each
/// with the number drawn for its place.
pub open spec fn asks_for_life(sessions: Seq<SessionModel>, draws: Seq<u64>) -> Seq<ActionModel> {
    life_of(sessions, draws, sessions.len())
}

/// The places of the first `n` sessions.
pub open spec fn first_places(n: nat) -> Seq<int> {
    Seq::new(n, |i: int| i)
}

/// The signs of life that are asked for of the first `n` sessions.
pub open spec fn life_of(
    sessions: Seq<SessionModel>,
    draws: Seq<u64>,
    n: nat,
) -> Seq<ActionModel> {
    first_places(n).filter(|i: int| sessions[i].state is Connected).map_values(
        |i: int|
            ActionModel::SendEither {
                connection: sessions[i].connection,
                message: MessageModel::Ping { nonce: draws[i] },
            },
    )
}

#[verifier::spinoff_prover]
proof fn lemma_pinged(m: EngineModel, draws: Seq<u64>, n: nat)
    ensures
        pinged(m, draws, n) == (EngineModel { out: m.out + life_of(m.sessions, draws, n), ..m }),
    decreases n,
{
    reveal(Seq::filter);
    if n > 0 {
        let k = (n - 1) as nat;
        lemma_pinged(m, draws, k);
        assert(first_places(n).drop_last() =~= first_places(k));
        assert(first_places(n).last() == k);
    }
    assert(pinged(m, draws, n).out =~= m.out + life_of(m.sessions, draws, n));
}

/// What is asked for where discovery has to start over.
pub open spec fn restarts_discovery(m: EngineModel) -> Seq<ActionModel> {
    if !m.discovery_dirty {
        Seq::empty()
    } else if m.settings.discoverable {
        seq![
            ActionModel::StopDiscovery,
            ActionModel::StartDiscovery(
                AdvertiseModel {
                    device_id: m.identity.device_id,
                    name: m.settings.device_name,
                    os: m.os,
                    port: m.settings.port,
                    fingerprint: fingerprint_text(public_key_of(m)),
                    enabled: true,
                },
            ),
        ]
    } else {
        seq![ActionModel::StopDiscovery]
    }
}

/// Whether a machine was seen within the last 90 seconds.
pub open spec fn is_in_sight(at: Moment) -> spec_fn(DiscoveredModel) -> bool {
    |found: DiscoveredModel| at.unix - found.last_seen <= 90
}

proof fn lemma_pruned(table: Seq<DiscoveredModel>, at: Moment)
    ensures
        pruned(table, at.unix, crate::engine::rules::FORGET_AFTER_SECS) == table.filter(
            is_in_sight(at),
        ),
    decreases table.len(),
{
    reveal(Seq::filter);
    if table.len() > 0 {
        lemma_pruned(table.drop_last(), at);
    }
}

/// Tidying up keeps the machines that were seen within the last 90 seconds and the sessions
/// that were heard of within the last 25. What was going on with the others is over. Every
/// connected machine that is left is asked for a sign of life.
#[verifier::spinoff_prover]
#[verifier::rlimit(60)]
pub proof fn law_tidying_keeps_what_is_there(
    m: EngineModel,
    hint: Option<Seq<char>>,
    draws: Seq<u64>,
    at: Moment,
)
    requires
        distinct(m.sessions),
    ensures
        ({
            let after = housekept(m, hint, draws, at);
            &&& after.permission_hint == hint
            &&& after.table == if m.discovery_dirty {
                Seq::empty()
            } else {
                m.table.filter(is_in_sight(at))
            }
            &&& after.discovery_ready == (m.discovery_ready && !m.discovery_dirty)
            &&& after.discovery_dirty == (m.discovery_dirty && m.settings.discoverable)
            &&& after.sessions == m.sessions.filter(is_lively(at))
            &&& after.transfers.len() == m.transfers.len()
            &&& forall|i: int|
                0 <= i < m.transfers.len() ==> #[trigger] after.transfers[i] == failed_if(
                    m.transfers[i],
                    gone_silent(m, at, far_end(m.transfers[i])),
                )
            &&& after.control == (if hands_with(m.control) matches Some(peer) && gone_silent(
                m,
                at,
                peer,
            ) {
                ControlModel::Local
            } else {
                m.control
            })
            &&& after == (EngineModel {
                permission_hint: hint,
                table: after.table,
                discovery_ready: after.discovery_ready,
                discovery_dirty: after.discovery_dirty,
                sessions: after.sessions,
                connecting: after.connecting,
                transfers: after.transfers,
                control: after.control,
                capture_active: after.capture_active,
                last_cursor: after.last_cursor,
                settle_until: after.settle_until,
                held_keys: after.held_keys,
                held_buttons: after.held_buttons,
                out: after.out,
                ..m
            })
            &&& exists|before: Seq<ActionModel>| #[trigger]
                (before + asks_for_life(after.sessions, draws)).push(
                    ActionModel::Publish(snapshot_of(after, at.unix)),
                ) == after.out
        }),
{
    reveal(housekept);
    reveal(tidied);
    reveal(discovery_rebuilt);
    let ready = if m.discovery_dirty {
        discovery_rebuilt(m)
    } else {
        m
    };
    let fresh = EngineModel {
        permission_hint: hint,
        table: pruned(ready.table, at.unix, crate::engine::rules::FORGET_AFTER_SECS),
        ..ready
    };
    lemma_pruned(ready.table, at);
    assert(Seq::<DiscoveredModel>::empty().filter(is_in_sight(at)) =~= Seq::empty()) by {
        reveal(Seq::filter);
    }
    let ids = silent_peers(m.sessions, m.sessions.len(), at);
    lemma_silent(m.sessions, m.sessions.len(), at);
    assert forall|k: int| 0 <= k < ids.len() implies holds(fresh.sessions, #[trigger] ids[k]) by {
        lemma_holds(fresh.sessions, ids[k]);
        assert(silent_among(m.sessions, m.sessions.len(), at, ids[k]));
        let i = choose|i: int|
            0 <= i < m.sessions.len() && (#[trigger] m.sessions[i]).info.device_id == ids[k]
                && !is_lively(at)(m.sessions[i]);
        assert(fresh.sessions[i].key() == ids[k]);
    }
    lemma_all_lost(fresh, ids, ids.len(), at);
    let tidy = tidied(m, hint, at);
    assert(ids.take(ids.len() as int) =~= ids);
    assert forall|id: Seq<char>| #[trigger] gone_silent(m, at, id) == among(
        ids,
        ids.len(),
        id,
    ) by {
        if among(ids, ids.len(), id) {
            let k = choose|k: int| 0 <= k < ids.len() && ids[k] == id;
            assert(silent_among(m.sessions, m.sessions.len(), at, ids[k]));
        }
    }
    assert forall|i: int| 0 <= i < m.sessions.len() implies is_with_none(ids, ids.len())(
        #[trigger] m.sessions[i],
    ) == is_lively(at)(m.sessions[i]) by {
        let id = m.sessions[i].info.device_id;
        if among(ids, ids.len(), id) {
            assert(gone_silent(m, at, id));
            let j = choose|j: int|
                0 <= j < m.sessions.len() && (#[trigger] m.sessions[j]).info.device_id == id
                    && !is_lively(at)(m.sessions[j]);
            assert(m.sessions[i].key() == m.sessions[j].key());
            assert(i == j);
        }
    }
    lemma_same_filter(m.sessions, is_with_none(ids, ids.len()), is_lively(at));
    lemma_pinged(tidy, draws, tidy.sessions.len());
    let after = housekept(m, hint, draws, at);
    lemma_shows_itself(after, at.unix);
    assert((tidy.out + asks_for_life(after.sessions, draws)).push(
        ActionModel::Publish(snapshot_of(after, at.unix)),
    ) =~= after.out);
    assert forall|i: int| 0 <= i < m.transfers.len() implies #[trigger] after.transfers[i]
        == failed_if(m.transfers[i], gone_silent(m, at, far_end(m.transfers[i]))) by {
        assert(tidy.transfers[i] == failed_if(
            fresh.transfers[i],
            among(ids, ids.len(), far_end(m.transfers[i])),
        ));
    }
    if let Some(peer) = hands_with(m.control) {
        assert(gone_silent(m, at, peer) == among(ids, ids.len(), peer));
    }
}

/// Where nobody has gone silent, tidying up ends nothing: it starts discovery over where that
/// is due, drops the machines that are out of sight and asks for signs of life.
#[verifier::spinoff_prover]
pub proof fn law_tidying_ends_nothing_without_silence(
    m: EngineModel,
    hint: Option<Seq<char>>,
    draws: Seq<u64>,
    at: Moment,
)
    requires
        forall|i: int| 0 <= i < m.sessions.len() ==> is_lively(at)(#[trigger] m.sessions[i]),
    ensures
        ({
            let after = housekept(m, hint, draws, at);
            &&& after == (EngineModel {
                permission_hint: hint,
                table: if m.discovery_dirty {
                    Seq::empty()
                } else {
                    m.table.filter(is_in_sight(at))
                },
                discovery_ready: m.discovery_ready && !m.discovery_dirty,
                discovery_dirty: m.discovery_dirty && m.settings.discoverable,
                out: after.out,
                ..m
            })
            &&& after.out == (m.out + restarts_discovery(m) + asks_for_life(
                m.sessions,
                draws,
            )).push(ActionModel::Publish(snapshot_of(after, at.unix)))
        }),
{
    reveal(housekept);
    reveal(tidied);
    reveal(discovery_rebuilt);
    reveal(own_advertisement);
    let ready = if m.discovery_dirty {
        discovery_rebuilt(m)
    } else {
        m
    };
    assert(ready.out =~= m.out + restarts_discovery(m));
    lemma_pruned(ready.table, at);
    assert(Seq::<DiscoveredModel>::empty().filter(is_in_sight(at)) =~= Seq::empty()) by {
        reveal(Seq::filter);
    }
    lemma_nobody_silent(m.sessions, m.sessions.len(), at);
    let tidy = tidied(m, hint, at);
    lemma_pinged(tidy, draws, tidy.sessions.len());
    let after = housekept(m, hint, draws, at);
    lemma_shows_itself(after, at.unix);
    assert(after.out =~= (m.out + restarts_discovery(m) + asks_for_life(m.sessions, draws)).push(
        ActionModel::Publish(snapshot_of(after, at.unix)),
    ));
}

proof fn lemma_nobody_silent(sessions: Seq<SessionModel>, n: nat, at: Moment)
    requires
        n <= sessions.len(),
        forall|i: int| 0 <= i < sessions.len() ==> is_lively(at)(#[trigger] sessions[i]),
    ensures
        silent_peers(sessions, n, at).len() == 0,
    decreases n,
{
    if n > 0 {
        lemma_nobody_silent(sessions, (n - 1) as nat, at);
        assert(is_lively(at)(sessions[n - 1]));
    }
}

proof fn lemma_farewells(m: EngineModel, n: nat)
    requires
        n <= m.sessions.len(),
    ensures
        ({
            let after = farewells(m, n);
            &&& after == (EngineModel { out: after.out, ..m })
            &&& after.out.len() == m.out.len() + 2 * n
            &&& after.out.take(m.out.len() as int) == m.out
            &&& forall|i: int|
                #![trigger m.sessions[i]]
                0 <= i < n ==> after.out[m.out.len() + 2 * i] == (ActionModel::Send {
                    connection: m.sessions[i].connection,
                    message: MessageModel::Bye { reason: "shutting down"@ },
                }) && after.out[m.out.len() + 2 * i + 1] == (ActionModel::Close {
                    connection: m.sessions[i].connection,
                })
        }),
    decreases n,
{
    let after = farewells(m, n);
    if n > 0 {
        lemma_farewells(m, (n - 1) as nat);
        let before = farewells(m, (n - 1) as nat);
        assert(after.out.take(m.out.len() as int) =~= before.out.take(m.out.len() as int));
    } else {
        assert(after.out.take(m.out.len() as int) =~= m.out);
    }
}

/// Whether `out` starts with `before`, goes on with a word of goodbye to each of the sessions
/// and the end of its connection, and ends with `rest`.
pub open spec fn says_farewell(
    out: Seq<ActionModel>,
    before: Seq<ActionModel>,
    sessions: Seq<SessionModel>,
    rest: Seq<ActionModel>,
) -> bool {
    &&& out.len() == before.len() + 2 * sessions.len() + rest.len()
    &&& out.take(before.len() as int) == before
    &&& forall|i: int|
        #![trigger sessions[i]]
        0 <= i < sessions.len() ==> out[before.len() + 2 * i] == (ActionModel::Send {
            connection: sessions[i].connection,
            message: MessageModel::Bye { reason: "shutting down"@ },
        }) && out[before.len() + 2 * i + 1] == (ActionModel::Close {
            connection: sessions[i].connection,
        })
    &&& out.skip((before.len() + 2 * sessions.len()) as int) == rest
}

/// What is asked for last when this machine leaves.
pub open spec fn closing_down(m: EngineModel) -> Seq<ActionModel> {
    (if m.input_ready {
        seq![ActionModel::ReleaseCapture, ActionModel::StopInput]
    } else {
        Seq::empty()
    }) + (if m.clipboard_ready {
        seq![ActionModel::StopClipboard]
    } else {
        Seq::empty()
    }) + seq![ActionModel::SaveSettings, ActionModel::SavePeers]
}

/// Leaving says goodbye to every machine and closes its connection, lifts everything that is
/// held down, stops what runs and saves what is known.
#[verifier::spinoff_prover]
#[verifier::rlimit(60)]
pub proof fn law_leaving_says_goodbye_to_everyone(m: EngineModel)
    ensures
        ({
            let after = shut_down(m);
            &&& after == (EngineModel {
                sessions: Seq::empty(),
                held_keys: Seq::empty(),
                held_buttons: Seq::empty(),
                out: after.out,
                ..m
            })
            &&& exists|lifts: Seq<ActionModel>| #[trigger]
                lifts_everything(m, lifts) && says_farewell(
                    after.out,
                    if m.discovery_ready {
                        m.out.push(ActionModel::SayGoodbye)
                    } else {
                        m.out
                    },
                    m.sessions,
                    lifts + closing_down(m),
                )
        }),
{
    reveal(shut_down);
    let after = shut_down(m);
    let parting = if m.discovery_ready {
        m.does(ActionModel::SayGoodbye)
    } else {
        m
    };
    lemma_farewells(parting, m.sessions.len());
    let told = farewells(parting, m.sessions.len());
    let alone = EngineModel { sessions: Seq::empty(), ..told };
    lemma_lifts_everything(alone);
    let calm = held_released(alone);
    let n = alone.out.len() as int;
    let lifts = calm.out.skip(n);
    assert(lifts_everything(m, lifts));
    assert(calm.out =~= alone.out + lifts);
    assert(after.out =~= alone.out + (lifts + closing_down(m)));
    let before = parting.out;
    assert(after.out.take(before.len() as int) =~= alone.out.take(before.len() as int));
    assert(after.out.skip((before.len() + 2 * m.sessions.len()) as int) =~= lifts + closing_down(
        m,
    ));
    assert(says_farewell(after.out, before, m.sessions, lifts + closing_down(m)));
}

/// A desktop of 1920 by 1080 points at the origin, in the bits of its numbers.
pub open spec fn usual_desktop() -> Rect {
    Rect {
        x: Double { bits: 0 },
        y: Double { bits: 0 },
        width: Double { bits: 0x409e_0000_0000_0000 },
        height: Double { bits: 0x4090_e000_0000_0000 },
    }
}

/// The displays that the platform knows are kept as they are; where it knows none, a single
/// one of the usual size stands in for them.
pub proof fn law_known_displays_are_kept(displays: Seq<DisplayModel>)
    ensures
        displays.len() > 0 ==> some_displays(displays) == displays,
        displays.len() == 0 ==> some_displays(displays) == seq![
            DisplayModel {
                id: "primary"@,
                name: "Display"@,
                bounds: usual_desktop(),
                scale_factor: Double { bits: 0x3ff0_0000_0000_0000 },
                is_primary: true,
            },
        ],
{
}

/// A new engine is this machine with its settings and the machines that it trusts, and knows
/// nothing else yet: its input is at home, nothing runs, and discovery is due to start.
pub proof fn law_a_new_engine_knows_nothing_yet(
    identity: DeviceIdentityModel,
    os: OsKind,
    settings: SettingsModel,
    peers: Seq<PeerRecordModel>,
)
    ensures
        ({
            let m = new_engine(identity, os, settings, peers);
            &&& m.identity == identity
            &&& m.os == os
            &&& m.settings == settings
            &&& m.peers == peers
            &&& m.device == (DeviceViewModel {
                device_id: identity.device_id,
                name: settings.device_name,
                os,
                fingerprint: fingerprint_text(public_key_of(m)),
                version: crate::protocol::VERSION@,
            })
            &&& m.table.len() == 0 && m.sessions.len() == 0 && m.connecting.len() == 0
            &&& m.transfers.len() == 0 && m.displays.len() == 0 && m.out.len() == 0
            &&& m.held_keys.len() == 0 && m.held_buttons.len() == 0
            &&& m.control == ControlModel::Local
            &&& !m.input_ready && !m.clipboard_ready && !m.discovery_ready && !m.capture_active
            &&& m.discovery_dirty
            &&& m.last_cursor is None && m.last_scroll_lock is None && m.settle_until is None
            &&& m.permission_hint is None && m.edge_log_at is None
            &&& m.listening_port == 0
            &&& m.desktop == usual_desktop()
            &&& !m.clipboard_status.enabled && m.clipboard_status.last_kind is None
                && m.clipboard_status.last_at is None && m.clipboard_status.last_direction is None
        }),
{
}

/// The name by which a machine is shown: that of its session, else the one under which it is
/// trusted, else the part of its id before the first dash.
pub open spec fn goes_by(m: EngineModel, peer: Seq<char>, name: Seq<char>) -> bool {
    match find(m.sessions, peer) {
        Some(session) => name == session.info.name,
        None => match find(m.peers, peer) {
            Some(record) => name == record.name,
            None => {
                &&& name.len() <= peer.len()
                &&& name == peer.take(name.len() as int)
                &&& !name.contains('-')
                &&& name.len() < peer.len() ==> peer[name.len() as int] == '-'
            },
        },
    }
}

proof fn lemma_cut(s: Seq<char>, sep: char)
    ensures
        ({
            let head = up_to(s, sep);
            &&& head.len() <= s.len()
            &&& head == s.take(head.len() as int)
            &&& !head.contains(sep)
            &&& head.len() < s.len() ==> s[head.len() as int] == sep
        }),
    decreases s.len(),
{
    let head = up_to(s, sep);
    if s.len() > 0 && s[0] != sep {
        let rest = s.drop_first();
        lemma_cut(rest, sep);
        let tail = up_to(rest, sep);
        assert(head =~= s.take(head.len() as int)) by {
            assert(forall|i: int| 0 <= i < tail.len() ==> #[trigger] tail[i] == rest[i]);
            assert(forall|i: int| 0 < i < head.len() ==> #[trigger] head[i] == tail[i - 1]);
        }
        assert(!head.contains(sep)) by {
            if head.contains(sep) {
                let i = choose|i: int| 0 <= i < head.len() && head[i] == sep;
                assert(i > 0);
                assert(tail[i - 1] == sep);
            }
        }
        if head.len() < s.len() {
            assert(rest[tail.len() as int] == s[head.len() as int]);
        }
    } else {
        assert(head =~= s.take(0));
    }
}

/// A picture shows this machine as it is: its settings, whose input drives it, what the
/// platform and the clipboard are doing, and the port on which it listens.
#[verifier::spinoff_prover]
pub proof fn law_a_picture_shows_this_machine(m: EngineModel, unix: u64)
    ensures
        ({
            let shown = snapshot_of(m, unix);
            &&& shown.device == m.device
            &&& shown.settings == m.settings
            &&& shown.clipboard == m.clipboard_status
            &&& shown.platform.os == m.os && shown.platform.displays == m.displays
                && shown.platform.desktop == m.desktop
            &&& shown.input.backend_available == m.input_ready
            &&& shown.input.enabled == m.settings.input.enabled
            &&& shown.input.capture_active == m.capture_active
            &&& shown.input.permission_hint == m.permission_hint
            &&& shown.control.sharing_enabled == m.settings.input.enabled
            &&& shown.control.release_hotkey == match m.settings.input.release_hotkey {
                crate::config::ReleaseHotkey::ScrollLockTwice => "Scroll Lock twice"@,
                crate::config::ReleaseHotkey::CtrlAltEscape => "Ctrl + Alt + Esc"@,
                crate::config::ReleaseHotkey::CtrlAltCmdEscape => "Ctrl + Alt + Cmd + Esc"@,
                crate::config::ReleaseHotkey::Disabled => "Disabled"@,
            }
            &&& m.listening_port > 0 ==> shown.listening_port == m.listening_port
            &&& m.listening_port == 0 ==> shown.listening_port == m.settings.port
            &&& match m.control {
                ControlModel::Local => shown.control.mode == ControlModeModel::Local,
                ControlModel::Controlling { peer, .. } => {
                    shown.control.mode matches ControlModeModel::Controlling { device_id, name }
                        && device_id == peer && goes_by(m, peer, name)
                },
                ControlModel::Controlled { peer, .. } => {
                    shown.control.mode matches ControlModeModel::Controlled { device_id, name }
                        && device_id == peer && goes_by(m, peer, name)
                },
            }
        }),
{
    reveal(snapshot_of);
    match m.control {
        ControlModel::Local => {},
        ControlModel::Controlling { peer, .. } => {
            lemma_cut(peer, '-');
        },
        ControlModel::Controlled { peer, .. } => {
            lemma_cut(peer, '-');
        },
    }
}

/// How the displays of a session are summed up.
pub open spec fn sums_up(session: SessionModel) -> Option<Seq<char>> {
    match session.extent {
        Some((width, height)) => Some(
            decimal(width as nat) + "x"@ + decimal(height as nat) + " across "@ + decimal(
                session.displays.len(),
            ) + " display(s)"@,
        ),
        None => None,
    }
}

/// How the pairing of a session is shown: the code to pass on, whether one is awaited, and
/// the fingerprint of the other machine.
pub open spec fn shows_pairing(session: SessionModel) -> Option<PairingViewModel> {
    match session.pairing {
        Some(pairing) => Some(
            PairingViewModel {
                code_to_share: pairing.code_to_share,
                awaiting_code: pairing.awaiting_code,
                remote_fingerprint: session.info.fingerprint,
            },
        ),
        None => None,
    }
}

/// How an address is written: that of the newer family in brackets.
pub open spec fn writes_place(place: SocketModel) -> Seq<char> {
    if place.ip.v4 {
        place.ip.text + ":"@ + decimal(place.port as nat)
    } else {
        "["@ + place.ip.text + "]:"@ + decimal(place.port as nat)
    }
}

/// Whether a machine that is in sight is shown as it is: by its session where there is one,
/// else by what was seen of it; trusted where it is in the trust store, and then with the
/// fingerprint that is known of it.
pub open spec fn shows_found(m: EngineModel, view: PeerViewModel, found: DiscoveredModel) -> bool {
    &&& view.device_id == found.device_id
    &&& view.last_seen == Some(found.last_seen)
    &&& view.discovered_via == Some(
        match found.source {
            DiscoverSource::Mdns => "Bonjour"@,
            DiscoverSource::Beacon => "Broadcast"@,
            DiscoverSource::Manual => "Manual"@,
        },
    )
    &&& view.link == find(m.settings.links, found.device_id)
    &&& found.addresses.len() == 0 ==> view.address is None
    &&& forall|i: int| #[trigger]
        dials_at(found, i) ==> view.address == Some(
            writes_place(SocketModel { ip: found.addresses[i], port: found.port }),
        )
    &&& match find(m.peers, found.device_id) {
        Some(record) => view.trusted && view.fingerprint == record.fingerprint,
        None => !view.trusted && view.fingerprint == found.fingerprint,
    }
    &&& match find(m.sessions, found.device_id) {
        Some(session) => {
            &&& view.name == session.info.name
            &&& view.os == session.info.os
            &&& view.connection == session.state
            &&& view.display_count == session.displays.len()
            &&& view.display_summary == sums_up(session)
            &&& view.pairing == shows_pairing(session)
        },
        None => {
            &&& view.name == found.name
            &&& view.os == found.os
            &&& view.connection == ConnectionModel::Offline
            &&& view.display_count == 0
            &&& view.display_summary is None
            &&& view.pairing is None
        },
    }
}

proof fn lemma_first_place(found: DiscoveredModel, i: int)
    requires
        dials_at(found, i),
    ensures
        found.best() == Some(SocketModel { ip: found.addresses[i], port: found.port }),
{
    lemma_first_family(found.addresses);
    let first = crate::discovery::first_v4(found.addresses);
    if found.addresses[i].v4 {
        if first < i {
            assert(!found.addresses[first].v4);
        }
        if first > i {
            assert(!found.addresses[i].v4);
        }
    } else if first < found.addresses.len() {
        assert(!found.addresses[first].v4);
    }
}

proof fn lemma_first_family(addresses: Seq<crate::discovery::IpModel>)
    ensures
        ({
            let first = crate::discovery::first_v4(addresses);
            &&& 0 <= first <= addresses.len()
            &&& first < addresses.len() ==> addresses[first].v4
            &&& forall|j: int| 0 <= j < first ==> !(#[trigger] addresses[j]).v4
        }),
    decreases addresses.len(),
{
    if addresses.len() > 0 && !addresses[0].v4 {
        let rest = addresses.drop_first();
        lemma_first_family(rest);
        assert(forall|j: int| 0 < j < addresses.len() ==> #[trigger] addresses[j] == rest[j - 1]);
    }
}

proof fn lemma_listed(m: EngineModel, unix: u64, view: PeerViewModel)
    requires
        all_peer_views(m, unix).contains(view),
    ensures
        snapshot_of(m, unix).peers.contains(view),
{
    reveal(snapshot_of);
    let all = all_peer_views(m, unix);
    law_sorting_keeps_the_items(all);
    all.to_multiset_ensures();
    in_rank_order(all).to_multiset_ensures();
    assert(all.to_multiset().count(view) > 0);
}

/// Every machine that discovery sees is in the picture, as it is.
#[verifier::spinoff_prover]
pub proof fn law_a_picture_shows_what_is_in_sight(m: EngineModel, unix: u64, i: int)
    requires
        0 <= i < m.table.len(),
    ensures
        exists|view: PeerViewModel| #[trigger]
            snapshot_of(m, unix).peers.contains(view) && shows_found(m, view, m.table[i]),
{
    let found = m.table[i];
    let view = found_shown(m, found);
    let all = all_peer_views(m, unix);
    assert(found_views(m)[i] == view);
    assert(all[i] == view);
    lemma_listed(m, unix, view);
    assert forall|j: int| #[trigger] dials_at(found, j) implies view.address == Some(
        writes_place(SocketModel { ip: found.addresses[j], port: found.port }),
    ) by {
        lemma_first_place(found, j);
    }
    lemma_first_family(found.addresses);
    assert(shows_found(m, view, found));
}

proof fn lemma_session_view(m: EngineModel, n: nat, unix: u64, i: int)
    requires
        0 <= i < n <= m.sessions.len(),
        find(m.table, m.sessions[i].info.device_id) is None,
    ensures
        session_views(m, n, unix).contains(session_shown(m, m.sessions[i], unix)),
    decreases n,
{
    let views = session_views(m, n, unix);
    let view = session_shown(m, m.sessions[i], unix);
    if i == n - 1 {
        assert(views[views.len() - 1] == view);
    } else {
        lemma_session_view(m, (n - 1) as nat, unix, i);
        let before = session_views(m, (n - 1) as nat, unix);
        let j = choose|j: int| 0 <= j < before.len() && before[j] == view;
        assert(views[j] == view);
    }
}

/// Every connected machine that discovery does not see is in the picture, as its session is.
#[verifier::spinoff_prover]
pub proof fn law_a_picture_shows_what_is_connected(m: EngineModel, unix: u64, i: int)
    requires
        0 <= i < m.sessions.len(),
        find(m.table, m.sessions[i].info.device_id) is None,
    ensures
        ({
            let session = m.sessions[i];
            snapshot_of(m, unix).peers.contains(
                PeerViewModel {
                    device_id: session.info.device_id,
                    name: session.info.name,
                    os: session.info.os,
                    fingerprint: session.info.fingerprint,
                    trusted: session.trusted,
                    connection: session.state,
                    discovered_via: None,
                    address: None,
                    last_seen: Some(unix),
                    display_count: session.displays.len(),
                    display_summary: sums_up(session),
                    pairing: shows_pairing(session),
                    link: find(m.settings.links, session.info.device_id),
                },
            )
        }),
{
    let view = session_shown(m, m.sessions[i], unix);
    lemma_session_view(m, m.sessions.len(), unix, i);
    let views = session_views(m, m.sessions.len(), unix);
    let j = choose|j: int| 0 <= j < views.len() && views[j] == view;
    let all = all_peer_views(m, unix);
    assert(all[found_views(m).len() + j] == view);
    lemma_listed(m, unix, view);
}

proof fn lemma_record_view(m: EngineModel, n: nat, i: int)
    requires
        0 <= i < n <= m.peers.len(),
        find(m.table, m.peers[i].device_id) is None,
        find(m.sessions, m.peers[i].device_id) is None,
    ensures
        record_views(m, n).contains(record_shown(m, m.peers[i])),
    decreases n,
{
    let views = record_views(m, n);
    let view = record_shown(m, m.peers[i]);
    if i == n - 1 {
        assert(views[views.len() - 1] == view);
    } else {
        lemma_record_view(m, (n - 1) as nat, i);
        let before = record_views(m, (n - 1) as nat);
        let j = choose|j: int| 0 <= j < before.len() && before[j] == view;
        assert(views[j] == view);
    }
}

/// Every trusted machine that is neither seen nor connected is in the picture as one that is
/// away.
#[verifier::spinoff_prover]
pub proof fn law_a_picture_shows_who_is_away(m: EngineModel, unix: u64, i: int)
    requires
        0 <= i < m.peers.len(),
        find(m.table, m.peers[i].device_id) is None,
        find(m.sessions, m.peers[i].device_id) is None,
    ensures
        ({
            let record = m.peers[i];
            snapshot_of(m, unix).peers.contains(
                PeerViewModel {
                    device_id: record.device_id,
                    name: record.name,
                    os: record.os,
                    fingerprint: record.fingerprint,
                    trusted: true,
                    connection: ConnectionModel::Offline,
                    discovered_via: None,
                    address: record.last_address,
                    last_seen: record.last_seen,
                    display_count: 0,
                    display_summary: None,
                    pairing: None,
                    link: find(m.settings.links, record.device_id),
                },
            )
        }),
{
    let view = record_shown(m, m.peers[i]);
    lemma_record_view(m, m.peers.len(), i);
    let views = record_views(m, m.peers.len());
    let j = choose|j: int| 0 <= j < views.len() && views[j] == view;
    let all = all_peer_views(m, unix);
    let skipped = found_views(m).len() + session_views(m, m.sessions.len(), unix).len();
    assert(all[skipped + j] == view);
    lemma_listed(m, unix, view);
}

/// The speed to show: the bytes so far over the whole seconds since the start, at least one.
pub open spec fn speed(done: u64, started_at: u64, unix: u64) -> int {
    if unix > started_at {
        done as int / (unix - started_at)
    } else {
        done as int
    }
}

/// How a transfer that goes out is shown.
pub open spec fn shows_outgoing(
    t: OutgoingModel,
    state: TransferState,
    unix: u64,
) -> TransferViewModel {
    TransferViewModel {
        id: t.id,
        peer: t.peer,
        peer_name: t.peer_name,
        direction: TransferDirection::Sending,
        state,
        files: Seq::new(
            t.files.len(),
            |i: int|
                TransferFileModel {
                    index: t.files[i].entry.index,
                    name: t.files[i].entry.name,
                    relative_path: t.files[i].entry.relative_path,
                    size: t.files[i].entry.size,
                    done_bytes: 0,
                    is_dir: t.files[i].entry.is_dir,
                },
        ),
        total_bytes: t.total_bytes,
        done_bytes: t.done_bytes,
        bytes_per_second: speed(t.done_bytes, t.started_at, unix) as u64,
        started_at: t.started_at,
        destination: None,
        error: None,
        needs_acceptance: false,
    }
}

/// How a transfer that comes in is shown.
pub open spec fn shows_incoming(
    t: IncomingModel,
    state: TransferState,
    error: Option<Seq<char>>,
    unix: u64,
) -> TransferViewModel {
    TransferViewModel {
        id: t.id,
        peer: t.peer,
        peer_name: t.peer_name,
        direction: TransferDirection::Receiving,
        state,
        files: Seq::new(
            t.entries.len(),
            |i: int|
                TransferFileModel {
                    index: t.entries[i].index,
                    name: t.entries[i].name,
                    relative_path: t.entries[i].relative_path,
                    size: t.entries[i].size,
                    done_bytes: t.written[i],
                    is_dir: t.entries[i].is_dir,
                },
        ),
        total_bytes: t.total_bytes,
        done_bytes: t.done_bytes,
        bytes_per_second: speed(t.done_bytes, t.started_at, unix) as u64,
        started_at: t.started_at,
        destination: Some(t.root.text),
        error,
        needs_acceptance: state == TransferState::Pending,
    }
}

/// Every transfer is in the picture as it is: with its files, with how far it is and how
/// fast, and with what waits for the user.
#[verifier::spinoff_prover]
pub proof fn law_a_picture_shows_every_transfer(m: EngineModel, unix: u64, i: int)
    requires
        crate::engine::transfers::transfers_sound(m.transfers),
        0 <= i < m.transfers.len(),
    ensures
        snapshot_of(m, unix).transfers.contains(
            match m.transfers[i] {
                TransferEntryModel::Outgoing { transfer, state } => shows_outgoing(
                    transfer,
                    state,
                    unix,
                ),
                TransferEntryModel::Incoming { transfer, state, error } => shows_incoming(
                    transfer,
                    state,
                    error,
                    unix,
                ),
            },
        ),
{
    reveal(snapshot_of);
    let all = m.transfers.map_values(|entry: TransferEntryModel| transfer_shown(entry, unix));
    let view = transfer_shown(m.transfers[i], unix);
    assert(all[i] == view);
    law_sorting_keeps_the_items(all);
    all.to_multiset_ensures();
    in_rank_order(all).to_multiset_ensures();
    assert(all.contains(view));
    assert(all.to_multiset().count(view) > 0);
    assert(crate::engine::transfers::transfer_sound(m.transfers[i]));
    match m.transfers[i] {
        TransferEntryModel::Outgoing { transfer, state } => {
            assert(view.files =~= shows_outgoing(transfer, state, unix).files);
            assert(transfer.done_bytes as int / 1 == transfer.done_bytes);
        },
        TransferEntryModel::Incoming { transfer, state, error } => {
            assert(view.files =~= shows_incoming(transfer, state, error, unix).files);
            assert(transfer.done_bytes as int / 1 == transfer.done_bytes);
        },
    }
}

} // verus!
