//! What holds of the engine between any two events.

use vstd::prelude::*;

use crate::codec::Incoming;
use crate::discovery::{law_one_entry_per_device, DiscoveryModel};
use crate::engine::control::{
    captured, control_received, cursor_sampled, cursor_ticked, engage_tried, engaged, entered,
    event_relayed, handed_back, input_received, let_go, link_pushed, returned_home, tap_noted,
};
use crate::engine::dispatch::{
    clipboard_reset, code_required, commanded, connection_failed, disconnected, displays_received,
    event_fits, forgotten, handled, heard_of, lemma_put_session_sound, message_received,
    settings_updated, sharing_set, sound, Event,
};
use crate::engine::pairing::{
    code_refused, key_checked, key_refused, link_ensured, pair_judged, pair_responded, paired,
    pairing_answered, pairing_handed_off, pairing_requested, peer_remembered, session_accepted,
    session_established, session_sound, session_weighed, EstablishedModel,
};
use crate::engine::rules::{
    brought_home, control_released, discovery_answered, discovery_rebuilt, handover_ended,
    held_released, session_closed, session_ended, transfers_failed,
};
use crate::engine::services::{
    clipboard_changed, clipboard_received, housekept, machine_discovered, new_engine, peer_dialled,
    pinged, sessions_ended, silent_peers, tidied, told_to_connected,
};
use crate::engine::state::{
    Command, EngineModel, Moment, PairingModel, SessionModel, TransferEntryModel,
};
use crate::engine::transfers::{
    bytes_sent, chunk_received, chunk_written, file_cancelled, file_offered, files_chosen,
    files_collected, files_finished, folders_created, folders_resolved, offer_accepted,
    offer_answered, progress_reported, stream_ended, transfer_accepted, transfer_cancelled,
    transfer_sound, unfinished, ChunkOutcomeModel,
};
use crate::input::InputEvent;
use crate::keyed::{
    distinct, find, holds, index_of, law_keys_stay_distinct, lemma_index_of, lemma_without, put,
    without, Keyed,
};
use crate::protocol::{InputControl, MessageModel, TransferId};
use crate::view::TransferState;

verus! {

/// Whether nothing is held that a peer pressed.
pub open spec fn nothing_held(m: EngineModel) -> bool {
    m.held_keys.len() == 0 && m.held_buttons.len() == 0
}

/// What holds of the engine between any two events: there is one session per machine, one
/// transfer per id and one table entry per machine, every session and transfer is sound,
/// and a key or button is held only while a peer drives this machine.
pub open spec fn consistent(m: EngineModel) -> bool {
    &&& sound(m)
    &&& distinct(m.sessions)
    &&& distinct(m.transfers)
    &&& distinct(m.table)
    &&& distinct(m.connecting)
    &&& m.control is Controlled || nothing_held(m)
}

/// The parts of the engine that `consistent` speaks of.
pub open spec fn same_core(a: EngineModel, b: EngineModel) -> bool {
    &&& a.sessions == b.sessions
    &&& a.transfers == b.transfers
    &&& a.table == b.table
    &&& a.connecting == b.connecting
    &&& a.control == b.control
    &&& a.held_keys == b.held_keys
    &&& a.held_buttons == b.held_buttons
}

proof fn keep_session(m: EngineModel, session: SessionModel)
    requires
        consistent(m),
        session_sound(session),
    ensures
        consistent(m.with_session(session)),
{
    lemma_put_session_sound(m.sessions, session);
    law_keys_stay_distinct(m.sessions, session, session.info.device_id);
}

proof fn keep_transfer(m: EngineModel, entry: TransferEntryModel)
    requires
        consistent(m),
        transfer_sound(entry),
    ensures
        consistent(m.with_transfer(entry)),
{
    lemma_index_of(m.transfers, entry.key());
    law_keys_stay_distinct(m.transfers, entry, entry.key());
    let after = put(m.transfers, entry);
    assert forall|i: int| 0 <= i < after.len() implies transfer_sound(#[trigger] after[i]) by {
        if i < m.transfers.len() && after[i] == m.transfers[i] {
            assert(transfer_sound(m.transfers[i]));
        } else {
            assert(after[i] == entry);
        }
    }
}

proof fn keep_without_session(m: EngineModel, peer: Seq<char>)
    requires
        consistent(m),
    ensures
        consistent((EngineModel { sessions: without(m.sessions, peer), ..m })),
{
    if m.sessions.len() > 0 {
        law_keys_stay_distinct(m.sessions, m.sessions[0], peer);
    }
    lemma_without(m.sessions, peer);
    let after = without(m.sessions, peer);
    assert forall|i: int| 0 <= i < after.len() implies session_sound(#[trigger] after[i]) by {
        assert(after.contains(after[i]));
        let j = choose|j: int| 0 <= j < m.sessions.len() && m.sessions[j] == after[i];
        assert(session_sound(m.sessions[j]));
    }
}

proof fn keep_without_connecting(m: EngineModel, peer: Seq<char>)
    requires
        consistent(m),
    ensures
        consistent((EngineModel { connecting: without(m.connecting, peer), ..m })),
{
    if m.connecting.len() > 0 {
        law_keys_stay_distinct(m.connecting, m.connecting[0], peer);
    }
}

proof fn found_session_is_sound(m: EngineModel, peer: Seq<char>)
    requires
        consistent(m),
        holds(m.sessions, peer),
    ensures
        session_sound(find(m.sessions, peer)->Some_0),
        find(m.sessions, peer)->Some_0.info.device_id == peer,
{
    lemma_index_of(m.sessions, peer);
}

proof fn found_transfer_is_sound(m: EngineModel, id: TransferId)
    requires
        consistent(m),
        holds(m.transfers, id),
    ensures
        transfer_sound(find(m.transfers, id)->Some_0),
        find(m.transfers, id)->Some_0.key() == id,
{
    lemma_index_of(m.transfers, id);
}

/// Releasing what is held leaves nothing held.
pub proof fn law_release_lifts_everything(m: EngineModel)
    ensures
        nothing_held(held_released(m)),
        consistent(m) ==> consistent(held_released(m)),
{
    reveal(held_released);
}

#[verifier::spinoff_prover]
proof fn keep_control_released(m: EngineModel, at: Moment)
    requires
        consistent(m),
    ensures
        consistent(control_released(m, at)),
        control_released(m, at).sessions == m.sessions,
        control_released(m, at).transfers == m.transfers,
        m.control is Controlling ==> control_released(m, at).control is Local,
        !(m.control is Controlling) ==> control_released(m, at) == m,
{
    reveal(control_released);
    reveal(brought_home);
}

#[verifier::spinoff_prover]
proof fn keep_handover_ended(m: EngineModel, peer: Seq<char>, at: Moment)
    requires
        consistent(m),
    ensures
        consistent(handover_ended(m, peer, at)),
        handover_ended(m, peer, at).sessions == m.sessions,
        handover_ended(m, peer, at).transfers == m.transfers,
        !handover_ended(m, peer, at).controls(peer),
        !handover_ended(m, peer, at).obeys(peer),
        m.obeys(peer) ==> nothing_held(handover_ended(m, peer, at)),
{
    reveal(handover_ended);
    keep_control_released(m, at);
    law_release_lifts_everything(m);
    assert(held_released(m).sessions == m.sessions && held_released(m).transfers == m.transfers
        && held_released(m).table == m.table && held_released(m).connecting == m.connecting
        && held_released(m).control == m.control) by {
        reveal(held_released);
    }
}

#[verifier::spinoff_prover]
proof fn keep_failed_transfers(m: EngineModel, peer: Seq<char>)
    requires
        consistent(m),
    ensures
        consistent((EngineModel { transfers: transfers_failed(m.transfers, peer), ..m })),
{
    reveal(transfers_failed);
    let after = transfers_failed(m.transfers, peer);
    assert forall|i: int| 0 <= i < after.len() implies transfer_sound(#[trigger] after[i]) by {
        assert(transfer_sound(m.transfers[i]));
    }
    assert forall|i: int, j: int| 0 <= i < j < after.len() implies (#[trigger] after[i]).key() != (
    #[trigger] after[j]).key() by {
        assert(after[i].key() == m.transfers[i].key());
        assert(after[j].key() == m.transfers[j].key());
    }
}

#[verifier::spinoff_prover]
proof fn keep_session_ended(m: EngineModel, peer: Seq<char>, at: Moment)
    requires
        consistent(m),
    ensures
        consistent(session_ended(m, peer, at)),
        session_ended(m, peer, at).sessions == without(m.sessions, peer),
        !holds(session_ended(m, peer, at).sessions, peer),
{
    reveal(session_ended);
    lemma_without(m.sessions, peer);
    if holds(m.sessions, peer) {
        keep_without_session(m, peer);
        let a = EngineModel { sessions: without(m.sessions, peer), ..m };
        keep_without_connecting(a, peer);
        let gone = EngineModel {
            sessions: without(m.sessions, peer),
            connecting: without(m.connecting, peer),
            ..m
        };
        assert(gone == (EngineModel { connecting: without(a.connecting, peer), ..a }));
        keep_handover_ended(gone, peer, at);
        keep_failed_transfers(handover_ended(gone, peer, at), peer);
    }
}

#[verifier::spinoff_prover]
proof fn keep_session_closed(m: EngineModel, peer: Seq<char>, at: Moment)
    requires
        consistent(m),
    ensures
        consistent(session_closed(m, peer, at)),
        session_closed(m, peer, at).sessions == without(m.sessions, peer),
        !holds(session_closed(m, peer, at).sessions, peer),
        !session_closed(m, peer, at).controls(peer),
        !session_closed(m, peer, at).obeys(peer),
        m.obeys(peer) ==> nothing_held(session_closed(m, peer, at)),
{
    reveal(session_closed);
    lemma_without(m.sessions, peer);
    keep_without_session(m, peer);
    let gone = match find(m.sessions, peer) {
        Some(session) => EngineModel { sessions: without(m.sessions, peer), ..m }.does(
            crate::engine::state::ActionModel::Close { connection: session.connection },
        ),
        None => m,
    };
    assert(consistent(gone));
    keep_handover_ended(gone, peer, at);
}

#[verifier::spinoff_prover]
proof fn keep_pairing_requested(m: EngineModel, peer: Seq<char>, draw: u64, at: Moment)
    requires
        consistent(m),
    ensures
        consistent(pairing_requested(m, peer, draw, at)),
{
    reveal(pairing_requested);
    if holds(m.sessions, peer) {
        found_session_is_sound(m, peer);
        let session = find(m.sessions, peer)->Some_0;
        keep_session(
            m,
            SessionModel {
                state: crate::view::ConnectionModel::Pairing,
                pairing: Some(
                    PairingModel {
                        code_to_share: Some(crate::engine::pairing::code_of(draw)),
                        awaiting_code: false,
                        attempts: 0,
                        typed: false,
                    },
                ),
                ..session
            },
        );
    }
}

#[verifier::spinoff_prover]
proof fn keep_session_accepted(m: EngineModel, e: EstablishedModel, draw: u64, at: Moment)
    requires
        consistent(m),
        e.remote_static.len() <= 0xffff,
    ensures
        consistent(session_accepted(m, e, draw, at)),
{
    reveal(session_accepted);
    let peer = e.info.device_id;
    let trusted = holds(m.peers, peer);
    let session = crate::engine::pairing::new_session(e, trusted, at);
    keep_session(m, session);
    let added = m.with_session(session);
    let replaced = match find(m.sessions, peer) {
        Some(previous) => added.does(
            crate::engine::state::ActionModel::Close { connection: previous.connection },
        ),
        None => added,
    };
    let listening = replaced.does(
        crate::engine::state::ActionModel::Listen { connection: e.connection, peer },
    );
    let known = EngineModel {
        peers: crate::engine::pairing::seen_again(m.peers, peer, e.info.name, at.unix),
        ..listening
    }.does(crate::engine::state::ActionModel::SavePeers);
    assert(consistent(known));
    keep_pairing_requested(known, peer, draw, at);
}

#[verifier::spinoff_prover]
proof fn keep_session_established(m: EngineModel, e: EstablishedModel, draw: u64, at: Moment)
    requires
        consistent(m),
        e.remote_static.len() <= 0xffff,
    ensures
        consistent(session_established(m, e, draw, at)),
{
    reveal(session_established);
    reveal(key_checked);
    reveal(key_refused);
    reveal(session_weighed);
    keep_without_connecting(m, e.info.device_id);
    let arrived = EngineModel { connecting: without(m.connecting, e.info.device_id), ..m };
    keep_session_accepted(arrived, e, draw, at);
}

#[verifier::spinoff_prover]
proof fn keep_pairing_handed_off(m: EngineModel, peer: Seq<char>, draw: u64, at: Moment)
    requires
        consistent(m),
    ensures
        consistent(pairing_handed_off(m, peer, draw, at)),
{
    reveal(pairing_handed_off);
    keep_pairing_requested(m, peer, draw, at);
}

#[verifier::spinoff_prover]
proof fn remembering_keeps_core(m: EngineModel, session: SessionModel, at: Moment)
    ensures
        same_core(peer_remembered(m, session, at), m),
{
    reveal(peer_remembered);
}

#[verifier::spinoff_prover]
proof fn linking_keeps_core(m: EngineModel, peer: Seq<char>, name: Seq<char>)
    ensures
        same_core(link_ensured(m, peer, name), m),
{
    reveal(link_ensured);
}

#[verifier::spinoff_prover]
proof fn keep_code_refused(
    m: EngineModel,
    session: SessionModel,
    pairing: PairingModel,
    at: Moment,
)
    requires
        consistent(m),
        session_sound(session),
        session.pairing == Some(pairing),
    ensures
        consistent(code_refused(m, session, pairing, at)),
{
    reveal(code_refused);
    let attempts = (pairing.attempts + 1) as u8;
    let next = SessionModel { pairing: Some(PairingModel { attempts, ..pairing }), ..session };
    let answered = m.with_session(next).does(
        crate::engine::pairing::pair_result(session, false, Some("the code did not match"@)),
    );
    if attempts >= crate::engine::rules::MAX_ATTEMPTS {
        // The session with its last attempt used up is removed with the others kept.
        let calm = SessionModel { pairing: None, ..session };
        keep_session(m, calm);
        lemma_put_then_without(m.sessions, next, calm);
        let warned = answered.warns("Too many wrong pairing codes; the connection was closed."@);
        keep_closed_after_put(m, warned, session.info.device_id, at);
    } else {
        keep_session(m, next);
    }
}

/// Removing a machine's session gives the same whatever was put in its place before.
proof fn lemma_put_then_without(
    sessions: Seq<SessionModel>,
    a: SessionModel,
    b: SessionModel,
)
    requires
        a.info.device_id == b.info.device_id,
    ensures
        without(put(sessions, a), a.info.device_id) == without(
            put(sessions, b),
            a.info.device_id,
        ),
{
    let k = a.info.device_id;
    lemma_index_of(sessions, k);
    if holds(sessions, k) {
        let i = index_of(sessions, k);
        lemma_update_then_without(sessions, i, a, k);
        lemma_update_then_without(sessions, i, b, k);
    } else {
        assert(sessions.push(a).drop_last() =~= sessions);
        assert(sessions.push(b).drop_last() =~= sessions);
    }
}

/// Changing an item that is removed afterwards changes nothing.
proof fn lemma_update_then_without(
    sessions: Seq<SessionModel>,
    i: int,
    item: SessionModel,
    k: Seq<char>,
)
    requires
        0 <= i < sessions.len(),
        sessions[i].info.device_id == k,
        item.info.device_id == k,
    ensures
        without(sessions.update(i, item), k) == without(sessions, k),
    decreases sessions.len(),
{
    let head = sessions.drop_last();
    if i < head.len() {
        assert(sessions.update(i, item).drop_last() =~= head.update(i, item));
        lemma_update_then_without(head, i, item, k);
    } else {
        assert(sessions.update(i, item).drop_last() =~= head);
    }
}

#[verifier::spinoff_prover]
proof fn keep_closed_after_put(m: EngineModel, warned: EngineModel, peer: Seq<char>, at: Moment)
    requires
        consistent(m),
        exists|next: SessionModel|
            next.info.device_id == peer && warned.sessions == #[trigger] put(m.sessions, next),
        same_core(
            (EngineModel { sessions: m.sessions, ..warned }),
            m,
        ),
    ensures
        consistent(session_closed(warned, peer, at)),
{
    let next = choose|next: SessionModel|
        next.info.device_id == peer && warned.sessions == #[trigger] put(m.sessions, next);
    reveal(session_closed);
    let calm = SessionModel { pairing: None, remote_static: Seq::empty(), ..next };
    keep_session(m, calm);
    lemma_put_then_without(m.sessions, next, calm);
    let base = m.with_session(calm);
    keep_without_session(base, peer);
    crate::keyed::law_find_after_put(m.sessions, next);
    let gone = EngineModel { sessions: without(warned.sessions, peer), ..warned }.does(
        crate::engine::state::ActionModel::Close {
            connection: find(warned.sessions, peer)->Some_0.connection,
        },
    );
    assert(consistent(gone));
    keep_handover_ended(gone, peer, at);
}

#[verifier::spinoff_prover]
proof fn keep_pair_responded(m: EngineModel, peer: Seq<char>, code: Seq<char>, at: Moment)
    requires
        consistent(m),
    ensures
        consistent(pair_responded(m, peer, code, at)),
{
    reveal(pair_responded);
    if holds(m.sessions, peer) {
        found_session_is_sound(m, peer);
        let session = find(m.sessions, peer)->Some_0;
        remembering_keeps_core(m, session, at);
        let known = peer_remembered(m, session, at);
        keep_session(known, paired(session));
        linking_keeps_core(known.with_session(paired(session)), peer, session.info.name);
        if session.pairing is Some {
            keep_code_refused(m, session, session.pairing->Some_0, at);
        }
    }
}

#[verifier::spinoff_prover]
proof fn keep_pair_judged(
    m: EngineModel,
    peer: Seq<char>,
    accepted: bool,
    reason: Option<Seq<char>>,
    at: Moment,
)
    requires
        consistent(m),
    ensures
        consistent(pair_judged(m, peer, accepted, reason, at)),
{
    reveal(pair_judged);
    if holds(m.sessions, peer) {
        found_session_is_sound(m, peer);
        let session = find(m.sessions, peer)->Some_0;
        remembering_keeps_core(m, session, at);
        let known = peer_remembered(m, session, at);
        linking_keeps_core(known, peer, session.info.name);
        keep_session(link_ensured(known, peer, session.info.name), paired(session));
        let message = match reason {
            Some(text) => text,
            None => "pairing rejected"@,
        };
        keep_session(
            m,
            SessionModel {
                state: crate::view::ConnectionModel::Failed { reason: message },
                pairing: None,
                ..session
            },
        );
    }
}

#[verifier::spinoff_prover]
proof fn keep_pairing_answered(
    m: EngineModel,
    peer: Seq<char>,
    code: Option<Seq<char>>,
    accept: bool,
    at: Moment,
)
    requires
        consistent(m),
    ensures
        consistent(pairing_answered(m, peer, code, accept, at)),
{
    reveal(pairing_answered);
    if holds(m.sessions, peer) {
        found_session_is_sound(m, peer);
        let session = find(m.sessions, peer)->Some_0;
        keep_session(m, crate::engine::pairing::typed_for(session));
        keep_session_closed(
            m.does(
                crate::engine::pairing::pair_result(
                    session,
                    false,
                    Some("the request was declined"@),
                ),
            ),
            peer,
            at,
        );
    }
}

#[verifier::spinoff_prover]
proof fn keep_discovery_rebuilt(m: EngineModel)
    requires
        consistent(m),
    ensures
        consistent(discovery_rebuilt(m)),
        discovery_rebuilt(m).sessions == m.sessions,
{
    reveal(discovery_rebuilt);
}

#[verifier::spinoff_prover]
proof fn keep_cursor_ticked(
    m: EngineModel,
    position: Option<crate::geom::Point>,
    pushed: crate::layout::PushedEdges,
    at: Moment,
)
    requires
        consistent(m),
    ensures
        consistent(cursor_ticked(m, position, pushed, at)),
{
    reveal(cursor_ticked);
    keep_discovery_rebuilt(m);
    let ready = if m.discovery_dirty {
        discovery_rebuilt(m)
    } else {
        m
    };
    if position is Some {
        keep_cursor_sampled(ready, position->Some_0, pushed, at);
    }
}

#[verifier::spinoff_prover]
proof fn keep_cursor_sampled(
    m: EngineModel,
    position: crate::geom::Point,
    pushed: crate::layout::PushedEdges,
    at: Moment,
)
    requires
        consistent(m),
    ensures
        consistent(cursor_sampled(m, position, pushed, at)),
{
    reveal(cursor_sampled);
    reveal(engage_tried);
    reveal(link_pushed);
    reveal(handed_back);
    let moved = EngineModel { last_cursor: Some(position), ..m };
    if m.control is Controlled {
        let peer = m.control->Controlled_peer;
        let told = moved.sends_either(
            peer,
            MessageModel::Control(InputControl::ReturnHome { x: position.x, y: position.y }),
        );
        law_release_lifts_everything(told);
        reveal(held_released);
    }
}

#[verifier::spinoff_prover]
proof fn keep_engaged(
    m: EngineModel,
    link: crate::config::EdgeLinkModel,
    placed: crate::layout::PlacedModel,
    entry: crate::geom::Point,
    error: Option<Seq<char>>,
    at: Moment,
)
    requires
        consistent(m),
        m.control is Local,
    ensures
        consistent(engaged(m, link, placed, entry, error, at)),
{
    reveal(engaged);
}

#[verifier::spinoff_prover]
proof fn keep_captured(
    m: EngineModel,
    event: crate::input::CapturedModel,
    motion: crate::engine::state::Motion,
    at: Moment,
)
    requires
        consistent(m),
    ensures
        consistent(captured(m, event, motion, at)),
{
    reveal(captured);
    reveal(event_relayed);
    keep_control_released(tap_noted(m, event, at), at);
    if event is CaptureLost {
        keep_control_released(
            m.alarms("Input capture stopped: "@ + event->CaptureLost_reason),
            at,
        );
    }
}

#[verifier::spinoff_prover]
proof fn keep_input_received(m: EngineModel, event: InputEvent)
    requires
        consistent(m),
    ensures
        consistent(input_received(m, event)),
{
    reveal(input_received);
}

#[verifier::spinoff_prover]
proof fn keep_control_received(
    m: EngineModel,
    peer: Seq<char>,
    control: InputControl,
    at: Moment,
)
    requires
        consistent(m),
    ensures
        consistent(control_received(m, peer, control, at)),
{
    reveal(control_received);
    reveal(entered);
    reveal(let_go);
    reveal(returned_home);
    reveal(brought_home);
    law_release_lifts_everything(m);
    reveal(held_released);
}

#[verifier::spinoff_prover]
proof fn keep_files_chosen(
    m: EngineModel,
    peer: Seq<char>,
    paths: Seq<crate::transfer::LocalPathModel>,
)
    requires
        consistent(m),
    ensures
        consistent(files_chosen(m, peer, paths)),
{
    reveal(files_chosen);
}

#[verifier::spinoff_prover]
proof fn keep_files_collected(
    m: EngineModel,
    peer: Seq<char>,
    walked: crate::transfer::Walked,
    draw: u64,
    at: Moment,
)
    requires
        consistent(m),
    ensures
        consistent(files_collected(m, peer, walked, draw, at)),
{
    reveal(files_collected);
}

#[verifier::spinoff_prover]
proof fn keep_offer_answered(
    m: EngineModel,
    transfer: crate::transfer::OutgoingModel,
    error: Option<Seq<char>>,
    at: Moment,
)
    requires
        consistent(m),
    ensures
        consistent(offer_answered(m, transfer, error, at)),
{
    reveal(offer_answered);
    keep_transfer(
        m,
        TransferEntryModel::Outgoing { transfer, state: TransferState::Pending },
    );
}

#[verifier::spinoff_prover]
proof fn keep_transfer_accepted(m: EngineModel, id: TransferId)
    requires
        consistent(m),
    ensures
        consistent(transfer_accepted(m, id)),
{
    reveal(transfer_accepted);
    if holds(m.transfers, id) {
        found_transfer_is_sound(m, id);
        if let Some(TransferEntryModel::Incoming { transfer, state, error }) = find(
            m.transfers,
            id,
        ) {
            keep_transfer(
                m,
                TransferEntryModel::Incoming {
                    transfer: crate::transfer::IncomingModel {
                        resolved: folders_resolved(transfer),
                        ..transfer
                    },
                    state: TransferState::Active,
                    error,
                },
            );
        }
    }
}

#[verifier::spinoff_prover]
proof fn keep_folders_created(
    m: EngineModel,
    id: TransferId,
    errors: Seq<Seq<char>>,
    at: Moment,
)
    requires
        consistent(m),
    ensures
        consistent(folders_created(m, id, errors, at)),
{
    reveal(folders_created);
    if holds(m.transfers, id) {
        found_transfer_is_sound(m, id);
        if let Some(TransferEntryModel::Incoming { transfer, state, error }) = find(
            m.transfers,
            id,
        ) {
            keep_transfer(
                m,
                TransferEntryModel::Incoming {
                    transfer,
                    state,
                    error: if errors.len() > 0 {
                        Some(errors.last())
                    } else {
                        error
                    },
                },
            );
        }
    }
}

#[verifier::spinoff_prover]
proof fn keep_file_offered(
    m: EngineModel,
    peer: Seq<char>,
    offer: crate::protocol::FileOfferModel,
    at: Moment,
)
    requires
        consistent(m),
    ensures
        consistent(file_offered(m, peer, offer, at)),
{
    reveal(file_offered);
    let entry = TransferEntryModel::Incoming {
        transfer: crate::transfer::new_incoming(
            offer.transfer,
            peer,
            offer.sender_name,
            offer.files,
            m.settings.transfer.download_dir,
            at.unix,
        ),
        state: TransferState::Pending,
        error: None,
    };
    keep_transfer(m, entry);
    keep_transfer_accepted(
        m.with_transfer(entry).informs(
            offer.sender_name + " wants to send "@ + crate::text::decimal(offer.files.len())
                + " item(s)."@,
        ),
        offer.transfer,
    );
}

#[verifier::spinoff_prover]
proof fn keep_transfer_cancelled(m: EngineModel, id: TransferId, reason: Seq<char>, at: Moment)
    requires
        consistent(m),
    ensures
        consistent(transfer_cancelled(m, id, at)),
        consistent(file_cancelled(m, id, reason, at)),
{
    reveal(transfer_cancelled);
    reveal(file_cancelled);
    if holds(m.transfers, id) {
        found_transfer_is_sound(m, id);
        let entry = find(m.transfers, id)->Some_0;
        keep_transfer(m, entry.in_state(TransferState::Cancelled));
        keep_transfer(
            m.sends_either(
                entry.with_whom(),
                MessageModel::FileCancel { transfer: id, reason: "cancelled by the user"@ },
            ),
            entry.in_state(TransferState::Cancelled),
        );
    }
}

#[verifier::spinoff_prover]
proof fn keep_offer_accepted(
    m: EngineModel,
    accept: crate::protocol::FileAcceptModel,
    at: Moment,
)
    requires
        consistent(m),
    ensures
        consistent(offer_accepted(m, accept, at)),
{
    reveal(offer_accepted);
    if let Some(TransferEntryModel::Outgoing { transfer, state }) = find(
        m.transfers,
        accept.transfer,
    ) {
        keep_transfer(
            m,
            TransferEntryModel::Outgoing {
                transfer: crate::transfer::OutgoingModel { accepted: true, ..transfer },
                state: TransferState::Active,
            },
        );
    }
}

#[verifier::spinoff_prover]
proof fn keep_stream_ended(
    m: EngineModel,
    id: TransferId,
    error: Option<Seq<char>>,
    bytes: u64,
    at: Moment,
)
    requires
        consistent(m),
    ensures
        consistent(stream_ended(m, id, error, at)),
        consistent(bytes_sent(m, id, bytes)),
{
    reveal(stream_ended);
    reveal(bytes_sent);
    if let Some(TransferEntryModel::Outgoing { transfer, state }) = find(m.transfers, id) {
        keep_transfer(
            m,
            TransferEntryModel::Outgoing {
                transfer: crate::transfer::OutgoingModel {
                    finished: true,
                    done_bytes: crate::engine::transfers::counted(
                        transfer.done_bytes,
                        transfer.total_bytes,
                    ),
                    ..transfer
                },
                state: if error is Some {
                    TransferState::Failed
                } else {
                    TransferState::Completed
                },
            },
        );
        keep_transfer(
            m,
            TransferEntryModel::Outgoing {
                transfer: crate::transfer::OutgoingModel {
                    done_bytes: crate::engine::transfers::plus(transfer.done_bytes, bytes),
                    ..transfer
                },
                state,
            },
        );
    }
}

#[verifier::spinoff_prover]
proof fn keep_progress_reported(m: EngineModel, report: crate::protocol::FileProgressReport)
    requires
        consistent(m),
    ensures
        consistent(progress_reported(m, report)),
{
    reveal(progress_reported);
    if holds(m.transfers, report.transfer) {
        found_transfer_is_sound(m, report.transfer);
        if let Some(TransferEntryModel::Incoming { transfer, state, error }) = find(
            m.transfers,
            report.transfer,
        ) {
            if let Some(i) = crate::transfer::entry_position(transfer.entries, report.index) {
                crate::transfer::lemma_entry_position_is(transfer.entries, report.index);
                keep_transfer(
                    m,
                    TransferEntryModel::Incoming {
                        transfer: crate::transfer::IncomingModel {
                            written: transfer.written.update(i, report.bytes_done),
                            done_bytes: (crate::engine::transfers::minus(
                                transfer.done_bytes,
                                transfer.written[i],
                            ) + report.bytes_done) as u64,
                            ..transfer
                        },
                        state,
                        error,
                    },
                );
            }
        }
    }
}

#[verifier::spinoff_prover]
proof fn keep_chunk_received(m: EngineModel, chunk: crate::protocol::FileChunkModel)
    requires
        consistent(m),
    ensures
        consistent(chunk_received(m, chunk)),
{
    reveal(chunk_received);
    if holds(m.transfers, chunk.transfer) {
        found_transfer_is_sound(m, chunk.transfer);
        if let Some(TransferEntryModel::Incoming { transfer, state, error }) = find(
            m.transfers,
            chunk.transfer,
        ) {
            if let Some(i) = crate::transfer::entry_position(transfer.entries, chunk.index) {
                if let Err(e) = crate::transfer::landing(
                    transfer.entries[i].relative_path,
                    transfer.root.parts,
                ) {
                    keep_transfer(
                        m,
                        TransferEntryModel::Incoming {
                            transfer,
                            state: TransferState::Failed,
                            error: Some(e.sentence()),
                        },
                    );
                }
            }
        }
    }
}

#[verifier::spinoff_prover]
proof fn keep_chunk_written(m: EngineModel, outcome: ChunkOutcomeModel)
    requires
        consistent(m),
    ensures
        consistent(chunk_written(m, outcome)),
{
    reveal(chunk_written);
    if holds(m.transfers, outcome.transfer) {
        found_transfer_is_sound(m, outcome.transfer);
        if let Some(TransferEntryModel::Incoming { transfer, state, error }) = find(
            m.transfers,
            outcome.transfer,
        ) {
            let i = outcome.position;
            if 0 <= i < transfer.entries.len() {
                let placed = crate::transfer::IncomingModel {
                    resolved: match outcome.placed {
                        Some(path) => transfer.resolved.update(i, Some(path)),
                        None => transfer.resolved,
                    },
                    ..transfer
                };
                let entry = match outcome.error {
                    Some(reason) => TransferEntryModel::Incoming {
                        transfer: placed,
                        state: TransferState::Failed,
                        error: Some(reason),
                    },
                    None => TransferEntryModel::Incoming {
                        transfer: crate::transfer::IncomingModel {
                            written: transfer.written.update(
                                i,
                                crate::engine::transfers::plus(transfer.written[i], outcome.len),
                            ),
                            done_bytes: crate::engine::transfers::plus(
                                transfer.done_bytes,
                                outcome.len,
                            ),
                            ..placed
                        },
                        state,
                        error,
                    },
                };
                keep_transfer(m, entry);
            }
        }
    }
}

#[verifier::spinoff_prover]
proof fn keep_files_finished(
    m: EngineModel,
    finished: crate::protocol::FileFinishedModel,
    at: Moment,
)
    requires
        consistent(m),
    ensures
        consistent(files_finished(m, finished, at)),
{
    reveal(files_finished);
    if holds(m.transfers, finished.transfer) {
        found_transfer_is_sound(m, finished.transfer);
        if let Some(TransferEntryModel::Incoming { transfer, state, error }) = find(
            m.transfers,
            finished.transfer,
        ) {
            keep_transfer(
                m,
                TransferEntryModel::Incoming {
                    transfer: crate::transfer::IncomingModel {
                        done_bytes: crate::engine::transfers::counted(
                            transfer.done_bytes,
                            transfer.total_bytes,
                        ),
                        ..transfer
                    },
                    state: if finished.failed.len() > 0 {
                        TransferState::Failed
                    } else {
                        TransferState::Completed
                    },
                    error: if finished.failed.len() > 0 {
                        Some(finished.failed[0].1)
                    } else {
                        error
                    },
                },
            );
        }
    }
}

/// What is left of the transfers stands in the same order and was there before.
proof fn lemma_unfinished(transfers: Seq<TransferEntryModel>)
    ensures
        forall|x: TransferEntryModel| #[trigger]
            unfinished(transfers).contains(x) ==> transfers.contains(x),
        distinct(transfers) ==> distinct(unfinished(transfers)),
    decreases transfers.len(),
{
    if transfers.len() > 0 {
        let head = transfers.drop_last();
        lemma_unfinished(head);
        let u = unfinished(transfers);
        let uh = unfinished(head);
        assert forall|x: TransferEntryModel| #[trigger] u.contains(x) implies transfers.contains(
            x,
        ) by {
            let i = choose|i: int| 0 <= i < u.len() && u[i] == x;
            if i < uh.len() {
                assert(uh[i] == x);
                assert(uh.contains(x));
                let j = choose|j: int| 0 <= j < head.len() && head[j] == x;
                assert(transfers[j] == x);
            } else {
                assert(transfers[transfers.len() - 1] == x);
            }
        }
        if distinct(transfers) {
            assert(distinct(head));
            assert forall|i: int, j: int| 0 <= i < j < u.len() implies (#[trigger] u[i]).key() != (
            #[trigger] u[j]).key() by {
                if j < uh.len() {
                    assert(uh[i] == u[i] && uh[j] == u[j]);
                } else {
                    assert(uh.contains(uh[i]));
                    let n = choose|n: int| 0 <= n < head.len() && head[n] == uh[i];
                    assert(transfers[n] == u[i]);
                    assert(transfers[transfers.len() - 1] == u[j]);
                }
            }
        }
    }
}

#[verifier::spinoff_prover]
proof fn keep_unfinished(m: EngineModel)
    requires
        consistent(m),
    ensures
        consistent((EngineModel { transfers: unfinished(m.transfers), ..m })),
{
    lemma_unfinished(m.transfers);
    let after = unfinished(m.transfers);
    assert forall|i: int| 0 <= i < after.len() implies transfer_sound(#[trigger] after[i]) by {
        assert(after.contains(after[i]));
        let j = choose|j: int| 0 <= j < m.transfers.len() && m.transfers[j] == after[i];
        assert(transfer_sound(m.transfers[j]));
    }
}

proof fn telling_keeps_core(m: EngineModel, message: MessageModel, n: nat)
    ensures
        same_core(told_to_connected(m, message, n), m),
    decreases n,
{
    if n > 0 {
        telling_keeps_core(m, message, (n - 1) as nat);
    }
}

proof fn pinging_keeps_core(m: EngineModel, draws: Seq<u64>, n: nat)
    ensures
        same_core(pinged(m, draws, n), m),
    decreases n,
{
    if n > 0 {
        pinging_keeps_core(m, draws, (n - 1) as nat);
    }
}

#[verifier::spinoff_prover]
proof fn keep_clipboard(
    m: EngineModel,
    event: crate::clipboard::ClipboardEventModel,
    payload: crate::protocol::ClipboardModel,
    at: Moment,
)
    requires
        consistent(m),
    ensures
        consistent(clipboard_changed(m, event, at)),
        consistent(clipboard_received(m, payload, at)),
{
    reveal(clipboard_changed);
    reveal(clipboard_received);
    if let crate::clipboard::ClipboardEventModel::Changed(changed) = event {
        telling_keeps_core(
            crate::engine::services::clipboard_noted(
                m,
                changed,
                crate::view::TransferDirection::Sending,
                at,
            ),
            MessageModel::Clipboard(changed),
            m.sessions.len(),
        );
    }
}

#[verifier::spinoff_prover]
proof fn keep_peer_dialled(m: EngineModel, peer: Seq<char>)
    requires
        consistent(m),
    ensures
        consistent(peer_dialled(m, peer)),
{
    reveal(peer_dialled);
    if !holds(m.connecting, peer) {
        law_keys_stay_distinct(m.connecting, peer, peer);
        assert(put(m.connecting, peer) == m.connecting.push(peer));
    }
}

#[verifier::spinoff_prover]
proof fn keep_machine_discovered(m: EngineModel, event: DiscoveryModel, at: Moment)
    requires
        consistent(m),
    ensures
        consistent(machine_discovered(m, event, at)),
{
    reveal(machine_discovered);
    match event {
        DiscoveryModel::Found(found) => {
            law_one_entry_per_device(m.table, found, found.device_id, 0, 0);
            let noted = EngineModel {
                table: crate::discovery::sighted(m.table, found),
                ..m
            };
            keep_peer_dialled(noted, found.device_id);
        },
        DiscoveryModel::Lost(id) => {
            if m.table.len() > 0 {
                law_one_entry_per_device(m.table, m.table[0], id, 0, 0);
            }
        },
    }
}

proof fn keep_sessions_ended(m: EngineModel, peers: Seq<Seq<char>>, n: nat, at: Moment)
    requires
        consistent(m),
    ensures
        consistent(sessions_ended(m, peers, n, at)),
    decreases n,
{
    if n > 0 {
        keep_sessions_ended(m, peers, (n - 1) as nat, at);
        keep_session_ended(sessions_ended(m, peers, (n - 1) as nat, at), peers[n - 1], at);
    }
}

#[verifier::spinoff_prover]
proof fn keep_tidied(m: EngineModel, hint: Option<Seq<char>>, at: Moment)
    requires
        consistent(m),
    ensures
        consistent(tidied(m, hint, at)),
{
    reveal(tidied);
    keep_discovery_rebuilt(m);
    let ready = if m.discovery_dirty {
        discovery_rebuilt(m)
    } else {
        m
    };
    let fresh = EngineModel {
        permission_hint: hint,
        table: crate::discovery::pruned(
            ready.table,
            at.unix,
            crate::engine::rules::FORGET_AFTER_SECS,
        ),
        ..ready
    };
    if ready.table.len() > 0 {
        law_one_entry_per_device(
            ready.table,
            ready.table[0],
            ready.table[0].device_id,
            at.unix,
            crate::engine::rules::FORGET_AFTER_SECS,
        );
    }
    let stale = silent_peers(m.sessions, m.sessions.len(), at);
    keep_sessions_ended(fresh, stale, stale.len(), at);
}

/// Tidying up and looking at the cursor keep the engine consistent.
#[verifier::spinoff_prover]
pub proof fn law_ticks_keep_the_engine_consistent(
    m: EngineModel,
    position: Option<crate::geom::Point>,
    pushed: crate::layout::PushedEdges,
    hint: Option<Seq<char>>,
    draws: Seq<u64>,
    at: Moment,
)
    requires
        consistent(m),
    ensures
        consistent(cursor_ticked(m, position, pushed, at)),
        consistent(housekept(m, hint, draws, at)),
{
    keep_cursor_ticked(m, position, pushed, at);
    reveal(housekept);
    keep_tidied(m, hint, at);
    let tidy = tidied(m, hint, at);
    pinging_keeps_core(tidy, draws, tidy.sessions.len());
}

#[verifier::spinoff_prover]
proof fn keep_settings(
    m: EngineModel,
    settings: crate::config::SettingsModel,
    enabled: bool,
    peer: Seq<char>,
    at: Moment,
)
    requires
        consistent(m),
    ensures
        consistent(settings_updated(m, settings, at)),
        consistent(sharing_set(m, enabled, at)),
        consistent(forgotten(m, peer, at)),
{
    reveal(settings_updated);
    reveal(clipboard_reset);
    reveal(sharing_set);
    reveal(forgotten);
    reveal(discovery_rebuilt);
    let switched = EngineModel {
        settings: crate::config::SettingsModel {
            input: crate::config::InputSettings { enabled, ..m.settings.input },
            ..m.settings
        },
        ..m
    };
    keep_control_released(switched, at);
}

#[verifier::spinoff_prover]
proof fn keep_disconnected(m: EngineModel, peer: Seq<char>, at: Moment)
    requires
        consistent(m),
    ensures
        consistent(disconnected(m, peer, at)),
{
    reveal(disconnected);
    keep_session_closed(
        m.sends(peer, MessageModel::Bye { reason: "disconnected locally"@ }),
        peer,
        at,
    );
}

#[verifier::spinoff_prover]
proof fn keep_commanded(m: EngineModel, command: Command, at: Moment)
    requires
        consistent(m),
    ensures
        consistent(commanded(m, command, at)),
{
    match command {
        Command::UpdateSettings(settings) => {
            keep_settings(m, settings.deep_view(), true, Seq::empty(), at);
        },
        Command::SetSharing(enabled) => {
            keep_settings(m, m.settings, enabled, Seq::empty(), at);
        },
        Command::Connect(peer) => {
            keep_peer_dialled(m, peer@);
        },
        Command::Disconnect(peer) => {
            keep_disconnected(m, peer@, at);
        },
        Command::Forget(peer) => {
            keep_settings(m, m.settings, true, peer@, at);
        },
        Command::AnswerPairing { peer, code, accept } => {
            keep_pairing_answered(m, peer@, code.deep_view(), accept, at);
        },
        Command::ReleaseControl => {
            keep_control_released(m, at);
        },
        Command::SendFiles { peer, paths } => {
            keep_files_chosen(m, peer@, paths.deep_view());
        },
        Command::AcceptTransfer(id) => {
            keep_transfer_accepted(m, id);
        },
        Command::CancelTransfer(id) => {
            keep_transfer_cancelled(m, id, Seq::empty(), at);
        },
        Command::ClearFinishedTransfers => {
            keep_unfinished(m);
        },
        _ => {},
    }
}

#[verifier::spinoff_prover]
proof fn keep_heard(
    m: EngineModel,
    peer: Seq<char>,
    displays: Seq<crate::geom::DisplayModel>,
    extent: Option<(u64, u64)>,
    at: Moment,
)
    requires
        consistent(m),
    ensures
        consistent(heard_of(m, peer, at)),
        consistent(displays_received(m, peer, displays, extent, at)),
        consistent(code_required(m, peer, at)),
{
    reveal(heard_of);
    reveal(displays_received);
    reveal(code_required);
    if holds(m.sessions, peer) {
        found_session_is_sound(m, peer);
        let session = find(m.sessions, peer)->Some_0;
        keep_session(m, SessionModel { last_rx: at.ms, ..session });
        keep_session(m, SessionModel { displays, extent, ..session });
        keep_session(m, crate::engine::dispatch::asked_for_code(session));
    }
}

#[verifier::spinoff_prover]
proof fn keep_message_received(
    m: EngineModel,
    peer: Seq<char>,
    message: MessageModel,
    extent: Option<(u64, u64)>,
    at: Moment,
)
    requires
        consistent(m),
    ensures
        consistent(message_received(m, peer, message, extent, at)),
{
    match message {
        MessageModel::Displays { displays } => {
            keep_heard(m, peer, displays, extent, at);
        },
        MessageModel::PairRequired { .. } => {
            keep_heard(m, peer, Seq::empty(), extent, at);
        },
        MessageModel::PairResponse { code, .. } => {
            keep_pair_responded(m, peer, code, at);
        },
        MessageModel::PairResult { accepted, reason } => {
            keep_pair_judged(m, peer, accepted, reason, at);
        },
        MessageModel::Input(event) => {
            keep_input_received(m, event);
        },
        MessageModel::Control(control) => {
            keep_control_received(m, peer, control, at);
        },
        MessageModel::Clipboard(payload) => {
            keep_clipboard(
                m,
                crate::clipboard::ClipboardEventModel::Error(Seq::empty()),
                payload,
                at,
            );
        },
        MessageModel::FileOffer(offer) => {
            keep_file_offered(m, peer, offer, at);
        },
        MessageModel::FileAccept(accept) => {
            keep_offer_accepted(m, accept, at);
        },
        MessageModel::FileProgress(report) => {
            keep_progress_reported(m, report);
        },
        MessageModel::FileFinished(finished) => {
            keep_files_finished(m, finished, at);
        },
        MessageModel::FileCancel { transfer, reason } => {
            keep_transfer_cancelled(m, transfer, reason, at);
        },
        MessageModel::Bye { .. } => {
            keep_session_ended(m, peer, at);
        },
        _ => {},
    }
}

/// Whether an event can come now: a handover is answered while it is being asked for,
/// that is while this machine owns its input.
pub open spec fn in_turn(m: EngineModel, event: Event) -> bool {
    event is Engaged ==> m.control is Local
}

/// Every event keeps the engine consistent.
#[verifier::spinoff_prover]
pub proof fn law_events_keep_the_engine_consistent(
    m: EngineModel,
    event: Event,
    draw: u64,
    at: Moment,
)
    requires
        consistent(m),
        event_fits(m, event),
        in_turn(m, event),
    ensures
        consistent(handled(m, event, draw, at)),
{
    match event {
        Event::Command(command) => {
            keep_commanded(m, command, at);
        },
        Event::SessionEstablished(established) => {
            keep_session_established(m, established.deep_view(), draw, at);
        },
        Event::ConnectionFailed { peer, message } => {
            reveal(connection_failed);
            if peer is Some {
                keep_without_connecting(m, peer->Some_0@);
            }
        },
        Event::Incoming { peer, item, extent } => {
            keep_heard(m, peer@, Seq::empty(), extent, at);
            match item {
                Incoming::Message(message) => {
                    keep_message_received(
                        heard_of(m, peer@, at),
                        peer@,
                        message.deep_view(),
                        extent,
                        at,
                    );
                },
                Incoming::Chunk(chunk) => {
                    keep_chunk_received(heard_of(m, peer@, at), chunk.deep_view());
                },
            }
        },
        Event::SessionEnded { peer } => {
            keep_session_ended(m, peer@, at);
        },
        Event::PairingHandoff { peer } => {
            keep_pairing_handed_off(m, peer@, draw, at);
        },
        Event::Captured { event: observed, motion } => {
            keep_captured(m, observed.deep_view(), motion, at);
        },
        Event::Clipboard(report) => {
            keep_clipboard(m, report.deep_view(), crate::protocol::ClipboardModel::Clear, at);
        },
        Event::Discovered(sighting) => {
            keep_machine_discovered(m, sighting.deep_view(), at);
        },
        Event::TransferProgress { id, bytes } => {
            keep_stream_ended(m, id, None, bytes, at);
        },
        Event::TransferDone { id, error } => {
            keep_stream_ended(m, id, error.deep_view(), 0, at);
        },
        Event::DiscoveryStarted { error } => {
            reveal(discovery_answered);
        },
        Event::Engaged { link, placed, entry, error } => {
            keep_engaged(
                m,
                link.deep_view(),
                placed.deep_view(),
                entry,
                error.deep_view(),
                at,
            );
        },
        Event::FilesRead { peer, nodes } => {
            keep_files_collected(
                m,
                peer@,
                crate::transfer::walked_first(nodes, nodes@.len(), Seq::empty(), 0),
                draw,
                at,
            );
        },
        Event::OfferSent { transfer, error } => {
            keep_offer_answered(m, transfer.deep_view(), error.deep_view(), at);
        },
        Event::FoldersCreated { transfer, errors } => {
            keep_folders_created(m, transfer, errors.deep_view(), at);
        },
        Event::ChunkWritten(outcome) => {
            keep_chunk_written(m, outcome.deep_view());
        },
        _ => {},
    }
}

/// A new engine is consistent.
pub proof fn law_a_new_engine_is_consistent(
    identity: crate::identity::DeviceIdentityModel,
    os: crate::protocol::OsKind,
    settings: crate::config::SettingsModel,
    peers: Seq<crate::config::PeerRecordModel>,
)
    ensures
        consistent(new_engine(identity, os, settings, peers)),
{
}

} // verus!
