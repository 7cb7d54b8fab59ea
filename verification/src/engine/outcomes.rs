//! How transfers end, and how they do not.

use vstd::prelude::*;

use crate::codec::Incoming;
use crate::engine::control::{
    captured, control_received, cursor_sampled, cursor_ticked, engage_tried, engaged, entered,
    event_relayed, handed_back, input_received, let_go, link_pushed, returned_home,
};
use crate::engine::delivering::{lemma_tracks, state_of};
use crate::engine::dispatch::{
    clipboard_reset, code_required, commanded, connection_failed, disconnected, displays_received,
    forgotten, handled, heard_of, message_received, settings_updated, sharing_set, Event,
};
use crate::engine::pairing::{
    code_refused, key_checked, key_refused, link_ensured, pair_judged, pair_responded,
    pairing_answered, pairing_handed_off, pairing_requested, peer_remembered, session_accepted,
    session_established, session_weighed, EstablishedModel,
};
use crate::engine::rules::{
    brought_home, control_released, discovery_answered, discovery_rebuilt, handover_ended,
    held_released, session_closed, session_ended, transfers_failed,
};
use crate::engine::services::{
    clipboard_changed, clipboard_received, housekept, machine_discovered, peer_dialled, pinged,
    sessions_ended, silent_peers, tidied, told_to_connected,
};
use crate::engine::state::{ActionModel, Command, EngineModel, Moment, Motion, TransferEntryModel};
use crate::engine::transfers::{
    bytes_sent, chunk_received, chunk_written, file_cancelled, file_offered, files_chosen,
    files_collected, files_finished, folders_created, offer_accepted, offer_answered,
    progress_reported, stream_ended, transfer_accepted, transfer_cancelled, unfinished,
};
use crate::keyed::{find, holds, index_of, lemma_index_of, without, Keyed};
use crate::protocol::{Message, MessageModel, TransferId};
use crate::view::TransferState;

verus! {

/// Whether the transfer with the given id is in the given state.
pub open spec fn is_in(m: EngineModel, id: TransferId, state: TransferState) -> bool {
    find(m.transfers, id) matches Some(entry) && state_of(entry) == state
}

/// The two states in which nothing went wrong and nothing is left to do.
pub open spec fn is_end(state: TransferState) -> bool {
    state == TransferState::Completed || state == TransferState::Cancelled
}

/// Whether no transfer became complete or cancelled.
pub open spec fn ends_no_more(after: EngineModel, before: EngineModel) -> bool {
    forall|id: TransferId, state: TransferState| #[trigger]
        is_in(after, id, state) && is_end(state) ==> is_in(before, id, state)
}

/// Whether an event ends the transfer with the given id, in the given state: the end of its
/// stream or the sender's word that everything was sent makes it complete, and the word of
/// either user makes it cancelled.
pub open spec fn ends(
    m: EngineModel,
    event: Event,
    id: TransferId,
    state: TransferState,
) -> bool {
    match event {
        Event::TransferDone { id: sent, error } => sent == id && error is None && state
            == TransferState::Completed && find(m.transfers, id) matches Some(
            TransferEntryModel::Outgoing { .. },
        ),
        Event::Incoming { item: Incoming::Message(Message::FileFinished(finished)), .. } =>
            finished.transfer == id && finished.failed@.len() == 0 && state
                == TransferState::Completed && find(m.transfers, id) matches Some(
                TransferEntryModel::Incoming { .. },
            ),
        Event::Incoming { item: Incoming::Message(Message::FileCancel { transfer, .. }), .. } =>
            transfer == id && state == TransferState::Cancelled,
        Event::Command(Command::CancelTransfer(cancelled)) => cancelled == id && state
            == TransferState::Cancelled,
        _ => false,
    }
}

proof fn lemma_same_transfers(after: EngineModel, before: EngineModel)
    requires
        after.transfers == before.transfers,
    ensures
        ends_no_more(after, before),
{
}

/// A transfer that is put in another state than these two ends no more.
proof fn lemma_put_ends_no_more(m: EngineModel, entry: TransferEntryModel)
    requires
        state_of(entry) != TransferState::Completed || is_in(
            m,
            entry.key(),
            TransferState::Completed,
        ),
        state_of(entry) != TransferState::Cancelled || is_in(
            m,
            entry.key(),
            TransferState::Cancelled,
        ),
    ensures
        ends_no_more(m.with_transfer(entry), m),
{
    lemma_tracks(m, entry);
}

proof fn lemma_failing_keeps_the_places(
    transfers: Seq<TransferEntryModel>,
    peer: Seq<char>,
    id: TransferId,
)
    ensures
        index_of(transfers_failed(transfers, peer), id) == index_of(transfers, id),
    decreases transfers.len(),
{
    reveal(transfers_failed);
    let failed = transfers_failed(transfers, peer);
    if transfers.len() > 0 {
        lemma_failing_keeps_the_places(transfers.drop_first(), peer, id);
        assert(failed.drop_first() =~= transfers_failed(transfers.drop_first(), peer));
    }
}

proof fn lemma_failing_ends_no_more(m: EngineModel, peer: Seq<char>)
    ensures
        ends_no_more(EngineModel { transfers: transfers_failed(m.transfers, peer), ..m }, m),
{
    let after = EngineModel { transfers: transfers_failed(m.transfers, peer), ..m };
    assert forall|id: TransferId, state: TransferState| #[trigger]
        is_in(after, id, state) && is_end(state) implies is_in(m, id, state) by {
        lemma_failing_keeps_the_places(m.transfers, peer, id);
        lemma_index_of(m.transfers, id);
        reveal(transfers_failed);
    }
}

proof fn lemma_release_ends_no_more(m: EngineModel, peer: Seq<char>, at: Moment)
    ensures
        control_released(m, at).transfers == m.transfers,
        handover_ended(m, peer, at).transfers == m.transfers,
        held_released(m).transfers == m.transfers,
{
    reveal(control_released);
    reveal(brought_home);
    reveal(handover_ended);
    reveal(held_released);
}

proof fn lemma_closing_ends_no_more(m: EngineModel, peer: Seq<char>, at: Moment)
    ensures
        ends_no_more(session_ended(m, peer, at), m),
        session_closed(m, peer, at).transfers == m.transfers,
{
    reveal(session_ended);
    reveal(session_closed);
    let gone = EngineModel {
        sessions: without(m.sessions, peer),
        connecting: without(m.connecting, peer),
        ..m
    };
    lemma_release_ends_no_more(gone, peer, at);
    lemma_failing_ends_no_more(handover_ended(gone, peer, at), peer);
    let closed = match find(m.sessions, peer) {
        Some(session) => EngineModel { sessions: without(m.sessions, peer), ..m }.does(
            ActionModel::Close { connection: session.connection },
        ),
        None => m,
    };
    lemma_release_ends_no_more(closed, peer, at);
    if holds(m.sessions, peer) {
        let free = handover_ended(gone, peer, at);
        let failed = EngineModel { transfers: transfers_failed(free.transfers, peer), ..free };
        assert(session_ended(m, peer, at).transfers == failed.transfers);
        lemma_carries(session_ended(m, peer, at), failed, m);
    }
}

proof fn lemma_clearing_ends_no_more(m: EngineModel)
    ensures
        ends_no_more(EngineModel { transfers: unfinished(m.transfers), ..m }, m),
{
    let after = EngineModel { transfers: unfinished(m.transfers), ..m };
    lemma_unfinished_are_not_over(m.transfers);
    assert forall|id: TransferId, state: TransferState| #[trigger]
        is_in(after, id, state) && is_end(state) implies is_in(m, id, state) by {
        lemma_index_of(after.transfers, id);
    }
}

proof fn lemma_unfinished_are_not_over(transfers: Seq<TransferEntryModel>)
    ensures
        forall|i: int|
            0 <= i < unfinished(transfers).len() ==> {
                &&& state_of(#[trigger] unfinished(transfers)[i]) != TransferState::Completed
                &&& state_of(unfinished(transfers)[i]) != TransferState::Cancelled
            },
    decreases transfers.len(),
{
    if transfers.len() > 0 {
        lemma_unfinished_are_not_over(transfers.drop_last());
    }
}

proof fn lemma_pairing_ends_no_more(
    m: EngineModel,
    peer: Seq<char>,
    code: Seq<char>,
    accepted: bool,
    reason: Option<Seq<char>>,
    at: Moment,
)
    ensures
        pair_responded(m, peer, code, at).transfers == m.transfers,
        pair_judged(m, peer, accepted, reason, at).transfers == m.transfers,
{
    reveal(pair_responded);
    reveal(pair_judged);
    reveal(peer_remembered);
    reveal(link_ensured);
    reveal(code_refused);
    if let Some(session) = find(m.sessions, peer) {
        if let Some(pairing) = session.pairing {
            lemma_refusal_ends_no_more(m, session, pairing, at);
        }
    }
}

proof fn lemma_refusal_ends_no_more(
    m: EngineModel,
    session: crate::engine::state::SessionModel,
    pairing: crate::engine::state::PairingModel,
    at: Moment,
)
    ensures
        code_refused(m, session, pairing, at).transfers == m.transfers,
{
    reveal(code_refused);
    let attempts = (pairing.attempts + 1) as u8;
    let answered = m.with_session(
        crate::engine::state::SessionModel {
            pairing: Some(crate::engine::state::PairingModel { attempts, ..pairing }),
            ..session
        },
    ).does(
        crate::engine::pairing::pair_result(session, false, Some("the code did not match"@)),
    ).warns("Too many wrong pairing codes; the connection was closed."@);
    lemma_closing_ends_no_more(answered, session.info.device_id, at);
}

proof fn lemma_connecting_ends_no_more(m: EngineModel, e: EstablishedModel, draw: u64, at: Moment)
    ensures
        session_established(m, e, draw, at).transfers == m.transfers,
{
    reveal(session_established);
    reveal(key_checked);
    reveal(key_refused);
    reveal(session_weighed);
    reveal(session_accepted);
    reveal(pairing_requested);
}

proof fn lemma_answer_ends_no_more(
    m: EngineModel,
    peer: Seq<char>,
    code: Option<Seq<char>>,
    accept: bool,
    at: Moment,
)
    ensures
        pairing_answered(m, peer, code, accept, at).transfers == m.transfers,
        disconnected(m, peer, at).transfers == m.transfers,
{
    reveal(pairing_answered);
    reveal(disconnected);
    lemma_closing_ends_no_more(
        m.sends(peer, MessageModel::Bye { reason: "disconnected locally"@ }),
        peer,
        at,
    );
    if let Some(session) = find(m.sessions, peer) {
        lemma_closing_ends_no_more(
            m.does(
                crate::engine::pairing::pair_result(
                    session,
                    false,
                    Some("the request was declined"@),
                ),
            ),
            peer,
            at,
        );
    }
}

proof fn lemma_accepting_ends_no_more(m: EngineModel, id: TransferId)
    ensures
        ends_no_more(transfer_accepted(m, id), m),
{
    reveal(transfer_accepted);
    lemma_index_of(m.transfers, id);
    if let Some(TransferEntryModel::Incoming { transfer, state, error }) = find(m.transfers, id) {
        let entry = TransferEntryModel::Incoming {
            transfer: crate::transfer::IncomingModel {
                resolved: crate::engine::transfers::folders_resolved(transfer),
                ..transfer
            },
            state: TransferState::Active,
            error,
        };
        lemma_put_ends_no_more(m, entry);
        lemma_carries(transfer_accepted(m, id), m.with_transfer(entry), m);
    }
}

/// What holds of a state holds of another with the same transfers.
proof fn lemma_carries(after: EngineModel, same: EngineModel, before: EngineModel)
    requires
        after.transfers == same.transfers || after.transfers == before.transfers,
        ends_no_more(same, before),
    ensures
        ends_no_more(after, before),
{
    assert forall|id: TransferId, state: TransferState| #[trigger]
        is_in(after, id, state) && is_end(state) implies is_in(before, id, state) by {
        assert(is_in(same, id, state) || after.transfers == before.transfers);
    }
}

proof fn lemma_cancelling_ends_one(m: EngineModel, id: TransferId, reason: Seq<char>, at: Moment)
    ensures
        forall|k: TransferId|
            k != id ==> find(transfer_cancelled(m, id, at).transfers, k) == #[trigger] find(
                m.transfers,
                k,
            ),
        forall|k: TransferId|
            k != id ==> find(file_cancelled(m, id, reason, at).transfers, k) == #[trigger] find(
                m.transfers,
                k,
            ),
        !is_in(transfer_cancelled(m, id, at), id, TransferState::Completed),
        !is_in(file_cancelled(m, id, reason, at), id, TransferState::Completed),
{
    reveal(transfer_cancelled);
    reveal(file_cancelled);
    lemma_index_of(m.transfers, id);
    if let Some(entry) = find(m.transfers, id) {
        lemma_tracks(m, entry.in_state(TransferState::Cancelled));
        assert(m.with_transfer(entry.in_state(TransferState::Cancelled)).transfers
            == transfer_cancelled(m, id, at).transfers);
        assert(m.with_transfer(entry.in_state(TransferState::Cancelled)).transfers
            == file_cancelled(m, id, reason, at).transfers);
    }
}

#[verifier::spinoff_prover]
proof fn lemma_commands_end_no_more(m: EngineModel, command: Command, at: Moment)
    requires
        !(command is CancelTransfer),
    ensures
        ends_no_more(commanded(m, command, at), m),
{
    let after = commanded(m, command, at);
    match command {
        Command::UpdateSettings(settings) => {
            reveal(settings_updated);
            reveal(clipboard_reset);
            reveal(discovery_rebuilt);
            lemma_same_transfers(after, m);
        },
        Command::SetSharing(enabled) => {
            reveal(sharing_set);
            reveal(control_released);
            reveal(brought_home);
            lemma_same_transfers(after, m);
        },
        Command::Connect(peer) => {
            reveal(peer_dialled);
            lemma_same_transfers(after, m);
        },
        Command::Disconnect(peer) => {
            lemma_answer_ends_no_more(m, peer@, None, true, at);
            lemma_same_transfers(after, m);
        },
        Command::Forget(peer) => {
            reveal(forgotten);
            lemma_same_transfers(after, m);
        },
        Command::AnswerPairing { peer, code, accept } => {
            lemma_answer_ends_no_more(m, peer@, code.deep_view(), accept, at);
            lemma_same_transfers(after, m);
        },
        Command::ReleaseControl => {
            lemma_release_ends_no_more(m, Seq::empty(), at);
            lemma_same_transfers(after, m);
        },
        Command::SendFiles { peer, paths } => {
            reveal(files_chosen);
            lemma_same_transfers(after, m);
        },
        Command::AcceptTransfer(id) => {
            lemma_accepting_ends_no_more(m, id);
        },
        Command::ClearFinishedTransfers => {
            lemma_clearing_ends_no_more(m);
            lemma_carries(
                after,
                EngineModel { transfers: unfinished(m.transfers), ..m },
                m,
            );
        },
        _ => {
            lemma_same_transfers(after, m);
        },
    }
}

proof fn lemma_telling_ends_no_more(m: EngineModel, message: MessageModel, n: nat)
    ensures
        told_to_connected(m, message, n).transfers == m.transfers,
    decreases n,
{
    if n > 0 {
        lemma_telling_ends_no_more(m, message, (n - 1) as nat);
    }
}

proof fn lemma_clipboard_ends_no_more(
    m: EngineModel,
    event: crate::clipboard::ClipboardEventModel,
    payload: crate::protocol::ClipboardModel,
    at: Moment,
)
    ensures
        clipboard_changed(m, event, at).transfers == m.transfers,
        clipboard_received(m, payload, at).transfers == m.transfers,
{
    reveal(clipboard_changed);
    reveal(clipboard_received);
    if let crate::clipboard::ClipboardEventModel::Changed(changed) = event {
        lemma_telling_ends_no_more(
            crate::engine::services::clipboard_noted(
                m,
                changed,
                crate::view::TransferDirection::Sending,
                at,
            ),
            MessageModel::Clipboard(changed),
            m.sessions.len(),
        );
    }
}

proof fn lemma_control_ends_no_more(
    m: EngineModel,
    peer: Seq<char>,
    control: crate::protocol::InputControl,
    at: Moment,
)
    ensures
        control_received(m, peer, control, at).transfers == m.transfers,
{
    reveal(control_received);
    reveal(entered);
    reveal(let_go);
    reveal(returned_home);
    reveal(brought_home);
    reveal(held_released);
}

proof fn lemma_capture_ends_no_more(
    m: EngineModel,
    event: crate::input::CapturedModel,
    motion: Motion,
    at: Moment,
)
    ensures
        captured(m, event, motion, at).transfers == m.transfers,
{
    reveal(captured);
    reveal(event_relayed);
    reveal(control_released);
    reveal(brought_home);
}

#[verifier::spinoff_prover]
proof fn lemma_offer_ends_no_more(
    m: EngineModel,
    peer: Seq<char>,
    offer: crate::protocol::FileOfferModel,
    at: Moment,
)
    ensures
        ends_no_more(file_offered(m, peer, offer, at), m),
{
    reveal(file_offered);
    let entry = TransferEntryModel::Incoming {
        transfer: crate::transfer::new_incoming(
            offer.transfer,
            peer,
            offer.sender_name,
            offer.files,
            m.settings.transfer.download_dir,
            at.unix,
        ),
        state: TransferState::Pending,
        error: None,
    };
    let noted = m.with_transfer(entry).informs(
        offer.sender_name + " wants to send "@ + crate::text::decimal(offer.files.len())
            + " item(s)."@,
    );
    lemma_put_ends_no_more(m, entry);
    lemma_carries(noted, m.with_transfer(entry), m);
    lemma_accepting_ends_no_more(noted, offer.transfer);
    let after = file_offered(m, peer, offer, at);
    if m.settings.transfer.enabled {
        if after == transfer_accepted(noted, offer.transfer) {
            assert forall|id: TransferId, state: TransferState| #[trigger]
                is_in(after, id, state) && is_end(state) implies is_in(m, id, state) by {
                assert(is_in(noted, id, state));
            }
        } else {
            lemma_carries(after, noted, m);
        }
    } else {
        lemma_same_transfers(after, m);
    }
}

#[verifier::spinoff_prover]
proof fn lemma_reports_end_no_more(
    m: EngineModel,
    accept: crate::protocol::FileAcceptModel,
    report: crate::protocol::FileProgressReport,
    chunk: crate::protocol::FileChunkModel,
    at: Moment,
)
    ensures
        ends_no_more(offer_accepted(m, accept, at), m),
        ends_no_more(progress_reported(m, report), m),
        ends_no_more(chunk_received(m, chunk), m),
{
    reveal(offer_accepted);
    reveal(progress_reported);
    reveal(chunk_received);
    lemma_index_of(m.transfers, accept.transfer);
    lemma_index_of(m.transfers, report.transfer);
    lemma_index_of(m.transfers, chunk.transfer);
    let accepted = offer_accepted(m, accept, at);
    if let Some(TransferEntryModel::Outgoing { transfer, .. }) = find(
        m.transfers,
        accept.transfer,
    ) {
        let entry = TransferEntryModel::Outgoing {
            transfer: crate::transfer::OutgoingModel { accepted: true, ..transfer },
            state: TransferState::Active,
        };
        lemma_put_ends_no_more(m, entry);
        lemma_carries(accepted, m.with_transfer(entry), m);
    }
    if let Some(TransferEntryModel::Incoming { transfer, state, error }) = find(
        m.transfers,
        report.transfer,
    ) {
        if let Some(i) = crate::transfer::entry_position(transfer.entries, report.index) {
            let next = TransferEntryModel::Incoming {
                transfer: crate::transfer::IncomingModel {
                    written: transfer.written.update(i, report.bytes_done),
                    done_bytes: (crate::engine::transfers::minus(
                        transfer.done_bytes,
                        transfer.written[i],
                    ) + report.bytes_done) as u64,
                    ..transfer
                },
                state,
                error,
            };
            lemma_put_ends_no_more(m, next);
        }
    }
    if let Some(TransferEntryModel::Incoming { transfer, state, error }) = find(
        m.transfers,
        chunk.transfer,
    ) {
        if let Some(i) = crate::transfer::entry_position(transfer.entries, chunk.index) {
            if let Err(e) = crate::transfer::landing(
                transfer.entries[i].relative_path,
                transfer.root.parts,
            ) {
                let next = TransferEntryModel::Incoming {
                    transfer,
                    state: TransferState::Failed,
                    error: Some(e.sentence()),
                };
                lemma_put_ends_no_more(m, next);
            }
        }
    }
}

#[verifier::spinoff_prover]
proof fn lemma_finishing_ends_one(
    m: EngineModel,
    finished: crate::protocol::FileFinishedModel,
    at: Moment,
)
    ensures
        forall|k: TransferId|
            k != finished.transfer ==> find(files_finished(m, finished, at).transfers, k)
                == #[trigger] find(m.transfers, k),
        is_in(files_finished(m, finished, at), finished.transfer, TransferState::Cancelled)
            ==> is_in(m, finished.transfer, TransferState::Cancelled),
        is_in(files_finished(m, finished, at), finished.transfer, TransferState::Completed)
            && !is_in(m, finished.transfer, TransferState::Completed)
            ==> finished.failed.len() == 0 && find(m.transfers, finished.transfer) matches Some(
            TransferEntryModel::Incoming { .. },
        ),
{
    reveal(files_finished);
    lemma_index_of(m.transfers, finished.transfer);
    if let Some(TransferEntryModel::Incoming { transfer, state, error }) = find(
        m.transfers,
        finished.transfer,
    ) {
        let next = TransferEntryModel::Incoming {
            transfer: crate::transfer::IncomingModel {
                done_bytes: crate::engine::transfers::counted(
                    transfer.done_bytes,
                    transfer.total_bytes,
                ),
                ..transfer
            },
            state: if finished.failed.len() > 0 {
                TransferState::Failed
            } else {
                TransferState::Completed
            },
            error: if finished.failed.len() > 0 {
                Some(finished.failed[0].1)
            } else {
                error
            },
        };
        lemma_tracks(m, next);
        assert(files_finished(m, finished, at).transfers == m.with_transfer(next).transfers);
    }
}

#[verifier::spinoff_prover]
proof fn lemma_streams_end_one(m: EngineModel, id: TransferId, error: Option<Seq<char>>, at: Moment)
    ensures
        forall|k: TransferId|
            k != id ==> find(stream_ended(m, id, error, at).transfers, k) == #[trigger] find(
                m.transfers,
                k,
            ),
        is_in(stream_ended(m, id, error, at), id, TransferState::Cancelled) ==> is_in(
            m,
            id,
            TransferState::Cancelled,
        ),
        is_in(stream_ended(m, id, error, at), id, TransferState::Completed) && !is_in(
            m,
            id,
            TransferState::Completed,
        ) ==> error is None && find(m.transfers, id) matches Some(
            TransferEntryModel::Outgoing { .. },
        ),
{
    reveal(stream_ended);
    lemma_index_of(m.transfers, id);
    if let Some(TransferEntryModel::Outgoing { transfer, .. }) = find(m.transfers, id) {
        let next = TransferEntryModel::Outgoing {
            transfer: crate::transfer::OutgoingModel {
                finished: true,
                done_bytes: crate::engine::transfers::counted(
                    transfer.done_bytes,
                    transfer.total_bytes,
                ),
                ..transfer
            },
            state: if error is Some {
                TransferState::Failed
            } else {
                TransferState::Completed
            },
        };
        lemma_tracks(m, next);
        assert(stream_ended(m, id, error, at).transfers == m.with_transfer(next).transfers);
    }
}

#[verifier::spinoff_prover]
proof fn lemma_answers_end_no_more(
    m: EngineModel,
    transfer: crate::transfer::OutgoingModel,
    error: Option<Seq<char>>,
    id: TransferId,
    errors: Seq<Seq<char>>,
    bytes: u64,
    outcome: crate::engine::transfers::ChunkOutcomeModel,
    at: Moment,
)
    ensures
        ends_no_more(offer_answered(m, transfer, error, at), m),
        ends_no_more(folders_created(m, id, errors, at), m),
        ends_no_more(bytes_sent(m, id, bytes), m),
        ends_no_more(chunk_written(m, outcome), m),
{
    reveal(offer_answered);
    reveal(folders_created);
    reveal(bytes_sent);
    reveal(chunk_written);
    lemma_index_of(m.transfers, id);
    lemma_index_of(m.transfers, outcome.transfer);
    let waiting = TransferEntryModel::Outgoing { transfer, state: TransferState::Pending };
    lemma_put_ends_no_more(m, waiting);
    lemma_carries(offer_answered(m, transfer, error, at), m.with_transfer(waiting), m);
    if let Some(TransferEntryModel::Incoming { transfer: t, state, error: before }) = find(
        m.transfers,
        id,
    ) {
        let next = TransferEntryModel::Incoming {
            transfer: t,
            state,
            error: if errors.len() > 0 {
                Some(errors.last())
            } else {
                before
            },
        };
        lemma_put_ends_no_more(m, next);
        lemma_carries(folders_created(m, id, errors, at), m.with_transfer(next), m);
    }
    if let Some(TransferEntryModel::Outgoing { transfer: t, state }) = find(m.transfers, id) {
        let next = TransferEntryModel::Outgoing {
            transfer: crate::transfer::OutgoingModel {
                done_bytes: crate::engine::transfers::plus(t.done_bytes, bytes),
                ..t
            },
            state,
        };
        lemma_put_ends_no_more(m, next);
    }
    if let Some(TransferEntryModel::Incoming { transfer: t, state, error: before }) = find(
        m.transfers,
        outcome.transfer,
    ) {
        let i = outcome.position;
        let placed = crate::transfer::IncomingModel {
            resolved: match outcome.placed {
                Some(path) => t.resolved.update(i, Some(path)),
                None => t.resolved,
            },
            ..t
        };
        let next = match outcome.error {
            Some(reason) => TransferEntryModel::Incoming {
                transfer: placed,
                state: TransferState::Failed,
                error: Some(reason),
            },
            None => TransferEntryModel::Incoming {
                transfer: crate::transfer::IncomingModel {
                    written: t.written.update(
                        i,
                        crate::engine::transfers::plus(t.written[i], outcome.len),
                    ),
                    done_bytes: crate::engine::transfers::plus(t.done_bytes, outcome.len),
                    ..placed
                },
                state,
                error: before,
            },
        };
        lemma_put_ends_no_more(m, next);
    }
}

#[verifier::spinoff_prover]
proof fn lemma_messages_end_no_more(
    m: EngineModel,
    peer: Seq<char>,
    message: MessageModel,
    extent: Option<(u64, u64)>,
    at: Moment,
)
    requires
        !(message is FileFinished),
        !(message is FileCancel),
    ensures
        ends_no_more(message_received(m, peer, message, extent, at), m),
{
    let after = message_received(m, peer, message, extent, at);
    let accept = crate::protocol::FileAcceptModel {
        transfer: TransferId(0),
        rejected: Seq::empty(),
    };
    let report = crate::protocol::FileProgressReport {
        transfer: TransferId(0),
        index: 0,
        bytes_done: 0,
    };
    let chunk = crate::protocol::FileChunkModel {
        transfer: TransferId(0),
        index: 0,
        offset: 0,
        data: Seq::empty(),
    };
    match message {
        MessageModel::Displays { displays } => {
            reveal(displays_received);
            lemma_same_transfers(after, m);
        },
        MessageModel::PairRequired { .. } => {
            reveal(code_required);
            lemma_same_transfers(after, m);
        },
        MessageModel::PairResponse { code, .. } => {
            lemma_pairing_ends_no_more(m, peer, code, false, None, at);
            lemma_same_transfers(after, m);
        },
        MessageModel::PairResult { accepted, reason } => {
            lemma_pairing_ends_no_more(m, peer, Seq::empty(), accepted, reason, at);
            lemma_same_transfers(after, m);
        },
        MessageModel::Input(event) => {
            reveal(input_received);
            lemma_same_transfers(after, m);
        },
        MessageModel::Control(control) => {
            lemma_control_ends_no_more(m, peer, control, at);
            lemma_same_transfers(after, m);
        },
        MessageModel::Clipboard(payload) => {
            lemma_clipboard_ends_no_more(
                m,
                crate::clipboard::ClipboardEventModel::Error(Seq::empty()),
                payload,
                at,
            );
            lemma_same_transfers(after, m);
        },
        MessageModel::FileOffer(offer) => {
            lemma_offer_ends_no_more(m, peer, offer, at);
        },
        MessageModel::FileAccept(answer) => {
            lemma_reports_end_no_more(m, answer, report, chunk, at);
        },
        MessageModel::FileProgress(progress) => {
            lemma_reports_end_no_more(m, accept, progress, chunk, at);
        },
        MessageModel::Bye { .. } => {
            lemma_closing_ends_no_more(m, peer, at);
        },
        _ => {
            lemma_same_transfers(after, m);
        },
    }
}

/// A transfer becomes complete only by the end of its stream or by the sender's word that
/// everything was sent, and cancelled only where one of the two users cancels it.
#[verifier::spinoff_prover]
pub proof fn law_a_transfer_ends_for_a_reason(
    m: EngineModel,
    event: Event,
    draw: u64,
    at: Moment,
    id: TransferId,
    state: TransferState,
)
    requires
        is_end(state),
        is_in(handled(m, event, draw, at), id, state),
        !is_in(m, id, state),
    ensures
        ends(m, event, id, state),
{
    let after = handled(m, event, draw, at);
    match event {
        Event::Command(command) => match command {
            Command::CancelTransfer(cancelled) => {
                lemma_cancelling_ends_one(m, cancelled, Seq::empty(), at);
                assert(find(m.transfers, id) == find(m.transfers, id));
            },
            _ => {
                lemma_commands_end_no_more(m, command, at);
            },
        },
        Event::SessionEstablished(established) => {
            lemma_connecting_ends_no_more(m, established.deep_view(), draw, at);
        },
        Event::ConnectionFailed { peer, message } => {
            reveal(connection_failed);
        },
        Event::Incoming { peer, item, extent } => {
            let heard = heard_of(m, peer@, at);
            assert(heard.transfers == m.transfers) by {
                reveal(heard_of);
            }
            assert(is_in(heard, id, state) == is_in(m, id, state));
            match item {
                Incoming::Message(message) => match message {
                    Message::FileFinished(finished) => {
                        lemma_finishing_ends_one(heard, finished.deep_view(), at);
                        assert(find(heard.transfers, id) == find(m.transfers, id));
                    },
                    Message::FileCancel { transfer, reason } => {
                        lemma_cancelling_ends_one(heard, transfer, reason@, at);
                        assert(find(heard.transfers, id) == find(m.transfers, id));
                    },
                    _ => {
                        lemma_messages_end_no_more(heard, peer@, message.deep_view(), extent, at);
                    },
                },
                Incoming::Chunk(chunk) => {
                    lemma_reports_end_no_more(
                        heard,
                        crate::protocol::FileAcceptModel {
                            transfer: TransferId(0),
                            rejected: Seq::empty(),
                        },
                        crate::protocol::FileProgressReport {
                            transfer: TransferId(0),
                            index: 0,
                            bytes_done: 0,
                        },
                        chunk.deep_view(),
                        at,
                    );
                },
            }
        },
        Event::SessionEnded { peer } => {
            lemma_closing_ends_no_more(m, peer@, at);
        },
        Event::PairingHandoff { peer } => {
            reveal(pairing_handed_off);
            reveal(pairing_requested);
        },
        Event::Captured { event: observed, motion } => {
            lemma_capture_ends_no_more(m, observed.deep_view(), motion, at);
        },
        Event::Clipboard(report) => {
            lemma_clipboard_ends_no_more(
                m,
                report.deep_view(),
                crate::protocol::ClipboardModel::Clear,
                at,
            );
        },
        Event::Discovered(sighting) => {
            reveal(machine_discovered);
            reveal(peer_dialled);
        },
        Event::TransferProgress { .. } => {
            lemma_event_answers(m, event, draw, at);
        },
        Event::TransferDone { id: sent, error } => {
            lemma_streams_end_one(m, sent, error.deep_view(), at);
            assert(find(m.transfers, id) == find(m.transfers, id));
        },
        Event::DiscoveryStarted { error } => {
            reveal(discovery_answered);
        },
        Event::Engaged { .. } => {
            reveal(engaged);
        },
        Event::FilesRead { .. } => {
            reveal(files_collected);
        },
        Event::OfferSent { .. } => {
            lemma_event_answers(m, event, draw, at);
        },
        Event::FoldersCreated { .. } => {
            lemma_event_answers(m, event, draw, at);
        },
        Event::ChunkWritten(_) => {
            lemma_event_answers(m, event, draw, at);
        },
        _ => {
            assert(after.transfers == m.transfers);
        },
    }
}

#[verifier::spinoff_prover]
proof fn lemma_event_answers(m: EngineModel, event: Event, draw: u64, at: Moment)
    requires
        event is TransferProgress || event is OfferSent || event is FoldersCreated
            || event is ChunkWritten,
    ensures
        ends_no_more(handled(m, event, draw, at), m),
{
    let nothing = crate::transfer::OutgoingModel {
        id: TransferId(0),
        peer: Seq::empty(),
        peer_name: Seq::empty(),
        files: Seq::empty(),
        total_bytes: 0,
        done_bytes: 0,
        started_at: 0,
        accepted: false,
        finished: false,
    };
    let unwritten = crate::engine::transfers::ChunkOutcomeModel {
        transfer: TransferId(0),
        position: 0,
        placed: None,
        len: 0,
        error: None,
    };
    let first = TransferId(0);
    match event {
        Event::TransferProgress { id, bytes } => {
            lemma_answers_end_no_more(
                m,
                nothing,
                None,
                id,
                Seq::empty(),
                bytes,
                unwritten,
                at,
            );
        },
        Event::OfferSent { transfer, error } => {
            lemma_answers_end_no_more(
                m,
                transfer.deep_view(),
                error.deep_view(),
                first,
                Seq::empty(),
                0,
                unwritten,
                at,
            );
        },
        Event::FoldersCreated { transfer, errors } => {
            lemma_answers_end_no_more(
                m,
                nothing,
                None,
                transfer,
                errors.deep_view(),
                0,
                unwritten,
                at,
            );
        },
        Event::ChunkWritten(outcome) => {
            lemma_answers_end_no_more(
                m,
                nothing,
                None,
                first,
                Seq::empty(),
                0,
                outcome.deep_view(),
                at,
            );
        },
        _ => {},
    }
}

proof fn lemma_endings_end_no_more(m: EngineModel, peers: Seq<Seq<char>>, n: nat, at: Moment)
    ensures
        ends_no_more(sessions_ended(m, peers, n, at), m),
    decreases n,
{
    if n > 0 {
        lemma_endings_end_no_more(m, peers, (n - 1) as nat, at);
        let before = sessions_ended(m, peers, (n - 1) as nat, at);
        lemma_closing_ends_no_more(before, peers[n - 1], at);
        let after = sessions_ended(m, peers, n, at);
        assert forall|id: TransferId, state: TransferState| #[trigger]
            is_in(after, id, state) && is_end(state) implies is_in(m, id, state) by {
            assert(is_in(before, id, state));
        }
    }
}

proof fn lemma_pinging_ends_no_more(m: EngineModel, draws: Seq<u64>, n: nat)
    ensures
        pinged(m, draws, n).transfers == m.transfers,
    decreases n,
{
    if n > 0 {
        lemma_pinging_ends_no_more(m, draws, (n - 1) as nat);
    }
}

/// Time alone completes and cancels nothing.
#[verifier::spinoff_prover]
pub proof fn law_ticks_end_no_transfer(
    m: EngineModel,
    position: Option<crate::geom::Point>,
    pushed: crate::layout::PushedEdges,
    hint: Option<Seq<char>>,
    draws: Seq<u64>,
    at: Moment,
)
    ensures
        cursor_ticked(m, position, pushed, at).transfers == m.transfers,
        ends_no_more(housekept(m, hint, draws, at), m),
{
    reveal(cursor_ticked);
    reveal(cursor_sampled);
    reveal(engage_tried);
    reveal(link_pushed);
    reveal(handed_back);
    reveal(held_released);
    reveal(discovery_rebuilt);
    reveal(housekept);
    reveal(tidied);
    let ready = if m.discovery_dirty {
        discovery_rebuilt(m)
    } else {
        m
    };
    let fresh = EngineModel {
        permission_hint: hint,
        table: crate::discovery::pruned(
            ready.table,
            at.unix,
            crate::engine::rules::FORGET_AFTER_SECS,
        ),
        ..ready
    };
    let stale = silent_peers(m.sessions, m.sessions.len(), at);
    lemma_endings_end_no_more(fresh, stale, stale.len(), at);
    let tidy = tidied(m, hint, at);
    lemma_pinging_ends_no_more(tidy, draws, tidy.sessions.len());
    let after = housekept(m, hint, draws, at);
    assert forall|id: TransferId, state: TransferState| #[trigger]
        is_in(after, id, state) && is_end(state) implies is_in(m, id, state) by {
        assert(is_in(tidy, id, state));
        assert(is_in(fresh, id, state));
    }
}

} // verus!
