//! How machines come to be trusted, and how they do not.

use vstd::prelude::*;

use crate::codec::Incoming;
use crate::config::{plain_link, trusted_key, PeerRecordModel};
use crate::encoding::base64_text;
use crate::engine::control::{
    captured, control_received, cursor_sampled, cursor_ticked, engage_tried, engaged, entered,
    event_relayed, handed_back, input_received, let_go, link_pushed, returned_home,
};
use crate::engine::dispatch::{
    asked_for_code, clipboard_reset, code_required, commanded, connection_failed, disconnected,
    displays_received, forgotten, handled, heard_of, message_received, settings_updated,
    sharing_set, Event,
};
use crate::engine::pairing::{
    awaits_judgement, code_of, code_refused, default_side, digits_of, has_typed, key_checked,
    key_refused, law_code_is_six_digits, link_ensured, new_session, pair_judged, pair_responded,
    pair_result, paired, pairing_answered, pairing_handed_off, pairing_requested, peer_remembered,
    seen_again, session_accepted, session_established, session_weighed, typed_for, EstablishedModel,
};
use crate::engine::rules::{
    brought_home, control_released, discovery_answered, discovery_rebuilt, handover_ended,
    held_released, session_closed, session_ended,
};
use crate::engine::services::{
    clipboard_changed, clipboard_received, housekept, machine_discovered, peer_dialled, pinged,
    sessions_ended, silent_peers, tidied, told_to_connected,
};
use crate::engine::state::{
    ActionModel, Command, EngineModel, Moment, Motion, PairingModel, SessionModel,
};
use crate::engine::transfers::{
    bytes_sent, chunk_received, chunk_written, file_cancelled, file_offered, files_chosen,
    files_collected, files_finished, folders_created, offer_accepted, offer_answered,
    progress_reported, stream_ended, transfer_accepted, transfer_cancelled,
};
use crate::keyed::{
    find, holds, law_find_after_put, law_find_after_without, law_put_leaves_others,
    law_without_leaves_others, lemma_index_of, lemma_without, without,
};
use crate::protocol::{Message, MessageModel};
use crate::view::ConnectionModel;

verus! {

/// The message that an action sends to another machine.
pub open spec fn told(action: ActionModel) -> Option<(u64, MessageModel)> {
    match action {
        ActionModel::Send { connection, message } => Some((connection, message)),
        ActionModel::SendUrgent { connection, message } => Some((connection, message)),
        ActionModel::SendEither { connection, message } => Some((connection, message)),
        ActionModel::OfferFiles { connection, message, .. } => Some((connection, message)),
        _ => None,
    }
}

/// What some actions send to other machines, one by one.
pub open spec fn all_told(actions: Seq<ActionModel>) -> Seq<Option<(u64, MessageModel)>> {
    actions.map_values(|action: ActionModel| told(action))
}

/// Where this machine shows a code, the peer is told that one is wanted and nothing else:
/// the six digits are in no message.
pub proof fn law_the_code_is_not_told(m: EngineModel, peer: Seq<char>, draw: u64, at: Moment)
    ensures
        forall|i: int|
            m.out.len() <= i < pairing_requested(m, peer, draw, at).out.len() ==> (told(
                #[trigger] pairing_requested(m, peer, draw, at).out[i],
            ) matches Some((_, message)) ==> message == (MessageModel::PairRequired {
                code_hint: Seq::empty(),
            })),
        code_of(draw) != Seq::<char>::empty(),
{
    reveal(pairing_requested);
    law_code_is_six_digits(draw);
}

/// Whatever code is drawn, the same messages go out: no machine can tell the code from
/// what it is sent when a connection comes up or a pairing is handed over.
#[verifier::spinoff_prover]
pub proof fn law_messages_do_not_depend_on_the_code(
    m: EngineModel,
    e: EstablishedModel,
    peer: Seq<char>,
    one: u64,
    other: u64,
    at: Moment,
)
    ensures
        all_told(session_established(m, e, one, at).out) == all_told(
            session_established(m, e, other, at).out,
        ),
        all_told(pairing_handed_off(m, peer, one, at).out) == all_told(
            pairing_handed_off(m, peer, other, at).out,
        ),
{
    reveal(session_established);
    reveal(key_checked);
    reveal(session_weighed);
    reveal(session_accepted);
    reveal(pairing_requested);
    reveal(pairing_handed_off);
    assert(all_told(session_established(m, e, one, at).out) =~= all_told(
        session_established(m, e, other, at).out,
    ));
    assert(all_told(pairing_handed_off(m, peer, one, at).out) =~= all_told(
        pairing_handed_off(m, peer, other, at).out,
    ));
}

/// Whether the user of this machine typed a code for the session that was found.
pub open spec fn typed_here(found: Option<SessionModel>) -> bool {
    found matches Some(session) && has_typed(session)
}

/// A machine cannot accept itself: where no code was typed here, its acceptance leaves the
/// sessions, the trust store and the settings as they were, and nothing is sent.
pub proof fn law_a_peer_cannot_accept_itself(
    m: EngineModel,
    peer: Seq<char>,
    reason: Option<Seq<char>>,
    at: Moment,
)
    requires
        !typed_here(find(m.sessions, peer)),
    ensures
        pair_judged(m, peer, true, reason, at).sessions == m.sessions,
        pair_judged(m, peer, true, reason, at).peers == m.peers,
        pair_judged(m, peer, true, reason, at).settings == m.settings,
        forall|i: int|
            m.out.len() <= i < pair_judged(m, peer, true, reason, at).out.len() ==> told(
                #[trigger] pair_judged(m, peer, true, reason, at).out[i],
            ) is None,
{
    reveal(pair_judged);
}

/// Asking for a code first does not help a machine to accept itself: where none was typed
/// here, its acceptance still leaves the trust store, the settings and the trust in its
/// session as they were.
pub proof fn law_asking_for_a_code_earns_nothing(
    m: EngineModel,
    peer: Seq<char>,
    reason: Option<Seq<char>>,
    asked_at: Moment,
    accepted_at: Moment,
)
    requires
        !typed_here(find(m.sessions, peer)),
    ensures
        ({
            let asked = code_required(m, peer, asked_at);
            let after = pair_judged(asked, peer, true, reason, accepted_at);
            &&& after.peers == m.peers
            &&& after.settings == m.settings
            &&& after.sessions == asked.sessions
            &&& (find(after.sessions, peer) matches Some(session) ==> session.trusted == find(
                m.sessions,
                peer,
            )->Some_0.trusted)
            &&& !typed_here(find(after.sessions, peer))
        }),
{
    reveal(code_required);
    lemma_index_of(m.sessions, peer);
    if let Some(session) = find(m.sessions, peer) {
        law_find_after_put(m.sessions, asked_for_code(session));
    }
    law_a_peer_cannot_accept_itself(code_required(m, peer, asked_at), peer, reason, accepted_at);
}

/// A code that is typed here can be accepted, also after a wrong one was refused: the
/// machine is then trusted with the key that it proved, its session is connected, and it
/// has an edge.
#[verifier::spinoff_prover]
pub proof fn law_a_typed_code_can_be_accepted(
    m: EngineModel,
    peer: Seq<char>,
    code: Seq<char>,
    reason: Option<Seq<char>>,
    typed_at: Moment,
    accepted_at: Moment,
)
    requires
        find(m.sessions, peer) matches Some(session) && !session.trusted && (
        session.pairing matches Some(pairing) ==> pairing.awaiting_code
            && pairing.code_to_share is None),
    ensures
        ({
            let session = find(m.sessions, peer)->Some_0;
            let typed = pairing_answered(m, peer, Some(code), true, typed_at);
            let after = pair_judged(typed, peer, true, reason, accepted_at);
            &&& find(after.sessions, peer) == Some(paired(session))
            &&& trusted_key(after.peers, peer, base64_text(session.remote_static))
            &&& holds(after.settings.links, peer)
        }),
{
    reveal(pairing_answered);
    reveal(pair_judged);
    reveal(peer_remembered);
    reveal(link_ensured);
    lemma_index_of(m.sessions, peer);
    let session = find(m.sessions, peer)->Some_0;
    let waiting = typed_for(session);
    let typed = pairing_answered(m, peer, Some(code), true, typed_at);
    law_find_after_put(m.sessions, waiting);
    law_find_after_put(typed.sessions, paired(waiting));
    let record = PeerRecordModel {
        device_id: session.info.device_id,
        name: session.info.name,
        public_key: base64_text(session.remote_static),
        fingerprint: session.info.fingerprint,
        os: session.info.os,
        last_seen: Some(accepted_at.unix),
        last_address: None,
    };
    law_find_after_put(typed.peers, record);
    let link = plain_link(peer, session.info.name, default_side(m.identity.device_id, peer));
    law_find_after_put(typed.settings.links, link);
}

/// A refused code leaves the way open to type another one.
pub proof fn law_a_refused_code_may_be_typed_again(
    m: EngineModel,
    peer: Seq<char>,
    reason: Option<Seq<char>>,
    at: Moment,
)
    requires
        find(m.sessions, peer) matches Some(session) && !session.trusted,
    ensures
        find(
            pair_judged(m, peer, false, reason, at).sessions,
            peer,
        ) matches Some(session) && !session.trusted && session.pairing is None,
        pair_judged(m, peer, false, reason, at).peers == m.peers,
{
    reveal(pair_judged);
    lemma_index_of(m.sessions, peer);
    let session = find(m.sessions, peer)->Some_0;
    let message = match reason {
        Some(text) => text,
        None => "pairing rejected"@,
    };
    law_find_after_put(
        m.sessions,
        SessionModel {
            state: ConnectionModel::Failed { reason: message },
            pairing: None,
            ..session
        },
    );
}

/// Whether an event makes a machine trusted: it sends the code that is shown here, or it
/// accepts the code that the user of this machine typed.
pub open spec fn earns_trust(m: EngineModel, event: Event, id: Seq<char>) -> bool {
    match (event, find(m.sessions, id)) {
        (Event::Incoming { peer, item: Incoming::Message(message), .. }, Some(session)) => {
            &&& peer@ == id
            &&& match message {
                Message::PairResponse { code, .. } => session.pairing matches Some(pairing)
                    && pairing.code_to_share matches Some(expected) && digits_of(code@)
                    == digits_of(expected),
                Message::PairResult { accepted, .. } => accepted && awaits_judgement(session),
                _ => false,
            }
        },
        _ => false,
    }
}

/// Whether every key that is trusted was trusted before.
pub open spec fn trusts_no_more(after: EngineModel, before: EngineModel) -> bool {
    forall|id: Seq<char>, key: Seq<char>| #[trigger]
        trusted_key(after.peers, id, key) ==> trusted_key(before.peers, id, key)
}

proof fn same_after_release(m: EngineModel, peer: Seq<char>, at: Moment)
    ensures
        control_released(m, at).peers == m.peers,
        control_released(m, at).sessions == m.sessions,
        handover_ended(m, peer, at).peers == m.peers,
        handover_ended(m, peer, at).sessions == m.sessions,
        held_released(m).peers == m.peers,
        held_released(m).sessions == m.sessions,
{
    reveal(control_released);
    reveal(brought_home);
    reveal(handover_ended);
    reveal(held_released);
}

proof fn same_after_end(m: EngineModel, peer: Seq<char>, at: Moment)
    ensures
        session_ended(m, peer, at).peers == m.peers,
        session_closed(m, peer, at).peers == m.peers,
        session_ended(m, peer, at).sessions == without(m.sessions, peer),
        session_closed(m, peer, at).sessions == without(m.sessions, peer),
{
    lemma_without(m.sessions, peer);
    reveal(session_ended);
    reveal(session_closed);
    let gone = EngineModel {
        sessions: without(m.sessions, peer),
        connecting: without(m.connecting, peer),
        ..m
    };
    same_after_release(gone, peer, at);
    let closed = match find(m.sessions, peer) {
        Some(session) => EngineModel {
            sessions: without(m.sessions, peer),
            ..m
        }.does(ActionModel::Close { connection: session.connection }),
        None => m,
    };
    same_after_release(closed, peer, at);
}

proof fn same_after_request(m: EngineModel, peer: Seq<char>, draw: u64, at: Moment)
    ensures
        pairing_requested(m, peer, draw, at).peers == m.peers,
        pairing_handed_off(m, peer, draw, at).peers == m.peers,
{
    reveal(pairing_requested);
    reveal(pairing_handed_off);
}

/// Coming back changes what is known of a machine, not its key.
proof fn seeing_again_trusts_no_more(
    peers: Seq<PeerRecordModel>,
    peer: Seq<char>,
    name: Seq<char>,
    unix: u64,
)
    ensures
        forall|id: Seq<char>, key: Seq<char>| #[trigger]
            trusted_key(seen_again(peers, peer, name, unix), id, key) ==> trusted_key(
                peers,
                id,
                key,
            ),
{
    reveal(seen_again);
    lemma_index_of(peers, peer);
    if let Some(record) = find(peers, peer) {
        let next = PeerRecordModel {
            last_seen: Some(unix),
            name,
            last_address: None,
            ..record
        };
        law_find_after_put(peers, next);
        assert forall|id: Seq<char>, key: Seq<char>| #[trigger]
            trusted_key(seen_again(peers, peer, name, unix), id, key) implies trusted_key(
            peers,
            id,
            key,
        ) by {
            if id != peer {
                law_put_leaves_others(peers, next, id);
            }
        }
    }
}

#[verifier::spinoff_prover]
proof fn connecting_trusts_no_more(m: EngineModel, e: EstablishedModel, draw: u64, at: Moment)
    ensures
        trusts_no_more(session_established(m, e, draw, at), m),
{
    reveal(session_established);
    reveal(key_checked);
    reveal(key_refused);
    reveal(session_weighed);
    reveal(session_accepted);
    reveal(pairing_requested);
    seeing_again_trusts_no_more(m.peers, e.info.device_id, e.info.name, at.unix);
}

proof fn same_after_refusal(
    m: EngineModel,
    session: SessionModel,
    pairing: PairingModel,
    at: Moment,
)
    ensures
        code_refused(m, session, pairing, at).peers == m.peers,
{
    reveal(code_refused);
    let attempts = (pairing.attempts + 1) as u8;
    let answered = m.with_session(
        SessionModel {
            pairing: Some(PairingModel { attempts, ..pairing }),
            ..session
        },
    ).does(
        pair_result(session, false, Some("the code did not match"@)),
    );
    same_after_end(
        answered.warns("Too many wrong pairing codes; the connection was closed."@),
        session.info.device_id,
        at,
    );
}

/// Remembering a machine pins the key that it proved, and no other.
proof fn remembering_pins_the_proven_key(m: EngineModel, session: SessionModel, at: Moment)
    ensures
        forall|id: Seq<char>, key: Seq<char>| #[trigger]
            trusted_key(
                peer_remembered(m, session, at).peers,
                id,
                key,
            ) ==> trusted_key(m.peers, id, key) || (id == session.info.device_id && key
                == base64_text(session.remote_static)),
{
    reveal(peer_remembered);
    let record = PeerRecordModel {
        device_id: session.info.device_id,
        name: session.info.name,
        public_key: base64_text(session.remote_static),
        fingerprint: session.info.fingerprint,
        os: session.info.os,
        last_seen: Some(at.unix),
        last_address: None,
    };
    law_find_after_put(m.peers, record);
    assert forall|id: Seq<char>, key: Seq<char>| #[trigger]
        trusted_key(peer_remembered(m, session, at).peers, id, key) implies trusted_key(
        m.peers,
        id,
        key,
    ) || (id == session.info.device_id && key == base64_text(session.remote_static)) by {
        if id != session.info.device_id {
            law_put_leaves_others(m.peers, record, id);
        }
    }
}

/// What pairing messages do to the trust store.
#[verifier::spinoff_prover]
proof fn pairing_pins_the_proven_key(
    m: EngineModel,
    peer: Seq<char>,
    code: Seq<char>,
    accepted: bool,
    reason: Option<Seq<char>>,
    at: Moment,
)
    ensures
        trusts_no_more(pair_responded(m, peer, code, at), m) || (find(
            m.sessions,
            peer,
        ) matches Some(session) && session.pairing matches Some(pairing)
            && pairing.code_to_share matches Some(expected) && digits_of(code) == digits_of(
            expected,
        )),
        trusts_no_more(pair_judged(m, peer, accepted, reason, at), m) || (accepted && (find(
            m.sessions,
            peer,
        ) matches Some(session) && awaits_judgement(session))),
        forall|id: Seq<char>, key: Seq<char>|
            #![trigger trusted_key(pair_responded(m, peer, code, at).peers, id, key)]
            trusted_key(pair_responded(m, peer, code, at).peers, id, key) ==> trusted_key(
                m.peers,
                id,
                key,
            ) || (id == peer && (find(m.sessions, peer) matches Some(session) && key
                == base64_text(session.remote_static))),
        forall|id: Seq<char>, key: Seq<char>|
            #![trigger trusted_key(pair_judged(m, peer, accepted, reason, at).peers, id, key)]
            trusted_key(pair_judged(m, peer, accepted, reason, at).peers, id, key) ==> trusted_key(
                m.peers,
                id,
                key,
            ) || (id == peer && (find(m.sessions, peer) matches Some(session) && key
                == base64_text(session.remote_static))),
{
    reveal(pair_responded);
    reveal(pair_judged);
    reveal(link_ensured);
    lemma_index_of(m.sessions, peer);
    if let Some(session) = find(m.sessions, peer) {
        remembering_pins_the_proven_key(m, session, at);
        if session.pairing is Some {
            same_after_refusal(m, session, session.pairing->Some_0, at);
        }
    }
}

#[verifier::spinoff_prover]
proof fn same_after_answer(
    m: EngineModel,
    peer: Seq<char>,
    code: Option<Seq<char>>,
    accept: bool,
    at: Moment,
)
    ensures
        pairing_answered(m, peer, code, accept, at).peers == m.peers,
        disconnected(m, peer, at).peers == m.peers,
{
    reveal(pairing_answered);
    reveal(disconnected);
    if let Some(session) = find(m.sessions, peer) {
        same_after_end(
            m.does(
                pair_result(
                    session,
                    false,
                    Some("the request was declined"@),
                ),
            ),
            peer,
            at,
        );
    }
    same_after_end(
        m.sends(peer, MessageModel::Bye { reason: "disconnected locally"@ }),
        peer,
        at,
    );
}

#[verifier::spinoff_prover]
proof fn commands_trust_no_more(m: EngineModel, command: Command, at: Moment)
    ensures
        trusts_no_more(commanded(m, command, at), m),
{
    match command {
        Command::UpdateSettings(settings) => {
            reveal(settings_updated);
            reveal(clipboard_reset);
            reveal(discovery_rebuilt);
        },
        Command::SetSharing(enabled) => {
            reveal(sharing_set);
            reveal(control_released);
            reveal(brought_home);
        },
        Command::Connect(peer) => {
            reveal(peer_dialled);
        },
        Command::Disconnect(peer) => {
            same_after_answer(m, peer@, None, true, at);
        },
        Command::Forget(peer) => {
            reveal(forgotten);
            assert forall|id: Seq<char>, key: Seq<char>| #[trigger]
                trusted_key(forgotten(m, peer@, at).peers, id, key) implies trusted_key(
                m.peers,
                id,
                key,
            ) by {
                law_find_after_without(m.peers, peer@);
                if id != peer@ {
                    law_without_leaves_others(m.peers, peer@, id);
                }
            }
        },
        Command::AnswerPairing { peer, code, accept } => {
            same_after_answer(m, peer@, code.deep_view(), accept, at);
        },
        Command::ReleaseControl => {
            same_after_release(m, Seq::empty(), at);
        },
        Command::SendFiles { peer, paths } => {
            reveal(files_chosen);
        },
        Command::AcceptTransfer(id) => {
            reveal(transfer_accepted);
        },
        Command::CancelTransfer(id) => {
            reveal(transfer_cancelled);
        },
        _ => {},
    }
}

proof fn telling_trusts_no_more(m: EngineModel, message: MessageModel, n: nat)
    ensures
        told_to_connected(m, message, n).peers == m.peers,
        told_to_connected(m, message, n).sessions == m.sessions,
    decreases n,
{
    if n > 0 {
        telling_trusts_no_more(m, message, (n - 1) as nat);
    }
}

#[verifier::spinoff_prover]
proof fn same_after_clipboard(
    m: EngineModel,
    event: crate::clipboard::ClipboardEventModel,
    payload: crate::protocol::ClipboardModel,
    at: Moment,
)
    ensures
        clipboard_changed(m, event, at).peers == m.peers,
        clipboard_changed(m, event, at).sessions == m.sessions,
        clipboard_received(m, payload, at).peers == m.peers,
        clipboard_received(m, payload, at).sessions == m.sessions,
{
    reveal(clipboard_changed);
    reveal(clipboard_received);
    if let crate::clipboard::ClipboardEventModel::Changed(changed) = event {
        telling_trusts_no_more(
            crate::engine::services::clipboard_noted(
                m,
                changed,
                crate::view::TransferDirection::Sending,
                at,
            ),
            MessageModel::Clipboard(changed),
            m.sessions.len(),
        );
    }
}

#[verifier::spinoff_prover]
proof fn same_after_control(
    m: EngineModel,
    peer: Seq<char>,
    control: crate::protocol::InputControl,
    at: Moment,
)
    ensures
        control_received(m, peer, control, at).peers == m.peers,
        control_received(m, peer, control, at).sessions == m.sessions,
{
    reveal(control_received);
    reveal(entered);
    reveal(let_go);
    reveal(returned_home);
    reveal(brought_home);
    reveal(held_released);
}

#[verifier::spinoff_prover]
proof fn same_after_capture(
    m: EngineModel,
    event: crate::input::CapturedModel,
    motion: Motion,
    at: Moment,
)
    ensures
        captured(m, event, motion, at).peers == m.peers,
        captured(m, event, motion, at).sessions == m.sessions,
{
    reveal(captured);
    reveal(event_relayed);
    reveal(control_released);
    reveal(brought_home);
}

#[verifier::spinoff_prover]
proof fn same_after_offer(
    m: EngineModel,
    peer: Seq<char>,
    offer: crate::protocol::FileOfferModel,
    at: Moment,
)
    ensures
        file_offered(m, peer, offer, at).peers == m.peers,
        file_offered(m, peer, offer, at).sessions == m.sessions,
{
    reveal(file_offered);
    reveal(transfer_accepted);
}

#[verifier::spinoff_prover]
proof fn messages_trust_no_more(
    m: EngineModel,
    peer: Seq<char>,
    message: MessageModel,
    extent: Option<(u64, u64)>,
    at: Moment,
)
    requires
        !(message is PairResponse),
        !(message is PairResult),
    ensures
        message_received(m, peer, message, extent, at).peers == m.peers,
{
    match message {
        MessageModel::Displays { displays } => {
            reveal(displays_received);
        },
        MessageModel::PairRequired { .. } => {
            reveal(code_required);
        },
        MessageModel::Input(event) => {
            reveal(input_received);
        },
        MessageModel::Control(control) => {
            same_after_control(m, peer, control, at);
        },
        MessageModel::Clipboard(payload) => {
            same_after_clipboard(
                m,
                crate::clipboard::ClipboardEventModel::Error(Seq::empty()),
                payload,
                at,
            );
        },
        MessageModel::FileOffer(offer) => {
            same_after_offer(m, peer, offer, at);
        },
        MessageModel::FileAccept(accept) => {
            reveal(offer_accepted);
        },
        MessageModel::FileProgress(report) => {
            reveal(progress_reported);
        },
        MessageModel::FileFinished(finished) => {
            reveal(files_finished);
        },
        MessageModel::FileCancel { transfer, reason } => {
            reveal(file_cancelled);
        },
        MessageModel::Bye { .. } => {
            same_after_end(m, peer, at);
        },
        _ => {},
    }
}

/// Hearing of a peer leaves the trust store, and of its session all but the time.
proof fn hearing_keeps_the_session(m: EngineModel, peer: Seq<char>, at: Moment)
    ensures
        heard_of(m, peer, at).peers == m.peers,
        find(heard_of(m, peer, at).sessions, peer) == match find(m.sessions, peer) {
            Some(session) => Some(SessionModel { last_rx: at.ms, ..session }),
            None => None,
        },
{
    reveal(heard_of);
    lemma_index_of(m.sessions, peer);
    if let Some(session) = find(m.sessions, peer) {
        law_find_after_put(m.sessions, SessionModel { last_rx: at.ms, ..session });
    }
}

/// A key becomes trusted only by an event that earns it, and it is the key that the
/// machine proved: the right code for the one shown here, or the acceptance of one that
/// the user of this machine typed.
#[verifier::spinoff_prover]
pub proof fn law_only_pairing_makes_a_key_trusted(
    m: EngineModel,
    event: Event,
    draw: u64,
    at: Moment,
    id: Seq<char>,
    key: Seq<char>,
)
    requires
        trusted_key(handled(m, event, draw, at).peers, id, key),
        !trusted_key(m.peers, id, key),
    ensures
        earns_trust(m, event, id),
        find(m.sessions, id) matches Some(session) && key == base64_text(session.remote_static),
{
    match event {
        Event::Command(command) => {
            commands_trust_no_more(m, command, at);
        },
        Event::SessionEstablished(established) => {
            connecting_trusts_no_more(m, established.deep_view(), draw, at);
        },
        Event::ConnectionFailed { peer, message } => {
            reveal(connection_failed);
        },
        Event::Incoming { peer, item, extent } => {
            hearing_keeps_the_session(m, peer@, at);
            let heard = heard_of(m, peer@, at);
            match item {
                Incoming::Message(message) => match message {
                    Message::PairResponse { code, .. } => {
                        pairing_pins_the_proven_key(heard, peer@, code@, false, None, at);
                    },
                    Message::PairResult { accepted, reason } => {
                        pairing_pins_the_proven_key(
                            heard,
                            peer@,
                            Seq::empty(),
                            accepted,
                            reason.deep_view(),
                            at,
                        );
                    },
                    _ => {
                        messages_trust_no_more(heard, peer@, message.deep_view(), extent, at);
                    },
                },
                Incoming::Chunk(chunk) => {
                    reveal(chunk_received);
                },
            }
        },
        Event::SessionEnded { peer } => {
            same_after_end(m, peer@, at);
        },
        Event::PairingHandoff { peer } => {
            same_after_request(m, peer@, draw, at);
        },
        Event::Captured { event: observed, motion } => {
            same_after_capture(m, observed.deep_view(), motion, at);
        },
        Event::Clipboard(report) => {
            same_after_clipboard(m, report.deep_view(), crate::protocol::ClipboardModel::Clear, at);
        },
        Event::Discovered(sighting) => {
            reveal(machine_discovered);
            reveal(peer_dialled);
        },
        Event::TransferProgress { id: transfer, bytes } => {
            reveal(bytes_sent);
        },
        Event::TransferDone { id: transfer, error } => {
            reveal(stream_ended);
        },
        Event::DiscoveryStarted { error } => {
            reveal(discovery_answered);
        },
        Event::Engaged { .. } => {
            reveal(engaged);
        },
        Event::FilesRead { .. } => {
            reveal(files_collected);
        },
        Event::OfferSent { .. } => {
            reveal(offer_answered);
        },
        Event::FoldersCreated { .. } => {
            reveal(folders_created);
        },
        Event::ChunkWritten(outcome) => {
            reveal(chunk_written);
        },
        _ => {},
    }
}

/// Whether every session for which a code is typed had one typed before.
pub open spec fn types_no_more(after: EngineModel, before: EngineModel) -> bool {
    forall|id: Seq<char>| #[trigger]
        typed_here(find(after.sessions, id)) ==> typed_here(find(before.sessions, id))
}

/// Whether the session that was found is a trusted one.
pub open spec fn admitted(found: Option<SessionModel>) -> bool {
    found matches Some(session) && session.trusted
}

/// Whether every machine whose session is trusted had a trusted one before.
pub open spec fn admits_no_more(after: EngineModel, before: EngineModel) -> bool {
    forall|id: Seq<char>| #[trigger]
        admitted(find(after.sessions, id)) ==> admitted(find(before.sessions, id))
}

/// Knowing a session by new facts types and admits nothing, where these facts do not say
/// so.
proof fn knowing_types_no_more(m: EngineModel, session: SessionModel)
    ensures
        (has_typed(session) ==> typed_here(find(m.sessions, session.info.device_id)))
            ==> types_no_more(m.with_session(session), m),
        (session.trusted ==> admitted(find(m.sessions, session.info.device_id)))
            ==> admits_no_more(m.with_session(session), m),
        forall|id: Seq<char>|
            id != session.info.device_id ==> #[trigger] find(m.with_session(session).sessions, id)
                == find(m.sessions, id),
        find(m.with_session(session).sessions, session.info.device_id) == Some(session),
{
    law_find_after_put(m.sessions, session);
    let after = m.with_session(session);
    assert forall|id: Seq<char>| id != session.info.device_id implies #[trigger] find(
        after.sessions,
        id,
    ) == find(m.sessions, id) by {
        law_put_leaves_others(m.sessions, session, id);
    }
    if has_typed(session) ==> typed_here(find(m.sessions, session.info.device_id)) {
        assert forall|id: Seq<char>| #[trigger]
            typed_here(find(after.sessions, id)) implies typed_here(find(m.sessions, id)) by {
            assert(id != session.info.device_id ==> find(after.sessions, id) == find(
                m.sessions,
                id,
            ));
        }
    }
    if session.trusted ==> admitted(find(m.sessions, session.info.device_id)) {
        assert forall|id: Seq<char>| #[trigger]
            admitted(find(after.sessions, id)) implies admitted(find(m.sessions, id)) by {
            assert(id != session.info.device_id ==> find(after.sessions, id) == find(
                m.sessions,
                id,
            ));
        }
    }
}

/// The end of a session types and admits nothing.
proof fn ending_types_no_more(m: EngineModel, peer: Seq<char>)
    ensures
        forall|id: Seq<char>| #[trigger]
            typed_here(find(without(m.sessions, peer), id)) ==> typed_here(find(m.sessions, id)),
        forall|id: Seq<char>| #[trigger]
            admitted(find(without(m.sessions, peer), id)) ==> admitted(find(m.sessions, id)),
{
    assert forall|id: Seq<char>| #[trigger]
        admitted(find(without(m.sessions, peer), id)) implies admitted(find(m.sessions, id)) by {
        if id == peer {
            law_find_after_without(m.sessions, peer);
        } else {
            law_without_leaves_others(m.sessions, peer, id);
        }
    }
    assert forall|id: Seq<char>| #[trigger]
        typed_here(find(without(m.sessions, peer), id)) implies typed_here(
        find(m.sessions, id),
    ) by {
        if id == peer {
            law_find_after_without(m.sessions, peer);
        } else {
            law_without_leaves_others(m.sessions, peer, id);
        }
    }
}

#[verifier::spinoff_prover]
proof fn requests_type_no_more(m: EngineModel, peer: Seq<char>, draw: u64, at: Moment)
    ensures
        types_no_more(pairing_requested(m, peer, draw, at), m),
        types_no_more(pairing_handed_off(m, peer, draw, at), m),
        types_no_more(code_required(m, peer, at), m),
        types_no_more(heard_of(m, peer, at), m),
        admits_no_more(pairing_requested(m, peer, draw, at), m),
        admits_no_more(pairing_handed_off(m, peer, draw, at), m),
        admits_no_more(code_required(m, peer, at), m),
        admits_no_more(heard_of(m, peer, at), m),
{
    reveal(pairing_requested);
    reveal(pairing_handed_off);
    reveal(code_required);
    reveal(heard_of);
    lemma_index_of(m.sessions, peer);
    if let Some(session) = find(m.sessions, peer) {
        knowing_types_no_more(
            m,
            SessionModel {
                state: ConnectionModel::Pairing,
                pairing: Some(
                    PairingModel {
                        code_to_share: Some(code_of(draw)),
                        awaiting_code: false,
                        attempts: 0,
                        typed: false,
                    },
                ),
                ..session
            },
        );
        knowing_types_no_more(m, asked_for_code(session));
        knowing_types_no_more(m, SessionModel { last_rx: at.ms, ..session });
    }
}

#[verifier::spinoff_prover]
proof fn connecting_types_no_more(m: EngineModel, e: EstablishedModel, draw: u64, at: Moment)
    ensures
        types_no_more(session_established(m, e, draw, at), m),
        forall|id: Seq<char>| #[trigger]
            admitted(find(session_established(m, e, draw, at).sessions, id)) ==> admitted(
                find(m.sessions, id),
            ) || (id == e.info.device_id && trusted_key(
                m.peers,
                id,
                base64_text(e.remote_static),
            )),
{
    reveal(session_established);
    reveal(key_checked);
    reveal(key_refused);
    reveal(session_weighed);
    reveal(session_accepted);
    let peer = e.info.device_id;
    let free = EngineModel { connecting: without(m.connecting, peer), ..m };
    let trusted = holds(m.peers, peer);
    let added = free.with_session(new_session(e, trusted, at));
    knowing_types_no_more(free, new_session(e, trusted, at));
    let replaced = match find(free.sessions, peer) {
        Some(previous) => added.does(ActionModel::Close { connection: previous.connection }),
        None => added,
    };
    let known = EngineModel {
        peers: seen_again(free.peers, peer, e.info.name, at.unix),
        ..replaced.does(ActionModel::Listen { connection: e.connection, peer })
    }.does(ActionModel::SavePeers);
    requests_type_no_more(known, peer, draw, at);
    assert(types_no_more(known, m));
    let after = session_established(m, e, draw, at);
    assert forall|id: Seq<char>| #[trigger] admitted(find(after.sessions, id)) implies admitted(
        find(m.sessions, id),
    ) || (id == peer && trusted_key(m.peers, id, base64_text(e.remote_static))) by {
        if !admitted(find(m.sessions, id)) {
            assert(admitted(find(known.sessions, id)));
        }
    }
}

#[verifier::spinoff_prover]
proof fn judging_types_no_more(
    m: EngineModel,
    peer: Seq<char>,
    code: Seq<char>,
    accepted: bool,
    reason: Option<Seq<char>>,
    at: Moment,
)
    ensures
        types_no_more(pair_responded(m, peer, code, at), m),
        types_no_more(pair_judged(m, peer, accepted, reason, at), m),
        admits_no_more(pair_responded(m, peer, code, at), m) || (find(
            m.sessions,
            peer,
        ) matches Some(session) && session.pairing matches Some(pairing)
            && pairing.code_to_share matches Some(expected) && digits_of(code) == digits_of(
            expected,
        )),
        admits_no_more(pair_judged(m, peer, accepted, reason, at), m) || (accepted && (find(
            m.sessions,
            peer,
        ) matches Some(session) && awaits_judgement(session))),
        forall|id: Seq<char>|
            id != peer && #[trigger] admitted(find(pair_responded(m, peer, code, at).sessions, id))
                ==> admitted(find(m.sessions, id)),
        forall|id: Seq<char>|
            id != peer && #[trigger] admitted(
                find(pair_judged(m, peer, accepted, reason, at).sessions, id),
            ) ==> admitted(find(m.sessions, id)),
{
    reveal(pair_responded);
    reveal(pair_judged);
    reveal(code_refused);
    reveal(link_ensured);
    reveal(peer_remembered);
    lemma_index_of(m.sessions, peer);
    if let Some(session) = find(m.sessions, peer) {
        knowing_types_no_more(m, paired(session));
        let message = match reason {
            Some(text) => text,
            None => "pairing rejected"@,
        };
        knowing_types_no_more(
            m,
            SessionModel {
                state: ConnectionModel::Failed { reason: message },
                pairing: None,
                ..session
            },
        );
        if let Some(pairing) = session.pairing {
            let attempts = (pairing.attempts + 1) as u8;
            let next = SessionModel {
                pairing: Some(PairingModel { attempts, ..pairing }),
                ..session
            };
            knowing_types_no_more(m, next);
            let answered = m.with_session(next).does(
                pair_result(session, false, Some("the code did not match"@)),
            ).warns("Too many wrong pairing codes; the connection was closed."@);
            same_after_end(answered, peer, at);
            ending_types_no_more(answered, peer);
        }
    }
}

/// Whether an event is the user of this machine typing a code for the given machine.
pub open spec fn types_a_code(event: Event, id: Seq<char>) -> bool {
    event matches Event::Command(Command::AnswerPairing { peer, code, accept }) && peer@ == id
        && code is Some && accept
}

#[verifier::spinoff_prover]
proof fn answers_admit_no_more(
    m: EngineModel,
    peer: Seq<char>,
    code: Option<Seq<char>>,
    accept: bool,
    at: Moment,
)
    ensures
        admits_no_more(pairing_answered(m, peer, code, accept, at), m),
{
    reveal(pairing_answered);
    lemma_index_of(m.sessions, peer);
    if let Some(session) = find(m.sessions, peer) {
        knowing_types_no_more(m, typed_for(session));
        let answered = m.does(pair_result(session, false, Some("the request was declined"@)));
        same_after_end(answered, peer, at);
        ending_types_no_more(m, peer);
    }
}

#[verifier::spinoff_prover]
proof fn answers_type_for_one(
    m: EngineModel,
    peer: Seq<char>,
    code: Option<Seq<char>>,
    accept: bool,
    at: Moment,
    id: Seq<char>,
)
    requires
        typed_here(find(pairing_answered(m, peer, code, accept, at).sessions, id)),
        !typed_here(find(m.sessions, id)),
    ensures
        id == peer && code is Some && accept,
{
    reveal(pairing_answered);
    lemma_index_of(m.sessions, peer);
    if let Some(session) = find(m.sessions, peer) {
        if !accept {
            let answered = m.does(
                pair_result(session, false, Some("the request was declined"@)),
            );
            same_after_end(answered, peer, at);
            ending_types_no_more(m, peer);
            assert(typed_here(find(without(m.sessions, peer), id)));
        } else if id != peer && code is Some {
            law_put_leaves_others(m.sessions, typed_for(session), id);
        }
    }
}

#[verifier::spinoff_prover]
proof fn commands_type_for_one(m: EngineModel, command: Command, at: Moment, id: Seq<char>)
    requires
        typed_here(find(commanded(m, command, at).sessions, id)),
        !typed_here(find(m.sessions, id)),
    ensures
        types_a_code(Event::Command(command), id),
{
    match command {
        Command::UpdateSettings(settings) => {
            reveal(settings_updated);
            reveal(clipboard_reset);
            reveal(discovery_rebuilt);
        },
        Command::SetSharing(enabled) => {
            reveal(sharing_set);
            reveal(control_released);
            reveal(brought_home);
        },
        Command::Connect(peer) => {
            reveal(peer_dialled);
        },
        Command::Disconnect(peer) => {
            reveal(disconnected);
            let bye = m.sends(peer@, MessageModel::Bye { reason: "disconnected locally"@ });
            same_after_end(bye, peer@, at);
            ending_types_no_more(m, peer@);
            assert(typed_here(find(without(m.sessions, peer@), id)));
        },
        Command::Forget(peer) => {
            reveal(forgotten);
        },
        Command::AnswerPairing { peer, code, accept } => {
            answers_type_for_one(m, peer@, code.deep_view(), accept, at, id);
        },
        Command::ReleaseControl => {
            same_after_release(m, Seq::empty(), at);
        },
        Command::SendFiles { peer, paths } => {
            reveal(files_chosen);
        },
        Command::AcceptTransfer(transfer) => {
            reveal(transfer_accepted);
        },
        Command::CancelTransfer(transfer) => {
            reveal(transfer_cancelled);
        },
        _ => {},
    }
}

#[verifier::spinoff_prover]
proof fn commands_admit_no_more(m: EngineModel, command: Command, at: Moment)
    ensures
        admits_no_more(commanded(m, command, at), m),
{
    match command {
        Command::UpdateSettings(settings) => {
            reveal(settings_updated);
            reveal(clipboard_reset);
            reveal(discovery_rebuilt);
        },
        Command::SetSharing(enabled) => {
            reveal(sharing_set);
            reveal(control_released);
            reveal(brought_home);
        },
        Command::Connect(peer) => {
            reveal(peer_dialled);
        },
        Command::Disconnect(peer) => {
            reveal(disconnected);
            let bye = m.sends(peer@, MessageModel::Bye { reason: "disconnected locally"@ });
            same_after_end(bye, peer@, at);
            ending_types_no_more(m, peer@);
        },
        Command::Forget(peer) => {
            reveal(forgotten);
        },
        Command::AnswerPairing { peer, code, accept } => {
            answers_admit_no_more(m, peer@, code.deep_view(), accept, at);
        },
        Command::ReleaseControl => {
            same_after_release(m, Seq::empty(), at);
        },
        Command::SendFiles { peer, paths } => {
            reveal(files_chosen);
        },
        Command::AcceptTransfer(transfer) => {
            reveal(transfer_accepted);
        },
        Command::CancelTransfer(transfer) => {
            reveal(transfer_cancelled);
        },
        _ => {},
    }
}

#[verifier::spinoff_prover]
proof fn messages_type_no_more(
    m: EngineModel,
    peer: Seq<char>,
    message: MessageModel,
    extent: Option<(u64, u64)>,
    at: Moment,
)
    ensures
        types_no_more(message_received(m, peer, message, extent, at), m),
        !(message is PairResponse) && !(message is PairResult) ==> admits_no_more(
            message_received(m, peer, message, extent, at),
            m,
        ),
{
    match message {
        MessageModel::Displays { displays } => {
            reveal(displays_received);
            lemma_index_of(m.sessions, peer);
            if let Some(session) = find(m.sessions, peer) {
                knowing_types_no_more(m, SessionModel { displays, extent, ..session });
            }
        },
        MessageModel::PairRequired { .. } => {
            requests_type_no_more(m, peer, 0, at);
        },
        MessageModel::PairResponse { code, .. } => {
            judging_types_no_more(m, peer, code, false, None, at);
        },
        MessageModel::PairResult { accepted, reason } => {
            judging_types_no_more(m, peer, Seq::empty(), accepted, reason, at);
        },
        MessageModel::Input(event) => {
            reveal(input_received);
        },
        MessageModel::Control(control) => {
            same_after_control(m, peer, control, at);
        },
        MessageModel::Clipboard(payload) => {
            same_after_clipboard(
                m,
                crate::clipboard::ClipboardEventModel::Error(Seq::empty()),
                payload,
                at,
            );
        },
        MessageModel::FileOffer(offer) => {
            same_after_offer(m, peer, offer, at);
        },
        MessageModel::FileAccept(accept) => {
            reveal(offer_accepted);
        },
        MessageModel::FileProgress(report) => {
            reveal(progress_reported);
        },
        MessageModel::FileFinished(finished) => {
            reveal(files_finished);
        },
        MessageModel::FileCancel { transfer, reason } => {
            reveal(file_cancelled);
        },
        MessageModel::Bye { .. } => {
            same_after_end(m, peer, at);
            ending_types_no_more(m, peer);
        },
        _ => {},
    }
}

/// A code counts as typed only by the user typing one for that machine: no message of a
/// peer, nothing that the platform reports and no other command makes it so.
#[verifier::spinoff_prover]
pub proof fn law_only_the_user_types_a_code(
    m: EngineModel,
    event: Event,
    draw: u64,
    at: Moment,
    id: Seq<char>,
)
    requires
        typed_here(find(handled(m, event, draw, at).sessions, id)),
        !typed_here(find(m.sessions, id)),
    ensures
        types_a_code(event, id),
{
    match event {
        Event::Command(command) => {
            commands_type_for_one(m, command, at, id);
        },
        Event::SessionEstablished(established) => {
            connecting_types_no_more(m, established.deep_view(), draw, at);
        },
        Event::ConnectionFailed { peer, message } => {
            reveal(connection_failed);
        },
        Event::Incoming { peer, item, extent } => {
            requests_type_no_more(m, peer@, draw, at);
            let heard = heard_of(m, peer@, at);
            match item {
                Incoming::Message(message) => {
                    messages_type_no_more(heard, peer@, message.deep_view(), extent, at);
                    assert(typed_here(find(heard.sessions, id)));
                },
                Incoming::Chunk(chunk) => {
                    reveal(chunk_received);
                    assert(typed_here(find(heard.sessions, id)));
                },
            }
        },
        Event::SessionEnded { peer } => {
            same_after_end(m, peer@, at);
            ending_types_no_more(m, peer@);
        },
        Event::PairingHandoff { peer } => {
            requests_type_no_more(m, peer@, draw, at);
        },
        Event::Captured { event: observed, motion } => {
            same_after_capture(m, observed.deep_view(), motion, at);
        },
        Event::Clipboard(report) => {
            same_after_clipboard(m, report.deep_view(), crate::protocol::ClipboardModel::Clear, at);
        },
        Event::Discovered(sighting) => {
            reveal(machine_discovered);
            reveal(peer_dialled);
        },
        Event::TransferProgress { id: transfer, bytes } => {
            reveal(bytes_sent);
        },
        Event::TransferDone { id: transfer, error } => {
            reveal(stream_ended);
        },
        Event::DiscoveryStarted { error } => {
            reveal(discovery_answered);
        },
        Event::Engaged { .. } => {
            reveal(engaged);
        },
        Event::FilesRead { .. } => {
            reveal(files_collected);
        },
        Event::OfferSent { .. } => {
            reveal(offer_answered);
        },
        Event::FoldersCreated { .. } => {
            reveal(folders_created);
        },
        Event::ChunkWritten(outcome) => {
            reveal(chunk_written);
        },
        _ => {},
    }
}

/// A session becomes trusted only by an event that earns it, or by a connection that
/// proves the key which is already pinned for the machine.
#[verifier::spinoff_prover]
pub proof fn law_only_pairing_makes_a_session_trusted(
    m: EngineModel,
    event: Event,
    draw: u64,
    at: Moment,
    id: Seq<char>,
)
    requires
        admitted(find(handled(m, event, draw, at).sessions, id)),
        !admitted(find(m.sessions, id)),
    ensures
        earns_trust(m, event, id) || (event matches Event::SessionEstablished(established)
            && established.deep_view().info.device_id == id && trusted_key(
            m.peers,
            id,
            base64_text(established.deep_view().remote_static),
        )),
{
    match event {
        Event::Command(command) => {
            commands_admit_no_more(m, command, at);
        },
        Event::SessionEstablished(established) => {
            connecting_types_no_more(m, established.deep_view(), draw, at);
        },
        Event::ConnectionFailed { peer, message } => {
            reveal(connection_failed);
        },
        Event::Incoming { peer, item, extent } => {
            requests_type_no_more(m, peer@, draw, at);
            hearing_keeps_the_session(m, peer@, at);
            let heard = heard_of(m, peer@, at);
            assert(!admitted(find(heard.sessions, id)));
            match item {
                Incoming::Message(message) => match message {
                    Message::PairResponse { code, .. } => {
                        judging_types_no_more(heard, peer@, code@, false, None, at);
                    },
                    Message::PairResult { accepted, reason } => {
                        judging_types_no_more(
                            heard,
                            peer@,
                            Seq::empty(),
                            accepted,
                            reason.deep_view(),
                            at,
                        );
                    },
                    _ => {
                        messages_type_no_more(heard, peer@, message.deep_view(), extent, at);
                    },
                },
                Incoming::Chunk(chunk) => {
                    reveal(chunk_received);
                },
            }
        },
        Event::SessionEnded { peer } => {
            same_after_end(m, peer@, at);
            ending_types_no_more(m, peer@);
        },
        Event::PairingHandoff { peer } => {
            requests_type_no_more(m, peer@, draw, at);
        },
        Event::Captured { event: observed, motion } => {
            same_after_capture(m, observed.deep_view(), motion, at);
        },
        Event::Clipboard(report) => {
            same_after_clipboard(m, report.deep_view(), crate::protocol::ClipboardModel::Clear, at);
        },
        Event::Discovered(sighting) => {
            reveal(machine_discovered);
            reveal(peer_dialled);
        },
        Event::TransferProgress { id: transfer, bytes } => {
            reveal(bytes_sent);
        },
        Event::TransferDone { id: transfer, error } => {
            reveal(stream_ended);
        },
        Event::DiscoveryStarted { error } => {
            reveal(discovery_answered);
        },
        Event::Engaged { .. } => {
            reveal(engaged);
        },
        Event::FilesRead { .. } => {
            reveal(files_collected);
        },
        Event::OfferSent { .. } => {
            reveal(offer_answered);
        },
        Event::FoldersCreated { .. } => {
            reveal(folders_created);
        },
        Event::ChunkWritten(outcome) => {
            reveal(chunk_written);
        },
        _ => {},
    }
}

proof fn ending_trusts_no_more(m: EngineModel, peers: Seq<Seq<char>>, n: nat, at: Moment)
    ensures
        sessions_ended(m, peers, n, at).peers == m.peers,
        types_no_more(sessions_ended(m, peers, n, at), m),
        admits_no_more(sessions_ended(m, peers, n, at), m),
    decreases n,
{
    if n > 0 {
        ending_trusts_no_more(m, peers, (n - 1) as nat, at);
        let before = sessions_ended(m, peers, (n - 1) as nat, at);
        same_after_end(before, peers[n - 1], at);
        ending_types_no_more(before, peers[n - 1]);
    }
}

proof fn pinging_trusts_no_more(m: EngineModel, draws: Seq<u64>, n: nat)
    ensures
        pinged(m, draws, n).peers == m.peers,
        pinged(m, draws, n).sessions == m.sessions,
    decreases n,
{
    if n > 0 {
        pinging_trusts_no_more(m, draws, (n - 1) as nat);
    }
}

/// Time alone makes nobody trusted: tidying up and looking at the cursor leave the trust
/// store as it is, type no code and make no session trusted.
#[verifier::spinoff_prover]
pub proof fn law_ticks_leave_the_trust_store(
    m: EngineModel,
    position: Option<crate::geom::Point>,
    pushed: crate::layout::PushedEdges,
    hint: Option<Seq<char>>,
    draws: Seq<u64>,
    at: Moment,
)
    ensures
        cursor_ticked(m, position, pushed, at).peers == m.peers,
        housekept(m, hint, draws, at).peers == m.peers,
        types_no_more(cursor_ticked(m, position, pushed, at), m),
        types_no_more(housekept(m, hint, draws, at), m),
        admits_no_more(cursor_ticked(m, position, pushed, at), m),
        admits_no_more(housekept(m, hint, draws, at), m),
{
    reveal(cursor_ticked);
    reveal(cursor_sampled);
    reveal(engage_tried);
    reveal(link_pushed);
    reveal(handed_back);
    reveal(held_released);
    reveal(discovery_rebuilt);
    reveal(housekept);
    reveal(tidied);
    let ready = if m.discovery_dirty {
        discovery_rebuilt(m)
    } else {
        m
    };
    let fresh = EngineModel {
        permission_hint: hint,
        table: crate::discovery::pruned(
            ready.table,
            at.unix,
            crate::engine::rules::FORGET_AFTER_SECS,
        ),
        ..ready
    };
    let stale = silent_peers(m.sessions, m.sessions.len(), at);
    ending_trusts_no_more(fresh, stale, stale.len(), at);
    let tidy = tidied(m, hint, at);
    pinging_trusts_no_more(tidy, draws, tidy.sessions.len());
}

/// One step of the engine: an event, a look at the cursor or a round of tidying up.
pub enum Step {
    Told { event: Event, draw: u64 },
    Looked { position: Option<crate::geom::Point>, pushed: crate::layout::PushedEdges },
    Tidied { hint: Option<Seq<char>>, draws: Seq<u64> },
}

/// The state after a step.
#[verifier::opaque]
pub open spec fn stepped(m: EngineModel, step: Step, at: Moment) -> EngineModel {
    match step {
        Step::Told { event, draw } => handled(m, event, draw, at),
        Step::Looked { position, pushed } => cursor_ticked(m, position, pushed, at),
        Step::Tidied { hint, draws } => housekept(m, hint, draws, at),
    }
}

/// The state after the first `n` steps of a run.
pub open spec fn state_after(m: EngineModel, run: Seq<(Step, Moment)>, n: nat) -> EngineModel
    decreases n,
{
    if n == 0 {
        m
    } else {
        stepped(state_after(m, run, (n - 1) as nat), run[n - 1].0, run[n - 1].1)
    }
}

/// Whether a machine sends the code that is shown to its session.
pub open spec fn sends_the_shown_code(m: EngineModel, event: Event, id: Seq<char>) -> bool {
    match event {
        Event::Incoming {
            peer,
            item: Incoming::Message(Message::PairResponse { code, .. }),
            ..
        } => {
            &&& peer@ == id
            &&& find(m.sessions, id) matches Some(session)
            &&& session.pairing matches Some(pairing)
            &&& pairing.code_to_share matches Some(expected)
            &&& digits_of(code@) == digits_of(expected)
        },
        _ => false,
    }
}

/// Whether a step is one by which a code passes between the users: one that is typed here
/// for the machine, or one that the machine sends and that is the one shown here.
pub open spec fn passes_a_code(m: EngineModel, step: Step, id: Seq<char>) -> bool {
    step matches Step::Told { event, .. } && (types_a_code(event, id) || sends_the_shown_code(
        m,
        event,
        id,
    ))
}

/// Whether some key is trusted for a machine.
pub open spec fn is_known(m: EngineModel, id: Seq<char>) -> bool {
    exists|key: Seq<char>| #[trigger] trusted_key(m.peers, id, key)
}

/// A step by which no code passes types none and makes no key and no session trusted,
/// but for that of a machine which is known already.
#[verifier::spinoff_prover]
proof fn steps_trust_no_more(m: EngineModel, step: Step, at: Moment, id: Seq<char>, key: Seq<char>)
    requires
        !typed_here(find(m.sessions, id)),
        !passes_a_code(m, step, id),
    ensures
        !typed_here(find(stepped(m, step, at).sessions, id)),
        trusted_key(stepped(m, step, at).peers, id, key) ==> trusted_key(m.peers, id, key),
        admitted(find(stepped(m, step, at).sessions, id)) ==> admitted(find(m.sessions, id))
            || is_known(m, id),
{
    reveal(stepped);
    match step {
        Step::Told { event, draw } => {
            let after = stepped(m, step, at);
            if typed_here(find(after.sessions, id)) {
                law_only_the_user_types_a_code(m, event, draw, at, id);
            }
            if trusted_key(after.peers, id, key) && !trusted_key(m.peers, id, key) {
                law_only_pairing_makes_a_key_trusted(m, event, draw, at, id, key);
            }
            if admitted(find(after.sessions, id)) && !admitted(find(m.sessions, id)) {
                law_only_pairing_makes_a_session_trusted(m, event, draw, at, id);
            }
        },
        Step::Looked { position, pushed } => {
            law_ticks_leave_the_trust_store(m, position, pushed, None, Seq::empty(), at);
        },
        Step::Tidied { hint, draws } => {
            let pushed = crate::layout::PushedEdges {
                left: false,
                right: false,
                top: false,
                bottom: false,
            };
            law_ticks_leave_the_trust_store(m, None, pushed, hint, draws, at);
        },
    }
}

/// However long a run of the engine is and whatever its peers send: where no code is typed
/// here for a machine, and the machine does not send the one that is shown here, no key
/// becomes trusted for it, and its session is trusted only where it was or where the
/// machine was known from the start.
pub proof fn law_nobody_is_trusted_without_a_code(
    m: EngineModel,
    run: Seq<(Step, Moment)>,
    n: nat,
    id: Seq<char>,
)
    requires
        n <= run.len(),
        !typed_here(find(m.sessions, id)),
        forall|i: int|
            0 <= i < n ==> !passes_a_code(
                state_after(m, run, i as nat),
                (#[trigger] run[i]).0,
                id,
            ),
    ensures
        !typed_here(find(state_after(m, run, n).sessions, id)),
        forall|key: Seq<char>| #[trigger]
            trusted_key(state_after(m, run, n).peers, id, key) ==> trusted_key(m.peers, id, key),
        admitted(find(state_after(m, run, n).sessions, id)) ==> admitted(find(m.sessions, id))
            || is_known(m, id),
    decreases n,
{
    if n > 0 {
        law_nobody_is_trusted_without_a_code(m, run, (n - 1) as nat, id);
        let before = state_after(m, run, (n - 1) as nat);
        let (step, at) = run[n - 1];
        assert(!passes_a_code(before, step, id));
        steps_trust_no_more(before, step, at, id, Seq::empty());
        assert forall|key: Seq<char>| #[trigger]
            trusted_key(state_after(m, run, n).peers, id, key) implies trusted_key(
            m.peers,
            id,
            key,
        ) by {
            steps_trust_no_more(before, step, at, id, key);
        }
        if is_known(before, id) {
            let key = choose|key: Seq<char>| #[trigger] trusted_key(before.peers, id, key);
            assert(trusted_key(m.peers, id, key));
        }
    }
}

} // verus!
