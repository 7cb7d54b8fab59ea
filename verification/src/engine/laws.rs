//! What the engine promises as a whole.

use vstd::prelude::*;

use crate::config::{trusted_key, PeerRecordModel};
use crate::discovery::{DiscoveredModel, DiscoveryModel};
use crate::encoding::base64_text;
use crate::engine::consistency::nothing_held;
use crate::engine::control::{
    captured, control_received, cursor_sampled, entered, input_received, let_go, release_gesture,
    returned_home,
};
use crate::engine::dispatch::{disconnected, forgotten, sharing_set};
use crate::engine::pairing::{
    code_of, code_refused, default_side, digits_of, key_changed, key_checked, key_refused,
    link_ensured, pair_responded, pair_result, paired, pairing_answered, pairing_requested,
    peer_remembered, preferred, session_accepted, session_established, EstablishedModel,
};
use crate::engine::rules::{
    brought_home, button_lifts, control_released, discovery_rebuilt, handover_ended,
    held_released, key_lifts, session_closed, session_ended, FORGET_AFTER_SECS,
    HANDOVER_SETTLE_MS, MAX_ATTEMPTS,
};
use crate::engine::services::{
    clipboard_changed, clipboard_received, dials_by_itself, machine_discovered, sessions_ended,
    shut_down, silent, silent_peers, tidied,
};
use crate::engine::state::{
    ActionModel, ControlModel, EngineModel, Moment, Motion, PairingModel, SessionModel,
    TargetModel, TransferEntryModel,
};
use crate::engine::transfers::{chunk_received, file_offered, folders_of};
use crate::geom::{Point, Side};
use crate::input::{CapturedModel, InputEvent};
use crate::keyed::{
    find, holds, index_of, law_find_after_put, law_without_leaves_others, lemma_index_of,
    lemma_without, put, without,
};
use crate::layout::PushedEdges;
use crate::paths::PathPartModel;
use crate::protocol::{InputControl, MessageModel};
use crate::text::{law_order_is_total, precedes};
use crate::transfer::{climbs, law_landing_stays_below_the_root, safe_component};
use crate::view::{ConnectionModel, TransferState};

verus! {

/// A known machine that presents another key is refused rather than paired anew: no
/// session comes of it, the trust store stays as it was, and the connection is closed
/// after a word of goodbye.
#[verifier::spinoff_prover]
pub proof fn law_changed_key_is_refused(
    m: EngineModel,
    e: EstablishedModel,
    draw: u64,
    at: Moment,
)
    requires
        key_changed(m, e),
    ensures
        session_established(m, e, draw, at).sessions == m.sessions,
        session_established(m, e, draw, at).peers == m.peers,
        session_established(m, e, draw, at).control == m.control,
        session_established(m, e, draw, at).out.contains(
            ActionModel::Send {
                connection: e.connection,
                message: MessageModel::Bye { reason: "identity changed"@ },
            },
        ),
        session_established(m, e, draw, at).out.contains(
            ActionModel::Close { connection: e.connection },
        ),
{
    reveal(session_established);
    reveal(key_checked);
    reveal(key_refused);
    let n = m.out.len() as int;
    let out = session_established(m, e, draw, at).out;
    assert(out[n + 1] == (ActionModel::Send {
        connection: e.connection,
        message: MessageModel::Bye { reason: "identity changed"@ },
    }));
    assert(out[n + 2] == (ActionModel::Close { connection: e.connection }));
}

/// A machine whose key is the pinned one is connected at once; one that is not known has
/// to pair first.
#[verifier::spinoff_prover]
pub proof fn law_trust_decides_the_first_state(
    m: EngineModel,
    e: EstablishedModel,
    draw: u64,
    at: Moment,
)
    requires
        !key_changed(m, e),
        !holds(m.sessions, e.info.device_id),
    ensures
        find(
            session_established(m, e, draw, at).sessions,
            e.info.device_id,
        ) matches Some(session) && session.connection == e.connection && session.trusted == holds(
            m.peers,
            e.info.device_id,
        ) && session.state == if holds(m.peers, e.info.device_id) {
            ConnectionModel::Connected
        } else {
            ConnectionModel::Pairing
        },
{
    reveal(session_established);
    reveal(key_checked);
    reveal(crate::engine::pairing::session_weighed);
    reveal(session_accepted);
    reveal(pairing_requested);
    reveal(crate::engine::pairing::seen_again);
    let peer = e.info.device_id;
    let session = crate::engine::pairing::new_session(e, holds(m.peers, peer), at);
    law_find_after_put(m.sessions, session);
    let asked = SessionModel {
        state: ConnectionModel::Pairing,
        pairing: Some(
            PairingModel {
                code_to_share: Some(code_of(draw)),
                awaiting_code: false,
                attempts: 0,
                typed: false,
            },
        ),
        ..session
    };
    law_find_after_put(put(m.sessions, session), asked);
}

/// Of two machines exactly one shows a code when they first meet, exactly one dials the
/// other by itself, and both keep the same one of two connections between them.
pub proof fn law_two_machines_agree_on_their_roles(a: Seq<char>, b: Seq<char>, initiator: bool)
    requires
        a != b,
    ensures
        precedes(a, b) != precedes(b, a),
        preferred(a, b, initiator) == preferred(b, a, !initiator),
        preferred(a, b, initiator) != preferred(a, b, !initiator),
{
    law_order_is_total(a, b);
}

/// Two machines that pair put each other on facing edges.
pub proof fn law_default_edges_face_each_other(a: Seq<char>, b: Seq<char>)
    requires
        a != b,
    ensures
        default_side(a, b) == default_side(b, a).across(),
{
    law_order_is_total(a, b);
}

/// The right code makes the machine trusted with the key that it proved, and with no
/// other; its session is connected.
#[verifier::spinoff_prover]
pub proof fn law_right_code_pins_the_proven_key(
    m: EngineModel,
    peer: Seq<char>,
    code: Seq<char>,
    expected: Seq<char>,
    at: Moment,
)
    requires
        find(m.sessions, peer) matches Some(session) && session.pairing matches Some(pairing)
            && pairing.code_to_share == Some(expected),
        digits_of(code) == digits_of(expected),
    ensures
        forall|key: Seq<char>|
            trusted_key(pair_responded(m, peer, code, at).peers, peer, key) <==> key == base64_text(
                find(m.sessions, peer)->Some_0.remote_static,
            ),
        find(pair_responded(m, peer, code, at).sessions, peer) == Some(
            paired(find(m.sessions, peer)->Some_0),
        ),
        holds(pair_responded(m, peer, code, at).settings.links, peer),
{
    reveal(pair_responded);
    reveal(peer_remembered);
    reveal(link_ensured);
    lemma_index_of(m.sessions, peer);
    let session = find(m.sessions, peer)->Some_0;
    let record = PeerRecordModel {
        device_id: session.info.device_id,
        name: session.info.name,
        public_key: base64_text(session.remote_static),
        fingerprint: session.info.fingerprint,
        os: session.info.os,
        last_seen: Some(at.unix),
        last_address: None,
    };
    law_find_after_put(m.peers, record);
    law_find_after_put(m.sessions, paired(session));
    let link = crate::config::plain_link(
        peer,
        session.info.name,
        default_side(m.identity.device_id, peer),
    );
    law_find_after_put(m.settings.links, link);
}

/// A wrong code makes nobody trusted and costs an attempt; the third one closes the
/// connection.
#[verifier::spinoff_prover]
pub proof fn law_third_wrong_code_closes(
    m: EngineModel,
    peer: Seq<char>,
    code: Seq<char>,
    expected: Seq<char>,
    at: Moment,
)
    requires
        find(m.sessions, peer) matches Some(session) && session.pairing matches Some(pairing)
            && pairing.code_to_share == Some(expected) && pairing.attempts < MAX_ATTEMPTS,
        digits_of(code) != digits_of(expected),
    ensures
        pair_responded(m, peer, code, at).peers == m.peers,
        find(m.sessions, peer)->Some_0.pairing->Some_0.attempts < 2 ==> (find(
            pair_responded(m, peer, code, at).sessions,
            peer,
        ) matches Some(session) && session.pairing matches Some(pairing) && pairing.code_to_share
            == Some(expected) && pairing.attempts == find(
            m.sessions,
            peer,
        )->Some_0.pairing->Some_0.attempts + 1),
        find(m.sessions, peer)->Some_0.pairing->Some_0.attempts == 2 ==> !holds(
            pair_responded(m, peer, code, at).sessions,
            peer,
        ),
{
    reveal(pair_responded);
    reveal(code_refused);
    lemma_index_of(m.sessions, peer);
    let session = find(m.sessions, peer)->Some_0;
    let pairing = session.pairing->Some_0;
    let attempts = (pairing.attempts + 1) as u8;
    let next = SessionModel { pairing: Some(PairingModel { attempts, ..pairing }), ..session };
    law_find_after_put(m.sessions, next);
    let answered = m.with_session(next).does(
        pair_result(session, false, Some("the code did not match"@)),
    ).warns("Too many wrong pairing codes; the connection was closed."@);
    lemma_closed(answered, peer, at);
}

/// Closing a session removes it, says so to the connection, and leaves the trust store.
#[verifier::spinoff_prover]
proof fn lemma_closed(m: EngineModel, peer: Seq<char>, at: Moment)
    ensures
        session_closed(m, peer, at).sessions == without(m.sessions, peer),
        !holds(session_closed(m, peer, at).sessions, peer),
        session_closed(m, peer, at).peers == m.peers,
        !session_closed(m, peer, at).controls(peer),
        !session_closed(m, peer, at).obeys(peer),
        m.obeys(peer) ==> nothing_held(session_closed(m, peer, at)),
{
    reveal(session_closed);
    reveal(handover_ended);
    reveal(control_released);
    reveal(brought_home);
    reveal(held_released);
    lemma_without(m.sessions, peer);
}

/// Three wrong codes in a row, whatever they are, end a session that had none before.
pub proof fn law_three_wrong_codes_end_the_session(
    m: EngineModel,
    peer: Seq<char>,
    expected: Seq<char>,
    a: Seq<char>,
    b: Seq<char>,
    c: Seq<char>,
    at: Moment,
)
    requires
        find(m.sessions, peer) matches Some(session) && session.pairing matches Some(pairing)
            && pairing.code_to_share == Some(expected) && pairing.attempts == 0,
        digits_of(a) != digits_of(expected),
        digits_of(b) != digits_of(expected),
        digits_of(c) != digits_of(expected),
    ensures
        !holds(
            pair_responded(
                pair_responded(pair_responded(m, peer, a, at), peer, b, at),
                peer,
                c,
                at,
            ).sessions,
            peer,
        ),
{
    law_third_wrong_code_closes(m, peer, a, expected, at);
    let one = pair_responded(m, peer, a, at);
    law_third_wrong_code_closes(one, peer, b, expected, at);
    let two = pair_responded(one, peer, b, at);
    law_third_wrong_code_closes(two, peer, c, expected, at);
}

/// However a session with a peer ends, by the peer, by the user or by a refused pairing,
/// no handover with that peer goes on, and nothing stays pressed that it pressed.
#[verifier::spinoff_prover]
pub proof fn law_a_disconnect_leaves_nothing_held(m: EngineModel, peer: Seq<char>, at: Moment)
    requires
        holds(m.sessions, peer),
    ensures
        !session_ended(m, peer, at).controls(peer),
        !session_ended(m, peer, at).obeys(peer),
        m.obeys(peer) ==> nothing_held(session_ended(m, peer, at)),
        !disconnected(m, peer, at).controls(peer),
        !disconnected(m, peer, at).obeys(peer),
        m.obeys(peer) ==> nothing_held(disconnected(m, peer, at)),
        !holds(session_ended(m, peer, at).sessions, peer),
        !holds(disconnected(m, peer, at).sessions, peer),
        forall|code: Option<Seq<char>>|
            !(#[trigger] pairing_answered(m, peer, code, false, at)).obeys(peer) && !holds(
                pairing_answered(m, peer, code, false, at).sessions,
                peer,
            ),
{
    lemma_ended(m, peer, at);
    reveal(disconnected);
    lemma_closed(
        m.sends(peer, MessageModel::Bye { reason: "disconnected locally"@ }),
        peer,
        at,
    );
    reveal(pairing_answered);
    let session = find(m.sessions, peer)->Some_0;
    lemma_closed(
        m.does(pair_result(session, false, Some("the request was declined"@))),
        peer,
        at,
    );
}

#[verifier::spinoff_prover]
proof fn lemma_ended(m: EngineModel, peer: Seq<char>, at: Moment)
    requires
        holds(m.sessions, peer),
    ensures
        !session_ended(m, peer, at).controls(peer),
        !session_ended(m, peer, at).obeys(peer),
        m.obeys(peer) ==> nothing_held(session_ended(m, peer, at)),
        !holds(session_ended(m, peer, at).sessions, peer),
{
    reveal(session_ended);
    reveal(handover_ended);
    reveal(control_released);
    reveal(brought_home);
    reveal(held_released);
    lemma_without(m.sessions, peer);
}

/// Releasing lifts every key and every button that is held, each by an event of its own.
#[verifier::spinoff_prover]
pub proof fn law_every_held_key_is_lifted(
    m: EngineModel,
    key: crate::input::KeyCode,
    button: crate::input::MouseButton,
)
    requires
        m.input_ready,
    ensures
        m.held_keys.contains(key) ==> held_released(m).out.contains(
            ActionModel::Inject(
                InputEvent::Key { code: key, down: false, modifiers: crate::input::Modifiers(0) },
            ),
        ),
        m.held_buttons.contains(button) ==> held_released(m).out.contains(
            ActionModel::Inject(InputEvent::Button { button, down: false }),
        ),
        nothing_held(held_released(m)),
{
    reveal(held_released);
    let out = held_released(m).out;
    if m.held_keys.contains(key) {
        let i = choose|i: int| 0 <= i < m.held_keys.len() && m.held_keys[i] == key;
        assert(key_lifts(m.held_keys)[i] == out[m.out.len() + i]);
    }
    if m.held_buttons.contains(button) {
        let i = choose|i: int| 0 <= i < m.held_buttons.len() && m.held_buttons[i] == button;
        assert(button_lifts(m.held_buttons)[i] == out[m.out.len() + m.held_keys.len() + i]);
    }
}

/// The release that a host sends, by its panic gesture or otherwise, leaves the peer with
/// nothing pressed and back in local mode.
#[verifier::spinoff_prover]
pub proof fn law_a_release_frees_the_peer(
    m: EngineModel,
    peer: Seq<char>,
    x: crate::geom::Double,
    y: crate::geom::Double,
    at: Moment,
)
    ensures
        control_received(m, peer, InputControl::Release { x, y }, at).control is Local,
        nothing_held(control_received(m, peer, InputControl::Release { x, y }, at)),
        nothing_held(control_received(m, peer, InputControl::ResetKeys, at)),
{
    reveal(control_received);
    reveal(let_go);
    reveal(held_released);
}

/// The release gesture ends the handover: this machine is back in local mode, its input
/// is no longer swallowed, and the peer is told.
#[verifier::spinoff_prover]
pub proof fn law_the_gesture_brings_control_home(
    m: EngineModel,
    event: CapturedModel,
    motion: Motion,
    at: Moment,
)
    requires
        m.control is Controlling,
        release_gesture(m, event, at),
    ensures
        captured(m, event, motion, at).control is Local,
        !captured(m, event, motion, at).capture_active,
        m.input_ready ==> captured(m, event, motion, at).out.contains(ActionModel::ReleaseCapture),
        find(m.sessions, m.control->Controlling_peer) matches Some(session) ==> captured(
            m,
            event,
            motion,
            at,
        ).out.contains(
            ActionModel::SendEither {
                connection: session.connection,
                message: MessageModel::Control(
                    InputControl::Release {
                        x: m.control->Controlling_peer_cursor.x,
                        y: m.control->Controlling_peer_cursor.y,
                    },
                ),
            },
        ),
{
    reveal(captured);
    reveal(control_released);
    reveal(brought_home);
    let out = captured(m, event, motion, at).out;
    let n = m.out.len() as int;
    if m.input_ready {
        assert(out[n] == ActionModel::ReleaseCapture);
    }
    if let Some(session) = find(m.sessions, m.control->Controlling_peer) {
        let k = if m.input_ready {
            n + 2
        } else {
            n
        };
        assert(out[k] == (ActionModel::SendEither {
            connection: session.connection,
            message: MessageModel::Control(
                InputControl::Release {
                    x: m.control->Controlling_peer_cursor.x,
                    y: m.control->Controlling_peer_cursor.y,
                },
            ),
        }));
    }
}

/// Releasing control never changes the mode of a machine that drives nobody.
pub proof fn law_releasing_nothing_changes_nothing(m: EngineModel, at: Moment)
    requires
        !(m.control is Controlling),
    ensures
        control_released(m, at) == m,
{
    reveal(control_released);
}

/// When the peer's cursor comes back, this machine owns its input again and answers with
/// a release at the same place. A return from a machine that is not driven is ignored.
#[verifier::spinoff_prover]
pub proof fn law_a_return_ends_the_handover(
    m: EngineModel,
    peer: Seq<char>,
    point: Point,
    at: Moment,
)
    ensures
        m.controls(peer) ==> returned_home(m, peer, point, at).control is Local && !returned_home(
            m,
            peer,
            point,
            at,
        ).capture_active,
        !m.controls(peer) ==> returned_home(m, peer, point, at) == m,
{
    reveal(returned_home);
    reveal(brought_home);
}

/// Whatever begins or ends a handover, its edge stays quiet until it has settled: until
/// then no cursor sample starts one or hands one back.
#[verifier::spinoff_prover]
pub proof fn law_a_handover_settles_first(
    m: EngineModel,
    position: Point,
    pushed: PushedEdges,
    at: Moment,
)
    requires
        m.settling(at),
    ensures
        cursor_sampled(m, position, pushed, at).control == m.control,
        cursor_sampled(m, position, pushed, at).out == m.out,
{
    reveal(cursor_sampled);
}

/// Entering and coming home both start the settling time.
#[verifier::spinoff_prover]
pub proof fn law_handovers_start_the_settling_time(
    m: EngineModel,
    peer: Seq<char>,
    point: Point,
    side: Side,
    keyboard: bool,
    at: Moment,
    later: Moment,
)
    requires
        at.valid(),
        at.ms <= later.ms < at.ms + HANDOVER_SETTLE_MS,
    ensures
        entered(m, peer, point, side, keyboard, at).settling(later),
        m.controls(peer) ==> returned_home(m, peer, point, at).settling(later),
        m.control is Controlling ==> control_released(m, at).settling(later),
{
    reveal(entered);
    reveal(returned_home);
    reveal(control_released);
    reveal(brought_home);
}

/// While sharing is switched off, looking at the cursor never starts a handover.
#[verifier::spinoff_prover]
pub proof fn law_no_handover_while_sharing_is_off(
    m: EngineModel,
    position: Point,
    pushed: PushedEdges,
    at: Moment,
)
    requires
        !m.settings.input.enabled,
        m.control is Local,
    ensures
        cursor_sampled(m, position, pushed, at).control is Local,
        cursor_sampled(m, position, pushed, at).out == m.out,
{
    reveal(cursor_sampled);
}

/// Switching sharing off takes control back.
#[verifier::spinoff_prover]
pub proof fn law_switching_off_takes_control_back(m: EngineModel, at: Moment)
    ensures
        !(sharing_set(m, false, at).control is Controlling),
        !sharing_set(m, false, at).settings.input.enabled,
{
    reveal(sharing_set);
    reveal(control_released);
    reveal(brought_home);
}

/// Where the driving peer does not relay its keyboard, its key events change nothing, and
/// while no peer drives this machine no remote input does.
#[verifier::spinoff_prover]
pub proof fn law_unwanted_input_changes_nothing(m: EngineModel, event: InputEvent)
    ensures
        m.control matches ControlModel::Controlled { keyboard, .. } && !keyboard && event is Key
            ==> input_received(m, event) == m,
        !(m.control is Controlled) ==> input_received(m, event) == m,
{
    reveal(input_received);
}

/// Input that counts is tracked: a pressed key is held, a lifted one is not.
#[verifier::spinoff_prover]
pub proof fn law_pressed_keys_are_tracked(
    m: EngineModel,
    code: crate::input::KeyCode,
    modifiers: crate::input::Modifiers,
)
    requires
        m.control matches ControlModel::Controlled { keyboard, .. } && keyboard,
    ensures
        input_received(m, InputEvent::Key { code, down: true, modifiers }).held_keys.contains(code),
        !input_received(m, InputEvent::Key { code, down: false, modifiers }).held_keys.contains(
            code,
        ),
{
    reveal(input_received);
    let after = crate::engine::control::pressed(m.held_keys, code);
    if !m.held_keys.contains(code) {
        assert(after[after.len() - 1] == code);
    }
    lemma_lifted(m.held_keys, code);
}

proof fn lemma_lifted(keys: Seq<crate::input::KeyCode>, code: crate::input::KeyCode)
    ensures
        !crate::engine::control::lifted(keys, code).contains(code),
    decreases keys.len(),
{
    if keys.len() > 0 {
        let head = keys.drop_last();
        lemma_lifted(head, code);
        let l = crate::engine::control::lifted(keys, code);
        let lh = crate::engine::control::lifted(head, code);
        if l.contains(code) {
            let i = choose|i: int| 0 <= i < l.len() && l[i] == code;
            if i < lh.len() {
                assert(lh[i] == code);
                assert(lh.contains(code));
            }
        }
    }
}

/// Files from a machine that is not trusted, or where nothing is accepted by itself, wait
/// for the user: nothing is created and the peer is told nothing.
#[verifier::spinoff_prover]
pub proof fn law_offers_wait_for_the_user(
    m: EngineModel,
    peer: Seq<char>,
    offer: crate::protocol::FileOfferModel,
    at: Moment,
)
    requires
        m.settings.transfer.enabled,
        !(crate::engine::transfers::trusts(m, peer) && m.settings.transfer.auto_accept_trusted),
    ensures
        find(file_offered(m, peer, offer, at).transfers, offer.transfer) matches Some(entry)
            && entry.progress_state() == TransferState::Pending,
        file_offered(m, peer, offer, at).out.len() == m.out.len() + 2,
        file_offered(m, peer, offer, at).out[m.out.len() as int] is Notify,
        file_offered(m, peer, offer, at).out[m.out.len() as int + 1] is Publish,
{
    reveal(file_offered);
    let entry = TransferEntryModel::Incoming {
        transfer: crate::transfer::new_incoming(
            offer.transfer,
            peer,
            offer.sender_name,
            offer.files,
            m.settings.transfer.download_dir,
            at.unix,
        ),
        state: TransferState::Pending,
        error: None,
    };
    law_find_after_put(m.transfers, entry);
}

/// A path is strictly below a root: it starts with it, every further component is a safe
/// name, and nothing in it climbs.
pub open spec fn strictly_below(path: Seq<PathPartModel>, root: Seq<PathPartModel>) -> bool {
    &&& path.len() > root.len()
    &&& path.take(root.len() as int) == root
    &&& !climbs(path)
    &&& forall|i: int|
        root.len() <= i < path.len() ==> (#[trigger] path[i] matches PathPartModel::Normal(name)
            && safe_component(name))
}

/// Where a chunk goes to a file that has no place yet, that place is strictly below the
/// download directory; a chunk with an unsafe path is written nowhere and fails its
/// transfer.
#[verifier::spinoff_prover]
pub proof fn law_chunks_stay_below_the_download_directory(
    m: EngineModel,
    chunk: crate::protocol::FileChunkModel,
)
    requires
        crate::engine::transfers::transfers_sound(m.transfers),
    ensures
        chunk_received(m, chunk).out != m.out ==> chunk_received(m, chunk).out.len() == m.out.len()
            + 1 && (chunk_received(m, chunk).out.last() matches ActionModel::WriteChunk {
            target,
            ..
        } && match target {
            TargetModel::Known(path) => find(
                m.transfers,
                chunk.transfer,
            ) matches Some(TransferEntryModel::Incoming { transfer, .. })
                && transfer.resolved.contains(Some(path)),
            TargetModel::Fresh { path, .. } => find(
                m.transfers,
                chunk.transfer,
            ) matches Some(TransferEntryModel::Incoming { transfer, .. }) && strictly_below(
                path,
                transfer.root.parts,
            ),
        }),
{
    reveal(chunk_received);
    lemma_index_of(m.transfers, chunk.transfer);
    if let Some(TransferEntryModel::Incoming { transfer, state, error }) = find(
        m.transfers,
        chunk.transfer,
    ) {
        crate::transfer::lemma_entry_position_is(transfer.entries, chunk.index);
        if let Some(i) = crate::transfer::entry_position(transfer.entries, chunk.index) {
            law_landing_stays_below_the_root(
                transfer.entries[i].relative_path,
                transfer.root.parts,
            );
            assert(crate::engine::transfers::transfer_sound(
                m.transfers[index_of(m.transfers, chunk.transfer)],
            ));
            assert(transfer.resolved.contains(transfer.resolved[i]));
        }
    }
}

/// The directories that a transfer creates are strictly below the download directory.
pub proof fn law_folders_stay_below_the_download_directory(
    t: crate::transfer::IncomingModel,
    n: nat,
)
    requires
        n <= t.entries.len(),
    ensures
        forall|i: int|
            0 <= i < folders_of(t, n).len() ==> strictly_below(
                #[trigger] folders_of(t, n)[i],
                t.root.parts,
            ),
    decreases n,
{
    if n > 0 {
        law_folders_stay_below_the_download_directory(t, (n - 1) as nat);
        law_landing_stays_below_the_root(t.entries[n - 1].relative_path, t.root.parts);
        let before = folders_of(t, (n - 1) as nat);
        assert forall|i: int| 0 <= i < folders_of(t, n).len() implies strictly_below(
            #[trigger] folders_of(t, n)[i],
            t.root.parts,
        ) by {
            if i < before.len() {
                assert(folders_of(t, n)[i] == before[i]);
            }
        }
    }
}

/// Clipboard content above the limit is ignored, and so is all of it while the clipboard
/// is not shared.
#[verifier::spinoff_prover]
pub proof fn law_unwanted_clipboards_change_nothing(
    m: EngineModel,
    payload: crate::protocol::ClipboardModel,
    at: Moment,
)
    ensures
        payload.weight() > m.settings.clipboard.max_bytes ==> clipboard_received(m, payload, at)
            == m,
        !m.settings.clipboard.enabled ==> clipboard_received(m, payload, at) == m
            && clipboard_changed(
            m,
            crate::clipboard::ClipboardEventModel::Changed(payload),
            at,
        ) == m,
{
    reveal(clipboard_received);
    reveal(clipboard_changed);
}

/// A machine never discovers itself.
#[verifier::spinoff_prover]
pub proof fn law_a_machine_never_discovers_itself(
    m: EngineModel,
    found: DiscoveredModel,
    at: Moment,
)
    requires
        found.device_id == m.identity.device_id,
    ensures
        machine_discovered(m, DiscoveryModel::Found(found), at) == m,
{
    reveal(machine_discovered);
}

/// Of two machines that trust and see each other, at most one dials by itself.
pub proof fn law_only_one_side_dials(
    a: EngineModel,
    b: EngineModel,
    seen_by_a: DiscoveredModel,
    seen_by_b: DiscoveredModel,
)
    requires
        seen_by_a.device_id == b.identity.device_id,
        seen_by_b.device_id == a.identity.device_id,
    ensures
        !(dials_by_itself(a, seen_by_a) && dials_by_itself(b, seen_by_b)),
{
    law_order_is_total(a.identity.device_id, b.identity.device_id);
}

/// A machine that is forgotten is no longer trusted and has no edge.
#[verifier::spinoff_prover]
pub proof fn law_a_forgotten_machine_is_a_stranger(m: EngineModel, peer: Seq<char>, at: Moment)
    requires
        holds(m.peers, peer),
    ensures
        forall|key: Seq<char>| !trusted_key(forgotten(m, peer, at).peers, peer, key),
        !holds(forgotten(m, peer, at).settings.links, peer),
{
    reveal(forgotten);
    lemma_without(m.peers, peer);
    lemma_without(m.settings.links, peer);
}

/// After leaving there are no sessions and nothing is held.
#[verifier::spinoff_prover]
pub proof fn law_leaving_ends_everything(m: EngineModel)
    ensures
        shut_down(m).sessions.len() == 0,
        nothing_held(shut_down(m)),
{
    reveal(shut_down);
    reveal(held_released);
}

#[verifier::spinoff_prover]
proof fn lemma_ended_sessions(m: EngineModel, peer: Seq<char>, at: Moment)
    ensures
        session_ended(m, peer, at).sessions == without(m.sessions, peer),
{
    reveal(session_ended);
    reveal(handover_ended);
    reveal(control_released);
    reveal(brought_home);
    reveal(held_released);
    lemma_without(m.sessions, peer);
}

proof fn lemma_all_ended(m: EngineModel, peers: Seq<Seq<char>>, n: nat, at: Moment)
    requires
        n <= peers.len(),
    ensures
        forall|i: int|
            0 <= i < n ==> !holds(sessions_ended(m, peers, n, at).sessions, #[trigger] peers[i]),
        forall|s: SessionModel| #[trigger]
            sessions_ended(m, peers, n, at).sessions.contains(s) ==> m.sessions.contains(s),
    decreases n,
{
    if n > 0 {
        lemma_all_ended(m, peers, (n - 1) as nat, at);
        let before = sessions_ended(m, peers, (n - 1) as nat, at);
        let gone = peers[n - 1];
        lemma_ended_sessions(before, gone, at);
        lemma_without(before.sessions, gone);
        assert forall|i: int| 0 <= i < n implies !holds(
            sessions_ended(m, peers, n, at).sessions,
            #[trigger] peers[i],
        ) by {
            if peers[i] != gone {
                law_without_leaves_others(before.sessions, gone, peers[i]);
            }
        }
    }
}

proof fn lemma_silent_are_listed(sessions: Seq<SessionModel>, n: nat, at: Moment)
    requires
        n <= sessions.len(),
    ensures
        forall|j: int|
            0 <= j < n && silent(#[trigger] sessions[j], at) ==> silent_peers(
                sessions,
                n,
                at,
            ).contains(sessions[j].info.device_id),
    decreases n,
{
    if n > 0 {
        lemma_silent_are_listed(sessions, (n - 1) as nat, at);
        let before = silent_peers(sessions, (n - 1) as nat, at);
        let after = silent_peers(sessions, n, at);
        assert forall|j: int| 0 <= j < n && silent(#[trigger] sessions[j], at) implies after.contains(
            sessions[j].info.device_id,
        ) by {
            let id = sessions[j].info.device_id;
            if j < n - 1 {
                let k = choose|k: int| 0 <= k < before.len() && before[k] == id;
                assert(after[k] == id);
            } else {
                assert(after[after.len() - 1] == id);
            }
        }
    }
}

/// After tidying up no session is left whose peer has been silent for too long, and no
/// session is left that was not there before.
#[verifier::spinoff_prover]
pub proof fn law_silent_peers_are_let_go(m: EngineModel, hint: Option<Seq<char>>, at: Moment)
    ensures
        forall|s: SessionModel| #[trigger]
            tidied(m, hint, at).sessions.contains(s) ==> m.sessions.contains(s) && !silent(s, at),
{
    reveal(tidied);
    reveal(discovery_rebuilt);
    let ready = if m.discovery_dirty {
        discovery_rebuilt(m)
    } else {
        m
    };
    let fresh = EngineModel {
        permission_hint: hint,
        table: crate::discovery::pruned(ready.table, at.unix, FORGET_AFTER_SECS),
        ..ready
    };
    let stale = silent_peers(m.sessions, m.sessions.len(), at);
    lemma_all_ended(fresh, stale, stale.len(), at);
    lemma_silent_are_listed(m.sessions, m.sessions.len(), at);
    let left = tidied(m, hint, at).sessions;
    assert forall|s: SessionModel| #[trigger] left.contains(s) implies m.sessions.contains(s)
        && !silent(s, at) by {
        let j = choose|j: int| 0 <= j < m.sessions.len() && m.sessions[j] == s;
        if silent(s, at) {
            assert(silent(m.sessions[j], at));
            let id = s.info.device_id;
            let k = choose|k: int| 0 <= k < stale.len() && stale[k] == id;
            assert(!holds(left, stale[k]));
            crate::keyed::lemma_holds(left, id);
            let i = choose|i: int| 0 <= i < left.len() && left[i] == s;
            assert(left[i].info.device_id == id);
            assert(crate::keyed::Keyed::key(&left[i]) == id);
        }
    }
}

} // verus!
