//! Commands, messages and events, each handed to where it belongs.

use std::time::SystemTime;

use vstd::prelude::*;
use vstd::string::*;

use crate::clipboard::ClipboardEvent;
use crate::clock::{now_unix, unix_time};
use crate::codec::Incoming;
use crate::config::{EdgeLink, Settings, SettingsModel};
use crate::discovery::DiscoveryEvent;
use crate::engine::consistency::{
    consistent, in_turn, law_events_keep_the_engine_consistent,
};
use crate::engine::control::{captured, control_received, engaged, input_received};
use crate::engine::pairing::{
    has_typed, pair_judged, pair_responded, pairing_answered, pairing_handed_off, random_number,
    session_established, session_sound, sessions_sound,
};
use crate::engine::rules::{
    control_released, discovery_answered, discovery_rebuilt, session_closed, session_ended,
};
use crate::engine::services::{
    clipboard_changed, clipboard_received, limits_of, machine_discovered, peer_dialled,
};
use crate::engine::state::{
    Action, ActionModel, Command, Engine, EngineModel, Established, Moment, Motion, PairingModel,
    Pairing, SessionModel,
};
use crate::engine::transfers::{
    bytes_sent, chunk_received, chunk_written, file_cancelled, file_offered, files_chosen,
    files_collected, files_finished, folders_created, offer_accepted, offer_answered,
    progress_reported, report_fits, stream_ended, transfer_accepted, transfer_cancelled,
    transfers_sound, unfinished, ChunkOutcome,
};
use crate::geom::{DisplayInfo, DisplayModel, Point};
use crate::identity::DeviceId;
use crate::input::CapturedEvent;
use crate::keyed::{find, holds, position, put, remove_all, without};
use crate::layout::PlacedPeer;
use crate::protocol::{Message, MessageModel, TransferId};
use crate::text::{cat2, cat3, cat4, decimal, format_decimal, same_text};
use crate::transfer::{
    announced_bytes, entries_of, node_count_first, walked_first, FsNode, OutgoingTransfer,
};
use crate::view::{ClipboardStatusModel, ConnectionModel, ConnectionState, DeviceViewModel};

verus! {

/// Something the engine is told.
#[allow(inconsistent_fields)]
#[derive(Debug, PartialEq)]
pub enum Event {
    Command(Command),
    SessionEstablished(Established),
    ConnectionFailed { peer: Option<DeviceId>, message: String },
    /// A peer sent something. Where it sent its displays, `extent` is their whole size.
    Incoming { peer: DeviceId, item: Incoming, extent: Option<(u64, u64)> },
    SessionEnded { peer: DeviceId },
    PairingHandoff { peer: DeviceId },
    /// The platform observed something. A movement comes with its scaled form.
    Captured { event: CapturedEvent, motion: Motion },
    Clipboard(ClipboardEvent),
    Discovered(DiscoveryEvent),
    ListenerBound(u16),
    ListenerFailed(String),
    TransferProgress { id: TransferId, bytes: u64 },
    TransferDone { id: TransferId, error: Option<String> },
    /// Discovery was started, or not for the given reason.
    DiscoveryStarted { error: Option<String> },
    /// A handover was begun, or not for the given reason.
    Engaged { link: EdgeLink, placed: PlacedPeer, entry: Point, error: Option<String> },
    /// The files to send were looked at.
    FilesRead { peer: DeviceId, nodes: Vec<FsNode> },
    /// An offer was sent, or not for the given reason.
    OfferSent { transfer: Box<OutgoingTransfer>, error: Option<String> },
    /// The directories of a transfer were created, but for these errors.
    FoldersCreated { transfer: TransferId, errors: Vec<String> },
    /// A chunk was written, or not.
    ChunkWritten(ChunkOutcome),
    /// The download directory, shown as given, could not be created.
    FolderFailed { shown: String, error: String },
}

/// Sharing was switched on or off.
#[verifier::opaque]
pub open spec fn sharing_set(m: EngineModel, enabled: bool, at: Moment) -> EngineModel {
    let switched = EngineModel {
        settings: SettingsModel {
            input: crate::config::InputSettings { enabled, ..m.settings.input },
            ..m.settings
        },
        ..m
    };
    let free = if enabled {
        switched
    } else {
        control_released(switched, at)
    };
    free.does(ActionModel::SaveSettings).publishes(at)
}

/// Whether new settings change what discovery tells others.
pub open spec fn discovery_affected(before: SettingsModel, after: SettingsModel) -> bool {
    after.device_name != before.device_name || after.port != before.port || after.discoverable
        != before.discoverable
}

/// The clipboard follows its new settings.
#[verifier::opaque]
pub open spec fn clipboard_reset(m: EngineModel) -> EngineModel {
    let asked = if m.clipboard_ready {
        m.does(ActionModel::SetClipboardLimits(limits_of(m.settings)))
    } else {
        m
    };
    EngineModel {
        clipboard_status: ClipboardStatusModel {
            enabled: m.settings.clipboard.enabled,
            ..m.clipboard_status
        },
        ..asked
    }
}

/// The settings were replaced.
#[verifier::opaque]
pub open spec fn settings_updated(
    m: EngineModel,
    settings: SettingsModel,
    at: Moment,
) -> EngineModel {
    let stored = EngineModel {
        settings,
        device: DeviceViewModel { name: settings.device_name, ..m.device },
        ..m
    }.does(ActionModel::SaveSettings);
    let adjusted = if settings.clipboard != m.settings.clipboard {
        clipboard_reset(stored)
    } else {
        stored
    };
    let announced = if discovery_affected(m.settings, settings) {
        discovery_rebuilt(EngineModel { discovery_dirty: true, ..adjusted })
    } else {
        adjusted
    };
    announced.publishes(at)
}

/// The user disconnects from a machine.
#[verifier::opaque]
pub open spec fn disconnected(m: EngineModel, peer: Seq<char>, at: Moment) -> EngineModel {
    session_closed(
        m.sends(peer, MessageModel::Bye { reason: "disconnected locally"@ }),
        peer,
        at,
    ).publishes(at)
}

/// The user no longer trusts a machine.
#[verifier::opaque]
pub open spec fn forgotten(m: EngineModel, peer: Seq<char>, at: Moment) -> EngineModel {
    let changed = if holds(m.peers, peer) {
        EngineModel {
            peers: without(m.peers, peer),
            settings: SettingsModel { links: without(m.settings.links, peer), ..m.settings },
            ..m
        }.does(ActionModel::SavePeers).does(ActionModel::SaveSettings)
    } else {
        m
    };
    changed.publishes(at)
}

/// The links were changed.
pub open spec fn links_changed(
    m: EngineModel,
    links: Seq<crate::config::EdgeLinkModel>,
    at: Moment,
) -> EngineModel {
    EngineModel { settings: SettingsModel { links, ..m.settings }, ..m }.does(
        ActionModel::SaveSettings,
    ).publishes(at)
}

/// The host application asked for something.
pub open spec fn commanded(m: EngineModel, command: Command, at: Moment) -> EngineModel {
    match command {
        Command::Refresh => m.publishes(at),
        Command::UpdateSettings(settings) => settings_updated(m, settings.deep_view(), at),
        Command::SetSharing(enabled) => sharing_set(m, enabled, at),
        Command::Connect(peer) => peer_dialled(m, peer@),
        Command::ConnectAddress { address, name } => m.does(
            ActionModel::Dial {
                address: address.deep_view(),
                name: name.deep_view(),
                expected: None,
            },
        ),
        Command::Disconnect(peer) => disconnected(m, peer@, at),
        Command::Forget(peer) => forgotten(m, peer@, at),
        Command::AnswerPairing { peer, code, accept } => pairing_answered(
            m,
            peer@,
            code.deep_view(),
            accept,
            at,
        ),
        Command::SetLink(link) => links_changed(m, put(m.settings.links, link.deep_view()), at),
        Command::RemoveLink(peer) => links_changed(m, without(m.settings.links, peer@), at),
        Command::ReleaseControl => control_released(m, at),
        Command::SendFiles { peer, paths } => files_chosen(m, peer@, paths.deep_view()),
        Command::AcceptTransfer(id) => transfer_accepted(m, id),
        Command::CancelTransfer(id) => transfer_cancelled(m, id, at),
        Command::ClearFinishedTransfers => EngineModel {
            transfers: unfinished(m.transfers),
            ..m
        }.publishes(at),
        Command::OpenDownloadDir => m.does(
            ActionModel::OpenFolder(m.settings.transfer.download_dir),
        ),
        Command::Shutdown => m,
    }
}

/// A peer told what its displays are.
#[verifier::opaque]
pub open spec fn displays_received(
    m: EngineModel,
    peer: Seq<char>,
    displays: Seq<DisplayModel>,
    extent: Option<(u64, u64)>,
    at: Moment,
) -> EngineModel {
    match find(m.sessions, peer) {
        Some(session) => m.with_session(SessionModel { displays, extent, ..session }),
        None => m,
    }.publishes(at)
}

/// A session whose peer shows a code. Whether one was typed here is not for the peer to
/// say: that stays as it was.
pub open spec fn asked_for_code(session: SessionModel) -> SessionModel {
    SessionModel {
        state: ConnectionModel::Pairing,
        pairing: Some(
            PairingModel {
                code_to_share: None,
                awaiting_code: true,
                attempts: 0,
                typed: has_typed(session),
            },
        ),
        ..session
    }
}

/// A peer shows a code that has to be typed here.
#[verifier::opaque]
pub open spec fn code_required(m: EngineModel, peer: Seq<char>, at: Moment) -> EngineModel {
    match find(m.sessions, peer) {
        Some(session) => if session.trusted {
            m
        } else {
            m.with_session(asked_for_code(session))
        },
        None => m,
    }.publishes(at)
}

/// A peer sent a message.
pub open spec fn message_received(
    m: EngineModel,
    peer: Seq<char>,
    message: MessageModel,
    extent: Option<(u64, u64)>,
    at: Moment,
) -> EngineModel {
    match message {
        MessageModel::Hello { .. } => m,
        MessageModel::HelloAck { .. } => m,
        MessageModel::Ping { nonce } => m.sends_either(peer, MessageModel::Pong { nonce }),
        MessageModel::Pong { .. } => m,
        MessageModel::Displays { displays } => displays_received(m, peer, displays, extent, at),
        MessageModel::PairRequired { .. } => code_required(m, peer, at),
        MessageModel::PairResponse { code, .. } => pair_responded(m, peer, code, at),
        MessageModel::PairResult { accepted, reason } => pair_judged(
            m,
            peer,
            accepted,
            reason,
            at,
        ),
        MessageModel::Input(event) => input_received(m, event),
        MessageModel::Control(control) => control_received(m, peer, control, at),
        MessageModel::Clipboard(payload) => clipboard_received(m, payload, at),
        MessageModel::FileOffer(offer) => file_offered(m, peer, offer, at),
        MessageModel::FileAccept(accept) => offer_accepted(m, accept, at),
        MessageModel::FileProgress(report) => progress_reported(m, report),
        MessageModel::FileFinished(finished) => files_finished(m, finished, at),
        MessageModel::FileCancel { transfer, reason } => file_cancelled(m, transfer, reason, at),
        MessageModel::Bye { .. } => session_ended(m, peer, at),
        MessageModel::Error { message } => m.alarms("Peer error: "@ + message),
    }
}

/// A peer was heard of.
#[verifier::opaque]
pub open spec fn heard_of(m: EngineModel, peer: Seq<char>, at: Moment) -> EngineModel {
    match find(m.sessions, peer) {
        Some(session) => m.with_session(SessionModel { last_rx: at.ms, ..session }),
        None => m,
    }
}

/// A connection did not come up.
#[verifier::opaque]
pub open spec fn connection_failed(
    m: EngineModel,
    peer: Option<Seq<char>>,
    message: Seq<char>,
    at: Moment,
) -> EngineModel {
    let free = match peer {
        Some(id) => EngineModel { connecting: without(m.connecting, id), ..m },
        None => m,
    };
    free.alarms(message).publishes(at)
}

/// The state after an event.
pub open spec fn handled(m: EngineModel, event: Event, draw: u64, at: Moment) -> EngineModel {
    match event {
        Event::Command(command) => commanded(m, command, at),
        Event::SessionEstablished(established) => session_established(
            m,
            established.deep_view(),
            draw,
            at,
        ),
        Event::ConnectionFailed { peer, message } => connection_failed(
            m,
            peer.deep_view(),
            message@,
            at,
        ),
        Event::Incoming { peer, item, extent } => match item {
            Incoming::Message(message) => message_received(
                heard_of(m, peer@, at),
                peer@,
                message.deep_view(),
                extent,
                at,
            ),
            Incoming::Chunk(chunk) => chunk_received(heard_of(m, peer@, at), chunk.deep_view()),
        },
        Event::SessionEnded { peer } => session_ended(m, peer@, at),
        Event::PairingHandoff { peer } => pairing_handed_off(m, peer@, draw, at),
        Event::Captured { event, motion } => captured(m, event.deep_view(), motion, at),
        Event::Clipboard(event) => clipboard_changed(m, event.deep_view(), at),
        Event::Discovered(event) => machine_discovered(m, event.deep_view(), at),
        Event::ListenerBound(port) => EngineModel { listening_port: port, ..m }.informs(
            "Listening for peers on port "@ + decimal(port as nat) + "."@,
        ).publishes(at),
        Event::ListenerFailed(message) => m.alarms(
            "Port "@ + decimal(m.settings.port as nat) + " is not available: "@ + message@,
        ),
        Event::TransferProgress { id, bytes } => bytes_sent(m, id, bytes),
        Event::TransferDone { id, error } => stream_ended(m, id, error.deep_view(), at),
        Event::DiscoveryStarted { error } => discovery_answered(m, error.deep_view()),
        Event::Engaged { link, placed, entry, error } => engaged(
            m,
            link.deep_view(),
            placed.deep_view(),
            entry,
            error.deep_view(),
            at,
        ),
        Event::FilesRead { peer, nodes } => files_collected(
            m,
            peer@,
            walked_first(nodes, nodes@.len(), Seq::empty(), 0),
            draw,
            at,
        ),
        Event::OfferSent { transfer, error } => offer_answered(
            m,
            transfer.deep_view(),
            error.deep_view(),
            at,
        ),
        Event::FoldersCreated { transfer, errors } => folders_created(
            m,
            transfer,
            errors.deep_view(),
            at,
        ),
        Event::ChunkWritten(outcome) => chunk_written(m, outcome.deep_view()),
        Event::FolderFailed { shown, error } => m.alarms(
            "Could not open "@ + shown@ + ": "@ + error@,
        ),
    }
}

/// What the counts of the library can hold of an event: a key whose text form fits in
/// memory, trees of which every entry has an index, and byte counts that fit.
pub open spec fn event_fits(m: EngineModel, event: Event) -> bool {
    match event {
        Event::SessionEstablished(established) => established.remote_static@.len() <= 0xffff,
        Event::Incoming { item: Incoming::Message(message), .. } => match message {
            Message::FileOffer(offer) => announced_bytes(offer.deep_view().files) <= u64::MAX,
            Message::FileProgress(report) => report_fits(m, report),
            _ => true,
        },
        Event::FilesRead { nodes, .. } => node_count_first(nodes, nodes@.len()) <= u32::MAX && (
        walked_first(nodes, nodes@.len(), Seq::empty(), 0) matches Ok(files) ==> announced_bytes(
            entries_of(files),
        ) <= u64::MAX),
        _ => true,
    }
}

/// The moment at which the two clocks show the given times.
pub open spec fn moment(ms: u64, unix: u64) -> Moment {
    Moment { ms, unix }
}

/// What holds of the engine between two events.
pub open spec fn sound(m: EngineModel) -> bool {
    sessions_sound(m.sessions) && transfers_sound(m.transfers)
}

/// Replacing a sound session by a sound one keeps the sessions sound.
pub proof fn lemma_put_session_sound(sessions: Seq<SessionModel>, session: SessionModel)
    requires
        sessions_sound(sessions),
        session_sound(session),
    ensures
        sessions_sound(put(sessions, session)),
{
    crate::keyed::lemma_index_of(sessions, crate::keyed::Keyed::key(&session));
    let after = put(sessions, session);
    assert forall|i: int| 0 <= i < after.len() implies session_sound(#[trigger] after[i]) by {
        if i < sessions.len() && after[i] == sessions[i] {
            assert(session_sound(sessions[i]));
        } else {
            assert(after[i] == session);
        }
    }
}

/// Hearing of a peer changes its session alone, and keeps everything sound.
pub proof fn lemma_heard_of(m: EngineModel, peer: Seq<char>, at: Moment)
    ensures
        heard_of(m, peer, at).transfers == m.transfers,
        sound(m) ==> sound(heard_of(m, peer, at)),
{
    reveal(heard_of);
    crate::keyed::lemma_index_of(m.sessions, peer);
    if sound(m) && holds(m.sessions, peer) {
        let session = find(m.sessions, peer)->Some_0;
        assert(session_sound(session));
        lemma_put_session_sound(m.sessions, SessionModel { last_rx: at.ms, ..session });
    }
}

impl Engine {
    #[verifier::spinoff_prover]
    fn set_sharing(&mut self, enabled: bool, at: Moment)
        requires
            at.valid(),
        ensures
            final(self).deep_view() == sharing_set(old(self).deep_view(), enabled, at),
    {
        proof {
            reveal(sharing_set);
        }
        self.settings.input.enabled = enabled;
        if !enabled {
            self.release_control(at);
        }
        self.emit(Action::SaveSettings);
        self.publish(at);
    }

    #[verifier::spinoff_prover]
    fn reset_clipboard(&mut self)
        ensures
            final(self).deep_view() == clipboard_reset(old(self).deep_view()),
    {
        proof {
            reveal(clipboard_reset);
        }
        let limits = self.clipboard_limits();
        if self.clipboard_ready {
            self.emit(Action::SetClipboardLimits(limits));
        }
        self.clipboard_status.enabled = self.settings.clipboard.enabled;
    }

    /// The settings are replaced.
    #[verifier::spinoff_prover]
    pub fn on_update_settings(&mut self, settings: Settings, at: Moment)
        ensures
            final(self).deep_view() == settings_updated(
                old(self).deep_view(),
                settings.deep_view(),
                at,
            ),
    {
        proof {
            reveal(settings_updated);
        }
        let discovery_changed = !same_text(
            settings.device_name.as_str(),
            self.settings.device_name.as_str(),
        ) || settings.port != self.settings.port || settings.discoverable
            != self.settings.discoverable;
        let clipboard_changed = settings.clipboard != self.settings.clipboard;
        self.device.name = settings.device_name.clone();
        self.settings = settings;
        self.emit(Action::SaveSettings);
        if clipboard_changed {
            self.reset_clipboard();
        }
        if discovery_changed {
            self.discovery_dirty = true;
            self.rebuild_discovery();
        }
        self.publish(at);
    }

    #[verifier::spinoff_prover]
    fn disconnect(&mut self, peer: &DeviceId, at: Moment)
        requires
            at.valid(),
        ensures
            final(self).deep_view() == disconnected(old(self).deep_view(), peer@, at),
    {
        proof {
            reveal(disconnected);
        }
        self.send(peer, Message::Bye { reason: "disconnected locally".to_owned() });
        self.close_session(peer, at);
        self.publish(at);
    }

    #[verifier::spinoff_prover]
    fn forget(&mut self, peer: &DeviceId, at: Moment)
        ensures
            final(self).deep_view() == forgotten(old(self).deep_view(), peer@, at),
    {
        proof {
            reveal(forgotten);
            crate::keyed::lemma_without(self.peers.deep_view(), peer@);
        }
        if self.peers.remove(peer) {
            self.settings.remove_link(peer);
            self.emit(Action::SavePeers);
            self.emit(Action::SaveSettings);
        }
        self.publish(at);
    }

    fn set_link(&mut self, link: EdgeLink, at: Moment)
        ensures
            final(self).deep_view() == links_changed(
                old(self).deep_view(),
                put(old(self).deep_view().settings.links, link.deep_view()),
                at,
            ),
    {
        self.settings.set_link(link);
        self.emit(Action::SaveSettings);
        self.publish(at);
    }

    fn remove_link(&mut self, peer: &DeviceId, at: Moment)
        ensures
            final(self).deep_view() == links_changed(
                old(self).deep_view(),
                without(old(self).deep_view().settings.links, peer@),
                at,
            ),
    {
        self.settings.remove_link(peer);
        self.emit(Action::SaveSettings);
        self.publish(at);
    }

    fn clear_transfers(&mut self, at: Moment)
        ensures
            final(self).deep_view() == (EngineModel {
                transfers: unfinished(old(self).deep_view().transfers),
                ..old(self).deep_view()
            }).publishes(at),
    {
        self.clear_finished_transfers();
        self.publish(at);
    }

    /// The host application asks for something; false when the engine should stop.
    #[verifier::spinoff_prover]
    pub fn on_command(&mut self, command: Command, at: Moment) -> (out: bool)
        requires
            at.valid(),
            sound(old(self).deep_view()),
        ensures
            final(self).deep_view() == commanded(old(self).deep_view(), command, at),
            out == !(command is Shutdown),
    {
        match command {
            Command::Refresh => self.publish(at),
            Command::UpdateSettings(settings) => self.on_update_settings(*settings, at),
            Command::SetSharing(enabled) => self.set_sharing(enabled, at),
            Command::Connect(peer) => self.connect_peer(&peer),
            Command::ConnectAddress { address, name } => self.connect_address(address, name, None),
            Command::Disconnect(peer) => self.disconnect(&peer, at),
            Command::Forget(peer) => self.forget(&peer, at),
            Command::AnswerPairing { peer, code, accept } => {
                self.answer_pairing(&peer, code, accept, at)
            },
            Command::SetLink(link) => self.set_link(*link, at),
            Command::RemoveLink(peer) => self.remove_link(&peer, at),
            Command::ReleaseControl => self.release_control(at),
            Command::SendFiles { peer, paths } => self.send_files(peer, paths),
            Command::AcceptTransfer(id) => self.accept_transfer(id),
            Command::CancelTransfer(id) => self.cancel_transfer(id, at),
            Command::ClearFinishedTransfers => self.clear_transfers(at),
            Command::OpenDownloadDir => {
                let dir = self.settings.transfer.download_dir.clone();
                self.emit(Action::OpenFolder(dir));
            },
            Command::Shutdown => return false,
        }
        true
    }

    #[verifier::spinoff_prover]
    fn on_displays(
        &mut self,
        peer: &DeviceId,
        displays: Vec<DisplayInfo>,
        extent: Option<(u64, u64)>,
        at: Moment,
    )
        ensures
            final(self).deep_view() == displays_received(
                old(self).deep_view(),
                peer@,
                displays.deep_view(),
                extent,
                at,
            ),
    {
        proof {
            reveal(displays_received);
        }
        let ghost shown = displays.deep_view();
        let i: usize = position(&self.sessions, peer);
        if i < self.sessions.len() {
            let ghost before = self.sessions.deep_view();
            let session = &mut self.sessions[i];
            session.displays = displays;
            session.extent = extent;
            assert(self.sessions.deep_view() =~= put(
                before,
                SessionModel { displays: shown, extent, ..before[i as int] },
            ));
        }
        self.publish(at);
    }

    #[verifier::spinoff_prover]
    fn on_pair_required(&mut self, peer: &DeviceId, at: Moment)
        ensures
            final(self).deep_view() == code_required(old(self).deep_view(), peer@, at),
    {
        proof {
            reveal(code_required);
        }
        let i: usize = position(&self.sessions, peer);
        if i < self.sessions.len() && !self.sessions[i].trusted {
            let ghost before = self.sessions.deep_view();
            let session = &mut self.sessions[i];
            let typed = match &session.pairing {
                Some(pairing) => pairing.typed,
                None => false,
            };
            session.state = ConnectionState::Pairing;
            session.pairing = Some(
                Pairing { code_to_share: None, awaiting_code: true, attempts: 0, typed },
            );
            assert(self.sessions.deep_view() =~= put(before, asked_for_code(before[i as int])));
        }
        self.publish(at);
    }

    /// A peer sent a message.
    #[verifier::spinoff_prover]
    pub fn on_message(
        &mut self,
        peer: DeviceId,
        message: Message,
        extent: Option<(u64, u64)>,
        at: Moment,
    )
        requires
            at.valid(),
            sound(old(self).deep_view()),
            message matches Message::FileOffer(offer) ==> announced_bytes(offer.deep_view().files)
                <= u64::MAX,
            message matches Message::FileProgress(report) ==> report_fits(
                old(self).deep_view(),
                report,
            ),
        ensures
            final(self).deep_view() == message_received(
                old(self).deep_view(),
                peer@,
                message.deep_view(),
                extent,
                at,
            ),
    {
        match message {
            Message::Hello { .. } => {},
            Message::HelloAck { .. } => {},
            Message::Ping { nonce } => self.send_to(&peer, Message::Pong { nonce }),
            Message::Pong { .. } => {},
            Message::Displays { displays } => self.on_displays(&peer, displays, extent, at),
            Message::PairRequired { .. } => self.on_pair_required(&peer, at),
            Message::PairResponse { code, .. } => self.on_pair_response(&peer, code.as_str(), at),
            Message::PairResult { accepted, reason } => {
                self.on_pair_result(&peer, accepted, reason, at)
            },
            Message::Input(event) => self.on_remote_input(event),
            Message::Control(control) => self.on_control(peer, control, at),
            Message::Clipboard(payload) => self.on_remote_clipboard(payload, at),
            Message::FileOffer(offer) => self.on_file_offer(peer, offer, at),
            Message::FileAccept(accept) => self.on_file_accept(accept, at),
            Message::FileProgress(report) => self.on_file_progress(report),
            Message::FileFinished(finished) => self.on_file_finished(finished, at),
            Message::FileCancel { transfer, reason } => {
                self.on_file_cancelled(transfer, reason, at)
            },
            Message::Bye { .. } => self.on_session_ended(&peer, at),
            Message::Error { message: words } => {
                let text = cat2("Peer error: ", words.as_str());
                self.alarm(text.as_str());
            },
        }
    }

    #[verifier::spinoff_prover]
    fn hear_of(&mut self, peer: &DeviceId, at: Moment)
        ensures
            final(self).deep_view() == heard_of(old(self).deep_view(), peer@, at),
    {
        proof {
            reveal(heard_of);
        }
        let i: usize = position(&self.sessions, peer);
        if i < self.sessions.len() {
            let ghost before = self.sessions.deep_view();
            self.sessions[i].last_rx = at.ms;
            assert(self.sessions.deep_view() =~= put(
                before,
                SessionModel { last_rx: at.ms, ..before[i as int] },
            ));
        }
    }

    #[verifier::spinoff_prover]
    fn on_connection_failed(&mut self, peer: Option<DeviceId>, message: &str, at: Moment)
        ensures
            final(self).deep_view() == connection_failed(
                old(self).deep_view(),
                peer.deep_view(),
                message@,
                at,
            ),
    {
        proof {
            reveal(connection_failed);
        }
        if let Some(id) = &peer {
            let _ = remove_all(&mut self.connecting, id);
        }
        self.alarm(message);
        self.publish(at);
    }

    #[verifier::spinoff_prover]
    fn on_incoming(
        &mut self,
        peer: DeviceId,
        item: Incoming,
        extent: Option<(u64, u64)>,
        at: Moment,
    )
        requires
            at.valid(),
            sound(old(self).deep_view()),
            item matches Incoming::Message(Message::FileOffer(offer)) ==> announced_bytes(
                offer.deep_view().files,
            ) <= u64::MAX,
            item matches Incoming::Message(Message::FileProgress(report)) ==> report_fits(
                old(self).deep_view(),
                report,
            ),
        ensures
            final(self).deep_view() == (match item {
                Incoming::Message(message) => message_received(
                    heard_of(old(self).deep_view(), peer@, at),
                    peer@,
                    message.deep_view(),
                    extent,
                    at,
                ),
                Incoming::Chunk(chunk) => chunk_received(
                    heard_of(old(self).deep_view(), peer@, at),
                    chunk.deep_view(),
                ),
            }),
    {
        proof {
            lemma_heard_of(self.deep_view(), peer@, at);
        }
        self.hear_of(&peer, at);
        match item {
            Incoming::Message(message) => self.on_message(peer, message, extent, at),
            Incoming::Chunk(chunk) => self.on_chunk(chunk),
        }
    }

    /// Takes an event; false when the engine should stop. `draw` is a random number for
    /// those events that need one.
    #[verifier::spinoff_prover]
    pub fn handle(&mut self, event: Event, draw: u64, at: Moment) -> (out: bool)
        requires
            at.valid(),
            sound(old(self).deep_view()),
            event_fits(old(self).deep_view(), event),
        ensures
            final(self).deep_view() == handled(old(self).deep_view(), event, draw, at),
            out == !(event matches Event::Command(Command::Shutdown)),
            consistent(old(self).deep_view()) && in_turn(old(self).deep_view(), event)
                ==> consistent(final(self).deep_view()),
    {
        proof {
            if consistent(self.deep_view()) && in_turn(self.deep_view(), event) {
                law_events_keep_the_engine_consistent(self.deep_view(), event, draw, at);
            }
        }
        match event {
            Event::Command(command) => return self.on_command(command, at),
            Event::SessionEstablished(established) => {
                self.on_session_established(established, draw, at)
            },
            Event::ConnectionFailed { peer, message } => {
                self.on_connection_failed(peer, message.as_str(), at)
            },
            Event::Incoming { peer, item, extent } => self.on_incoming(peer, item, extent, at),
            Event::SessionEnded { peer } => self.on_session_ended(&peer, at),
            Event::PairingHandoff { peer } => self.on_pairing_handoff(&peer, draw, at),
            Event::Captured { event: observed, motion } => self.on_captured(observed, motion, at),
            Event::Clipboard(report) => self.on_clipboard(report, at),
            Event::Discovered(sighting) => self.on_discovered(sighting, at),
            Event::ListenerBound(port) => self.on_listener_bound(port, at),
            Event::ListenerFailed(message) => self.on_listener_failed(message.as_str()),
            Event::TransferProgress { id, bytes } => self.on_transfer_progress(id, bytes),
            Event::TransferDone { id, error } => self.on_transfer_done(id, error, at),
            Event::DiscoveryStarted { error } => self.on_discovery_started(error),
            Event::Engaged { link, placed, entry, error } => {
                self.on_engaged(&link, placed, entry, error, at)
            },
            Event::FilesRead { peer, nodes } => self.on_files_read(peer, &nodes, draw, at),
            Event::OfferSent { transfer, error } => self.on_offer_sent(*transfer, error, at),
            Event::FoldersCreated { transfer, errors } => {
                self.on_folders_created(transfer, errors, at)
            },
            Event::ChunkWritten(outcome) => self.on_chunk_written(outcome),
            Event::FolderFailed { shown, error } => {
                let text = cat4("Could not open ", shown.as_str(), ": ", error.as_str());
                self.alarm(text.as_str());
            },
        }
        true
    }

    fn on_listener_bound(&mut self, port: u16, at: Moment)
        ensures
            final(self).deep_view() == (EngineModel {
                listening_port: port,
                ..old(self).deep_view()
            }).informs("Listening for peers on port "@ + decimal(port as nat) + "."@).publishes(at),
    {
        self.listening_port = port;
        let number = format_decimal(port as u64);
        let text = cat3("Listening for peers on port ", number.as_str(), ".");
        self.inform(text.as_str());
        self.publish(at);
    }

    fn on_listener_failed(&mut self, message: &str)
        ensures
            final(self).deep_view() == old(self).deep_view().alarms(
                "Port "@ + decimal(old(self).deep_view().settings.port as nat)
                    + " is not available: "@ + message@,
            ),
    {
        let number = format_decimal(self.settings.port as u64);
        let text = cat4("Port ", number.as_str(), " is not available: ", message);
        self.alarm(text.as_str());
    }

    /// Takes an event with a fresh random number, at the time that the clock shows;
    /// `now_ms` is the monotonic time.
    pub fn dispatch(&mut self, event: Event, now_ms: u64) -> (out: bool)
        requires
            moment(now_ms, 0).valid(),
            sound(old(self).deep_view()),
            event_fits(old(self).deep_view(), event),
        ensures
            exists|draw: u64, time: SystemTime|
                final(self).deep_view() == #[trigger] handled(
                    old(self).deep_view(),
                    event,
                    draw,
                    moment(now_ms, unix_time(time)),
                ),
            out == !(event matches Event::Command(Command::Shutdown)),
            consistent(old(self).deep_view()) && in_turn(old(self).deep_view(), event)
                ==> consistent(final(self).deep_view()),
    {
        let draw: u64 = random_number();
        let unix: u64 = now_unix();
        let ghost time = choose|time: SystemTime| unix == #[trigger] unix_time(time);
        let out = self.handle(event, draw, Moment { ms: now_ms, unix });
        assert(self.deep_view() == handled(
            old(self).deep_view(),
            event,
            draw,
            moment(now_ms, unix_time(time)),
        ));
        out
    }
}

} // verus!
