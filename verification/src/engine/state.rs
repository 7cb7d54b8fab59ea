//! What the engine knows, what it is told and what it asks for.

use vstd::prelude::*;
use vstd::string::*;

use crate::clipboard::Limits;
use crate::config::{EdgeLink, EdgeLinkModel, PeerRecordModel, PeerStore, Settings, SettingsModel};
use crate::discovery::{
    Advertise, AdvertiseModel, DiscoveredModel, DiscoveryTable, SocketAddress, SocketModel,
};
use crate::geom::{DisplayInfo, DisplayModel, Point, Rect, Side};
use crate::identity::{DeviceId, DeviceIdentity, DeviceIdentityModel};
use crate::input::{CaptureOptions, InputEvent, KeyCode, MouseButton};
use crate::keyed::{Entry, Keyed};
use crate::layout::{PlacedModel, PlacedPeer};
use crate::paths::{DirPath, DirPathModel, PathPart, PathPartModel};
use crate::protocol::{
    ClipboardModel, ClipboardPayload, DeviceInfo, DeviceInfoModel, FileChunk, FileChunkModel,
    Message, MessageModel, OsKind, TransferId,
};
use crate::transfer::{
    IncomingModel, IncomingTransfer, LocalPath, LocalPathModel, OutgoingFile, OutgoingFileModel,
    OutgoingModel, OutgoingTransfer,
};
use crate::view::{
    ClipboardStatusModel, ClipboardStatusView, ConnectionModel, ConnectionState, DeviceView,
    DeviceViewModel, Notice, NoticeModel, Snapshot, SnapshotModel, TransferState,
};

verus! {

/// A moment in time: milliseconds on the monotonic clock, and seconds since the epoch.
#[derive(Clone, Copy, Debug, PartialEq, Eq, Structural)]
pub struct Moment {
    pub ms: u64,
    pub unix: u64,
}

/// A live, encrypted connection to one peer.
#[derive(Debug, PartialEq)]
pub struct Session {
    /// The number under which the connection is known.
    pub connection: u64,
    pub initiator: bool,
    /// Static public key of the peer, as proven by the handshake.
    pub remote_static: Vec<u8>,
    pub info: DeviceInfo,
    pub trusted: bool,
    pub state: ConnectionState,
    pub pairing: Option<Pairing>,
    pub displays: Vec<DisplayInfo>,
    /// Whole pixels of the peer's desktop, where it has any.
    pub extent: Option<(u64, u64)>,
    /// When the peer was last heard of.
    pub last_rx: u64,
}

#[verifier::ext_equal]
pub struct SessionModel {
    pub connection: u64,
    pub initiator: bool,
    pub remote_static: Seq<u8>,
    pub info: DeviceInfoModel,
    pub trusted: bool,
    pub state: ConnectionModel,
    pub pairing: Option<PairingModel>,
    pub displays: Seq<DisplayModel>,
    pub extent: Option<(u64, u64)>,
    pub last_rx: u64,
}

impl DeepView for Session {
    type V = SessionModel;

    open spec fn deep_view(&self) -> SessionModel {
        SessionModel {
            connection: self.connection,
            initiator: self.initiator,
            remote_static: self.remote_static@,
            info: self.info.deep_view(),
            trusted: self.trusted,
            state: self.state.deep_view(),
            pairing: self.pairing.deep_view(),
            displays: self.displays.deep_view(),
            extent: self.extent,
            last_rx: self.last_rx,
        }
    }
}

impl Keyed for SessionModel {
    type Key = Seq<char>;

    open spec fn key(&self) -> Seq<char> {
        self.info.device_id
    }
}

impl Entry for Session {
    type Id = DeviceId;

    open spec fn id_view(id: DeviceId) -> Seq<char> {
        id@
    }

    fn has_id(&self, id: &DeviceId) -> (found: bool) {
        self.info.device_id.same(id)
    }
}

/// The pairing that a session waits for.
#[derive(Debug, PartialEq)]
pub struct Pairing {
    /// Set on the side that displays the code.
    pub code_to_share: Option<String>,
    /// Set on the side that has to ask the user for the code.
    pub awaiting_code: bool,
    pub attempts: u8,
    /// Set once the user of this machine has typed a code.
    pub typed: bool,
}

#[verifier::ext_equal]
pub struct PairingModel {
    pub code_to_share: Option<Seq<char>>,
    pub awaiting_code: bool,
    pub attempts: u8,
    pub typed: bool,
}

impl DeepView for Pairing {
    type V = PairingModel;

    open spec fn deep_view(&self) -> PairingModel {
        PairingModel {
            code_to_share: self.code_to_share.deep_view(),
            awaiting_code: self.awaiting_code,
            attempts: self.attempts,
            typed: self.typed,
        }
    }
}

/// Whose keyboard and mouse drive this machine.
#[derive(Debug, PartialEq)]
pub enum ControlState {
    Local,
    Controlling {
        peer: DeviceId,
        placed: PlacedPeer,
        /// Where the peer's cursor currently is, in the peer's own coordinates.
        peer_cursor: Point,
    },
    Controlled { peer: DeviceId, return_side: Side, keyboard: bool },
}

/// The control state, by its contents.
#[verifier::ext_equal]
pub enum ControlModel {
    Local,
    Controlling { peer: Seq<char>, placed: PlacedModel, peer_cursor: Point },
    Controlled { peer: Seq<char>, return_side: Side, keyboard: bool },
}

impl DeepView for ControlState {
    type V = ControlModel;

    open spec fn deep_view(&self) -> ControlModel {
        match self {
            ControlState::Local => ControlModel::Local,
            ControlState::Controlling { peer, placed, peer_cursor } => ControlModel::Controlling {
                peer: peer@,
                placed: placed.deep_view(),
                peer_cursor: *peer_cursor,
            },
            ControlState::Controlled { peer, return_side, keyboard } => ControlModel::Controlled {
                peer: peer@,
                return_side: *return_side,
                keyboard: *keyboard,
            },
        }
    }
}

/// A transfer and how far it is.
#[allow(inconsistent_fields)]
#[derive(Debug, PartialEq)]
pub enum TransferEntry {
    Outgoing { transfer: OutgoingTransfer, state: TransferState },
    Incoming { transfer: IncomingTransfer, state: TransferState, error: Option<String> },
}

/// A tracked transfer, by its contents.
#[verifier::ext_equal]
#[allow(inconsistent_fields)]
pub enum TransferEntryModel {
    Outgoing { transfer: OutgoingModel, state: TransferState },
    Incoming { transfer: IncomingModel, state: TransferState, error: Option<Seq<char>> },
}

impl DeepView for TransferEntry {
    type V = TransferEntryModel;

    open spec fn deep_view(&self) -> TransferEntryModel {
        match self {
            TransferEntry::Outgoing { transfer, state } => TransferEntryModel::Outgoing {
                transfer: transfer.deep_view(),
                state: *state,
            },
            TransferEntry::Incoming { transfer, state, error } => TransferEntryModel::Incoming {
                transfer: transfer.deep_view(),
                state: *state,
                error: error.deep_view(),
            },
        }
    }
}

impl Keyed for TransferEntryModel {
    type Key = TransferId;

    open spec fn key(&self) -> TransferId {
        match self {
            TransferEntryModel::Outgoing { transfer, .. } => transfer.id,
            TransferEntryModel::Incoming { transfer, .. } => transfer.id,
        }
    }
}

impl Entry for TransferEntry {
    type Id = TransferId;

    open spec fn id_view(id: TransferId) -> TransferId {
        id
    }

    fn has_id(&self, id: &TransferId) -> (found: bool) {
        match self {
            TransferEntry::Outgoing { transfer, .. } => transfer.id.0 == id.0,
            TransferEntry::Incoming { transfer, .. } => transfer.id.0 == id.0,
        }
    }
}

impl TransferEntryModel {
    /// How far a transfer is.
    pub open spec fn progress_state(self) -> TransferState {
        match self {
            TransferEntryModel::Outgoing { state, .. } => state,
            TransferEntryModel::Incoming { state, .. } => state,
        }
    }

    /// The machine at the other end.
    pub open spec fn with_whom(self) -> Seq<char> {
        match self {
            TransferEntryModel::Outgoing { transfer, .. } => transfer.peer,
            TransferEntryModel::Incoming { transfer, .. } => transfer.peer,
        }
    }

    /// The same transfer in another state.
    pub open spec fn in_state(self, value: TransferState) -> TransferEntryModel {
        match self {
            TransferEntryModel::Outgoing { transfer, state } => TransferEntryModel::Outgoing {
                transfer,
                state: value,
            },
            TransferEntryModel::Incoming { transfer, state, error } => TransferEntryModel::Incoming {
                transfer,
                state: value,
                error,
            },
        }
    }
}

impl TransferEntry {
    pub fn state(&self) -> (out: TransferState)
        ensures
            out == self.deep_view().progress_state(),
    {
        match self {
            TransferEntry::Outgoing { state, .. } => *state,
            TransferEntry::Incoming { state, .. } => *state,
        }
    }

    pub fn set_state(&mut self, value: TransferState)
        ensures
            final(self).deep_view() == old(self).deep_view().in_state(value),
    {
        match self {
            TransferEntry::Outgoing { state, .. } => {
                *state = value;
            },
            TransferEntry::Incoming { state, .. } => {
                *state = value;
            },
        }
    }
}

/// Everything the host application can ask the engine to do.
#[derive(Debug, PartialEq)]
pub enum Command {
    Refresh,
    UpdateSettings(Box<Settings>),
    SetSharing(bool),
    Connect(DeviceId),
    ConnectAddress { address: SocketAddress, name: Option<String> },
    Disconnect(DeviceId),
    Forget(DeviceId),
    AnswerPairing { peer: DeviceId, code: Option<String>, accept: bool },
    SetLink(Box<EdgeLink>),
    RemoveLink(DeviceId),
    ReleaseControl,
    SendFiles { peer: DeviceId, paths: Vec<LocalPath> },
    AcceptTransfer(TransferId),
    CancelTransfer(TransferId),
    ClearFinishedTransfers,
    OpenDownloadDir,
    Shutdown,
}

/// A connection whose handshake is complete.
#[derive(Debug, PartialEq)]
pub struct Established {
    pub connection: u64,
    pub initiator: bool,
    pub remote_static: Vec<u8>,
    pub info: DeviceInfo,
    /// Whole pixels of the peer's desktop, where it has any.
    pub extent: Option<(u64, u64)>,
}

/// A movement scaled by the pointer speed, and where it takes the peer's cursor.
#[derive(Clone, Copy, Debug, PartialEq, Eq, Structural)]
pub struct Motion {
    pub dx: crate::geom::Double,
    pub dy: crate::geom::Double,
    pub cursor: Point,
}

/// What the engine asks the program around it to do.
#[allow(inconsistent_fields)]
#[derive(Debug, PartialEq)]
pub enum Action {
    /// Show a notification.
    Notify(Notice),
    /// Show a new picture of the world.
    Publish(Box<Snapshot>),
    /// Queue a message behind bulk traffic.
    Send { connection: u64, message: Message },
    /// Queue a message ahead of bulk traffic; drop it where that queue is full.
    SendUrgent { connection: u64, message: Message },
    /// Queue a message ahead of bulk traffic, or behind it where that queue is full.
    SendEither { connection: u64, message: Message },
    Close { connection: u64 },
    /// Hand on what the connection receives, as coming from this peer.
    Listen { connection: u64, peer: DeviceId },
    /// Connect to an address; `expected` names the peer that is being dialled.
    Dial { address: SocketAddress, name: Option<String>, expected: Option<DeviceId> },
    /// Come back with the pairing handoff after its delay.
    HandoffLater { peer: DeviceId },
    SaveSettings,
    SavePeers,
    StopDiscovery,
    /// Advertise this machine and look for others.
    StartDiscovery(Advertise),
    /// Announce that this machine leaves.
    SayGoodbye,
    SetClipboardLimits(Limits),
    ApplyClipboard(ClipboardPayload),
    /// Place the peer's desktop, swallow the local input and report how that went.
    Engage { link: EdgeLink, displays: Vec<DisplayInfo>, position: Point, options: CaptureOptions },
    ReleaseCapture,
    Warp(Point),
    /// Move the cursor to where it comes back from the peer's cursor position.
    WarpHome { placed: PlacedPeer, cursor: Point },
    Inject(InputEvent),
    /// Look at these paths and report what is there.
    ReadFiles { peer: DeviceId, paths: Vec<LocalPath> },
    /// Send an offer and report how that went.
    OfferFiles { connection: u64, message: Message, transfer: Box<OutgoingTransfer> },
    /// Create these directories and report what failed.
    CreateFolders { transfer: TransferId, folders: Vec<Vec<PathPart>> },
    /// Write a chunk to a file and report how that went.
    WriteChunk { chunk: FileChunk, position: usize, target: ChunkTarget },
    /// Stream these files over the connection.
    StartSender { transfer: TransferId, connection: u64, files: Vec<OutgoingFile> },
    /// Close the files of a transfer.
    CloseFiles { transfer: TransferId },
    /// Create the download directory and show it.
    OpenFolder(DirPath),
    StopInput,
    StopClipboard,
}

/// The file that a chunk goes to.
#[derive(Debug, PartialEq)]
pub enum ChunkTarget {
    /// The file is known.
    Known(Vec<PathPart>),
    /// The file has to be placed first: at this path where it may be overwritten, else at
    /// the nearest free name; its directory has to be created.
    Fresh { path: Vec<PathPart>, overwrite: bool },
}

/// A chunk target, by its contents.
#[verifier::ext_equal]
pub enum TargetModel {
    Known(Seq<PathPartModel>),
    Fresh { path: Seq<PathPartModel>, overwrite: bool },
}

impl DeepView for ChunkTarget {
    type V = TargetModel;

    open spec fn deep_view(&self) -> TargetModel {
        match self {
            ChunkTarget::Known(path) => TargetModel::Known(path.deep_view()),
            ChunkTarget::Fresh { path, overwrite } => TargetModel::Fresh {
                path: path.deep_view(),
                overwrite: *overwrite,
            },
        }
    }
}

/// An action, by its contents.
#[verifier::ext_equal]
#[allow(inconsistent_fields)]
pub enum ActionModel {
    Notify(NoticeModel),
    Publish(SnapshotModel),
    Send { connection: u64, message: MessageModel },
    SendUrgent { connection: u64, message: MessageModel },
    SendEither { connection: u64, message: MessageModel },
    Close { connection: u64 },
    Listen { connection: u64, peer: Seq<char> },
    Dial { address: SocketModel, name: Option<Seq<char>>, expected: Option<Seq<char>> },
    HandoffLater { peer: Seq<char> },
    SaveSettings,
    SavePeers,
    StopDiscovery,
    StartDiscovery(AdvertiseModel),
    SayGoodbye,
    SetClipboardLimits(Limits),
    ApplyClipboard(ClipboardModel),
    Engage {
        link: EdgeLinkModel,
        displays: Seq<DisplayModel>,
        position: Point,
        options: CaptureOptions,
    },
    ReleaseCapture,
    Warp(Point),
    WarpHome { placed: PlacedModel, cursor: Point },
    Inject(InputEvent),
    ReadFiles { peer: Seq<char>, paths: Seq<LocalPathModel> },
    OfferFiles { connection: u64, message: MessageModel, transfer: OutgoingModel },
    CreateFolders { transfer: TransferId, folders: Seq<Seq<PathPartModel>> },
    WriteChunk { chunk: FileChunkModel, position: int, target: TargetModel },
    StartSender { transfer: TransferId, connection: u64, files: Seq<OutgoingFileModel> },
    CloseFiles { transfer: TransferId },
    OpenFolder(DirPathModel),
    StopInput,
    StopClipboard,
}

impl DeepView for Action {
    type V = ActionModel;

    open spec fn deep_view(&self) -> ActionModel {
        match self {
            Action::Notify(notice) => ActionModel::Notify(notice.deep_view()),
            Action::Publish(snapshot) => ActionModel::Publish((**snapshot).deep_view()),
            Action::Send { connection, message } => ActionModel::Send {
                connection: *connection,
                message: message.deep_view(),
            },
            Action::SendUrgent { connection, message } => ActionModel::SendUrgent {
                connection: *connection,
                message: message.deep_view(),
            },
            Action::SendEither { connection, message } => ActionModel::SendEither {
                connection: *connection,
                message: message.deep_view(),
            },
            Action::Close { connection } => ActionModel::Close { connection: *connection },
            Action::Listen { connection, peer } => ActionModel::Listen {
                connection: *connection,
                peer: peer@,
            },
            Action::Dial { address, name, expected } => ActionModel::Dial {
                address: address.deep_view(),
                name: name.deep_view(),
                expected: expected.deep_view(),
            },
            Action::HandoffLater { peer } => ActionModel::HandoffLater { peer: peer@ },
            Action::SaveSettings => ActionModel::SaveSettings,
            Action::SavePeers => ActionModel::SavePeers,
            Action::StopDiscovery => ActionModel::StopDiscovery,
            Action::StartDiscovery(advertise) => ActionModel::StartDiscovery(advertise.deep_view()),
            Action::SayGoodbye => ActionModel::SayGoodbye,
            Action::SetClipboardLimits(limits) => ActionModel::SetClipboardLimits(*limits),
            Action::ApplyClipboard(payload) => ActionModel::ApplyClipboard(payload.deep_view()),
            Action::Engage { link, displays, position, options } => ActionModel::Engage {
                link: link.deep_view(),
                displays: displays.deep_view(),
                position: *position,
                options: *options,
            },
            Action::ReleaseCapture => ActionModel::ReleaseCapture,
            Action::Warp(point) => ActionModel::Warp(*point),
            Action::WarpHome { placed, cursor } => ActionModel::WarpHome {
                placed: placed.deep_view(),
                cursor: *cursor,
            },
            Action::Inject(event) => ActionModel::Inject(*event),
            Action::ReadFiles { peer, paths } => ActionModel::ReadFiles {
                peer: peer@,
                paths: paths.deep_view(),
            },
            Action::OfferFiles { connection, message, transfer } => ActionModel::OfferFiles {
                connection: *connection,
                message: message.deep_view(),
                transfer: (**transfer).deep_view(),
            },
            Action::CreateFolders { transfer, folders } => ActionModel::CreateFolders {
                transfer: *transfer,
                folders: folders.deep_view(),
            },
            Action::WriteChunk { chunk, position, target } => ActionModel::WriteChunk {
                chunk: chunk.deep_view(),
                position: *position as int,
                target: target.deep_view(),
            },
            Action::StartSender { transfer, connection, files } => ActionModel::StartSender {
                transfer: *transfer,
                connection: *connection,
                files: files.deep_view(),
            },
            Action::CloseFiles { transfer } => ActionModel::CloseFiles { transfer: *transfer },
            Action::OpenFolder(dir) => ActionModel::OpenFolder(dir.deep_view()),
            Action::StopInput => ActionModel::StopInput,
            Action::StopClipboard => ActionModel::StopClipboard,
        }
    }
}

/// The engine: everything it knows, and what it has asked for since it was last asked.
#[derive(Debug, PartialEq)]
pub struct Engine {
    pub identity: DeviceIdentity,
    pub device: DeviceView,
    pub os: OsKind,
    pub settings: Settings,
    pub peers: PeerStore,
    pub table: DiscoveryTable,
    pub sessions: Vec<Session>,
    pub connecting: Vec<DeviceId>,
    pub control: ControlState,
    /// Whether the input backend runs.
    pub input_ready: bool,
    /// Whether the clipboard watcher runs.
    pub clipboard_ready: bool,
    /// Whether discovery runs.
    pub discovery_ready: bool,
    pub transfers: Vec<TransferEntry>,
    pub displays: Vec<DisplayInfo>,
    pub desktop: Rect,
    pub last_cursor: Option<Point>,
    pub held_keys: Vec<KeyCode>,
    pub held_buttons: Vec<MouseButton>,
    pub last_scroll_lock: Option<u64>,
    /// Set while a handover is settling, in either direction.
    pub settle_until: Option<u64>,
    /// A live description of any permission the platform is still waiting for.
    pub permission_hint: Option<String>,
    /// Throttles the "pushed at an edge but nothing happened" explanation.
    pub edge_log_at: Option<u64>,
    pub listening_port: u16,
    pub capture_active: bool,
    pub clipboard_status: ClipboardStatusView,
    pub discovery_dirty: bool,
    /// What was asked for and not taken yet.
    pub out: Vec<Action>,
}

/// The engine, by its contents.
#[verifier::ext_equal]
pub struct EngineModel {
    pub identity: DeviceIdentityModel,
    pub device: DeviceViewModel,
    pub os: OsKind,
    pub settings: SettingsModel,
    pub peers: Seq<PeerRecordModel>,
    pub table: Seq<DiscoveredModel>,
    pub sessions: Seq<SessionModel>,
    pub connecting: Seq<Seq<char>>,
    pub control: ControlModel,
    pub input_ready: bool,
    pub clipboard_ready: bool,
    pub discovery_ready: bool,
    pub transfers: Seq<TransferEntryModel>,
    pub displays: Seq<DisplayModel>,
    pub desktop: Rect,
    pub last_cursor: Option<Point>,
    pub held_keys: Seq<KeyCode>,
    pub held_buttons: Seq<MouseButton>,
    pub last_scroll_lock: Option<u64>,
    pub settle_until: Option<u64>,
    pub permission_hint: Option<Seq<char>>,
    pub edge_log_at: Option<u64>,
    pub listening_port: u16,
    pub capture_active: bool,
    pub clipboard_status: ClipboardStatusModel,
    pub discovery_dirty: bool,
    pub out: Seq<ActionModel>,
}

impl DeepView for Engine {
    type V = EngineModel;

    open spec fn deep_view(&self) -> EngineModel {
        EngineModel {
            identity: self.identity.deep_view(),
            device: self.device.deep_view(),
            os: self.os,
            settings: self.settings.deep_view(),
            peers: self.peers.deep_view(),
            table: self.table.deep_view(),
            sessions: self.sessions.deep_view(),
            connecting: self.connecting.deep_view(),
            control: self.control.deep_view(),
            input_ready: self.input_ready,
            clipboard_ready: self.clipboard_ready,
            discovery_ready: self.discovery_ready,
            transfers: self.transfers.deep_view(),
            displays: self.displays.deep_view(),
            desktop: self.desktop,
            last_cursor: self.last_cursor,
            held_keys: self.held_keys@,
            held_buttons: self.held_buttons@,
            last_scroll_lock: self.last_scroll_lock,
            settle_until: self.settle_until,
            permission_hint: self.permission_hint.deep_view(),
            edge_log_at: self.edge_log_at,
            listening_port: self.listening_port,
            capture_active: self.capture_active,
            clipboard_status: self.clipboard_status.deep_view(),
            discovery_dirty: self.discovery_dirty,
            out: self.out.deep_view(),
        }
    }
}

} // verus!
