//! Read-only projections of engine state, shaped for the desktop UI.
//!
//! The UI simply redraws whatever snapshot arrives, which keeps the two sides
//! from drifting apart and removes a whole class of "the list did not update"
//! bugs.

use vstd::prelude::*;
use vstd::string::*;

use crate::config::{EdgeLink, EdgeLinkModel, Settings, SettingsModel};
use crate::geom::{DisplayInfo, DisplayModel, Rect};
use crate::identity::DeviceId;
use crate::protocol::{OsKind, TransferId};

verus! {

/// Identity of the machine the engine is running on.
#[derive(Debug, PartialEq)]
pub struct DeviceView {
    pub device_id: DeviceId,
    pub name: String,
    pub os: OsKind,
    pub fingerprint: String,
    pub version: String,
}

#[verifier::ext_equal]
pub struct DeviceViewModel {
    pub device_id: Seq<char>,
    pub name: Seq<char>,
    pub os: OsKind,
    pub fingerprint: Seq<char>,
    pub version: Seq<char>,
}

impl DeepView for DeviceView {
    type V = DeviceViewModel;

    open spec fn deep_view(&self) -> DeviceViewModel {
        DeviceViewModel {
            device_id: self.device_id@,
            name: self.name@,
            os: self.os,
            fingerprint: self.fingerprint@,
            version: self.version@,
        }
    }
}

impl Clone for DeviceView {
    fn clone(&self) -> (out: Self)
        ensures
            out == *self,
    {
        DeviceView {
            device_id: self.device_id.clone(),
            name: self.name.clone(),
            os: self.os,
            fingerprint: self.fingerprint.clone(),
            version: self.version.clone(),
        }
    }
}

#[derive(Debug, PartialEq)]
pub enum ConnectionState {
    Offline,
    Connecting,
    /// Connected but not yet trusted by both sides.
    Pairing,
    Connected,
    Failed { reason: String },
}

/// A connection state, by its contents.
#[verifier::ext_equal]
pub enum ConnectionModel {
    Offline,
    Connecting,
    Pairing,
    Connected,
    Failed { reason: Seq<char> },
}

impl DeepView for ConnectionState {
    type V = ConnectionModel;

    open spec fn deep_view(&self) -> ConnectionModel {
        match self {
            ConnectionState::Offline => ConnectionModel::Offline,
            ConnectionState::Connecting => ConnectionModel::Connecting,
            ConnectionState::Pairing => ConnectionModel::Pairing,
            ConnectionState::Connected => ConnectionModel::Connected,
            ConnectionState::Failed { reason } => ConnectionModel::Failed { reason: reason@ },
        }
    }
}

impl Clone for ConnectionState {
    fn clone(&self) -> (out: Self)
        ensures
            out == *self,
    {
        match self {
            ConnectionState::Offline => ConnectionState::Offline,
            ConnectionState::Connecting => ConnectionState::Connecting,
            ConnectionState::Pairing => ConnectionState::Pairing,
            ConnectionState::Connected => ConnectionState::Connected,
            ConnectionState::Failed { reason } => ConnectionState::Failed {
                reason: reason.clone(),
            },
        }
    }
}

impl ConnectionModel {
    /// The word for a state.
    pub open spec fn word(self) -> Seq<char> {
        match self {
            ConnectionModel::Offline => "Offline"@,
            ConnectionModel::Connecting => "Connecting"@,
            ConnectionModel::Pairing => "Pairing"@,
            ConnectionModel::Connected => "Connected"@,
            ConnectionModel::Failed { .. } => "Failed"@,
        }
    }
}

impl ConnectionState {
    pub fn is_connected(&self) -> (out: bool)
        ensures
            out == (self.deep_view() is Connected),
    {
        matches!(self, ConnectionState::Connected)
    }

    pub fn label(&self) -> (out: &'static str)
        ensures
            out@ == self.deep_view().word(),
    {
        match self {
            ConnectionState::Offline => "Offline",
            ConnectionState::Connecting => "Connecting",
            ConnectionState::Pairing => "Pairing",
            ConnectionState::Connected => "Connected",
            ConnectionState::Failed { .. } => "Failed",
        }
    }
}

/// Pairing prompt state for one peer.
#[derive(Debug, PartialEq)]
pub struct PairingView {
    /// Shown on the machine that offers the code; the user reads it out.
    pub code_to_share: Option<String>,
    /// True when this machine has to ask the user for the code.
    pub awaiting_code: bool,
    pub remote_fingerprint: String,
}

#[verifier::ext_equal]
pub struct PairingViewModel {
    pub code_to_share: Option<Seq<char>>,
    pub awaiting_code: bool,
    pub remote_fingerprint: Seq<char>,
}

impl DeepView for PairingView {
    type V = PairingViewModel;

    open spec fn deep_view(&self) -> PairingViewModel {
        PairingViewModel {
            code_to_share: self.code_to_share.deep_view(),
            awaiting_code: self.awaiting_code,
            remote_fingerprint: self.remote_fingerprint@,
        }
    }
}

#[derive(Debug, PartialEq)]
pub struct PeerView {
    pub device_id: DeviceId,
    pub name: String,
    pub os: OsKind,
    pub fingerprint: String,
    pub trusted: bool,
    pub connection: ConnectionState,
    /// How the machine was found: Bonjour, broadcast or entered by hand.
    pub discovered_via: Option<String>,
    pub address: Option<String>,
    pub last_seen: Option<u64>,
    pub display_count: usize,
    pub display_summary: Option<String>,
    pub pairing: Option<PairingView>,
    pub link: Option<EdgeLink>,
}

#[verifier::ext_equal]
pub struct PeerViewModel {
    pub device_id: Seq<char>,
    pub name: Seq<char>,
    pub os: OsKind,
    pub fingerprint: Seq<char>,
    pub trusted: bool,
    pub connection: ConnectionModel,
    pub discovered_via: Option<Seq<char>>,
    pub address: Option<Seq<char>>,
    pub last_seen: Option<u64>,
    pub display_count: nat,
    pub display_summary: Option<Seq<char>>,
    pub pairing: Option<PairingViewModel>,
    pub link: Option<EdgeLinkModel>,
}

impl DeepView for PeerView {
    type V = PeerViewModel;

    open spec fn deep_view(&self) -> PeerViewModel {
        PeerViewModel {
            device_id: self.device_id@,
            name: self.name@,
            os: self.os,
            fingerprint: self.fingerprint@,
            trusted: self.trusted,
            connection: self.connection.deep_view(),
            discovered_via: self.discovered_via.deep_view(),
            address: self.address.deep_view(),
            last_seen: self.last_seen,
            display_count: self.display_count as nat,
            display_summary: self.display_summary.deep_view(),
            pairing: self.pairing.deep_view(),
            link: self.link.deep_view(),
        }
    }
}

impl PeerView {
    pub fn can_connect(&self) -> (out: bool)
        ensures
            out == ((self.deep_view().connection is Offline || self.deep_view().connection is Failed)
                && self.deep_view().address is Some),
    {
        matches!(self.connection, ConnectionState::Offline | ConnectionState::Failed { .. })
            && self.address.is_some()
    }
}

#[derive(Debug, PartialEq)]
pub enum ControlModeView {
    /// This machine is using its own keyboard and mouse.
    Local,
    /// This machine's input is being sent to a peer.
    Controlling { device_id: DeviceId, name: String },
    /// A peer is driving this machine.
    Controlled { device_id: DeviceId, name: String },
}

#[verifier::ext_equal]
pub enum ControlModeModel {
    Local,
    Controlling { device_id: Seq<char>, name: Seq<char> },
    Controlled { device_id: Seq<char>, name: Seq<char> },
}

impl DeepView for ControlModeView {
    type V = ControlModeModel;

    open spec fn deep_view(&self) -> ControlModeModel {
        match self {
            ControlModeView::Local => ControlModeModel::Local,
            ControlModeView::Controlling { device_id, name } => ControlModeModel::Controlling {
                device_id: device_id@,
                name: name@,
            },
            ControlModeView::Controlled { device_id, name } => ControlModeModel::Controlled {
                device_id: device_id@,
                name: name@,
            },
        }
    }
}

#[derive(Debug, PartialEq)]
pub struct ControlView {
    pub mode: ControlModeView,
    pub release_hotkey: String,
    pub sharing_enabled: bool,
}

#[verifier::ext_equal]
pub struct ControlViewModel {
    pub mode: ControlModeModel,
    pub release_hotkey: Seq<char>,
    pub sharing_enabled: bool,
}

impl DeepView for ControlView {
    type V = ControlViewModel;

    open spec fn deep_view(&self) -> ControlViewModel {
        ControlViewModel {
            mode: self.mode.deep_view(),
            release_hotkey: self.release_hotkey@,
            sharing_enabled: self.sharing_enabled,
        }
    }
}

#[derive(Clone, Copy, Debug, PartialEq, Eq, Structural)]
pub enum TransferDirection {
    Sending,
    Receiving,
}

#[derive(Clone, Copy, Debug, PartialEq, Eq, Structural)]
pub enum TransferState {
    /// Offered by the peer, waiting for the local user to accept.
    Pending,
    Active,
    Completed,
    Cancelled,
    Failed,
}

impl TransferState {
    /// Whether nothing more will happen to a transfer.
    pub open spec fn over(self) -> bool {
        self == TransferState::Completed || self == TransferState::Cancelled || self
            == TransferState::Failed
    }
}

#[derive(Debug, PartialEq)]
pub struct TransferFileView {
    pub index: u32,
    pub name: String,
    pub relative_path: String,
    pub size: u64,
    pub done_bytes: u64,
    pub is_dir: bool,
}

#[verifier::ext_equal]
pub struct TransferFileModel {
    pub index: u32,
    pub name: Seq<char>,
    pub relative_path: Seq<char>,
    pub size: u64,
    pub done_bytes: u64,
    pub is_dir: bool,
}

impl DeepView for TransferFileView {
    type V = TransferFileModel;

    open spec fn deep_view(&self) -> TransferFileModel {
        TransferFileModel {
            index: self.index,
            name: self.name@,
            relative_path: self.relative_path@,
            size: self.size,
            done_bytes: self.done_bytes,
            is_dir: self.is_dir,
        }
    }
}

#[derive(Debug, PartialEq)]
pub struct TransferView {
    pub id: TransferId,
    pub peer: DeviceId,
    pub peer_name: String,
    pub direction: TransferDirection,
    pub state: TransferState,
    pub files: Vec<TransferFileView>,
    pub total_bytes: u64,
    pub done_bytes: u64,
    pub bytes_per_second: u64,
    pub started_at: u64,
    pub destination: Option<String>,
    pub error: Option<String>,
    /// Set when a received transfer is waiting for the user to accept it.
    pub needs_acceptance: bool,
}

#[verifier::ext_equal]
pub struct TransferViewModel {
    pub id: TransferId,
    pub peer: Seq<char>,
    pub peer_name: Seq<char>,
    pub direction: TransferDirection,
    pub state: TransferState,
    pub files: Seq<TransferFileModel>,
    pub total_bytes: u64,
    pub done_bytes: u64,
    pub bytes_per_second: u64,
    pub started_at: u64,
    pub destination: Option<Seq<char>>,
    pub error: Option<Seq<char>>,
    pub needs_acceptance: bool,
}

impl DeepView for TransferView {
    type V = TransferViewModel;

    open spec fn deep_view(&self) -> TransferViewModel {
        TransferViewModel {
            id: self.id,
            peer: self.peer@,
            peer_name: self.peer_name@,
            direction: self.direction,
            state: self.state,
            files: self.files.deep_view(),
            total_bytes: self.total_bytes,
            done_bytes: self.done_bytes,
            bytes_per_second: self.bytes_per_second,
            started_at: self.started_at,
            destination: self.destination.deep_view(),
            error: self.error.deep_view(),
            needs_acceptance: self.needs_acceptance,
        }
    }
}

#[derive(Debug, PartialEq)]
pub struct InputStatusView {
    /// False on platforms without a backend, so the UI can explain itself.
    pub backend_available: bool,
    pub enabled: bool,
    pub capture_active: bool,
    /// Set when the operating system needs the user to grant a permission.
    pub permission_hint: Option<String>,
}

#[verifier::ext_equal]
pub struct InputStatusModel {
    pub backend_available: bool,
    pub enabled: bool,
    pub capture_active: bool,
    pub permission_hint: Option<Seq<char>>,
}

impl DeepView for InputStatusView {
    type V = InputStatusModel;

    open spec fn deep_view(&self) -> InputStatusModel {
        InputStatusModel {
            backend_available: self.backend_available,
            enabled: self.enabled,
            capture_active: self.capture_active,
            permission_hint: self.permission_hint.deep_view(),
        }
    }
}

#[derive(Debug, PartialEq)]
pub struct ClipboardStatusView {
    pub enabled: bool,
    pub last_kind: Option<String>,
    pub last_at: Option<u64>,
    pub last_direction: Option<TransferDirection>,
}

#[verifier::ext_equal]
pub struct ClipboardStatusModel {
    pub enabled: bool,
    pub last_kind: Option<Seq<char>>,
    pub last_at: Option<u64>,
    pub last_direction: Option<TransferDirection>,
}

impl DeepView for ClipboardStatusView {
    type V = ClipboardStatusModel;

    open spec fn deep_view(&self) -> ClipboardStatusModel {
        ClipboardStatusModel {
            enabled: self.enabled,
            last_kind: self.last_kind.deep_view(),
            last_at: self.last_at,
            last_direction: self.last_direction,
        }
    }
}

impl Clone for ClipboardStatusView {
    fn clone(&self) -> (out: Self)
        ensures
            out.deep_view() == self.deep_view(),
    {
        ClipboardStatusView {
            enabled: self.enabled,
            last_kind: clone_text(&self.last_kind),
            last_at: self.last_at,
            last_direction: self.last_direction,
        }
    }
}

/// A copy of an optional text.
pub fn clone_text(text: &Option<String>) -> (out: Option<String>)
    ensures
        out == *text,
{
    match text {
        Some(s) => Some(s.clone()),
        None => None,
    }
}

#[derive(Debug, PartialEq)]
pub struct PlatformView {
    pub os: OsKind,
    pub displays: Vec<DisplayInfo>,
    pub desktop: Rect,
}

#[verifier::ext_equal]
pub struct PlatformModel {
    pub os: OsKind,
    pub displays: Seq<DisplayModel>,
    pub desktop: Rect,
}

impl DeepView for PlatformView {
    type V = PlatformModel;

    open spec fn deep_view(&self) -> PlatformModel {
        PlatformModel { os: self.os, displays: self.displays.deep_view(), desktop: self.desktop }
    }
}

/// Everything the UI needs to render one frame.
#[derive(Debug, PartialEq)]
pub struct Snapshot {
    pub device: DeviceView,
    pub settings: Settings,
    pub peers: Vec<PeerView>,
    pub control: ControlView,
    pub transfers: Vec<TransferView>,
    pub input: InputStatusView,
    pub clipboard: ClipboardStatusView,
    pub platform: PlatformView,
    pub listening_port: u16,
}

#[verifier::ext_equal]
pub struct SnapshotModel {
    pub device: DeviceViewModel,
    pub settings: SettingsModel,
    pub peers: Seq<PeerViewModel>,
    pub control: ControlViewModel,
    pub transfers: Seq<TransferViewModel>,
    pub input: InputStatusModel,
    pub clipboard: ClipboardStatusModel,
    pub platform: PlatformModel,
    pub listening_port: u16,
}

impl DeepView for Snapshot {
    type V = SnapshotModel;

    open spec fn deep_view(&self) -> SnapshotModel {
        SnapshotModel {
            device: self.device.deep_view(),
            settings: self.settings.deep_view(),
            peers: self.peers.deep_view(),
            control: self.control.deep_view(),
            transfers: self.transfers.deep_view(),
            input: self.input.deep_view(),
            clipboard: self.clipboard.deep_view(),
            platform: self.platform.deep_view(),
            listening_port: self.listening_port,
        }
    }
}

/// One-off notifications that are not part of the snapshot.
#[derive(Debug, PartialEq)]
pub enum Notice {
    Info { message: String },
    Warning { message: String },
    Error { message: String },
}

/// A notification, by its contents.
#[verifier::ext_equal]
pub enum NoticeModel {
    Info { message: Seq<char> },
    Warning { message: Seq<char> },
    Error { message: Seq<char> },
}

impl DeepView for Notice {
    type V = NoticeModel;

    open spec fn deep_view(&self) -> NoticeModel {
        match self {
            Notice::Info { message } => NoticeModel::Info { message: message@ },
            Notice::Warning { message } => NoticeModel::Warning { message: message@ },
            Notice::Error { message } => NoticeModel::Error { message: message@ },
        }
    }
}

impl Notice {
    pub fn info(message: &str) -> (out: Self)
        ensures
            out.deep_view() == (NoticeModel::Info { message: message@ }),
    {
        Notice::Info { message: message.to_owned() }
    }

    pub fn warning(message: &str) -> (out: Self)
        ensures
            out.deep_view() == (NoticeModel::Warning { message: message@ }),
    {
        Notice::Warning { message: message.to_owned() }
    }

    pub fn error(message: &str) -> (out: Self)
        ensures
            out.deep_view() == (NoticeModel::Error { message: message@ }),
    {
        Notice::Error { message: message.to_owned() }
    }
}

/// What the engine pushes to its host application.
#[derive(Debug, PartialEq)]
pub enum EngineEvent {
    /// A new complete picture of the world.
    Snapshot(Box<Snapshot>),
    Notice(Notice),
}

/// An engine event, by its contents.
#[verifier::ext_equal]
pub enum EngineEventModel {
    Snapshot(SnapshotModel),
    Notice(NoticeModel),
}

impl DeepView for EngineEvent {
    type V = EngineEventModel;

    open spec fn deep_view(&self) -> EngineEventModel {
        match self {
            EngineEvent::Snapshot(snapshot) => EngineEventModel::Snapshot((**snapshot).deep_view()),
            EngineEvent::Notice(notice) => EngineEventModel::Notice(notice.deep_view()),
        }
    }
}

} // verus!
