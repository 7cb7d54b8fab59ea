//! How the engine's knowledge changes, as functions from one state to the next.

use vstd::prelude::*;

use crate::discovery::AdvertiseModel;
use crate::engine::snapshot::snapshot_of;
use crate::engine::state::{
    ActionModel, ControlModel, EngineModel, Moment, SessionModel, TransferEntryModel,
};
use crate::geom::Point;
use crate::identity::{decoded_text, fingerprint_text};
use crate::input::{InputEvent, KeyCode, Modifiers, MouseButton};
use crate::keyed::{find, holds, put, without, Keyed};
use crate::protocol::{DeviceInfoModel, InputControl, MessageModel, VERSION};
use crate::view::{NoticeModel, TransferState};

verus! {

/// How often the cursor is sampled while this machine owns its own input.
pub const CURSOR_TICK_MS: u64 = 8;

/// Idle housekeeping: keepalives, discovery pruning, UI refresh.
pub const HOUSEKEEPING_TICK_MS: u64 = 2_000;

/// Silence from a peer after which the session is considered dead.
pub const PEER_TIMEOUT_MS: u64 = 25_000;

/// Window in which two Scroll Lock taps count as the panic release gesture.
pub const DOUBLE_TAP_WINDOW_MS: u64 = 400;

/// How long the non-displaying side waits before it asks for the code instead.
pub const PAIRING_HANDOFF_DELAY_MS: u64 = 1_500;

/// How long a handover is allowed to settle before its edge is armed again.
/// The cursor is moved to the edge as part of entering and leaving, and that
/// jump must not be mistaken for the user still pushing outwards.
pub const HANDOVER_SETTLE_MS: u64 = 300;

/// How long the explanation why no handover happens stays quiet after it was given.
pub const EDGE_LOG_MS: u64 = 3_000;

/// Seconds after which a machine that discovery no longer sees is forgotten.
pub const FORGET_AFTER_SECS: u64 = 90;

/// A wrong code may be given this often less one time.
pub const MAX_ATTEMPTS: u8 = 3;

/// The machines that are being dialled are found by their id.
impl Keyed for Seq<char> {
    type Key = Seq<char>;

    open spec fn key(&self) -> Seq<char> {
        *self
    }
}

impl Moment {
    /// Whether the monotonic clock leaves room for a handover to settle.
    pub open spec fn valid(self) -> bool {
        self.ms <= u64::MAX - HANDOVER_SETTLE_MS
    }

    /// When a handover that happens now has settled.
    pub open spec fn settled(self) -> u64 {
        (self.ms + HANDOVER_SETTLE_MS) as u64
    }
}

impl EngineModel {
    /// Asks for one more action.
    pub open spec fn does(self, action: ActionModel) -> EngineModel {
        EngineModel { out: self.out.push(action), ..self }
    }

    /// Shows a piece of news.
    pub open spec fn informs(self, message: Seq<char>) -> EngineModel {
        self.does(ActionModel::Notify(NoticeModel::Info { message }))
    }

    /// Shows a warning.
    pub open spec fn warns(self, message: Seq<char>) -> EngineModel {
        self.does(ActionModel::Notify(NoticeModel::Warning { message }))
    }

    /// Shows an error.
    pub open spec fn alarms(self, message: Seq<char>) -> EngineModel {
        self.does(ActionModel::Notify(NoticeModel::Error { message }))
    }

    /// Shows a new picture of the world.
    pub open spec fn publishes(self, at: Moment) -> EngineModel {
        self.does(ActionModel::Publish(snapshot_of(self, at.unix)))
    }

    /// Queues a message for a peer behind bulk traffic.
    pub open spec fn sends(self, peer: Seq<char>, message: MessageModel) -> EngineModel {
        match find(self.sessions, peer) {
            Some(session) => self.does(
                ActionModel::Send { connection: session.connection, message },
            ),
            None => self,
        }
    }

    /// Queues a message for a peer ahead of bulk traffic where there is room.
    pub open spec fn sends_either(self, peer: Seq<char>, message: MessageModel) -> EngineModel {
        match find(self.sessions, peer) {
            Some(session) => self.does(
                ActionModel::SendEither { connection: session.connection, message },
            ),
            None => self,
        }
    }

    /// Tells a peer what this machine's displays are.
    pub open spec fn sends_displays(self, peer: Seq<char>) -> EngineModel {
        self.sends(peer, MessageModel::Displays { displays: self.displays })
    }

    /// Knows a session by new facts.
    pub open spec fn with_session(self, session: SessionModel) -> EngineModel {
        EngineModel { sessions: put(self.sessions, session), ..self }
    }

    /// Knows a transfer by new facts.
    pub open spec fn with_transfer(self, entry: TransferEntryModel) -> EngineModel {
        EngineModel { transfers: put(self.transfers, entry), ..self }
    }

    /// Whether this machine drives the given peer.
    pub open spec fn controls(self, peer: Seq<char>) -> bool {
        self.control matches ControlModel::Controlling { peer: active, .. } && active == peer
    }

    /// Whether the given peer drives this machine.
    pub open spec fn obeys(self, peer: Seq<char>) -> bool {
        self.control matches ControlModel::Controlled { peer: active, .. } && active == peer
    }

    /// Whether a handover still settles at the given moment.
    pub open spec fn settling(self, at: Moment) -> bool {
        self.settle_until matches Some(until) && at.ms < until
    }

    /// Whether the explanation why no handover happens may be given again.
    pub open spec fn edge_log_due(self, at: Moment) -> bool {
        match self.edge_log_at {
            Some(last) => at.ms - last >= EDGE_LOG_MS,
            None => true,
        }
    }
}

/// What this machine tells a peer about itself.
#[verifier::opaque]
pub open spec fn own_info(m: EngineModel) -> DeviceInfoModel {
    DeviceInfoModel {
        device_id: m.identity.device_id,
        name: m.settings.device_name,
        os: m.os,
        version: VERSION@,
        fingerprint: fingerprint_text(public_key_of(m)),
        displays: m.displays,
    }
}

/// This machine's public key; nothing where the stored one cannot be read.
pub open spec fn public_key_of(m: EngineModel) -> Seq<u8> {
    match decoded_text(m.identity.public_key) {
        Ok(raw) => raw,
        Err(_) => Seq::empty(),
    }
}

/// What this machine advertises.
#[verifier::opaque]
pub open spec fn own_advertisement(m: EngineModel) -> AdvertiseModel {
    AdvertiseModel {
        device_id: m.identity.device_id,
        name: m.settings.device_name,
        os: m.os,
        port: m.settings.port,
        fingerprint: fingerprint_text(public_key_of(m)),
        enabled: true,
    }
}

/// Discovery starts over with an empty table, where this machine may be discovered.
#[verifier::opaque]
pub open spec fn discovery_rebuilt(m: EngineModel) -> EngineModel {
    let cleared = EngineModel { discovery_ready: false, table: Seq::empty(), ..m }.does(
        ActionModel::StopDiscovery,
    );
    if m.settings.discoverable {
        cleared.does(ActionModel::StartDiscovery(own_advertisement(m)))
    } else {
        EngineModel { discovery_dirty: false, ..cleared }
    }
}

/// Discovery was started, or not for the given reason.
#[verifier::opaque]
pub open spec fn discovery_answered(m: EngineModel, error: Option<Seq<char>>) -> EngineModel {
    match error {
        None => EngineModel { discovery_ready: true, discovery_dirty: false, ..m },
        Some(reason) => m.warns("Peer discovery failed: "@ + reason),
    }
}

/// The events that lift the given keys.
pub open spec fn key_lifts(keys: Seq<KeyCode>) -> Seq<ActionModel> {
    keys.map_values(
        |code: KeyCode|
            ActionModel::Inject(InputEvent::Key { code, down: false, modifiers: Modifiers(0) }),
    )
}

/// The events that lift the given buttons.
pub open spec fn button_lifts(buttons: Seq<MouseButton>) -> Seq<ActionModel> {
    buttons.map_values(
        |button: MouseButton| ActionModel::Inject(InputEvent::Button { button, down: false }),
    )
}

/// Everything that the remote side might have left pressed is lifted.
#[verifier::opaque]
pub open spec fn held_released(m: EngineModel) -> EngineModel {
    EngineModel {
        held_keys: Seq::empty(),
        held_buttons: Seq::empty(),
        out: if m.input_ready {
            m.out + key_lifts(m.held_keys) + button_lifts(m.held_buttons)
        } else {
            m.out
        },
        ..m
    }
}

/// The local input is no longer swallowed and the cursor comes home from `cursor`.
#[verifier::opaque]
pub open spec fn brought_home(
    m: EngineModel,
    placed: crate::layout::PlacedModel,
    cursor: Point,
    at: Moment,
) -> EngineModel {
    let asked = if m.input_ready {
        m.does(ActionModel::ReleaseCapture).does(ActionModel::WarpHome { placed, cursor })
    } else {
        m
    };
    EngineModel {
        control: ControlModel::Local,
        capture_active: false,
        last_cursor: None,
        settle_until: Some(at.settled()),
        ..asked
    }
}

/// Where this machine drives a peer, it stops doing so; any other mode stays.
#[verifier::opaque]
pub open spec fn control_released(m: EngineModel, at: Moment) -> EngineModel {
    match m.control {
        ControlModel::Controlling { peer, placed, peer_cursor } => brought_home(
            m,
            placed,
            peer_cursor,
            at,
        ).sends_either(
            peer,
            MessageModel::Control(InputControl::Release { x: peer_cursor.x, y: peer_cursor.y }),
        ).publishes(at),
        _ => m,
    }
}

/// Where a handover with the given peer is under way, in either direction, it ends.
#[verifier::opaque]
pub open spec fn handover_ended(m: EngineModel, peer: Seq<char>, at: Moment) -> EngineModel {
    if m.controls(peer) {
        control_released(m, at)
    } else if m.obeys(peer) {
        EngineModel { control: ControlModel::Local, ..held_released(m) }
    } else {
        m
    }
}

/// The transfers, of which those that ran with the given peer failed.
#[verifier::opaque]
pub open spec fn transfers_failed(
    transfers: Seq<TransferEntryModel>,
    peer: Seq<char>,
) -> Seq<TransferEntryModel> {
    transfers.map_values(
        |entry: TransferEntryModel|
            if entry.with_whom() == peer && entry.progress_state() == TransferState::Active {
                entry.in_state(TransferState::Failed)
            } else {
                entry
            },
    )
}

/// The session with a peer is over.
#[verifier::opaque]
pub open spec fn session_ended(m: EngineModel, peer: Seq<char>, at: Moment) -> EngineModel {
    if holds(m.sessions, peer) {
        let gone = EngineModel {
            sessions: without(m.sessions, peer),
            connecting: without(m.connecting, peer),
            ..m
        };
        let free = handover_ended(gone, peer, at);
        EngineModel { transfers: transfers_failed(free.transfers, peer), ..free }.publishes(at)
    } else {
        m
    }
}

/// The connection to a peer is closed from this side.
#[verifier::opaque]
pub open spec fn session_closed(m: EngineModel, peer: Seq<char>, at: Moment) -> EngineModel {
    let gone = match find(m.sessions, peer) {
        Some(session) => EngineModel { sessions: without(m.sessions, peer), ..m }.does(
            ActionModel::Close { connection: session.connection },
        ),
        None => m,
    };
    handover_ended(gone, peer, at)
}

} // verus!
