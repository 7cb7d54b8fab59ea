//! The clipboard, discovery, the platform and the passing of time.

use vstd::prelude::*;
use vstd::string::*;

use crate::clipboard::{ClipboardEvent, ClipboardEventModel, Limits};
use crate::config::{PeerStore, Settings, SettingsModel};
use crate::discovery::{
    pruned, sighted, Discovered, DiscoveredModel, DiscoveryEvent, DiscoveryModel, DiscoveryTable,
    SocketAddress,
};
use crate::engine::consistency::{consistent, law_ticks_keep_the_engine_consistent};
use crate::engine::pairing::random_number;
use crate::engine::rules::{
    discovery_rebuilt, held_released, session_ended, FORGET_AFTER_SECS, PEER_TIMEOUT_MS,
};
use crate::engine::state::{
    Action, ActionModel, ControlModel, ControlState, Engine, EngineModel, Moment, SessionModel,
};
use crate::geom::{DisplayInfo, DisplayModel, Double, Rect};
use crate::identity::{DeviceId, DeviceIdentity, DeviceIdentityModel};
use crate::input::{KeyCode, MouseButton};
use crate::keyed::{find, holds, position, without};
use crate::layout::PushedEdges;
use crate::lists::{empty_list, push_item};
use crate::protocol::{
    ClipboardModel, ClipboardPayload, Message, MessageModel, OsKind, VERSION,
};
use crate::text::{cat2, comes_before, precedes, same_text};
use crate::view::{
    ClipboardStatusModel, ClipboardStatusView, DeviceView, DeviceViewModel, TransferDirection,
};

verus! {

/// The limits that the settings put on the clipboard.
pub open spec fn limits_of(settings: SettingsModel) -> Limits {
    Limits {
        text: settings.clipboard.enabled && settings.clipboard.sync_text,
        images: settings.clipboard.enabled && settings.clipboard.sync_images,
        max_bytes: settings.clipboard.max_bytes,
    }
}

/// A message goes to those of the first `n` sessions that are connected.
pub open spec fn told_to_connected(m: EngineModel, message: MessageModel, n: nat) -> EngineModel
    decreases n,
{
    if n == 0 {
        m
    } else {
        let before = told_to_connected(m, message, (n - 1) as nat);
        if m.sessions[n - 1].state is Connected {
            before.does(
                ActionModel::Send { connection: m.sessions[n - 1].connection, message },
            )
        } else {
            before
        }
    }
}

/// What the clipboard did last.
pub open spec fn clipboard_noted(
    m: EngineModel,
    payload: ClipboardModel,
    direction: TransferDirection,
    at: Moment,
) -> EngineModel {
    EngineModel {
        clipboard_status: ClipboardStatusModel {
            last_kind: Some(payload.word()),
            last_at: Some(at.unix),
            last_direction: Some(direction),
            ..m.clipboard_status
        },
        ..m
    }
}

/// The local clipboard changed.
#[verifier::opaque]
pub open spec fn clipboard_changed(
    m: EngineModel,
    event: ClipboardEventModel,
    at: Moment,
) -> EngineModel {
    match event {
        ClipboardEventModel::Error(_) => m,
        ClipboardEventModel::Changed(payload) => if m.settings.clipboard.enabled && (
        m.settings.clipboard.always || m.control is Controlling) {
            let noted = clipboard_noted(m, payload, TransferDirection::Sending, at);
            told_to_connected(
                noted,
                MessageModel::Clipboard(payload),
                m.sessions.len(),
            ).publishes(at)
        } else {
            m
        },
    }
}

/// The clipboard of a peer changed.
#[verifier::opaque]
pub open spec fn clipboard_received(
    m: EngineModel,
    payload: ClipboardModel,
    at: Moment,
) -> EngineModel {
    if !m.settings.clipboard.enabled || payload.weight() > m.settings.clipboard.max_bytes {
        m
    } else {
        let applied = if m.clipboard_ready {
            m.does(ActionModel::ApplyClipboard(payload))
        } else {
            m
        };
        clipboard_noted(applied, payload, TransferDirection::Receiving, at).publishes(at)
    }
}

/// A machine that is not connected yet is dialled, where discovery sees it.
#[verifier::opaque]
pub open spec fn peer_dialled(m: EngineModel, peer: Seq<char>) -> EngineModel {
    if holds(m.sessions, peer) || holds(m.connecting, peer) {
        m
    } else {
        match find(m.table, peer) {
            None => m.warns(
                "That machine is not visible right now. Check that UnionDesk is running there."@,
            ),
            Some(found) => match found.best() {
                None => m,
                Some(address) => EngineModel { connecting: m.connecting.push(peer), ..m }.does(
                    ActionModel::Dial { address, name: Some(found.name), expected: Some(peer) },
                ),
            },
        }
    }
}

/// Whether a machine that was found is dialled without being asked to: it is trusted, it
/// is not connected, and this machine is the one of the two that dials.
pub open spec fn dials_by_itself(m: EngineModel, found: DiscoveredModel) -> bool {
    &&& find(m.peers, found.device_id) matches Some(record) && record.fingerprint
        == found.fingerprint
    &&& !holds(m.sessions, found.device_id)
    &&& !holds(m.connecting, found.device_id)
    &&& precedes(m.identity.device_id, found.device_id)
}

/// Discovery saw a machine, or lost one.
#[verifier::opaque]
pub open spec fn machine_discovered(
    m: EngineModel,
    event: DiscoveryModel,
    at: Moment,
) -> EngineModel {
    match event {
        DiscoveryModel::Found(found) => if found.device_id == m.identity.device_id {
            m
        } else {
            let noted = EngineModel { table: sighted(m.table, found), ..m };
            if dials_by_itself(m, found) {
                peer_dialled(noted, found.device_id).publishes(at)
            } else {
                noted.publishes(at)
            }
        },
        DiscoveryModel::Lost(id) => if holds(m.table, id) {
            EngineModel { table: without(m.table, id), ..m }.publishes(at)
        } else {
            m
        },
    }
}

/// Whether a peer has been silent for too long.
pub open spec fn silent(session: SessionModel, at: Moment) -> bool {
    at.ms - session.last_rx > PEER_TIMEOUT_MS
}

/// The peers of the first `n` sessions that have been silent for too long.
pub open spec fn silent_peers(sessions: Seq<SessionModel>, n: nat, at: Moment) -> Seq<Seq<char>>
    decreases n,
{
    if n == 0 {
        Seq::empty()
    } else if silent(sessions[n - 1], at) {
        silent_peers(sessions, (n - 1) as nat, at).push(sessions[n - 1].info.device_id)
    } else {
        silent_peers(sessions, (n - 1) as nat, at)
    }
}

/// The sessions with the first `n` of the given peers are over.
pub open spec fn sessions_ended(
    m: EngineModel,
    peers: Seq<Seq<char>>,
    n: nat,
    at: Moment,
) -> EngineModel
    decreases n,
{
    if n == 0 {
        m
    } else {
        session_ended(sessions_ended(m, peers, (n - 1) as nat, at), peers[n - 1], at)
    }
}

/// Those of the first `n` sessions that are connected are asked for a sign of life, the
/// one at position `i` with the number `draws[i]`.
pub open spec fn pinged(m: EngineModel, draws: Seq<u64>, n: nat) -> EngineModel
    decreases n,
{
    if n == 0 {
        m
    } else {
        let before = pinged(m, draws, (n - 1) as nat);
        let session = m.sessions[n - 1];
        if session.state is Connected {
            before.does(
                ActionModel::SendEither {
                    connection: session.connection,
                    message: MessageModel::Ping { nonce: draws[n - 1] },
                },
            )
        } else {
            before
        }
    }
}

/// Machines that are no longer seen are forgotten, and so are sessions gone silent.
#[verifier::opaque]
pub open spec fn tidied(m: EngineModel, hint: Option<Seq<char>>, at: Moment) -> EngineModel {
    let ready = if m.discovery_dirty {
        discovery_rebuilt(m)
    } else {
        m
    };
    let fresh = EngineModel {
        permission_hint: hint,
        table: pruned(ready.table, at.unix, FORGET_AFTER_SECS),
        ..ready
    };
    let stale = silent_peers(m.sessions, m.sessions.len(), at);
    sessions_ended(fresh, stale, stale.len(), at)
}

/// It is time to tidy up.
#[verifier::opaque]
pub open spec fn housekept(
    m: EngineModel,
    hint: Option<Seq<char>>,
    draws: Seq<u64>,
    at: Moment,
) -> EngineModel {
    let tidy = tidied(m, hint, at);
    pinged(tidy, draws, tidy.sessions.len()).publishes(at)
}

/// The first `n` sessions are told that this machine leaves, and closed.
pub open spec fn farewells(m: EngineModel, n: nat) -> EngineModel
    decreases n,
{
    if n == 0 {
        m
    } else {
        let session = m.sessions[n - 1];
        farewells(m, (n - 1) as nat).does(
            ActionModel::Send {
                connection: session.connection,
                message: MessageModel::Bye { reason: "shutting down"@ },
            },
        ).does(ActionModel::Close { connection: session.connection })
    }
}

/// This machine leaves.
#[verifier::opaque]
pub open spec fn shut_down(m: EngineModel) -> EngineModel {
    let parting = if m.discovery_ready {
        m.does(ActionModel::SayGoodbye)
    } else {
        m
    };
    let alone = EngineModel {
        sessions: Seq::empty(),
        ..farewells(parting, m.sessions.len())
    };
    let calm = held_released(alone);
    let free = if m.input_ready {
        calm.does(ActionModel::ReleaseCapture).does(ActionModel::StopInput)
    } else {
        calm
    };
    let quiet = if m.clipboard_ready {
        free.does(ActionModel::StopClipboard)
    } else {
        free
    };
    quiet.does(ActionModel::SaveSettings).does(ActionModel::SavePeers)
}

/// The display that stands in where the platform knows none.
pub open spec fn stand_in_display() -> DisplayModel {
    DisplayModel {
        id: "primary"@,
        name: "Display"@,
        bounds: stand_in_desktop(),
        scale_factor: Double { bits: Double::ONE_BITS },
        is_primary: true,
    }
}

/// The desktop that stands in where the platform knows none: 1920 by 1080.
pub open spec fn stand_in_desktop() -> Rect {
    Rect {
        x: Double { bits: Double::ZERO_BITS },
        y: Double { bits: Double::ZERO_BITS },
        width: Double { bits: Double::FALLBACK_WIDTH_BITS },
        height: Double { bits: Double::FALLBACK_HEIGHT_BITS },
    }
}

/// The given displays, or the one that stands in for them.
pub open spec fn some_displays(displays: Seq<DisplayModel>) -> Seq<DisplayModel> {
    if displays.len() == 0 {
        seq![stand_in_display()]
    } else {
        displays
    }
}

/// An engine that has just been made.
pub open spec fn new_engine(
    identity: DeviceIdentityModel,
    os: OsKind,
    settings: SettingsModel,
    peers: Seq<crate::config::PeerRecordModel>,
) -> EngineModel {
    EngineModel {
        identity,
        device: DeviceViewModel {
            device_id: identity.device_id,
            name: settings.device_name,
            os,
            fingerprint: crate::identity::fingerprint_text(
                match crate::identity::decoded_text(identity.public_key) {
                    Ok(raw) => raw,
                    Err(_) => Seq::empty(),
                },
            ),
            version: VERSION@,
        },
        os,
        settings,
        peers,
        table: Seq::empty(),
        sessions: Seq::empty(),
        connecting: Seq::empty(),
        control: ControlModel::Local,
        input_ready: false,
        clipboard_ready: false,
        discovery_ready: false,
        transfers: Seq::empty(),
        displays: Seq::empty(),
        desktop: stand_in_desktop(),
        last_cursor: None,
        held_keys: Seq::empty(),
        held_buttons: Seq::empty(),
        last_scroll_lock: None,
        settle_until: None,
        permission_hint: None,
        edge_log_at: None,
        listening_port: 0,
        capture_active: false,
        clipboard_status: ClipboardStatusModel {
            enabled: false,
            last_kind: None,
            last_at: None,
            last_direction: None,
        },
        discovery_dirty: true,
        out: Seq::empty(),
    }
}

fn fallback_desktop() -> (out: Rect)
    ensures
        out == stand_in_desktop(),
{
    Rect {
        x: Double { bits: Double::ZERO_BITS },
        y: Double { bits: Double::ZERO_BITS },
        width: Double { bits: Double::FALLBACK_WIDTH_BITS },
        height: Double { bits: Double::FALLBACK_HEIGHT_BITS },
    }
}

fn displays_or_stand_in(displays: Vec<DisplayInfo>) -> (out: Vec<DisplayInfo>)
    ensures
        out.deep_view() == some_displays(displays.deep_view()),
{
    assert(displays.deep_view().len() == displays@.len());
    if displays.len() > 0 {
        return displays;
    }
    let stand_in = DisplayInfo {
        id: "primary".to_owned(),
        name: "Display".to_owned(),
        bounds: fallback_desktop(),
        scale_factor: Double { bits: Double::ONE_BITS },
        is_primary: true,
    };
    let out: Vec<DisplayInfo> = vec![stand_in];
    assert(out.deep_view() =~= seq![stand_in_display()]);
    out
}

impl Engine {
    #[verifier::spinoff_prover]
    pub fn new(
        identity: DeviceIdentity,
        os: OsKind,
        settings: Settings,
        peers: PeerStore,
    ) -> (out: Self)
        ensures
            out.deep_view() == new_engine(
                identity.deep_view(),
                os,
                settings.deep_view(),
                peers.deep_view(),
            ),
            consistent(out.deep_view()),
    {
        let device = DeviceView {
            device_id: identity.device_id.clone(),
            name: settings.device_name.clone(),
            os,
            fingerprint: identity.fingerprint(),
            version: VERSION.to_owned(),
        };
        let held_keys: Vec<KeyCode> = Vec::new();
        let held_buttons: Vec<MouseButton> = Vec::new();
        assert(held_keys@ =~= Seq::<KeyCode>::empty());
        assert(held_buttons@ =~= Seq::<MouseButton>::empty());
        Engine {
            identity,
            device,
            os,
            settings,
            peers,
            table: DiscoveryTable::default(),
            sessions: empty_list(),
            connecting: empty_list(),
            control: ControlState::Local,
            input_ready: false,
            clipboard_ready: false,
            discovery_ready: false,
            transfers: empty_list(),
            displays: empty_list(),
            desktop: fallback_desktop(),
            last_cursor: None,
            held_keys,
            held_buttons,
            last_scroll_lock: None,
            settle_until: None,
            permission_hint: None,
            edge_log_at: None,
            listening_port: 0,
            capture_active: false,
            clipboard_status: ClipboardStatusView {
                enabled: false,
                last_kind: None,
                last_at: None,
                last_direction: None,
            },
            discovery_dirty: true,
            out: empty_list(),
        }
    }

    /// What the platform still needs from the user.
    pub fn set_permission_hint(&mut self, hint: Option<String>)
        ensures
            final(self).deep_view() == (EngineModel {
                permission_hint: hint.deep_view(),
                ..old(self).deep_view()
            }),
    {
        self.permission_hint = hint;
    }

    /// The input backend runs and knows the given displays.
    pub fn on_input_started(&mut self, displays: Vec<DisplayInfo>)
        ensures
            final(self).deep_view() == (EngineModel {
                input_ready: true,
                displays: some_displays(displays.deep_view()),
                ..old(self).deep_view()
            }),
    {
        self.input_ready = true;
        self.displays = displays_or_stand_in(displays);
    }

    /// The input backend could not be started for the given reason.
    pub fn on_input_failed(&mut self, reason: &str)
        ensures
            final(self).deep_view() == (EngineModel {
                displays: seq![stand_in_display()],
                ..old(self).deep_view()
            }).alarms(
                "Keyboard and mouse sharing could not start on this machine: "@ + reason@,
            ),
    {
        let text = cat2(
            "Keyboard and mouse sharing could not start on this machine: ",
            reason,
        );
        self.alarm(text.as_str());
        let none: Vec<DisplayInfo> = empty_list();
        self.displays = displays_or_stand_in(none);
    }

    /// The rectangle around all displays, as the program computed it.
    pub fn set_desktop(&mut self, desktop: Rect)
        ensures
            final(self).deep_view() == (EngineModel { desktop, ..old(self).deep_view() }),
    {
        self.desktop = desktop;
    }

    /// The clipboard watcher runs.
    pub fn on_clipboard_started(&mut self)
        ensures
            final(self).deep_view() == (EngineModel {
                clipboard_ready: true,
                clipboard_status: ClipboardStatusModel {
                    enabled: old(self).deep_view().settings.clipboard.enabled,
                    ..old(self).deep_view().clipboard_status
                },
                ..old(self).deep_view()
            }),
    {
        self.clipboard_ready = true;
        self.clipboard_status.enabled = self.settings.clipboard.enabled;
    }

    /// The limits that the settings put on the clipboard.
    pub fn clipboard_limits(&self) -> (out: Limits)
        ensures
            out == limits_of(self.deep_view().settings),
    {
        Limits {
            text: self.settings.clipboard.enabled && self.settings.clipboard.sync_text,
            images: self.settings.clipboard.enabled && self.settings.clipboard.sync_images,
            max_bytes: self.settings.clipboard.max_bytes,
        }
    }

    /// How often the clipboard is polled, in milliseconds.
    pub fn clipboard_interval(&self) -> (out: u64)
        ensures
            out == if self.settings.clipboard.poll_interval_ms < 100 {
                100
            } else {
                self.settings.clipboard.poll_interval_ms
            },
    {
        if self.settings.clipboard.poll_interval_ms < 100 {
            100
        } else {
            self.settings.clipboard.poll_interval_ms
        }
    }

    fn note_clipboard(
        &mut self,
        payload: &ClipboardPayload,
        direction: TransferDirection,
        at: Moment,
    )
        ensures
            final(self).deep_view() == clipboard_noted(
                old(self).deep_view(),
                payload.deep_view(),
                direction,
                at,
            ),
    {
        self.clipboard_status.last_kind = Some(payload.kind().to_owned());
        self.clipboard_status.last_at = Some(at.unix);
        self.clipboard_status.last_direction = Some(direction);
    }

    #[verifier::spinoff_prover]
    fn tell_connected(&mut self, payload: &ClipboardPayload)
        ensures
            final(self).deep_view() == told_to_connected(
                old(self).deep_view(),
                MessageModel::Clipboard(payload.deep_view()),
                old(self).deep_view().sessions.len(),
            ),
    {
        let ghost m = self.deep_view();
        let ghost message = MessageModel::Clipboard(payload.deep_view());
        let mut i: usize = 0;
        proof {
            lemma_told_keeps(m, message, 0);
        }
        while i < self.sessions.len()
            invariant
                i <= self.sessions@.len(),
                message == MessageModel::Clipboard(payload.deep_view()),
                self.deep_view() == told_to_connected(m, message, i as nat),
                self.deep_view().sessions == m.sessions,
                self.sessions@.len() == m.sessions.len(),
            decreases self.sessions@.len() - i,
        {
            assert(m.sessions[i as int] == self.sessions@[i as int].deep_view());
            if self.sessions[i].state.is_connected() {
                let connection: u64 = self.sessions[i].connection;
                self.emit(
                    Action::Send { connection, message: Message::Clipboard(payload.clone()) },
                );
            }
            assert(self.deep_view().sessions.len() == self.sessions@.len());
            i += 1;
        }
        assert(self.sessions@.len() == m.sessions.len());
    }

    /// The clipboard watcher reports something.
    #[verifier::spinoff_prover]
    pub fn on_clipboard(&mut self, event: ClipboardEvent, at: Moment)
        ensures
            final(self).deep_view() == clipboard_changed(
                old(self).deep_view(),
                event.deep_view(),
                at,
            ),
    {
        proof {
            reveal(clipboard_changed);
        }
        let payload = match event {
            ClipboardEvent::Error(_) => return,
            ClipboardEvent::Changed(payload) => payload,
        };
        let controlling = match &self.control {
            ControlState::Controlling { .. } => true,
            _ => false,
        };
        if !self.settings.clipboard.enabled {
            return;
        }
        if !self.settings.clipboard.always && !controlling {
            return;
        }
        self.note_clipboard(&payload, TransferDirection::Sending, at);
        self.tell_connected(&payload);
        self.publish(at);
    }

    /// The clipboard of a peer changed.
    #[verifier::spinoff_prover]
    pub fn on_remote_clipboard(&mut self, payload: ClipboardPayload, at: Moment)
        ensures
            final(self).deep_view() == clipboard_received(
                old(self).deep_view(),
                payload.deep_view(),
                at,
            ),
    {
        proof {
            reveal(clipboard_received);
        }
        if !self.settings.clipboard.enabled {
            return;
        }
        if payload.is_heavier_than(self.settings.clipboard.max_bytes) {
            return;
        }
        if self.clipboard_ready {
            self.emit(Action::ApplyClipboard(payload.clone()));
        }
        self.note_clipboard(&payload, TransferDirection::Receiving, at);
        self.publish(at);
    }

    /// Dials a machine that discovery sees.
    #[verifier::spinoff_prover]
    pub fn connect_peer(&mut self, peer: &DeviceId)
        ensures
            final(self).deep_view() == peer_dialled(old(self).deep_view(), peer@),
    {
        proof {
            reveal(peer_dialled);
        }
        if self.session(peer).is_some() || position(&self.connecting, peer)
            < self.connecting.len() {
            return;
        }
        let (name, address) = match self.table.get(peer) {
            Some(found) => (found.name.clone(), found.best_address()),
            None => {
                self.warn(
                    "That machine is not visible right now. Check that UnionDesk is running there.",
                );
                return;
            },
        };
        match address {
            Some(address) => {
                push_item(&mut self.connecting, peer.clone());
                self.connect_address(address, Some(name), Some(peer.clone()));
            },
            None => {},
        }
    }

    /// Dials an address.
    pub fn connect_address(
        &mut self,
        address: SocketAddress,
        name: Option<String>,
        expected: Option<DeviceId>,
    )
        ensures
            final(self).deep_view() == old(self).deep_view().does(
                ActionModel::Dial {
                    address: address.deep_view(),
                    name: name.deep_view(),
                    expected: expected.deep_view(),
                },
            ),
    {
        self.emit(Action::Dial { address, name, expected });
    }

    /// Discovery saw a machine, or lost one.
    #[verifier::spinoff_prover]
    pub fn on_discovered(&mut self, event: DiscoveryEvent, at: Moment)
        ensures
            final(self).deep_view() == machine_discovered(
                old(self).deep_view(),
                event.deep_view(),
                at,
            ),
    {
        proof {
            reveal(machine_discovered);
        }
        match event {
            DiscoveryEvent::Found(found) => {
                if found.device_id.same(&self.identity.device_id) {
                    return;
                }
                let id = found.device_id.clone();
                let dial = self.is_dialled_unasked(&found);
                let _ = self.table.upsert(*found);
                if dial {
                    // Only the machine with the smaller id dials, so the two
                    // sides never connect to each other at the same moment.
                    self.connect_peer(&id);
                }
                self.publish(at);
            },
            DiscoveryEvent::Lost(id) => {
                proof {
                    crate::keyed::lemma_without(self.table.deep_view(), id@);
                }
                if self.table.remove(&id) {
                    self.publish(at);
                }
            },
        }
    }

    fn is_dialled_unasked(&self, found: &Discovered) -> (out: bool)
        ensures
            out == dials_by_itself(self.deep_view(), found.deep_view()),
    {
        let trusted = match self.peers.get(&found.device_id) {
            Some(record) => same_text(record.fingerprint.as_str(), found.fingerprint.as_str()),
            None => false,
        };
        let busy = self.session(&found.device_id).is_some() || position(
            &self.connecting,
            &found.device_id,
        ) < self.connecting.len();
        trusted && !busy && comes_before(
            self.identity.device_id.as_str(),
            found.device_id.as_str(),
        )
    }

    #[verifier::spinoff_prover]
    fn find_silent(&self, at: Moment) -> (out: Vec<DeviceId>)
        ensures
            out.deep_view() == silent_peers(
                self.deep_view().sessions,
                self.deep_view().sessions.len(),
                at,
            ),
    {
        let ghost all = self.sessions.deep_view();
        let mut out: Vec<DeviceId> = empty_list();
        let mut i: usize = 0;
        while i < self.sessions.len()
            invariant
                i <= self.sessions@.len(),
                all == self.sessions.deep_view(),
                out.deep_view() == silent_peers(all, i as nat, at),
            decreases self.sessions@.len() - i,
        {
            assert(all[i as int] == self.sessions@[i as int].deep_view());
            if at.ms.saturating_sub(self.sessions[i].last_rx) > PEER_TIMEOUT_MS {
                push_item(&mut out, self.sessions[i].info.device_id.clone());
            }
            i += 1;
        }
        assert(all.len() == self.sessions@.len());
        out
    }

    #[verifier::spinoff_prover]
    fn tidy(&mut self, hint: Option<String>, at: Moment)
        requires
            at.valid(),
        ensures
            final(self).deep_view() == tidied(old(self).deep_view(), hint.deep_view(), at),
    {
        proof {
            reveal(tidied);
        }
        let stale = self.find_silent(at);
        if self.discovery_dirty {
            self.rebuild_discovery();
        }
        // Permission grants can change while the application is running, and on
        // macOS they only take effect after a restart, so keep the reported
        // state honest rather than frozen at startup.
        self.permission_hint = hint;
        self.table.prune_at(at.unix, FORGET_AFTER_SECS);
        let ghost fresh = self.deep_view();
        let mut i: usize = 0;
        assert(stale.deep_view().len() == stale@.len());
        while i < stale.len()
            invariant
                i <= stale@.len(),
                at.valid(),
                self.deep_view() == sessions_ended(fresh, stale.deep_view(), i as nat, at),
            decreases stale@.len() - i,
        {
            assert(stale.deep_view()[i as int] == stale@[i as int]@);
            self.on_session_ended(&stale[i], at);
            i += 1;
        }
    }

    #[verifier::spinoff_prover]
    fn ping_all(&mut self, draws: &Vec<u64>)
        requires
            draws@.len() >= old(self).sessions@.len(),
        ensures
            final(self).deep_view() == pinged(
                old(self).deep_view(),
                draws@,
                old(self).deep_view().sessions.len(),
            ),
    {
        let ghost m = self.deep_view();
        let mut i: usize = 0;
        while i < self.sessions.len()
            invariant
                i <= self.sessions@.len(),
                draws@.len() >= self.sessions@.len(),
                self.deep_view() == pinged(m, draws@, i as nat),
                self.deep_view().sessions == m.sessions,
                self.sessions@.len() == m.sessions.len(),
            decreases self.sessions@.len() - i,
        {
            assert(m.sessions[i as int] == self.sessions@[i as int].deep_view());
            if self.sessions[i].state.is_connected() {
                let connection: u64 = self.sessions[i].connection;
                self.emit(
                    Action::SendEither { connection, message: Message::Ping { nonce: draws[i] } },
                );
            }
            assert(self.deep_view().sessions.len() == self.sessions@.len());
            i += 1;
        }
        assert(self.sessions@.len() == m.sessions.len());
    }

    /// It is time to tidy up. There is a random number for each session.
    #[verifier::spinoff_prover]
    pub fn on_housekeeping(&mut self, hint: Option<String>, draws: &Vec<u64>, at: Moment)
        requires
            at.valid(),
            draws@.len() >= old(self).sessions@.len(),
        ensures
            final(self).deep_view() == housekept(
                old(self).deep_view(),
                hint.deep_view(),
                draws@,
                at,
            ),
            consistent(old(self).deep_view()) ==> consistent(final(self).deep_view()),
    {
        proof {
            reveal(housekept);
        }
        let ghost m = self.deep_view();
        let ghost asked = hint.deep_view();
        proof {
            if consistent(m) {
                law_ticks_keep_the_engine_consistent(
                    m,
                    None,
                    PushedEdges { left: false, right: false, top: false, bottom: false },
                    asked,
                    draws@,
                    at,
                );
            }
        }
        self.tidy(hint, at);
        proof {
            lemma_tidied_sessions(m, asked, at);
            assert(self.deep_view().sessions.len() == self.sessions@.len());
        }
        self.ping_all(draws);
        self.publish(at);
    }

    /// Tidies up with fresh random numbers.
    #[verifier::spinoff_prover]
    pub fn housekeeping(&mut self, hint: Option<String>, at: Moment)
        requires
            at.valid(),
        ensures
            exists|draws: Seq<u64>|
                draws.len() == old(self).deep_view().sessions.len() && final(self).deep_view()
                    == #[trigger] housekept(old(self).deep_view(), hint.deep_view(), draws, at),
            consistent(old(self).deep_view()) ==> consistent(final(self).deep_view()),
    {
        let mut draws: Vec<u64> = Vec::new();
        while draws.len() < self.sessions.len()
            invariant
                draws@.len() <= self.sessions@.len(),
                *self == *old(self),
            decreases self.sessions@.len() - draws@.len(),
        {
            draws.push(random_number());
        }
        assert(self.deep_view().sessions.len() == self.sessions@.len());
        self.on_housekeeping(hint, &draws, at);
    }

    #[verifier::spinoff_prover]
    fn say_farewells(&mut self)
        ensures
            final(self).deep_view() == farewells(
                old(self).deep_view(),
                old(self).deep_view().sessions.len(),
            ),
    {
        let ghost m = self.deep_view();
        let mut i: usize = 0;
        while i < self.sessions.len()
            invariant
                i <= self.sessions@.len(),
                self.deep_view() == farewells(m, i as nat),
                self.deep_view().sessions == m.sessions,
                self.sessions@.len() == m.sessions.len(),
            decreases self.sessions@.len() - i,
        {
            assert(m.sessions[i as int] == self.sessions@[i as int].deep_view());
            let connection: u64 = self.sessions[i].connection;
            self.emit(
                Action::Send {
                    connection,
                    message: Message::Bye { reason: "shutting down".to_owned() },
                },
            );
            self.emit(Action::Close { connection });
            assert(self.deep_view().sessions.len() == self.sessions@.len());
            i += 1;
        }
        assert(self.sessions@.len() == m.sessions.len());
    }

    /// This machine leaves.
    #[verifier::spinoff_prover]
    pub fn shutdown(&mut self)
        ensures
            final(self).deep_view() == shut_down(old(self).deep_view()),
    {
        proof {
            reveal(shut_down);
        }
        let input = self.input_ready;
        let clipboard = self.clipboard_ready;
        if self.discovery_ready {
            self.emit(Action::SayGoodbye);
        }
        self.say_farewells();
        self.sessions = empty_list();
        self.release_held_input();
        if input {
            self.emit(Action::ReleaseCapture);
            self.emit(Action::StopInput);
        }
        if clipboard {
            self.emit(Action::StopClipboard);
        }
        self.emit(Action::SaveSettings);
        self.emit(Action::SavePeers);
    }
}

/// Telling everybody something changes nothing else.
proof fn lemma_told_keeps(m: EngineModel, message: MessageModel, n: nat)
    ensures
        told_to_connected(m, message, n).sessions == m.sessions,
    decreases n,
{
    if n > 0 {
        lemma_told_keeps(m, message, (n - 1) as nat);
    }
}

/// Ending sessions never adds one.
proof fn lemma_session_ended_shrinks(m: EngineModel, peer: Seq<char>, at: Moment)
    ensures
        session_ended(m, peer, at).sessions.len() <= m.sessions.len(),
{
    reveal(session_ended);
    reveal(crate::engine::rules::handover_ended);
    reveal(crate::engine::rules::control_released);
    reveal(crate::engine::rules::brought_home);
    reveal(held_released);
    crate::keyed::lemma_without(m.sessions, peer);
}

proof fn lemma_sessions_ended_shrink(m: EngineModel, peers: Seq<Seq<char>>, n: nat, at: Moment)
    ensures
        sessions_ended(m, peers, n, at).sessions.len() <= m.sessions.len(),
    decreases n,
{
    if n > 0 {
        lemma_sessions_ended_shrink(m, peers, (n - 1) as nat, at);
        lemma_session_ended_shrinks(
            sessions_ended(m, peers, (n - 1) as nat, at),
            peers[n - 1],
            at,
        );
    }
}

/// Tidying up never adds a session.
proof fn lemma_tidied_sessions(m: EngineModel, hint: Option<Seq<char>>, at: Moment)
    ensures
        tidied(m, hint, at).sessions.len() <= m.sessions.len(),
{
    reveal(tidied);
    reveal(discovery_rebuilt);
    let ready = if m.discovery_dirty {
        discovery_rebuilt(m)
    } else {
        m
    };
    let fresh = EngineModel {
        permission_hint: hint,
        table: pruned(ready.table, at.unix, FORGET_AFTER_SECS),
        ..ready
    };
    let stale = silent_peers(m.sessions, m.sessions.len(), at);
    lemma_sessions_ended_shrink(fresh, stale, stale.len(), at);
}

} // verus!
