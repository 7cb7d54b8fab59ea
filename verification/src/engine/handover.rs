//! Ending handovers and sessions.

use vstd::prelude::*;
use vstd::string::*;

use crate::discovery::{Advertise, DiscoveryTable};
use crate::engine::rules::{
    brought_home, button_lifts, control_released, discovery_answered, discovery_rebuilt, handover_ended,
    held_released, key_lifts, own_advertisement, own_info, public_key_of, session_closed,
    session_ended, transfers_failed, HANDOVER_SETTLE_MS,
};
use crate::engine::state::{Action, ControlState, Engine, EngineModel, Moment, TransferEntry};
use crate::geom::clone_displays;
use crate::identity::DeviceId;
use crate::input::{InputEvent, KeyCode, Modifiers, MouseButton};
use crate::keyed::{position, remove_all, Entry, Keyed};
use crate::protocol::{DeviceInfo, InputControl, Message};
use crate::text::cat2;
use crate::view::TransferState;

verus! {

impl Entry for DeviceId {
    type Id = DeviceId;

    open spec fn id_view(id: DeviceId) -> Seq<char> {
        id@
    }

    fn has_id(&self, id: &DeviceId) -> (found: bool) {
        self.same(id)
    }
}

impl TransferEntry {
    /// Whether the transfer runs with the given peer.
    pub(crate) fn is_with(&self, peer: &DeviceId) -> (out: bool)
        ensures
            out == (self.deep_view().with_whom() == peer@),
    {
        match self {
            TransferEntry::Outgoing { transfer, .. } => transfer.peer.same(peer),
            TransferEntry::Incoming { transfer, .. } => transfer.peer.same(peer),
        }
    }
}

impl Engine {
    /// What this machine tells a peer about itself.
    pub fn device_info(&self) -> (out: DeviceInfo)
        ensures
            out.deep_view() == own_info(self.deep_view()),
    {
        proof {
            reveal(own_info);
        }
        let key: Vec<u8> = match self.identity.public_key_raw() {
            Ok(raw) => raw,
            Err(_) => Vec::new(),
        };
        assert(key@ =~= public_key_of(self.deep_view()));
        DeviceInfo::new(
            self.identity.device_id.clone(),
            self.settings.device_name.as_str(),
            self.os,
            clone_displays(&self.displays),
            key.as_slice(),
        )
    }

    /// Stops discovery and, where this machine may be discovered, starts it anew.
    pub fn rebuild_discovery(&mut self)
        ensures
            final(self).deep_view() == discovery_rebuilt(old(self).deep_view()),
    {
        proof {
            reveal(discovery_rebuilt);
            reveal(own_advertisement);
        }
        self.discovery_ready = false;
        self.table = DiscoveryTable::default();
        self.emit(Action::StopDiscovery);
        if !self.settings.discoverable {
            self.discovery_dirty = false;
            return;
        }
        let advertise = Advertise {
            device_id: self.identity.device_id.clone(),
            name: self.settings.device_name.clone(),
            os: self.os,
            port: self.settings.port,
            fingerprint: self.identity.fingerprint(),
            enabled: true,
        };
        assert(advertise.deep_view() == own_advertisement(old(self).deep_view()));
        self.emit(Action::StartDiscovery(advertise));
    }

    /// Discovery was started, or not for the given reason.
    pub fn on_discovery_started(&mut self, error: Option<String>)
        ensures
            final(self).deep_view() == discovery_answered(
                old(self).deep_view(),
                error.deep_view(),
            ),
    {
        proof {
            reveal(discovery_answered);
        }
        match error {
            None => {
                self.discovery_ready = true;
                self.discovery_dirty = false;
            },
            Some(reason) => {
                let text = cat2("Peer discovery failed: ", reason.as_str());
                self.warn(text.as_str());
            },
        }
    }

    /// Releases anything the remote side might have left pressed, so the local
    /// machine can never be left with a stuck modifier.
    pub fn release_held_input(&mut self)
        ensures
            final(self).deep_view() == held_released(old(self).deep_view()),
    {
        proof {
            reveal(held_released);
        }
        let ghost m = self.deep_view();
        let mut keys: Vec<KeyCode> = Vec::new();
        let mut buttons: Vec<MouseButton> = Vec::new();
        std::mem::swap(&mut self.held_keys, &mut keys);
        std::mem::swap(&mut self.held_buttons, &mut buttons);
        assert(self.held_keys@ =~= Seq::<KeyCode>::empty());
        assert(self.held_buttons@ =~= Seq::<MouseButton>::empty());
        if !self.input_ready {
            return;
        }
        let ghost calm = EngineModel {
            held_keys: Seq::empty(),
            held_buttons: Seq::empty(),
            ..m
        };
        let mut i: usize = 0;
        assert(self.deep_view().out =~= m.out + key_lifts(keys@.take(0)));
        while i < keys.len()
            invariant
                i <= keys@.len(),
                self.deep_view() == (EngineModel {
                    out: m.out + key_lifts(keys@.take(i as int)),
                    ..calm
                }),
            decreases keys@.len() - i,
        {
            self.emit(
                Action::Inject(
                    InputEvent::Key { code: keys[i], down: false, modifiers: Modifiers(0) },
                ),
            );
            assert(self.deep_view().out =~= m.out + key_lifts(keys@.take(i as int + 1)));
            i += 1;
        }
        assert(keys@.take(i as int) =~= keys@);
        let ghost lifted = m.out + key_lifts(keys@);
        let mut j: usize = 0;
        assert(self.deep_view().out =~= lifted + button_lifts(buttons@.take(0)));
        while j < buttons.len()
            invariant
                j <= buttons@.len(),
                self.deep_view() == (EngineModel {
                    out: lifted + button_lifts(buttons@.take(j as int)),
                    ..calm
                }),
            decreases buttons@.len() - j,
        {
            self.emit(Action::Inject(InputEvent::Button { button: buttons[j], down: false }));
            assert(self.deep_view().out =~= lifted + button_lifts(buttons@.take(j as int + 1)));
            j += 1;
        }
        assert(buttons@.take(j as int) =~= buttons@);
    }

    /// Stops driving a peer, where this machine does so.
    ///
    /// This is also called from the UI and on a lost capture, where the engine may well
    /// be in another mode, and clobbering that would strand the peer in "controlled"
    /// forever.
    pub fn release_control(&mut self, at: Moment)
        requires
            at.valid(),
        ensures
            final(self).deep_view() == control_released(old(self).deep_view(), at),
    {
        proof {
            reveal(control_released);
            reveal(brought_home);
        }
        let (peer, placed, cursor) = match &self.control {
            ControlState::Controlling { peer, placed, peer_cursor } => (
                peer.clone(),
                placed.clone(),
                *peer_cursor,
            ),
            _ => return,
        };
        if self.input_ready {
            self.emit(Action::ReleaseCapture);
            self.emit(Action::WarpHome { placed, cursor });
        }
        self.control = ControlState::Local;
        self.capture_active = false;
        self.last_cursor = None;
        self.settle_until = Some(at.ms + HANDOVER_SETTLE_MS);
        self.send_to(
            &peer,
            Message::Control(InputControl::Release { x: cursor.x, y: cursor.y }),
        );
        self.publish(at);
    }

    /// Whether this machine drives the given peer.
    pub fn is_controlling(&self, peer: &DeviceId) -> (out: bool)
        ensures
            out == self.deep_view().controls(peer@),
    {
        match &self.control {
            ControlState::Controlling { peer: active, .. } => active.same(peer),
            _ => false,
        }
    }

    /// Whether the given peer drives this machine.
    pub fn is_controlled_by(&self, peer: &DeviceId) -> (out: bool)
        ensures
            out == self.deep_view().obeys(peer@),
    {
        match &self.control {
            ControlState::Controlled { peer: active, .. } => active.same(peer),
            _ => false,
        }
    }

    pub(crate) fn end_handover(&mut self, peer: &DeviceId, at: Moment)
        requires
            at.valid(),
        ensures
            final(self).deep_view() == handover_ended(old(self).deep_view(), peer@, at),
    {
        proof {
            reveal(handover_ended);
        }
        if self.is_controlling(peer) {
            self.release_control(at);
        } else if self.is_controlled_by(peer) {
            self.release_held_input();
            self.control = ControlState::Local;
        }
    }

    fn fail_transfers(&mut self, peer: &DeviceId)
        ensures
            final(self).deep_view() == (EngineModel {
                transfers: transfers_failed(old(self).deep_view().transfers, peer@),
                ..old(self).deep_view()
            }),
    {
        proof {
            reveal(transfers_failed);
        }
        let ghost m = self.deep_view();
        let ghost want = transfers_failed(m.transfers, peer@);
        let mut i: usize = 0;
        assert(want.take(0) + m.transfers.skip(0) =~= m.transfers);
        while i < self.transfers.len()
            invariant
                i <= self.transfers@.len(),
                want == transfers_failed(m.transfers, peer@),
                self.transfers@.len() == m.transfers.len(),
                self.deep_view() == (EngineModel {
                    transfers: want.take(i as int) + m.transfers.skip(i as int),
                    ..m
                }),
            decreases self.transfers@.len() - i,
        {
            proof {
                reveal(transfers_failed);
            }
            let ghost before = self.transfers.deep_view();
            assert(before == want.take(i as int) + m.transfers.skip(i as int));
            assert(before[i as int] == m.transfers[i as int]);
            if self.transfers[i].is_with(peer) && matches!(
                self.transfers[i].state(),
                TransferState::Active
            ) {
                self.transfers[i].set_state(TransferState::Failed);
                assert(self.transfers.deep_view() =~= before.update(
                    i as int,
                    before[i as int].in_state(TransferState::Failed),
                ));
            }
            assert(self.transfers.deep_view() =~= want.take(i as int + 1) + m.transfers.skip(
                i as int + 1,
            ));
            i += 1;
        }
        assert(want.take(i as int) + m.transfers.skip(i as int) =~= want);
    }

    /// The session with a peer is over.
    pub fn on_session_ended(&mut self, peer: &DeviceId, at: Moment)
        requires
            at.valid(),
        ensures
            final(self).deep_view() == session_ended(old(self).deep_view(), peer@, at),
    {
        proof {
            reveal(session_ended);
        }
        if !remove_all(&mut self.sessions, peer) {
            proof {
                crate::keyed::lemma_without(old(self).deep_view().sessions, peer@);
            }
            return;
        }
        let _ = remove_all(&mut self.connecting, peer);
        self.end_handover(peer, at);
        self.fail_transfers(peer);
        self.publish(at);
    }

    /// Closes the connection to a peer from this side.
    pub(crate) fn close_session(&mut self, peer: &DeviceId, at: Moment)
        requires
            at.valid(),
        ensures
            final(self).deep_view() == session_closed(old(self).deep_view(), peer@, at),
    {
        proof {
            reveal(session_closed);
        }
        let found: usize = position(&self.sessions, peer);
        if found < self.sessions.len() {
            let connection: u64 = self.sessions[found].connection;
            let _ = remove_all(&mut self.sessions, peer);
            self.emit(Action::Close { connection });
        }
        self.end_handover(peer, at);
    }
}

} // verus!
