//! Handing the keyboard and mouse over, and back.

use vstd::prelude::*;
use vstd::string::*;

use crate::config::{EdgeLink, EdgeLinkModel, ReleaseHotkey};
use crate::engine::consistency::{consistent, law_ticks_keep_the_engine_consistent};
use crate::engine::rules::{
    brought_home, control_released, discovery_rebuilt, held_released, DOUBLE_TAP_WINDOW_MS,
    EDGE_LOG_MS, HANDOVER_SETTLE_MS,
};
use crate::engine::state::{
    Action, ActionModel, ControlModel, ControlState, Engine, EngineModel, Moment, Motion,
};
use crate::geom::{clone_displays, Point, Side};
use crate::identity::DeviceId;
use crate::input::{
    CaptureOptions, CapturedEvent, CapturedModel, InputEvent, KeyCode, Modifiers, MouseButton,
};
use crate::key;
use crate::keyed::{find, position};
use crate::layout::{PlacedModel, PlacedPeer, PushedEdges};
use crate::protocol::{InputControl, Message, MessageModel};
use crate::text::{cat2, cat3};

verus! {

/// The first link in use whose edge the cursor is pushed out of; the length where there
/// is none.
pub open spec fn first_pushed(links: Seq<EdgeLinkModel>, pushed: PushedEdges) -> int
    decreases links.len(),
{
    if links.len() == 0 {
        0
    } else if links[0].enabled && pushed.at(links[0].local_side) {
        0
    } else {
        1 + first_pushed(links.drop_first(), pushed)
    }
}

proof fn lemma_first_pushed(links: Seq<EdgeLinkModel>, pushed: PushedEdges, n: int)
    requires
        0 <= n <= links.len(),
        n < links.len() ==> links[n].enabled && pushed.at(links[n].local_side),
        forall|j: int|
            0 <= j < n ==> !((#[trigger] links[j]).enabled && pushed.at(links[j].local_side)),
    ensures
        first_pushed(links, pushed) == n,
    decreases links.len(),
{
    if n > 0 {
        let rest = links.drop_first();
        assert forall|j: int| 0 <= j < n - 1 implies !((#[trigger] rest[j]).enabled && pushed.at(
            rest[j].local_side,
        )) by {
            assert(rest[j] == links[j + 1]);
        }
        lemma_first_pushed(rest, pushed, n - 1);
    }
}

/// The swallowing of local input that a handover needs.
pub open spec fn capture_for(m: EngineModel, position: Point) -> CaptureOptions {
    CaptureOptions {
        mouse: true,
        keyboard: m.settings.input.relay_keyboard,
        park_at: Some(position),
    }
}

/// The cursor is pushed out of the edge of a link: a handover is asked for, or the reason
/// why there is none is given now and then.
#[verifier::opaque]
pub open spec fn link_pushed(
    m: EngineModel,
    link: EdgeLinkModel,
    position: Point,
    at: Moment,
) -> EngineModel {
    let explained = EngineModel { edge_log_at: Some(at.ms), ..m };
    match find(m.sessions, link.peer) {
        Some(session) => if session.state is Connected {
            match m.permission_hint {
                Some(hint) => if m.edge_log_due(at) {
                    explained.warns(hint)
                } else {
                    m
                },
                None => m.does(
                    ActionModel::Engage {
                        link,
                        displays: session.displays,
                        position,
                        options: capture_for(m, position),
                    },
                ),
            }
        } else if m.edge_log_due(at) {
            explained
        } else {
            m
        },
        None => if m.edge_log_due(at) {
            explained
        } else {
            m
        },
    }
}

/// The cursor moved while this machine owns its own input.
#[verifier::opaque]
pub open spec fn engage_tried(
    m: EngineModel,
    position: Point,
    pushed: PushedEdges,
    at: Moment,
) -> EngineModel {
    let i = first_pushed(m.settings.links, pushed);
    if i < m.settings.links.len() {
        link_pushed(m, m.settings.links[i], position, at)
    } else {
        m
    }
}

/// The cursor of this machine reached the edge through which it goes back to `peer`.
#[verifier::opaque]
pub open spec fn handed_back(
    m: EngineModel,
    peer: Seq<char>,
    position: Point,
    at: Moment,
) -> EngineModel {
    EngineModel {
        control: ControlModel::Local,
        ..held_released(
            m.sends_either(
                peer,
                MessageModel::Control(InputControl::ReturnHome { x: position.x, y: position.y }),
            ),
        )
    }.informs("Control returned to this machine."@).publishes(at)
}

/// The cursor was sampled.
#[verifier::opaque]
pub open spec fn cursor_sampled(
    m: EngineModel,
    position: Point,
    pushed: PushedEdges,
    at: Moment,
) -> EngineModel {
    let moved = EngineModel { last_cursor: Some(position), ..m };
    match m.control {
        ControlModel::Local => if m.settings.input.enabled && !m.settling(at) {
            engage_tried(moved, position, pushed, at)
        } else {
            moved
        },
        ControlModel::Controlling { .. } => moved,
        ControlModel::Controlled { peer, return_side, .. } => if !m.settling(at) && pushed.at(
            return_side,
        ) {
            handed_back(moved, peer, position, at)
        } else {
            moved
        },
    }
}

/// It is time to look at the cursor.
#[verifier::opaque]
pub open spec fn cursor_ticked(
    m: EngineModel,
    position: Option<Point>,
    pushed: PushedEdges,
    at: Moment,
) -> EngineModel {
    let ready = if m.discovery_dirty {
        discovery_rebuilt(m)
    } else {
        m
    };
    match position {
        Some(point) => if m.input_ready {
            cursor_sampled(ready, point, pushed, at)
        } else {
            ready
        },
        None => ready,
    }
}

/// The name of the peer of a session; nothing where there is none.
pub open spec fn session_name(m: EngineModel, peer: Seq<char>) -> Seq<char> {
    match find(m.sessions, peer) {
        Some(session) => session.info.name,
        None => Seq::empty(),
    }
}

/// The local input is swallowed, or not for the given reason.
#[verifier::opaque]
pub open spec fn engaged(
    m: EngineModel,
    link: EdgeLinkModel,
    placed: PlacedModel,
    entry: Point,
    error: Option<Seq<char>>,
    at: Moment,
) -> EngineModel {
    match error {
        Some(reason) => m.alarms("Could not take over the input: "@ + reason),
        None => EngineModel {
            capture_active: true,
            last_cursor: None,
            control: ControlModel::Controlling { peer: link.peer, placed, peer_cursor: entry },
            ..m
        }.informs("Controlling "@ + session_name(m, link.peer) + "."@).sends_either(
            link.peer,
            MessageModel::Control(
                InputControl::Enter {
                    x: entry.x,
                    y: entry.y,
                    return_side: link.remote_side,
                    keyboard: m.settings.input.relay_keyboard,
                },
            ),
        ).publishes(at),
    }
}

/// The peer's cursor reached the edge that faces this machine, so control comes home.
#[verifier::opaque]
pub open spec fn returned_home(
    m: EngineModel,
    peer: Seq<char>,
    point: Point,
    at: Moment,
) -> EngineModel {
    match m.control {
        ControlModel::Controlling { peer: active, placed, .. } => if active == peer {
            brought_home(m, placed, point, at).sends_either(
                peer,
                MessageModel::Control(InputControl::Release { x: point.x, y: point.y }),
            ).informs("Control came back to this machine."@).publishes(at)
        } else {
            m
        },
        _ => m,
    }
}

/// Whether an observation is the gesture by which the user takes control back.
pub open spec fn release_gesture(m: EngineModel, event: CapturedModel, at: Moment) -> bool {
    event matches CapturedModel::Key { code, down, modifiers } && down && match m.settings.input.release_hotkey {
        ReleaseHotkey::Disabled => false,
        ReleaseHotkey::ScrollLockTwice => code.0 == key::ScrollLock && (
        m.last_scroll_lock matches Some(previous) && at.ms - previous < DOUBLE_TAP_WINDOW_MS),
        ReleaseHotkey::CtrlAltEscape => code.0 == key::Escape && modifiers.holds(Modifiers::CTRL)
            && modifiers.holds(Modifiers::ALT) && !modifiers.holds(Modifiers::META),
        ReleaseHotkey::CtrlAltCmdEscape => code.0 == key::Escape && modifiers.holds(Modifiers::CTRL)
            && modifiers.holds(Modifiers::ALT) && modifiers.holds(Modifiers::META),
    }
}

/// A tap of Scroll Lock is remembered where two of them are the gesture.
pub open spec fn tap_noted(m: EngineModel, event: CapturedModel, at: Moment) -> EngineModel {
    if event matches CapturedModel::Key { code, down, .. } && down && code.0 == key::ScrollLock
        && m.settings.input.release_hotkey == ReleaseHotkey::ScrollLockTwice {
        EngineModel { last_scroll_lock: Some(at.ms), ..m }
    } else {
        m
    }
}

/// What a peer is told of an observation. Movement is scaled by the pointer speed.
pub open spec fn relayed(event: CapturedModel, motion: Motion) -> Option<InputEvent> {
    match event {
        CapturedModel::MoveDelta { .. } => Some(
            InputEvent::MoveRel { dx: motion.dx, dy: motion.dy },
        ),
        CapturedModel::Button { button, down } => Some(InputEvent::Button { button, down }),
        CapturedModel::Wheel { dx, dy } => Some(InputEvent::Wheel { dx, dy }),
        CapturedModel::Key { code, down, modifiers } => Some(
            InputEvent::Key { code, down, modifiers },
        ),
        CapturedModel::CaptureLost { .. } => None,
    }
}

/// An observation goes to the peer that this machine drives.
#[verifier::opaque]
pub open spec fn event_relayed(
    m: EngineModel,
    event: CapturedModel,
    motion: Motion,
) -> EngineModel {
    match m.control {
        ControlModel::Controlling { peer, placed, .. } => {
            let moved = if event is MoveDelta {
                EngineModel {
                    control: ControlModel::Controlling { peer, placed, peer_cursor: motion.cursor },
                    ..m
                }
            } else {
                m
            };
            match (find(m.sessions, peer), relayed(event, motion)) {
                (Some(session), Some(input)) => moved.does(
                    ActionModel::SendUrgent {
                        connection: session.connection,
                        message: MessageModel::Input(input),
                    },
                ),
                _ => moved,
            }
        },
        _ => m,
    }
}

/// The platform observed something.
#[verifier::opaque]
pub open spec fn captured(
    m: EngineModel,
    event: CapturedModel,
    motion: Motion,
    at: Moment,
) -> EngineModel {
    match event {
        CapturedModel::CaptureLost { reason } => control_released(
            m.alarms("Input capture stopped: "@ + reason),
            at,
        ),
        _ => if m.control is Controlling {
            if release_gesture(m, event, at) {
                control_released(tap_noted(m, event, at), at)
            } else {
                event_relayed(tap_noted(m, event, at), event, motion)
            }
        } else {
            m
        },
    }
}

/// `items` with `item` in it once.
pub open spec fn pressed<T>(items: Seq<T>, item: T) -> Seq<T> {
    if items.contains(item) {
        items
    } else {
        items.push(item)
    }
}

/// `items` without `item`.
pub open spec fn lifted<T>(items: Seq<T>, item: T) -> Seq<T>
    decreases items.len(),
{
    if items.len() == 0 {
        items
    } else if items.last() == item {
        lifted(items.drop_last(), item)
    } else {
        lifted(items.drop_last(), item).push(items.last())
    }
}

/// What is held after an event from the peer.
pub open spec fn held_after(m: EngineModel, event: InputEvent) -> EngineModel {
    match event {
        InputEvent::Key { code, down, .. } => EngineModel {
            held_keys: if down {
                pressed(m.held_keys, code)
            } else {
                lifted(m.held_keys, code)
            },
            ..m
        },
        InputEvent::Button { button, down } => EngineModel {
            held_buttons: if down {
                pressed(m.held_buttons, button)
            } else {
                lifted(m.held_buttons, button)
            },
            ..m
        },
        _ => m,
    }
}

/// A peer sent input. It counts while a peer drives this machine; keys only where that
/// peer relays them.
#[verifier::opaque]
pub open spec fn input_received(m: EngineModel, event: InputEvent) -> EngineModel {
    match m.control {
        ControlModel::Controlled { keyboard, .. } => if event is Key && !keyboard {
            m
        } else if m.input_ready {
            held_after(m, event).does(ActionModel::Inject(event))
        } else {
            held_after(m, event)
        },
        _ => m,
    }
}

/// A peer takes over the cursor of this machine.
#[verifier::opaque]
pub open spec fn entered(
    m: EngineModel,
    peer: Seq<char>,
    point: Point,
    return_side: Side,
    keyboard: bool,
    at: Moment,
) -> EngineModel {
    let asked = if m.input_ready {
        m.does(ActionModel::Warp(point))
    } else {
        m
    };
    EngineModel {
        control: ControlModel::Controlled { peer, return_side, keyboard },
        last_cursor: None,
        settle_until: Some(at.settled()),
        ..asked
    }.informs(session_name(m, peer) + " is controlling this machine."@).publishes(at)
}

/// A peer gives the cursor of this machine back.
#[verifier::opaque]
pub open spec fn let_go(m: EngineModel, point: Point, at: Moment) -> EngineModel {
    let calm = held_released(m);
    let asked = if m.input_ready {
        calm.does(ActionModel::Warp(point))
    } else {
        calm
    };
    EngineModel { control: ControlModel::Local, last_cursor: None, ..asked }.publishes(at)
}

/// A peer drives the handover.
#[verifier::opaque]
pub open spec fn control_received(
    m: EngineModel,
    peer: Seq<char>,
    control: InputControl,
    at: Moment,
) -> EngineModel {
    match control {
        InputControl::Enter { x, y, return_side, keyboard } => entered(
            m,
            peer,
            Point { x, y },
            return_side,
            keyboard,
            at,
        ),
        InputControl::Release { x, y } => let_go(m, Point { x, y }, at),
        InputControl::ReturnHome { x, y } => returned_home(m, peer, Point { x, y }, at),
        InputControl::ResetKeys => held_released(m),
    }
}

fn press<T>(items: &mut Vec<T>, item: T, present: bool)
    requires
        present == old(items)@.contains(item),
    ensures
        final(items)@ == pressed(old(items)@, item),
{
    if !present {
        items.push(item);
    }
}

/// Whether a key is in the list.
fn holds_key(items: &Vec<KeyCode>, item: KeyCode) -> (out: bool)
    ensures
        out == items@.contains(item),
{
    let mut i: usize = 0;
    while i < items.len()
        invariant
            i <= items@.len(),
            forall|j: int| 0 <= j < i ==> items@[j] != item,
        decreases items@.len() - i,
    {
        if items[i] == item {
            return true;
        }
        i += 1;
    }
    false
}

/// Whether a button is in the list.
fn holds_button(items: &Vec<MouseButton>, item: MouseButton) -> (out: bool)
    ensures
        out == items@.contains(item),
{
    let mut i: usize = 0;
    while i < items.len()
        invariant
            i <= items@.len(),
            forall|j: int| 0 <= j < i ==> items@[j] != item,
        decreases items@.len() - i,
    {
        if items[i] == item {
            return true;
        }
        i += 1;
    }
    false
}

/// Takes a key out of the list.
fn lift_key(items: &mut Vec<KeyCode>, item: KeyCode)
    ensures
        final(items)@ == lifted(old(items)@, item),
{
    let ghost all = items@;
    let mut kept: Vec<KeyCode> = Vec::new();
    let mut i: usize = 0;
    assert(lifted(all.take(0), item) =~= kept@);
    while i < items.len()
        invariant
            i <= items@.len(),
            all == items@,
            kept@ == lifted(all.take(i as int), item),
        decreases items@.len() - i,
    {
        assert(all.take(i as int + 1).drop_last() =~= all.take(i as int));
        if items[i] != item {
            kept.push(items[i]);
        }
        i += 1;
    }
    assert(all.take(i as int) =~= all);
    *items = kept;
}

/// Takes a button out of the list.
fn lift_button(items: &mut Vec<MouseButton>, item: MouseButton)
    ensures
        final(items)@ == lifted(old(items)@, item),
{
    let ghost all = items@;
    let mut kept: Vec<MouseButton> = Vec::new();
    let mut i: usize = 0;
    assert(lifted(all.take(0), item) =~= kept@);
    while i < items.len()
        invariant
            i <= items@.len(),
            all == items@,
            kept@ == lifted(all.take(i as int), item),
        decreases items@.len() - i,
    {
        assert(all.take(i as int + 1).drop_last() =~= all.take(i as int));
        if items[i] != item {
            kept.push(items[i]);
        }
        i += 1;
    }
    assert(all.take(i as int) =~= all);
    *items = kept;
}

impl Engine {
    /// Whether a handover still settles.
    pub fn is_settling(&self, at: Moment) -> (out: bool)
        ensures
            out == self.deep_view().settling(at),
    {
        match self.settle_until {
            Some(until) => at.ms < until,
            None => false,
        }
    }

    fn edge_log_is_due(&self, at: Moment) -> (out: bool)
        ensures
            out == self.deep_view().edge_log_due(at),
    {
        match self.edge_log_at {
            Some(last) => at.ms.saturating_sub(last) >= EDGE_LOG_MS,
            None => true,
        }
    }

    fn session_name_of(&self, peer: &DeviceId) -> (out: String)
        ensures
            out@ == session_name(self.deep_view(), peer@),
    {
        match self.session(peer) {
            Some(session) => session.info.name.clone(),
            None => {
                let out = String::new();
                assert(out@ =~= Seq::<char>::empty());
                out
            },
        }
    }

    /// It is time to look at the cursor, which is at `position` and pushed out of the
    /// given edges.
    #[verifier::spinoff_prover]
    pub fn on_cursor_tick(&mut self, position: Option<Point>, pushed: PushedEdges, at: Moment)
        ensures
            final(self).deep_view() == cursor_ticked(
                old(self).deep_view(),
                position,
                pushed,
                at,
            ),
            consistent(old(self).deep_view()) ==> consistent(final(self).deep_view()),
    {
        proof {
            reveal(cursor_ticked);
            if consistent(self.deep_view()) {
                law_ticks_keep_the_engine_consistent(
                    self.deep_view(),
                    position,
                    pushed,
                    None,
                    Seq::empty(),
                    at,
                );
            }
        }
        let ready = self.input_ready;
        if self.discovery_dirty {
            self.rebuild_discovery();
        }
        if !ready {
            return;
        }
        match position {
            Some(point) => self.on_cursor_sample(point, pushed, at),
            None => {},
        }
    }

    #[verifier::spinoff_prover]
    fn on_cursor_sample(&mut self, position: Point, pushed: PushedEdges, at: Moment)
        ensures
            final(self).deep_view() == cursor_sampled(
                old(self).deep_view(),
                position,
                pushed,
                at,
            ),
    {
        proof {
            reveal(cursor_sampled);
        }
        let settling = self.is_settling(at);
        self.last_cursor = Some(position);
        match &self.control {
            ControlState::Local => {
                if self.settings.input.enabled && !settling {
                    self.try_engage(position, pushed, at);
                }
            },
            ControlState::Controlling { .. } => {},
            ControlState::Controlled { peer, return_side, .. } => {
                // The peer moved our cursor to its edge a moment ago; ignore the
                // jump that produced.
                if !settling && pushed.is_pushed(*return_side) {
                    let peer = peer.clone();
                    self.hand_back(&peer, position, at);
                }
            },
        }
    }

    #[verifier::spinoff_prover]
    fn hand_back(&mut self, peer: &DeviceId, position: Point, at: Moment)
        ensures
            final(self).deep_view() == handed_back(old(self).deep_view(), peer@, position, at),
    {
        proof {
            reveal(handed_back);
        }
        self.send_to(
            peer,
            Message::Control(InputControl::ReturnHome { x: position.x, y: position.y }),
        );
        self.release_held_input();
        self.control = ControlState::Local;
        self.inform("Control returned to this machine.");
        self.publish(at);
    }

    /// Hands the input over where the cursor is pushed out of the edge of a link.
    ///
    /// Either a handover is asked for, or the reason why there is none is noted: a
    /// machine that silently does nothing is the hardest kind of bug to report.
    #[verifier::spinoff_prover]
    pub fn try_engage(&mut self, position: Point, pushed: PushedEdges, at: Moment)
        ensures
            final(self).deep_view() == engage_tried(old(self).deep_view(), position, pushed, at),
    {
        proof {
            reveal(engage_tried);
        }
        let mut i: usize = 0;
        while i < self.settings.links.len() && !(self.settings.links[i].enabled
            && pushed.is_pushed(self.settings.links[i].local_side))
            invariant
                i <= self.settings.links@.len(),
                forall|j: int|
                    0 <= j < i ==> !((#[trigger] self.settings.links.deep_view()[j]).enabled
                        && pushed.at(self.settings.links.deep_view()[j].local_side)),
                *self == *old(self),
            decreases self.settings.links@.len() - i,
        {
            i += 1;
        }
        proof {
            lemma_first_pushed(self.settings.links.deep_view(), pushed, i as int);
        }
        if i < self.settings.links.len() {
            let link = self.settings.links[i].clone();
            self.push_link(link, position, at);
        }
    }

    #[verifier::spinoff_prover]
    fn push_link(&mut self, link: EdgeLink, position: Point, at: Moment)
        ensures
            final(self).deep_view() == link_pushed(
                old(self).deep_view(),
                link.deep_view(),
                position,
                at,
            ),
    {
        proof {
            reveal(link_pushed);
        }
        let due = self.edge_log_is_due(at);
        let displays = match self.session(&link.peer) {
            Some(session) => {
                if session.state.is_connected() {
                    Some(clone_displays(&session.displays))
                } else {
                    None
                }
            },
            None => None,
        };
        let displays = match displays {
            Some(displays) => displays,
            None => {
                if due {
                    self.edge_log_at = Some(at.ms);
                }
                return;
            },
        };
        // Refuse up front when the platform has already told us it cannot
        // capture. Trying anyway produces a handover that starts and dies within
        // milliseconds, which reads as "the mouse does not come over" and gives
        // the user nothing to act on.
        match crate::view::clone_text(&self.permission_hint) {
            Some(hint) => {
                if due {
                    self.edge_log_at = Some(at.ms);
                    self.warn(hint.as_str());
                }
            },
            None => {
                let options = CaptureOptions {
                    mouse: true,
                    keyboard: self.settings.input.relay_keyboard,
                    park_at: Some(position),
                };
                self.emit(Action::Engage { link, displays, position, options });
            },
        }
    }

    /// The local input is swallowed, or not for the given reason.
    #[verifier::spinoff_prover]
    pub fn on_engaged(
        &mut self,
        link: &EdgeLink,
        placed: PlacedPeer,
        entry: Point,
        error: Option<String>,
        at: Moment,
    )
        ensures
            final(self).deep_view() == engaged(
                old(self).deep_view(),
                link.deep_view(),
                placed.deep_view(),
                entry,
                error.deep_view(),
                at,
            ),
    {
        proof {
            reveal(engaged);
        }
        if let Some(reason) = error {
            let text = cat2("Could not take over the input: ", reason.as_str());
            self.alarm(text.as_str());
            return;
        }
        let name = self.session_name_of(&link.peer);
        let keyboard = self.settings.input.relay_keyboard;
        self.capture_active = true;
        // The platform moves the cursor while it captures; forget where it was
        // so the resulting jump is not mistaken for movement.
        self.last_cursor = None;
        self.control =
        ControlState::Controlling { peer: link.peer.clone(), placed, peer_cursor: entry };
        let text = cat3("Controlling ", name.as_str(), ".");
        self.inform(text.as_str());
        self.send_to(
            &link.peer,
            Message::Control(
                InputControl::Enter {
                    x: entry.x,
                    y: entry.y,
                    return_side: link.remote_side,
                    keyboard,
                },
            ),
        );
        self.publish(at);
    }

    /// The peer's cursor reached the edge that faces us, so control comes home.
    ///
    /// The peer releases its own half of the handover before sending this, which
    /// means the reply below is what puts *this* machine back into local mode.
    #[verifier::spinoff_prover]
    pub fn on_return_home(&mut self, peer: &DeviceId, point: Point, at: Moment)
        requires
            at.valid(),
        ensures
            final(self).deep_view() == returned_home(old(self).deep_view(), peer@, point, at),
    {
        proof {
            reveal(returned_home);
            reveal(brought_home);
        }
        let placed = match &self.control {
            ControlState::Controlling { peer: active, placed, .. } => {
                if active.same(peer) {
                    placed.clone()
                } else {
                    return;
                }
            },
            _ => return,
        };
        if self.input_ready {
            self.emit(Action::ReleaseCapture);
            self.emit(Action::WarpHome { placed, cursor: point });
        }
        self.control = ControlState::Local;
        self.capture_active = false;
        self.last_cursor = None;
        self.settle_until = Some(at.ms + HANDOVER_SETTLE_MS);
        self.send_to(peer, Message::Control(InputControl::Release { x: point.x, y: point.y }));
        self.inform("Control came back to this machine.");
        self.publish(at);
    }

    /// Whether an observation is the gesture by which the user takes control back.
    pub fn is_release_gesture(&mut self, event: &CapturedEvent, at: Moment) -> (out: bool)
        ensures
            out == release_gesture(old(self).deep_view(), event.deep_view(), at),
            final(self).deep_view() == tap_noted(old(self).deep_view(), event.deep_view(), at),
    {
        let (code, down, modifiers) = match event {
            CapturedEvent::Key { code, down, modifiers } => (*code, *down, *modifiers),
            _ => return false,
        };
        if !down {
            return false;
        }
        match self.settings.input.release_hotkey {
            ReleaseHotkey::Disabled => false,
            ReleaseHotkey::ScrollLockTwice => {
                if code.0 != key::ScrollLock {
                    return false;
                }
                let double = match self.last_scroll_lock {
                    Some(previous) => at.ms.saturating_sub(previous) < DOUBLE_TAP_WINDOW_MS,
                    None => false,
                };
                self.last_scroll_lock = Some(at.ms);
                double
            },
            ReleaseHotkey::CtrlAltEscape => code.0 == key::Escape && modifiers.ctrl()
                && modifiers.alt() && !modifiers.meta(),
            ReleaseHotkey::CtrlAltCmdEscape => code.0 == key::Escape && modifiers.ctrl()
                && modifiers.alt() && modifiers.meta(),
        }
    }

    /// The platform observed something. A movement comes with its scaled form.
    #[verifier::spinoff_prover]
    pub fn on_captured(&mut self, event: CapturedEvent, motion: Motion, at: Moment)
        requires
            at.valid(),
        ensures
            final(self).deep_view() == captured(
                old(self).deep_view(),
                event.deep_view(),
                motion,
                at,
            ),
    {
        proof {
            reveal(captured);
        }
        if let CapturedEvent::CaptureLost { reason } = &event {
            let text = cat2("Input capture stopped: ", reason.as_str());
            self.alarm(text.as_str());
            self.release_control(at);
            return;
        }
        let controlling = match &self.control {
            ControlState::Controlling { .. } => true,
            _ => false,
        };
        if !controlling {
            return;
        }
        if self.is_release_gesture(&event, at) {
            self.release_control(at);
        } else {
            self.relay(event, motion);
        }
    }

    #[verifier::spinoff_prover]
    fn relay(&mut self, event: CapturedEvent, motion: Motion)
        ensures
            final(self).deep_view() == event_relayed(
                old(self).deep_view(),
                event.deep_view(),
                motion,
            ),
    {
        proof {
            reveal(event_relayed);
        }
        let peer = match &self.control {
            ControlState::Controlling { peer, .. } => peer.clone(),
            _ => return,
        };
        let outgoing = match event {
            CapturedEvent::MoveDelta { .. } => {
                if let ControlState::Controlling { peer_cursor, .. } = &mut self.control {
                    *peer_cursor = motion.cursor;
                }
                InputEvent::MoveRel { dx: motion.dx, dy: motion.dy }
            },
            CapturedEvent::Button { button, down } => InputEvent::Button { button, down },
            CapturedEvent::Wheel { dx, dy } => InputEvent::Wheel { dx, dy },
            CapturedEvent::Key { code, down, modifiers } => InputEvent::Key {
                code,
                down,
                modifiers,
            },
            CapturedEvent::CaptureLost { .. } => return,
        };
        let i: usize = position(&self.sessions, &peer);
        if i < self.sessions.len() {
            let connection: u64 = self.sessions[i].connection;
            self.emit(Action::SendUrgent { connection, message: Message::Input(outgoing) });
        }
    }

    /// A peer sent input.
    #[verifier::spinoff_prover]
    pub fn on_remote_input(&mut self, event: InputEvent)
        ensures
            final(self).deep_view() == input_received(old(self).deep_view(), event),
    {
        proof {
            reveal(input_received);
        }
        let keys_allowed = match &self.control {
            ControlState::Controlled { keyboard, .. } => *keyboard,
            _ => return,
        };
        // The controllers can decline to relay keys, in which case the local
        // keyboard stays ours even while the pointer is borrowed.
        match event {
            InputEvent::Key { code, down, .. } => {
                if !keys_allowed {
                    return;
                }
                if down {
                    let present = holds_key(&self.held_keys, code);
                    press(&mut self.held_keys, code, present);
                } else {
                    lift_key(&mut self.held_keys, code);
                }
            },
            InputEvent::Button { button, down } => {
                if down {
                    let present = holds_button(&self.held_buttons, button);
                    press(&mut self.held_buttons, button, present);
                } else {
                    lift_button(&mut self.held_buttons, button);
                }
            },
            _ => {},
        }
        if self.input_ready {
            self.emit(Action::Inject(event));
        }
    }

    /// A peer drives the handover.
    #[verifier::spinoff_prover]
    pub fn on_control(&mut self, peer: DeviceId, control: InputControl, at: Moment)
        requires
            at.valid(),
        ensures
            final(self).deep_view() == control_received(old(self).deep_view(), peer@, control, at),
    {
        proof {
            reveal(control_received);
        }
        match control {
            InputControl::Enter { x, y, return_side, keyboard } => {
                self.on_enter(peer, Point { x, y }, return_side, keyboard, at);
            },
            InputControl::Release { x, y } => {
                self.on_release(Point { x, y }, at);
            },
            InputControl::ReturnHome { x, y } => {
                self.on_return_home(&peer, Point { x, y }, at);
            },
            InputControl::ResetKeys => {
                self.release_held_input();
            },
        }
    }

    #[verifier::spinoff_prover]
    fn on_enter(
        &mut self,
        peer: DeviceId,
        point: Point,
        return_side: Side,
        keyboard: bool,
        at: Moment,
    )
        requires
            at.valid(),
        ensures
            final(self).deep_view() == entered(
                old(self).deep_view(),
                peer@,
                point,
                return_side,
                keyboard,
                at,
            ),
    {
        proof {
            reveal(entered);
        }
        let name = self.session_name_of(&peer);
        if self.input_ready {
            self.emit(Action::Warp(point));
        }
        self.control = ControlState::Controlled { peer, return_side, keyboard };
        // The warp lands the cursor on the edge we are expected to
        // return through, so forget the previous sample and give the
        // move time to land before watching for an outward push.
        self.last_cursor = None;
        self.settle_until = Some(at.ms + HANDOVER_SETTLE_MS);
        let text = cat2(name.as_str(), " is controlling this machine.");
        self.inform(text.as_str());
        self.publish(at);
    }

    #[verifier::spinoff_prover]
    fn on_release(&mut self, point: Point, at: Moment)
        ensures
            final(self).deep_view() == let_go(old(self).deep_view(), point, at),
    {
        proof {
            reveal(let_go);
        }
        let ready = self.input_ready;
        self.release_held_input();
        if ready {
            self.emit(Action::Warp(point));
        }
        self.last_cursor = None;
        self.control = ControlState::Local;
        self.publish(at);
    }
}

} // verus!
