//! What handing the keyboard and mouse over promises to the two people at the machines.

use vstd::prelude::*;

use crate::codec::Incoming;
use crate::config::{EdgeLinkModel, ReleaseHotkey};
use crate::engine::control::{
    captured, control_received, cursor_sampled, cursor_ticked, engage_tried, engaged, entered,
    event_relayed, first_pushed, handed_back, input_received, let_go, lifted, link_pushed, pressed,
    returned_home,
};
use crate::engine::dispatch::{handled, heard_of, Event};
use crate::engine::rules::{brought_home, control_released, discovery_rebuilt, held_released};
use crate::engine::snapshot::{lemma_shows_itself, snapshot_of};
use crate::engine::state::{
    ActionModel, Command, ControlModel, EngineModel, Moment, Motion, SessionModel,
};
use crate::geom::{Point, Side};
use crate::identity::DeviceId;
use crate::input::{
    CaptureOptions, CapturedEvent, CapturedModel, InputEvent, KeyCode, Modifiers, MouseButton,
};
use crate::keyed::{find, law_find_after_put, law_put_leaves_others, lemma_index_of};
use crate::layout::{PlacedModel, PlacedPeer, PushedEdges};
use crate::protocol::{InputControl, Message, MessageModel};
use crate::view::NoticeModel;

verus! {

/// Whether the cursor goes out of the given edge.
pub open spec fn goes_out(pushed: PushedEdges, side: Side) -> bool {
    ||| side == Side::Left && pushed.left
    ||| side == Side::Right && pushed.right
    ||| side == Side::Top && pushed.top
    ||| side == Side::Bottom && pushed.bottom
}

/// Whether the link at position `i` is in use and the cursor goes out of its edge.
pub open spec fn leads_out(m: EngineModel, pushed: PushedEdges, i: int) -> bool {
    0 <= i < m.settings.links.len() && m.settings.links[i].enabled && goes_out(
        pushed,
        m.settings.links[i].local_side,
    )
}

/// Whether the link at position `i` is the first of those that lead out.
pub open spec fn leads_first(m: EngineModel, pushed: PushedEdges, i: int) -> bool {
    leads_out(m, pushed, i) && forall|j: int| 0 <= j < i ==> !leads_out(m, pushed, j)
}

/// Whether a handover may start: this machine owns its input, shares it, has a backend
/// that can swallow it, and the last handover has settled.
pub open spec fn may_hand_over(m: EngineModel, at: Moment) -> bool {
    &&& m.control is Local
    &&& m.settings.input.enabled
    &&& m.input_ready
    &&& m.settle_until matches Some(until) ==> at.ms >= until
}

/// The request that hands the input over to the machine of a link.
pub open spec fn request_for(m: EngineModel, link: EdgeLinkModel, position: Point) -> ActionModel {
    ActionModel::Engage {
        link,
        displays: find(m.sessions, link.peer)->Some_0.displays,
        position,
        options: CaptureOptions {
            mouse: true,
            keyboard: m.settings.input.relay_keyboard,
            park_at: Some(position),
        },
    }
}

proof fn lemma_first_leads(links: Seq<EdgeLinkModel>, pushed: PushedEdges)
    ensures
        0 <= first_pushed(links, pushed) <= links.len(),
        first_pushed(links, pushed) < links.len() ==> links[first_pushed(links, pushed)].enabled
            && goes_out(pushed, links[first_pushed(links, pushed)].local_side),
        forall|j: int|
            0 <= j < first_pushed(links, pushed) ==> !((#[trigger] links[j]).enabled && goes_out(
                pushed,
                links[j].local_side,
            )),
    decreases links.len(),
{
    if links.len() > 0 && !(links[0].enabled && pushed.at(links[0].local_side)) {
        let rest = links.drop_first();
        lemma_first_leads(rest, pushed);
        assert forall|j: int| 0 <= j < first_pushed(links, pushed) implies !((
        #[trigger] links[j]).enabled && goes_out(pushed, links[j].local_side)) by {
            if j > 0 {
                assert(rest[j - 1] == links[j]);
            }
        }
    }
}

/// The input is asked to go to a machine only where its link is the first one in use whose
/// edge the cursor goes out of, the machine is connected, nothing is missing to swallow
/// the input, and a handover may start at all.
#[verifier::spinoff_prover]
pub proof fn law_only_the_pushed_edge_hands_over(
    m: EngineModel,
    position: Point,
    pushed: PushedEdges,
    at: Moment,
    k: int,
)
    requires
        m.out.len() <= k < cursor_ticked(m, Some(position), pushed, at).out.len(),
        cursor_ticked(m, Some(position), pushed, at).out[k] is Engage,
    ensures
        may_hand_over(m, at),
        m.permission_hint is None,
        exists|i: int| #[trigger]
            leads_first(m, pushed, i) && (find(
                m.sessions,
                m.settings.links[i].peer,
            ) matches Some(session) && session.state is Connected) && cursor_ticked(
                m,
                Some(position),
                pushed,
                at,
            ).out[k] == request_for(m, m.settings.links[i], position),
{
    reveal(cursor_ticked);
    reveal(cursor_sampled);
    reveal(engage_tried);
    reveal(link_pushed);
    reveal(handed_back);
    reveal(held_released);
    reveal(discovery_rebuilt);
    lemma_first_leads(m.settings.links, pushed);
    let i = first_pushed(m.settings.links, pushed);
    if m.control is Local && i < m.settings.links.len() {
        assert(leads_first(m, pushed, i));
    }
}

/// Pushing the cursor out of an edge hands the input over to the machine beyond it: the
/// first link in use with that edge is the one that is asked for, with the displays of its
/// machine and with the local cursor parked where it is.
#[verifier::spinoff_prover]
pub proof fn law_the_pushed_edge_hands_over(
    m: EngineModel,
    position: Point,
    pushed: PushedEdges,
    at: Moment,
    i: int,
)
    requires
        may_hand_over(m, at),
        m.permission_hint is None,
        leads_first(m, pushed, i),
        find(m.sessions, m.settings.links[i].peer) matches Some(session)
            && session.state is Connected,
    ensures
        cursor_ticked(m, Some(position), pushed, at).out.last() == request_for(
            m,
            m.settings.links[i],
            position,
        ),
        cursor_ticked(m, Some(position), pushed, at).control is Local,
        cursor_ticked(m, Some(position), pushed, at).last_cursor == Some(position),
        !m.discovery_dirty ==> cursor_ticked(m, Some(position), pushed, at) == (EngineModel {
            last_cursor: Some(position),
            out: m.out.push(request_for(m, m.settings.links[i], position)),
            ..m
        }),
{
    reveal(cursor_ticked);
    reveal(cursor_sampled);
    reveal(engage_tried);
    reveal(link_pushed);
    reveal(discovery_rebuilt);
    lemma_first_leads(m.settings.links, pushed);
    let first = first_pushed(m.settings.links, pushed);
    assert(first >= i) by {
        if first < i {
            assert(leads_out(m, pushed, first));
        }
    }
    if first > i {
        assert(!(m.settings.links[i].enabled && goes_out(pushed, m.settings.links[i].local_side)));
    }
}

/// Where nothing is pushed out of, or a handover may not start, looking at the cursor only
/// remembers where it is.
#[verifier::spinoff_prover]
pub proof fn law_an_inner_cursor_asks_for_nothing(
    m: EngineModel,
    position: Point,
    pushed: PushedEdges,
    at: Moment,
)
    requires
        m.input_ready,
        !m.discovery_dirty,
        m.control is Local,
        !may_hand_over(m, at) || forall|i: int| !leads_out(m, pushed, i),
    ensures
        cursor_ticked(m, Some(position), pushed, at) == (EngineModel {
            last_cursor: Some(position),
            ..m
        }),
{
    reveal(cursor_ticked);
    reveal(cursor_sampled);
    reveal(engage_tried);
    lemma_first_leads(m.settings.links, pushed);
    let first = first_pushed(m.settings.links, pushed);
    if may_hand_over(m, at) {
        assert(!leads_out(m, pushed, first));
    }
}

/// Where a permission is missing, pushing at the edge of a connected machine says so, but
/// not more often than every three seconds.
#[verifier::spinoff_prover]
pub proof fn law_a_missing_permission_is_explained(
    m: EngineModel,
    position: Point,
    pushed: PushedEdges,
    at: Moment,
    i: int,
    hint: Seq<char>,
)
    requires
        may_hand_over(m, at),
        !m.discovery_dirty,
        m.permission_hint == Some(hint),
        leads_first(m, pushed, i),
        find(m.sessions, m.settings.links[i].peer) matches Some(session)
            && session.state is Connected,
    ensures
        (m.edge_log_at is None || at.ms - m.edge_log_at->Some_0 >= 3_000) ==> cursor_ticked(
            m,
            Some(position),
            pushed,
            at,
        ) == (EngineModel {
            last_cursor: Some(position),
            edge_log_at: Some(at.ms),
            out: m.out.push(ActionModel::Notify(NoticeModel::Warning { message: hint })),
            ..m
        }),
        (m.edge_log_at matches Some(last) && at.ms - last < 3_000) ==> cursor_ticked(
            m,
            Some(position),
            pushed,
            at,
        ) == (EngineModel { last_cursor: Some(position), ..m }),
{
    reveal(cursor_ticked);
    reveal(cursor_sampled);
    reveal(engage_tried);
    reveal(link_pushed);
    lemma_first_leads(m.settings.links, pushed);
    let first = first_pushed(m.settings.links, pushed);
    if first < i {
        assert(leads_out(m, pushed, first));
    }
    if first > i {
        assert(!(m.settings.links[i].enabled && goes_out(pushed, m.settings.links[i].local_side)));
    }
}

/// Without a position, or without an input backend, looking at the cursor does nothing but
/// start discovery where that is due.
#[verifier::spinoff_prover]
pub proof fn law_an_unknown_cursor_changes_nothing(
    m: EngineModel,
    position: Option<Point>,
    pushed: PushedEdges,
    at: Moment,
)
    requires
        position is None || !m.input_ready,
    ensures
        !m.discovery_dirty ==> cursor_ticked(m, position, pushed, at) == m,
        m.discovery_dirty ==> {
            let after = cursor_ticked(m, position, pushed, at);
            &&& after.out.len() > m.out.len()
            &&& after.out.take(m.out.len() as int) == m.out
            &&& after.out[m.out.len() as int] is StopDiscovery
            &&& after.table.len() == 0
            &&& !after.discovery_ready
            &&& (after.out.last() is StartDiscovery <==> m.settings.discoverable)
            &&& after.discovery_dirty == m.settings.discoverable
        },
{
    reveal(cursor_ticked);
    reveal(discovery_rebuilt);
    assert(m.discovery_dirty ==> cursor_ticked(m, position, pushed, at).out.take(
        m.out.len() as int,
    ) =~= m.out);
}

/// The peer drives this machine until its cursor goes out of the edge that it came in
/// through: then the peer is told where, everything is lifted, and this machine is its own
/// again. While the handover settles, or at any other edge, the cursor is only remembered.
#[verifier::spinoff_prover]
pub proof fn law_the_cursor_goes_back_through_its_edge(
    m: EngineModel,
    peer: Seq<char>,
    side: Side,
    keyboard: bool,
    session: SessionModel,
    position: Point,
    pushed: PushedEdges,
    at: Moment,
)
    requires
        m.input_ready,
        !m.discovery_dirty,
        m.control == (ControlModel::Controlled { peer, return_side: side, keyboard }),
        find(m.sessions, peer) == Some(session),
    ensures
        !goes_out(pushed, side) || (m.settle_until matches Some(until) && at.ms < until)
            ==> cursor_ticked(m, Some(position), pushed, at) == (EngineModel {
            last_cursor: Some(position),
            ..m
        }),
        goes_out(pushed, side) && (m.settle_until matches Some(until) ==> at.ms >= until) ==> {
            let after = cursor_ticked(m, Some(position), pushed, at);
            &&& after.control is Local
            &&& after.held_keys.len() == 0
            &&& after.held_buttons.len() == 0
            &&& after.out[m.out.len() as int] == (ActionModel::SendEither {
                connection: session.connection,
                message: MessageModel::Control(
                    InputControl::ReturnHome { x: position.x, y: position.y },
                ),
            })
            &&& after.out.len() == m.out.len() + 3 + m.held_keys.len() + m.held_buttons.len()
            &&& after.out[after.out.len() - 2] == ActionModel::Notify(
                NoticeModel::Info { message: "Control returned to this machine."@ },
            )
            &&& after.out.last() == ActionModel::Publish(snapshot_of(after, at.unix))
            &&& after == (EngineModel {
                last_cursor: Some(position),
                control: ControlModel::Local,
                held_keys: Seq::empty(),
                held_buttons: Seq::empty(),
                out: after.out,
                ..m
            })
        },
{
    reveal(cursor_ticked);
    reveal(cursor_sampled);
    reveal(handed_back);
    reveal(held_released);
    let after = cursor_ticked(m, Some(position), pushed, at);
    lemma_shows_itself(after, at.unix);
    if goes_out(pushed, side) && (m.settle_until matches Some(until) ==> at.ms >= until) {
        assert(after == (EngineModel {
            last_cursor: Some(position),
            control: ControlModel::Local,
            held_keys: Seq::empty(),
            held_buttons: Seq::empty(),
            out: after.out,
            ..m
        }));
    }
}

/// What is asked for when the input comes home from a machine: it is no longer swallowed,
/// the cursor comes back from where it was, and the machine is told to let go there.
pub open spec fn homecoming(
    m: EngineModel,
    peer: Seq<char>,
    placed: PlacedModel,
    cursor: Point,
) -> Seq<ActionModel> {
    let backend = if m.input_ready {
        seq![ActionModel::ReleaseCapture, ActionModel::WarpHome { placed, cursor }]
    } else {
        Seq::empty()
    };
    match find(m.sessions, peer) {
        Some(session) => backend.push(
            ActionModel::SendEither {
                connection: session.connection,
                message: MessageModel::Control(
                    InputControl::Release { x: cursor.x, y: cursor.y },
                ),
            },
        ),
        None => backend,
    }
}

/// Whether `after` is `m` with its input at home since the given moment. Nothing else is
/// different but what is asked for.
pub open spec fn at_home(m: EngineModel, after: EngineModel, at: Moment) -> bool {
    after == (EngineModel {
        control: ControlModel::Local,
        capture_active: false,
        last_cursor: None,
        settle_until: Some((at.ms + 300) as u64),
        last_scroll_lock: after.last_scroll_lock,
        out: after.out,
        ..m
    })
}

/// The user can always take the input back, by a command.
#[verifier::spinoff_prover]
pub proof fn law_the_command_brings_control_home(
    m: EngineModel,
    peer: Seq<char>,
    placed: PlacedModel,
    cursor: Point,
    draw: u64,
    at: Moment,
)
    requires
        m.control == (ControlModel::Controlling { peer, placed, peer_cursor: cursor }),
    ensures
        ({
            let after = handled(m, Event::Command(Command::ReleaseControl), draw, at);
            &&& at_home(m, after, at)
            &&& after.last_scroll_lock == m.last_scroll_lock
            &&& after.out == m.out + homecoming(m, peer, placed, cursor).push(
                ActionModel::Publish(snapshot_of(after, at.unix)),
            )
        }),
{
    reveal(control_released);
    reveal(brought_home);
    let after = handled(m, Event::Command(Command::ReleaseControl), draw, at);
    lemma_shows_itself(after, at.unix);
    assert(after.out =~= m.out + homecoming(m, peer, placed, cursor).push(
        ActionModel::Publish(snapshot_of(after, at.unix)),
    ));
}

/// Where the platform stops swallowing the input by itself, the input is at home as if the
/// user had taken it back, and the reason is shown.
#[verifier::spinoff_prover]
pub proof fn law_a_lost_capture_brings_control_home(
    m: EngineModel,
    reason: Seq<char>,
    event: CapturedEvent,
    motion: Motion,
    draw: u64,
    at: Moment,
)
    requires
        event.deep_view() == (CapturedModel::CaptureLost { reason }),
    ensures
        ({
            let after = handled(m, Event::Captured { event, motion }, draw, at);
            let notice = ActionModel::Notify(
                NoticeModel::Error { message: "Input capture stopped: "@ + reason },
            );
            match m.control {
                ControlModel::Controlling { peer, placed, peer_cursor } => {
                    &&& at_home(m, after, at)
                    &&& after.out == m.out.push(notice) + homecoming(
                        m,
                        peer,
                        placed,
                        peer_cursor,
                    ).push(ActionModel::Publish(snapshot_of(after, at.unix)))
                },
                _ => after == (EngineModel { out: m.out.push(notice), ..m }),
            }
        }),
{
    reveal(captured);
    reveal(control_released);
    reveal(brought_home);
    let after = handled(m, Event::Captured { event, motion }, draw, at);
    let notice = ActionModel::Notify(
        NoticeModel::Error { message: "Input capture stopped: "@ + reason },
    );
    lemma_shows_itself(after, at.unix);
    if let ControlModel::Controlling { peer, placed, peer_cursor } = m.control {
        assert(after.out =~= m.out.push(notice) + homecoming(m, peer, placed, peer_cursor).push(
            ActionModel::Publish(snapshot_of(after, at.unix)),
        ));
    }
}

/// Whether an observation is the way in which this user asks for the input back: two taps
/// of Scroll Lock within four tenths of a second, or Escape with Control and Alt, with or
/// without the command key, as the settings say.
pub open spec fn asks_for_release(
    hotkey: ReleaseHotkey,
    last_tap: Option<u64>,
    event: CapturedModel,
    at: Moment,
) -> bool {
    match event {
        CapturedModel::Key { code, down: true, modifiers } => {
            let ctrl_alt = modifiers.0 & 2 != 0 && modifiers.0 & 4 != 0;
            ||| hotkey == ReleaseHotkey::ScrollLockTwice && code.0 == 0x47 && (
            last_tap matches Some(tap) && at.ms - tap < 400)
            ||| hotkey == ReleaseHotkey::CtrlAltEscape && code.0 == 0x29 && ctrl_alt && modifiers.0
                & 8 == 0
            ||| hotkey == ReleaseHotkey::CtrlAltCmdEscape && code.0 == 0x29 && ctrl_alt
                && modifiers.0 & 8 != 0
        },
        _ => false,
    }
}

/// When a tap of Scroll Lock was last seen, where two of them are the way to ask.
pub open spec fn last_tap_after(m: EngineModel, event: CapturedModel, at: Moment) -> Option<u64> {
    match event {
        CapturedModel::Key { code, down: true, .. } => if code.0 == 0x47
            && m.settings.input.release_hotkey == ReleaseHotkey::ScrollLockTwice {
            Some(at.ms)
        } else {
            m.last_scroll_lock
        },
        _ => m.last_scroll_lock,
    }
}

/// The release gesture brings the input home, and it is not passed on to the machine that
/// was driven.
#[verifier::spinoff_prover]
#[verifier::rlimit(60)]
pub proof fn law_the_release_gesture_brings_control_home(
    m: EngineModel,
    peer: Seq<char>,
    placed: PlacedModel,
    cursor: Point,
    event: CapturedEvent,
    motion: Motion,
    draw: u64,
    at: Moment,
)
    requires
        m.control == (ControlModel::Controlling { peer, placed, peer_cursor: cursor }),
        asks_for_release(
            m.settings.input.release_hotkey,
            m.last_scroll_lock,
            event.deep_view(),
            at,
        ),
    ensures
        ({
            let after = handled(m, Event::Captured { event, motion }, draw, at);
            &&& at_home(m, after, at)
            &&& after.last_scroll_lock == last_tap_after(m, event.deep_view(), at)
            &&& after.out == m.out + homecoming(m, peer, placed, cursor).push(
                ActionModel::Publish(snapshot_of(after, at.unix)),
            )
        }),
{
    reveal(captured);
    reveal(control_released);
    reveal(brought_home);
    let after = handled(m, Event::Captured { event, motion }, draw, at);
    lemma_shows_itself(after, at.unix);
    assert(after.out =~= m.out + homecoming(m, peer, placed, cursor).push(
        ActionModel::Publish(snapshot_of(after, at.unix)),
    ));
}

/// The event by which a machine is told what was observed here: the same button, wheel or
/// key, in the same direction; movement comes scaled by the pointer speed.
pub open spec fn tells_of(observed: CapturedModel, told: InputEvent, motion: Motion) -> bool {
    match observed {
        CapturedModel::MoveDelta { .. } => told == (InputEvent::MoveRel {
            dx: motion.dx,
            dy: motion.dy,
        }),
        CapturedModel::Button { button, down } => told matches InputEvent::Button {
            button: b,
            down: d,
        } && b == button && d == down,
        CapturedModel::Wheel { dx, dy } => told matches InputEvent::Wheel { dx: x, dy: y } && x
            == dx && y == dy,
        CapturedModel::Key { code, down, modifiers } => told matches InputEvent::Key {
            code: c,
            down: d,
            modifiers: held,
        } && c == code && d == down && held == modifiers,
        CapturedModel::CaptureLost { .. } => false,
    }
}

/// While this machine drives another, everything that is observed here and is not the
/// release gesture goes to that machine unchanged, at once, and nowhere else. Movement
/// takes its cursor along; nothing else moves it.
#[verifier::spinoff_prover]
pub proof fn law_captured_input_reaches_the_driven_machine(
    m: EngineModel,
    peer: Seq<char>,
    placed: PlacedModel,
    cursor: Point,
    session: SessionModel,
    event: CapturedEvent,
    motion: Motion,
    draw: u64,
    at: Moment,
)
    requires
        m.control == (ControlModel::Controlling { peer, placed, peer_cursor: cursor }),
        find(m.sessions, peer) == Some(session),
        !(event.deep_view() is CaptureLost),
        !asks_for_release(
            m.settings.input.release_hotkey,
            m.last_scroll_lock,
            event.deep_view(),
            at,
        ),
    ensures
        ({
            let after = handled(m, Event::Captured { event, motion }, draw, at);
            &&& after.out.len() == m.out.len() + 1
            &&& after.out.take(m.out.len() as int) == m.out
            &&& after.out.last() matches ActionModel::SendUrgent { connection, message }
            &&& connection == session.connection
            &&& message matches MessageModel::Input(told)
            &&& tells_of(event.deep_view(), told, motion)
        }),
        handled(m, Event::Captured { event, motion }, draw, at) == (EngineModel {
            control: ControlModel::Controlling {
                peer,
                placed,
                peer_cursor: if event.deep_view() is MoveDelta {
                    motion.cursor
                } else {
                    cursor
                },
            },
            last_scroll_lock: last_tap_after(m, event.deep_view(), at),
            out: handled(m, Event::Captured { event, motion }, draw, at).out,
            ..m
        }),
{
    reveal(captured);
    reveal(event_relayed);
    let after = handled(m, Event::Captured { event, motion }, draw, at);
    assert(after.out.take(m.out.len() as int) =~= m.out);
}

/// While this machine drives nobody, what is observed here goes nowhere.
#[verifier::spinoff_prover]
pub proof fn law_captured_input_stays_without_a_handover(
    m: EngineModel,
    event: CapturedEvent,
    motion: Motion,
    draw: u64,
    at: Moment,
)
    requires
        !(m.control is Controlling),
        !(event.deep_view() is CaptureLost),
    ensures
        handled(m, Event::Captured { event, motion }, draw, at) == m,
{
    reveal(captured);
}

/// Once the local input is swallowed, this machine drives the one of the link, from the
/// entry point on. That machine is told to take over there, through which of its edges the
/// cursor comes back, and whether keys will come.
#[verifier::spinoff_prover]
pub proof fn law_a_swallowed_input_drives_the_peer(
    m: EngineModel,
    link: crate::config::EdgeLink,
    placed: PlacedPeer,
    entry: Point,
    session: SessionModel,
    draw: u64,
    at: Moment,
)
    requires
        find(m.sessions, link.deep_view().peer) == Some(session),
    ensures
        ({
            let event = Event::Engaged { link, placed, entry, error: None };
            let after = handled(m, event, draw, at);
            &&& after == (EngineModel {
                control: ControlModel::Controlling {
                    peer: link.deep_view().peer,
                    placed: placed.deep_view(),
                    peer_cursor: entry,
                },
                capture_active: true,
                last_cursor: None,
                out: after.out,
                ..m
            })
            &&& after.out == m.out + seq![
                ActionModel::Notify(
                    NoticeModel::Info { message: "Controlling "@ + session.info.name + "."@ },
                ),
                ActionModel::SendEither {
                    connection: session.connection,
                    message: MessageModel::Control(
                        InputControl::Enter {
                            x: entry.x,
                            y: entry.y,
                            return_side: link.deep_view().remote_side,
                            keyboard: m.settings.input.relay_keyboard,
                        },
                    ),
                },
                ActionModel::Publish(snapshot_of(after, at.unix)),
            ]
        }),
{
    reveal(engaged);
    let event = Event::Engaged { link, placed, entry, error: None };
    let after = handled(m, event, draw, at);
    lemma_shows_itself(after, at.unix);
    assert(after.out =~= m.out + seq![
        after.out[m.out.len() as int],
        after.out[m.out.len() as int + 1],
        after.out[m.out.len() as int + 2],
    ]);
}

/// Where the local input could not be swallowed, nothing is handed over; the reason is
/// shown.
#[verifier::spinoff_prover]
pub proof fn law_a_refused_capture_hands_nothing_over(
    m: EngineModel,
    link: crate::config::EdgeLink,
    placed: PlacedPeer,
    entry: Point,
    error: Option<String>,
    reason: Seq<char>,
    draw: u64,
    at: Moment,
)
    requires
        error.deep_view() == Some(reason),
    ensures
        handled(m, Event::Engaged { link, placed, entry, error }, draw, at) == (EngineModel {
            out: m.out.push(
                ActionModel::Notify(
                    NoticeModel::Error { message: "Could not take over the input: "@ + reason },
                ),
            ),
            ..m
        }),
{
    reveal(engaged);
}

/// Whether `after` has the sessions of `m`, of which the one with `peer` was just heard of.
pub open spec fn heard_from(m: EngineModel, after: EngineModel, peer: Seq<char>, at: Moment) -> bool {
    forall|id: Seq<char>| #[trigger]
        find(after.sessions, id) == match find(m.sessions, id) {
            Some(session) => Some(
                if id == peer {
                    SessionModel { last_rx: at.ms, ..session }
                } else {
                    session
                },
            ),
            None => None,
        }
}

/// Hearing of a peer leaves everything but the time of its session.
pub proof fn lemma_heard_from(m: EngineModel, peer: Seq<char>, at: Moment)
    ensures
        heard_of(m, peer, at) == (EngineModel { sessions: heard_of(m, peer, at).sessions, ..m }),
        heard_from(m, heard_of(m, peer, at), peer, at),
{
    reveal(heard_of);
    lemma_index_of(m.sessions, peer);
    if let Some(session) = find(m.sessions, peer) {
        let next = SessionModel { last_rx: at.ms, ..session };
        law_find_after_put(m.sessions, next);
        assert forall|id: Seq<char>| #[trigger]
            find(heard_of(m, peer, at).sessions, id) == match find(m.sessions, id) {
                Some(session) => Some(
                    if id == peer {
                        SessionModel { last_rx: at.ms, ..session }
                    } else {
                        session
                    },
                ),
                None => None,
            } by {
            if id != peer {
                law_put_leaves_others(m.sessions, next, id);
            }
        }
    }
}

/// A message from a peer.
pub open spec fn says(peer: DeviceId, message: Message, extent: Option<(u64, u64)>) -> Event {
    Event::Incoming { peer, item: Incoming::Message(message), extent }
}

/// Whether `code` is down after an event, where `held` says which were down before.
pub open spec fn key_down_after(held: bool, event: InputEvent, code: KeyCode) -> bool {
    match event {
        InputEvent::Key { code: c, down, .. } => if c == code {
            down
        } else {
            held
        },
        _ => held,
    }
}

/// Whether `button` is down after an event, where `held` says which were down before.
pub open spec fn button_down_after(held: bool, event: InputEvent, button: MouseButton) -> bool {
    match event {
        InputEvent::Button { button: b, down } => if b == button {
            down
        } else {
            held
        },
        _ => held,
    }
}

proof fn lemma_lifted_items<T>(items: Seq<T>, item: T)
    ensures
        forall|x: T| #[trigger]
            lifted(items, item).contains(x) <==> items.contains(x) && x != item,
    decreases items.len(),
{
    if items.len() > 0 {
        let head = items.drop_last();
        lemma_lifted_items(head, item);
        let l = lifted(items, item);
        let lh = lifted(head, item);
        assert forall|x: T| #[trigger] l.contains(x) <==> items.contains(x) && x != item by {
            assert(lh.contains(x) <==> head.contains(x) && x != item);
            if l.contains(x) {
                let i = choose|i: int| 0 <= i < l.len() && l[i] == x;
                if items.last() != item && i == l.len() - 1 {
                    assert(items[items.len() - 1] == x);
                } else {
                    assert(lh[i] == x);
                    let j = choose|j: int| 0 <= j < head.len() && head[j] == x;
                    assert(items[j] == x);
                }
            }
            if items.contains(x) && x != item {
                let i = choose|i: int| 0 <= i < items.len() && items[i] == x;
                if i == items.len() - 1 {
                    assert(l[l.len() - 1] == x);
                } else {
                    assert(head[i] == x);
                    let j = choose|j: int| 0 <= j < lh.len() && lh[j] == x;
                    assert(l[j] == x);
                }
            }
        }
    }
}

proof fn lemma_pressed_items<T>(items: Seq<T>, item: T)
    ensures
        forall|x: T| #[trigger]
            pressed(items, item).contains(x) <==> items.contains(x) || x == item,
{
    let p = pressed(items, item);
    assert forall|x: T| #[trigger] p.contains(x) <==> items.contains(x) || x == item by {
        if !items.contains(item) {
            if p.contains(x) {
                let i = choose|i: int| 0 <= i < p.len() && p[i] == x;
                if i < items.len() {
                    assert(items[i] == x);
                }
            }
            if items.contains(x) {
                let i = choose|i: int| 0 <= i < items.len() && items[i] == x;
                assert(p[i] == x);
            }
            assert(p[p.len() - 1] == item);
        }
    }
}

/// While a peer drives this machine, the input that it sends happens here exactly as it
/// was sent, and what is held follows it key by key and button by button. Keys count only
/// where that peer relays them.
#[verifier::spinoff_prover]
pub proof fn law_remote_input_happens_here(
    m: EngineModel,
    peer: DeviceId,
    event: InputEvent,
    extent: Option<(u64, u64)>,
    draw: u64,
    at: Moment,
)
    requires
        m.control matches ControlModel::Controlled { keyboard, .. } && (keyboard || !(event is Key)),
    ensures
        ({
            let after = handled(m, says(peer, Message::Input(event), extent), draw, at);
            &&& after.out == if m.input_ready {
                m.out.push(ActionModel::Inject(event))
            } else {
                m.out
            }
            &&& forall|code: KeyCode| #[trigger]
                after.held_keys.contains(code) == key_down_after(
                    m.held_keys.contains(code),
                    event,
                    code,
                )
            &&& forall|button: MouseButton| #[trigger]
                after.held_buttons.contains(button) == button_down_after(
                    m.held_buttons.contains(button),
                    event,
                    button,
                )
            &&& heard_from(m, after, peer@, at)
            &&& after == (EngineModel {
                sessions: after.sessions,
                held_keys: after.held_keys,
                held_buttons: after.held_buttons,
                out: after.out,
                ..m
            })
        }),
{
    reveal(input_received);
    lemma_heard_from(m, peer@, at);
    match event {
        InputEvent::Key { code, .. } => {
            lemma_pressed_items(m.held_keys, code);
            lemma_lifted_items(m.held_keys, code);
        },
        InputEvent::Button { button, .. } => {
            lemma_pressed_items(m.held_buttons, button);
            lemma_lifted_items(m.held_buttons, button);
        },
        _ => {},
    }
}

/// Input from a peer while none drives this machine, and keys from one that relays none,
/// do nothing here.
#[verifier::spinoff_prover]
pub proof fn law_other_remote_input_does_nothing(
    m: EngineModel,
    peer: DeviceId,
    event: InputEvent,
    extent: Option<(u64, u64)>,
    draw: u64,
    at: Moment,
)
    requires
        m.control matches ControlModel::Controlled { keyboard, .. } ==> !keyboard && event is Key,
    ensures
        ({
            let after = handled(m, says(peer, Message::Input(event), extent), draw, at);
            &&& heard_from(m, after, peer@, at)
            &&& after == (EngineModel { sessions: after.sessions, ..m })
        }),
{
    reveal(input_received);
    lemma_heard_from(m, peer@, at);
}

/// The events that lift everything that is held, where there is a backend to do it.
pub open spec fn lifts_everything(m: EngineModel, asked: Seq<ActionModel>) -> bool {
    if m.input_ready {
        &&& asked.len() == m.held_keys.len() + m.held_buttons.len()
        &&& forall|i: int|
            0 <= i < m.held_keys.len() ==> #[trigger] asked[i] == ActionModel::Inject(
                InputEvent::Key {
                    code: m.held_keys[i],
                    down: false,
                    modifiers: Modifiers(0),
                },
            )
        &&& forall|i: int|
            0 <= i < m.held_buttons.len() ==> asked[m.held_keys.len() + i] == ActionModel::Inject(
                InputEvent::Button { button: #[trigger] m.held_buttons[i], down: false },
            )
    } else {
        asked.len() == 0
    }
}

pub proof fn lemma_lifts_everything(m: EngineModel)
    ensures
        held_released(m) == (EngineModel {
            held_keys: Seq::empty(),
            held_buttons: Seq::empty(),
            out: held_released(m).out,
            ..m
        }),
        held_released(m).out.len() >= m.out.len(),
        held_released(m).out.take(m.out.len() as int) == m.out,
        lifts_everything(m, held_released(m).out.skip(m.out.len() as int)),
{
    reveal(held_released);
    assert(held_released(m).out.take(m.out.len() as int) =~= m.out);
}

/// A peer that takes over the cursor puts it where it says, drives this machine from then
/// on, and will get it back through the edge that it named.
#[verifier::spinoff_prover]
#[verifier::rlimit(60)]
pub proof fn law_a_peer_takes_over_where_it_enters(
    m: EngineModel,
    peer: DeviceId,
    point: Point,
    return_side: Side,
    keyboard: bool,
    session: SessionModel,
    extent: Option<(u64, u64)>,
    draw: u64,
    at: Moment,
)
    requires
        find(m.sessions, peer@) == Some(session),
    ensures
        ({
            let control = InputControl::Enter { x: point.x, y: point.y, return_side, keyboard };
            let after = handled(m, says(peer, Message::Control(control), extent), draw, at);
            &&& heard_from(m, after, peer@, at)
            &&& after == (EngineModel {
                sessions: after.sessions,
                control: ControlModel::Controlled { peer: peer@, return_side, keyboard },
                last_cursor: None,
                settle_until: Some((at.ms + 300) as u64),
                out: after.out,
                ..m
            })
            &&& after.out == m.out + (if m.input_ready {
                seq![ActionModel::Warp(point)]
            } else {
                Seq::empty()
            }) + seq![
                ActionModel::Notify(
                    NoticeModel::Info {
                        message: session.info.name + " is controlling this machine."@,
                    },
                ),
                ActionModel::Publish(snapshot_of(after, at.unix)),
            ]
        }),
{
    reveal(control_received);
    reveal(entered);
    lemma_heard_from(m, peer@, at);
    let control = InputControl::Enter { x: point.x, y: point.y, return_side, keyboard };
    let after = handled(m, says(peer, Message::Control(control), extent), draw, at);
    lemma_shows_itself(after, at.unix);
    assert(find(heard_of(m, peer@, at).sessions, peer@) is Some);
    assert(after.out =~= m.out + (if m.input_ready {
        seq![ActionModel::Warp(point)]
    } else {
        Seq::empty()
    }) + seq![
        ActionModel::Notify(
            NoticeModel::Info { message: session.info.name + " is controlling this machine."@ },
        ),
        ActionModel::Publish(snapshot_of(after, at.unix)),
    ]);
}

/// A peer that gives the cursor back parks it where it says, with everything lifted before
/// that, and this machine is its own again.
#[verifier::spinoff_prover]
pub proof fn law_a_peer_lets_go_where_it_says(
    m: EngineModel,
    peer: DeviceId,
    point: Point,
    extent: Option<(u64, u64)>,
    draw: u64,
    at: Moment,
)
    ensures
        ({
            let control = InputControl::Release { x: point.x, y: point.y };
            let after = handled(m, says(peer, Message::Control(control), extent), draw, at);
            let parking: int = if m.input_ready {
                2
            } else {
                1
            };
            &&& heard_from(m, after, peer@, at)
            &&& after == (EngineModel {
                sessions: after.sessions,
                control: ControlModel::Local,
                last_cursor: None,
                held_keys: Seq::empty(),
                held_buttons: Seq::empty(),
                out: after.out,
                ..m
            })
            &&& after.out.len() >= m.out.len() + parking
            &&& after.out.take(m.out.len() as int) == m.out
            &&& lifts_everything(
                m,
                after.out.subrange(m.out.len() as int, after.out.len() - parking),
            )
            &&& m.input_ready ==> after.out[after.out.len() - 2] == ActionModel::Warp(point)
            &&& after.out.last() == ActionModel::Publish(snapshot_of(after, at.unix))
        }),
{
    reveal(control_received);
    reveal(let_go);
    lemma_heard_from(m, peer@, at);
    let heard = heard_of(m, peer@, at);
    lemma_lifts_everything(heard);
    let calm = held_released(heard);
    let control = InputControl::Release { x: point.x, y: point.y };
    let after = handled(m, says(peer, Message::Control(control), extent), draw, at);
    let parking: int = if m.input_ready {
        2
    } else {
        1
    };
    lemma_shows_itself(after, at.unix);
    assert(after.out.take(m.out.len() as int) =~= calm.out.take(m.out.len() as int));
    assert(after.out.subrange(m.out.len() as int, after.out.len() - parking) =~= calm.out.skip(
        m.out.len() as int,
    ));
}

/// The peer that this machine drives sends the cursor back: the input is at home, the
/// cursor comes in from where the peer says, and the peer is told to let go there.
#[verifier::spinoff_prover]
pub proof fn law_a_returned_cursor_brings_control_home(
    m: EngineModel,
    peer: DeviceId,
    placed: PlacedModel,
    cursor: Point,
    point: Point,
    extent: Option<(u64, u64)>,
    draw: u64,
    at: Moment,
)
    requires
        m.control == (ControlModel::Controlling { peer: peer@, placed, peer_cursor: cursor }),
    ensures
        ({
            let control = InputControl::ReturnHome { x: point.x, y: point.y };
            let after = handled(m, says(peer, Message::Control(control), extent), draw, at);
            &&& heard_from(m, after, peer@, at)
            &&& at_home(EngineModel { sessions: after.sessions, ..m }, after, at)
            &&& after.last_scroll_lock == m.last_scroll_lock
            &&& after.out == m.out + homecoming(m, peer@, placed, point) + seq![
                ActionModel::Notify(
                    NoticeModel::Info { message: "Control came back to this machine."@ },
                ),
                ActionModel::Publish(snapshot_of(after, at.unix)),
            ]
        }),
{
    reveal(control_received);
    reveal(returned_home);
    reveal(brought_home);
    lemma_heard_from(m, peer@, at);
    assert(find(heard_of(m, peer@, at).sessions, peer@) is Some <==> find(
        m.sessions,
        peer@,
    ) is Some);
    let control = InputControl::ReturnHome { x: point.x, y: point.y };
    let after = handled(m, says(peer, Message::Control(control), extent), draw, at);
    lemma_shows_itself(after, at.unix);
    assert(after.out =~= m.out + homecoming(m, peer@, placed, point) + seq![
        ActionModel::Notify(
            NoticeModel::Info { message: "Control came back to this machine."@ },
        ),
        ActionModel::Publish(snapshot_of(after, at.unix)),
    ]);
}

/// A peer that is not driven cannot end a handover, and one that asks for it gets
/// everything lifted without a change of hands.
#[verifier::spinoff_prover]
pub proof fn law_other_control_messages_change_no_hands(
    m: EngineModel,
    peer: DeviceId,
    point: Point,
    extent: Option<(u64, u64)>,
    draw: u64,
    at: Moment,
)
    ensures
        ({
            let control = InputControl::ReturnHome { x: point.x, y: point.y };
            let after = handled(m, says(peer, Message::Control(control), extent), draw, at);
            (m.control matches ControlModel::Controlling { peer: driven, .. } ==> driven != peer@)
                ==> heard_from(m, after, peer@, at) && after == (EngineModel {
                sessions: after.sessions,
                ..m
            })
        }),
        ({
            let after = handled(
                m,
                says(peer, Message::Control(InputControl::ResetKeys), extent),
                draw,
                at,
            );
            &&& heard_from(m, after, peer@, at)
            &&& after == (EngineModel {
                sessions: after.sessions,
                held_keys: Seq::empty(),
                held_buttons: Seq::empty(),
                out: after.out,
                ..m
            })
            &&& after.out.len() >= m.out.len()
            &&& after.out.take(m.out.len() as int) == m.out
            &&& lifts_everything(m, after.out.skip(m.out.len() as int))
        }),
{
    reveal(control_received);
    reveal(returned_home);
    lemma_heard_from(m, peer@, at);
    lemma_lifts_everything(heard_of(m, peer@, at));
}

} // verus!
