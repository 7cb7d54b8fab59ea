//! Quartz event taps.

use vstd::prelude::*;

use crate::input::{Modifiers, MouseButton};

verus! {

pub const K_CG_EVENT_LEFT_MOUSE_DOWN: u32 = 1;

pub const K_CG_EVENT_LEFT_MOUSE_UP: u32 = 2;

pub const K_CG_EVENT_RIGHT_MOUSE_DOWN: u32 = 3;

pub const K_CG_EVENT_RIGHT_MOUSE_UP: u32 = 4;

pub const K_CG_EVENT_MOUSE_MOVED: u32 = 5;

pub const K_CG_EVENT_LEFT_MOUSE_DRAGGED: u32 = 6;

pub const K_CG_EVENT_RIGHT_MOUSE_DRAGGED: u32 = 7;

pub const K_CG_EVENT_KEY_DOWN: u32 = 10;

pub const K_CG_EVENT_KEY_UP: u32 = 11;

pub const K_CG_EVENT_FLAGS_CHANGED: u32 = 12;

pub const K_CG_EVENT_SCROLL_WHEEL: u32 = 22;

pub const K_CG_EVENT_OTHER_MOUSE_DOWN: u32 = 25;

pub const K_CG_EVENT_OTHER_MOUSE_UP: u32 = 26;

pub const K_CG_EVENT_OTHER_MOUSE_DRAGGED: u32 = 27;

pub const K_CG_EVENT_TAP_DISABLED_BY_TIMEOUT: u32 = 0xffff_fffe;

pub const K_CG_EVENT_TAP_DISABLED_BY_USER_INPUT: u32 = 0xffff_ffff;

pub const K_CG_MOUSE_BUTTON_LEFT: u32 = 0;

pub const K_CG_MOUSE_BUTTON_RIGHT: u32 = 1;

pub const K_CG_MOUSE_BUTTON_CENTER: u32 = 2;

pub const K_CG_EVENT_FLAG_MASK_ALPHA_SHIFT: u64 = 0x0001_0000;

pub const K_CG_EVENT_FLAG_MASK_SHIFT: u64 = 0x0002_0000;

pub const K_CG_EVENT_FLAG_MASK_CONTROL: u64 = 0x0004_0000;

pub const K_CG_EVENT_FLAG_MASK_ALTERNATE: u64 = 0x0008_0000;

pub const K_CG_EVENT_FLAG_MASK_COMMAND: u64 = 0x0010_0000;

pub const K_CG_EVENT_FLAG_MASK_NUMERIC_PAD: u64 = 0x0020_0000;

/// Stamped on every event we synthesise so the tap can ignore it.
pub const INJECT_TAG: i64 = 0x5544_4b31;

pub const BTN_LEFT: u8 = 1;

pub const BTN_RIGHT: u8 = 2;

pub const BTN_MIDDLE: u8 = 4;

/// Whether the tap wants events of a type.
pub open spec fn tapped(event_type: u64) -> bool {
    (1 <= event_type <= 7) || (10 <= event_type <= 12) || event_type == 22 || (25 <= event_type
        <= 27)
}

/// The event types that the tap wants, one bit each.
pub fn event_mask() -> (out: u64)
    ensures
        forall|t: u64| t < 64 ==> ((#[trigger] (out >> t)) & 1 == 1 <==> tapped(t)),
{
    let mask: u64 = 0x0e40_1cfe;
    assert forall|t: u64| t < 64 implies ((#[trigger] (mask >> t)) & 1 == 1 <==> tapped(t)) by {
        assert(t < 64 ==> (((0x0e40_1cfeu64 >> t) & 1 == 1) <==> ((1 <= t && t <= 7) || (10 <= t
            && t <= 12) || t == 22 || (25 <= t && t <= 27)))) by (bit_vector);
    }
    mask
}

/// The button of a button event.
pub open spec fn event_button(event_type: u32) -> MouseButton {
    if event_type == K_CG_EVENT_LEFT_MOUSE_DOWN || event_type == K_CG_EVENT_LEFT_MOUSE_UP {
        MouseButton::Left
    } else if event_type == K_CG_EVENT_RIGHT_MOUSE_DOWN || event_type
        == K_CG_EVENT_RIGHT_MOUSE_UP {
        MouseButton::Right
    } else {
        MouseButton::Middle
    }
}

/// The button of a button event.
pub fn button_for(event_type: u32) -> (out: MouseButton)
    ensures
        out == event_button(event_type),
{
    if event_type == K_CG_EVENT_LEFT_MOUSE_DOWN || event_type == K_CG_EVENT_LEFT_MOUSE_UP {
        MouseButton::Left
    } else if event_type == K_CG_EVENT_RIGHT_MOUSE_DOWN || event_type
        == K_CG_EVENT_RIGHT_MOUSE_UP {
        MouseButton::Right
    } else {
        MouseButton::Middle
    }
}

/// The flag that a modifier key drives; zero for other keys.
pub open spec fn modifier_mask(virtual_key: u16) -> u64 {
    match virtual_key {
        0x38 => K_CG_EVENT_FLAG_MASK_SHIFT,
        0x3c => K_CG_EVENT_FLAG_MASK_SHIFT,
        0x3b => K_CG_EVENT_FLAG_MASK_CONTROL,
        0x3e => K_CG_EVENT_FLAG_MASK_CONTROL,
        0x3a => K_CG_EVENT_FLAG_MASK_ALTERNATE,
        0x3d => K_CG_EVENT_FLAG_MASK_ALTERNATE,
        0x37 => K_CG_EVENT_FLAG_MASK_COMMAND,
        0x36 => K_CG_EVENT_FLAG_MASK_COMMAND,
        0x39 => K_CG_EVENT_FLAG_MASK_ALPHA_SHIFT,
        _ => 0,
    }
}

/// Whether a modifier key is down, by the flags of its event.
pub fn modifier_is_down(virtual_key: u16, flags: u64) -> (out: bool)
    ensures
        out == (modifier_mask(virtual_key) != 0 && flags & modifier_mask(virtual_key) != 0),
{
    let mask: u64 = match virtual_key {
        0x38 => K_CG_EVENT_FLAG_MASK_SHIFT,
        0x3c => K_CG_EVENT_FLAG_MASK_SHIFT,
        0x3b => K_CG_EVENT_FLAG_MASK_CONTROL,
        0x3e => K_CG_EVENT_FLAG_MASK_CONTROL,
        0x3a => K_CG_EVENT_FLAG_MASK_ALTERNATE,
        0x3d => K_CG_EVENT_FLAG_MASK_ALTERNATE,
        0x37 => K_CG_EVENT_FLAG_MASK_COMMAND,
        0x36 => K_CG_EVENT_FLAG_MASK_COMMAND,
        0x39 => K_CG_EVENT_FLAG_MASK_ALPHA_SHIFT,
        _ => 0,
    };
    mask != 0 && flags & mask != 0
}

/// The modifiers that are held, by the flags of an event.
pub fn modifiers_from(flags: u64) -> (out: Modifiers)
    ensures
        out.holds(Modifiers::SHIFT) == (flags & K_CG_EVENT_FLAG_MASK_SHIFT != 0),
        out.holds(Modifiers::CTRL) == (flags & K_CG_EVENT_FLAG_MASK_CONTROL != 0),
        out.holds(Modifiers::ALT) == (flags & K_CG_EVENT_FLAG_MASK_ALTERNATE != 0),
        out.holds(Modifiers::META) == (flags & K_CG_EVENT_FLAG_MASK_COMMAND != 0),
        out.holds(Modifiers::CAPS_LOCK) == (flags & K_CG_EVENT_FLAG_MASK_ALPHA_SHIFT != 0),
        out.holds(Modifiers::NUM_LOCK) == (flags & K_CG_EVENT_FLAG_MASK_NUMERIC_PAD != 0),
        out.0 < 64,
{
    modifiers_of(
        flags & K_CG_EVENT_FLAG_MASK_SHIFT != 0,
        flags & K_CG_EVENT_FLAG_MASK_CONTROL != 0,
        flags & K_CG_EVENT_FLAG_MASK_ALTERNATE != 0,
        flags & K_CG_EVENT_FLAG_MASK_COMMAND != 0,
        flags & K_CG_EVENT_FLAG_MASK_ALPHA_SHIFT != 0,
        flags & K_CG_EVENT_FLAG_MASK_NUMERIC_PAD != 0,
    )
}

/// The set of the modifiers that are held.
pub fn modifiers_of(
    shift: bool,
    ctrl: bool,
    alt: bool,
    meta: bool,
    caps_lock: bool,
    num_lock: bool,
) -> (out: Modifiers)
    ensures
        out.holds(Modifiers::SHIFT) == shift,
        out.holds(Modifiers::CTRL) == ctrl,
        out.holds(Modifiers::ALT) == alt,
        out.holds(Modifiers::META) == meta,
        out.holds(Modifiers::CAPS_LOCK) == caps_lock,
        out.holds(Modifiers::NUM_LOCK) == num_lock,
        out.0 < 64,
{
    let a: u8 = if shift {
        1
    } else {
        0
    };
    let b: u8 = if ctrl {
        2
    } else {
        0
    };
    let c: u8 = if alt {
        4
    } else {
        0
    };
    let d: u8 = if meta {
        8
    } else {
        0
    };
    let e: u8 = if caps_lock {
        16
    } else {
        0
    };
    let f: u8 = if num_lock {
        32
    } else {
        0
    };
    let all: u8 = a | b | c | d | e | f;
    assert((a == 0 || a == 1) && (b == 0 || b == 2) && (c == 0 || c == 4) && (d == 0 || d == 8) && (
    e == 0 || e == 16) && (f == 0 || f == 32) ==> ((a | b | c | d | e | f) & 1 == a && (a | b | c
        | d | e | f) & 2 == b && (a | b | c | d | e | f) & 4 == c && (a | b | c | d | e | f) & 8
        == d && (a | b | c | d | e | f) & 16 == e && (a | b | c | d | e | f) & 32 == f && (a | b
        | c | d | e | f) < 64)) by (bit_vector);
    Modifiers(all)
}

/// The type of a movement while the given buttons are held.
pub fn drag_event_type(buttons: u8) -> (out: u32)
    ensures
        out == if buttons & BTN_LEFT != 0 {
            K_CG_EVENT_LEFT_MOUSE_DRAGGED
        } else if buttons & BTN_RIGHT != 0 {
            K_CG_EVENT_RIGHT_MOUSE_DRAGGED
        } else if buttons & BTN_MIDDLE != 0 {
            K_CG_EVENT_OTHER_MOUSE_DRAGGED
        } else {
            K_CG_EVENT_MOUSE_MOVED
        },
{
    if buttons & BTN_LEFT != 0 {
        K_CG_EVENT_LEFT_MOUSE_DRAGGED
    } else if buttons & BTN_RIGHT != 0 {
        K_CG_EVENT_RIGHT_MOUSE_DRAGGED
    } else if buttons & BTN_MIDDLE != 0 {
        K_CG_EVENT_OTHER_MOUSE_DRAGGED
    } else {
        K_CG_EVENT_MOUSE_MOVED
    }
}

/// The button of a movement while the given buttons are held.
pub fn drag_button(buttons: u8) -> (out: u32)
    ensures
        out == if buttons & BTN_LEFT != 0 {
            K_CG_MOUSE_BUTTON_LEFT
        } else if buttons & BTN_RIGHT != 0 {
            K_CG_MOUSE_BUTTON_RIGHT
        } else {
            K_CG_MOUSE_BUTTON_CENTER
        },
{
    if buttons & BTN_LEFT != 0 {
        K_CG_MOUSE_BUTTON_LEFT
    } else if buttons & BTN_RIGHT != 0 {
        K_CG_MOUSE_BUTTON_RIGHT
    } else {
        K_CG_MOUSE_BUTTON_CENTER
    }
}

/// How a button event is posted: its type, its button and the bit under which it is held.
#[derive(Clone, Copy, Debug, PartialEq, Eq, Structural)]
pub struct ButtonPlan {
    pub event_type: u32,
    pub button: u32,
    pub bit: u8,
}

/// How a button event is posted. Buttons beyond the first two count as the middle one.
pub open spec fn button_plan_for(button: MouseButton, down: bool) -> ButtonPlan {
    match button {
        MouseButton::Left => ButtonPlan {
            event_type: if down {
                K_CG_EVENT_LEFT_MOUSE_DOWN
            } else {
                K_CG_EVENT_LEFT_MOUSE_UP
            },
            button: K_CG_MOUSE_BUTTON_LEFT,
            bit: BTN_LEFT,
        },
        MouseButton::Right => ButtonPlan {
            event_type: if down {
                K_CG_EVENT_RIGHT_MOUSE_DOWN
            } else {
                K_CG_EVENT_RIGHT_MOUSE_UP
            },
            button: K_CG_MOUSE_BUTTON_RIGHT,
            bit: BTN_RIGHT,
        },
        _ => ButtonPlan {
            event_type: if down {
                K_CG_EVENT_OTHER_MOUSE_DOWN
            } else {
                K_CG_EVENT_OTHER_MOUSE_UP
            },
            button: K_CG_MOUSE_BUTTON_CENTER,
            bit: BTN_MIDDLE,
        },
    }
}

/// Plans how a button event is posted.
pub fn button_plan(button: MouseButton, down: bool) -> (out: ButtonPlan)
    ensures
        out == button_plan_for(button, down),
{
    match button {
        MouseButton::Left => ButtonPlan {
            event_type: if down {
                K_CG_EVENT_LEFT_MOUSE_DOWN
            } else {
                K_CG_EVENT_LEFT_MOUSE_UP
            },
            button: K_CG_MOUSE_BUTTON_LEFT,
            bit: BTN_LEFT,
        },
        MouseButton::Right => ButtonPlan {
            event_type: if down {
                K_CG_EVENT_RIGHT_MOUSE_DOWN
            } else {
                K_CG_EVENT_RIGHT_MOUSE_UP
            },
            button: K_CG_MOUSE_BUTTON_RIGHT,
            bit: BTN_RIGHT,
        },
        _ => ButtonPlan {
            event_type: if down {
                K_CG_EVENT_OTHER_MOUSE_DOWN
            } else {
                K_CG_EVENT_OTHER_MOUSE_UP
            },
            button: K_CG_MOUSE_BUTTON_CENTER,
            bit: BTN_MIDDLE,
        },
    }
}

/// The buttons that are held after one was posted.
pub fn buttons_after(buttons: u8, bit: u8, down: bool) -> (out: u8)
    ensures
        out == if down {
            buttons | bit
        } else {
            buttons & !bit
        },
{
    if down {
        buttons | bit
    } else {
        buttons & !bit
    }
}

/// What the tap does with an event.
#[derive(Clone, Copy, Debug, PartialEq, Eq, Structural)]
pub enum TapAction {
    /// Switch the tap on again and let the event pass.
    Enable,
    /// Let the event pass.
    Pass,
    /// Report the movement, park the cursor and swallow the event.
    Move,
    /// Report a button and swallow the event.
    Button { button: MouseButton, down: bool },
    /// Report the scrolling and swallow the event.
    Wheel,
    /// Report a key, where its code is known, and swallow the event.
    Key { down: bool },
}

/// What the tap knows when an event comes in.
#[derive(Clone, Copy, Debug, PartialEq, Eq, Structural)]
pub struct TapState {
    pub tap_exists: bool,
    pub warping: bool,
    pub capture_mouse: bool,
    pub capture_keys: bool,
}

/// What the tap does with an event of the given type. `user_data` is the stamp of the
/// event, `virtual_key` and `flags` count for keys only.
pub open spec fn tap_action(
    state: TapState,
    event_type: u32,
    user_data: i64,
    virtual_key: u16,
    flags: u64,
) -> TapAction {
    if event_type == K_CG_EVENT_TAP_DISABLED_BY_TIMEOUT || event_type
        == K_CG_EVENT_TAP_DISABLED_BY_USER_INPUT {
        if state.tap_exists && (state.capture_mouse || state.capture_keys) {
            TapAction::Enable
        } else {
            TapAction::Pass
        }
    } else if state.warping || user_data == INJECT_TAG {
        TapAction::Pass
    } else if (5 <= event_type <= 7) || event_type == K_CG_EVENT_OTHER_MOUSE_DRAGGED {
        if state.capture_mouse {
            TapAction::Move
        } else {
            TapAction::Pass
        }
    } else if event_type == K_CG_EVENT_LEFT_MOUSE_DOWN || event_type == K_CG_EVENT_RIGHT_MOUSE_DOWN
        || event_type == K_CG_EVENT_OTHER_MOUSE_DOWN {
        if state.capture_mouse {
            TapAction::Button { button: event_button(event_type), down: true }
        } else {
            TapAction::Pass
        }
    } else if event_type == K_CG_EVENT_LEFT_MOUSE_UP || event_type == K_CG_EVENT_RIGHT_MOUSE_UP
        || event_type == K_CG_EVENT_OTHER_MOUSE_UP {
        if state.capture_mouse {
            TapAction::Button { button: event_button(event_type), down: false }
        } else {
            TapAction::Pass
        }
    } else if event_type == K_CG_EVENT_SCROLL_WHEEL {
        if state.capture_mouse {
            TapAction::Wheel
        } else {
            TapAction::Pass
        }
    } else if 10 <= event_type <= 12 {
        if state.capture_keys {
            TapAction::Key {
                down: if event_type == K_CG_EVENT_FLAGS_CHANGED {
                    modifier_mask(virtual_key) != 0 && flags & modifier_mask(virtual_key) != 0
                } else {
                    event_type == K_CG_EVENT_KEY_DOWN
                },
            }
        } else {
            TapAction::Pass
        }
    } else {
        TapAction::Pass
    }
}

/// Decides what the tap does with an event.
pub fn on_tap(
    state: TapState,
    event_type: u32,
    user_data: i64,
    virtual_key: u16,
    flags: u64,
) -> (out: TapAction)
    ensures
        out == tap_action(state, event_type, user_data, virtual_key, flags),
{
    if event_type == K_CG_EVENT_TAP_DISABLED_BY_TIMEOUT || event_type
        == K_CG_EVENT_TAP_DISABLED_BY_USER_INPUT {
        // macOS disables a slow tap; turn it straight back on.
        if state.tap_exists && (state.capture_mouse || state.capture_keys) {
            return TapAction::Enable;
        }
        return TapAction::Pass;
    }
    if state.warping || user_data == INJECT_TAG {
        return TapAction::Pass;
    }
    let is_key = 10 <= event_type && event_type <= 12;
    if (is_key && !state.capture_keys) || (!is_key && !state.capture_mouse) {
        return TapAction::Pass;
    }
    if is_key {
        let down = if event_type == K_CG_EVENT_FLAGS_CHANGED {
            modifier_is_down(virtual_key, flags)
        } else {
            event_type == K_CG_EVENT_KEY_DOWN
        };
        return TapAction::Key { down };
    }
    if (5 <= event_type && event_type <= 7) || event_type == K_CG_EVENT_OTHER_MOUSE_DRAGGED {
        TapAction::Move
    } else if event_type == K_CG_EVENT_LEFT_MOUSE_DOWN || event_type == K_CG_EVENT_RIGHT_MOUSE_DOWN
        || event_type == K_CG_EVENT_OTHER_MOUSE_DOWN {
        TapAction::Button { button: button_for(event_type), down: true }
    } else if event_type == K_CG_EVENT_LEFT_MOUSE_UP || event_type == K_CG_EVENT_RIGHT_MOUSE_UP
        || event_type == K_CG_EVENT_OTHER_MOUSE_UP {
        TapAction::Button { button: button_for(event_type), down: false }
    } else if event_type == K_CG_EVENT_SCROLL_WHEEL {
        TapAction::Wheel
    } else {
        TapAction::Pass
    }
}

/// While nothing is captured every event passes, and events that this program posted pass
/// always.
pub proof fn law_passive_taps_let_everything_pass(
    state: TapState,
    event_type: u32,
    user_data: i64,
    virtual_key: u16,
    flags: u64,
)
    ensures
        !state.capture_mouse && !state.capture_keys ==> tap_action(
            state,
            event_type,
            user_data,
            virtual_key,
            flags,
        ) == TapAction::Pass,
        user_data == INJECT_TAG ==> (tap_action(
            state,
            event_type,
            user_data,
            virtual_key,
            flags,
        ) is Pass || tap_action(state, event_type, user_data, virtual_key, flags) is Enable),
{
}

} // verus!
