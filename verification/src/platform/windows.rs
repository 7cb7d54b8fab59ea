//! Low level keyboard and mouse hooks.

use vstd::prelude::*;
use vstd::string::*;

use crate::input::{Modifiers, MouseButton};
use crate::platform::macos::modifiers_of;
use crate::text::{cat2, cat5, decimal, format_decimal};

verus! {

pub const WM_MOUSEMOVE: u32 = 0x0200;

pub const WM_LBUTTONDOWN: u32 = 0x0201;

pub const WM_LBUTTONUP: u32 = 0x0202;

pub const WM_RBUTTONDOWN: u32 = 0x0204;

pub const WM_RBUTTONUP: u32 = 0x0205;

pub const WM_MBUTTONDOWN: u32 = 0x0207;

pub const WM_MBUTTONUP: u32 = 0x0208;

pub const WM_MOUSEWHEEL: u32 = 0x020a;

pub const WM_XBUTTONDOWN: u32 = 0x020b;

pub const WM_XBUTTONUP: u32 = 0x020c;

pub const WM_MOUSEHWHEEL: u32 = 0x020e;

/// Tag placed in the extra information so we can recognise our own synthetic events.
pub const INJECT_TAG: usize = 0x5544_4b31;

pub const LLKHF_EXTENDED: u32 = 0x01;

pub const LLKHF_INJECTED: u32 = 0x10;

pub const LLKHF_UP: u32 = 0x80;

pub const LLMHF_INJECTED: u32 = 0x01;

pub const MOUSEEVENTF_LEFTDOWN: u32 = 0x0002;

pub const MOUSEEVENTF_LEFTUP: u32 = 0x0004;

pub const MOUSEEVENTF_RIGHTDOWN: u32 = 0x0008;

pub const MOUSEEVENTF_RIGHTUP: u32 = 0x0010;

pub const MOUSEEVENTF_MIDDLEDOWN: u32 = 0x0020;

pub const MOUSEEVENTF_MIDDLEUP: u32 = 0x0040;

pub const MOUSEEVENTF_XDOWN: u32 = 0x0080;

pub const MOUSEEVENTF_XUP: u32 = 0x0100;

pub const KEYEVENTF_EXTENDEDKEY: u32 = 0x0001;

pub const KEYEVENTF_KEYUP: u32 = 0x0002;

pub const KEYEVENTF_SCANCODE: u32 = 0x0008;

/// What a mouse hook reports.
#[derive(Clone, Copy, Debug, PartialEq, Eq, Structural)]
pub enum MouseObservation {
    /// A movement from the point that the cursor is pinned to.
    Move { dx: i64, dy: i64 },
    Button { button: MouseButton, down: bool },
    /// Scrolling, in units of which a notch has 120.
    Wheel { horizontal: bool, delta: i16 },
    /// Nothing to report.
    Nothing,
}

/// What a mouse hook does with a message.
#[derive(Clone, Copy, Debug, PartialEq, Eq, Structural)]
pub enum MouseAction {
    /// Let the message pass.
    Pass,
    /// Report this and swallow the message.
    Swallow(MouseObservation),
}

/// A mouse message as the hook sees it.
#[derive(Clone, Copy, Debug, PartialEq, Eq, Structural)]
pub struct MouseMessage {
    /// Hook code; negative where the message must be passed on.
    pub code: i32,
    pub message: u32,
    pub x: i32,
    pub y: i32,
    pub mouse_data: u32,
    pub flags: u32,
    pub extra: usize,
}

/// The upper half of the message data.
pub open spec fn upper_half(mouse_data: u32) -> u16 {
    (mouse_data / 0x1_0000) as u16
}

/// A 16 bit number read as a signed one.
pub open spec fn signed(n: u16) -> i16 {
    if n < 0x8000 {
        n as i16
    } else {
        (n - 0x1_0000) as i16
    }
}

/// What a message reports while the cursor is pinned to the given point.
pub open spec fn mouse_observed(m: MouseMessage, origin_x: i32, origin_y: i32) -> MouseObservation {
    if m.message == WM_MOUSEMOVE {
        if m.x != origin_x || m.y != origin_y {
            MouseObservation::Move { dx: (m.x - origin_x) as i64, dy: (m.y - origin_y) as i64 }
        } else {
            MouseObservation::Nothing
        }
    } else if m.message == WM_LBUTTONDOWN || m.message == WM_LBUTTONUP {
        MouseObservation::Button { button: MouseButton::Left, down: m.message == WM_LBUTTONDOWN }
    } else if m.message == WM_RBUTTONDOWN || m.message == WM_RBUTTONUP {
        MouseObservation::Button { button: MouseButton::Right, down: m.message == WM_RBUTTONDOWN }
    } else if m.message == WM_MBUTTONDOWN || m.message == WM_MBUTTONUP {
        MouseObservation::Button { button: MouseButton::Middle, down: m.message == WM_MBUTTONDOWN }
    } else if m.message == WM_XBUTTONDOWN || m.message == WM_XBUTTONUP {
        MouseObservation::Button {
            button: if upper_half(m.mouse_data) == 2 {
                MouseButton::X2
            } else {
                MouseButton::X1
            },
            down: m.message == WM_XBUTTONDOWN,
        }
    } else if m.message == WM_MOUSEWHEEL {
        MouseObservation::Wheel { horizontal: false, delta: signed(upper_half(m.mouse_data)) }
    } else if m.message == WM_MOUSEHWHEEL {
        MouseObservation::Wheel { horizontal: true, delta: signed(upper_half(m.mouse_data)) }
    } else {
        MouseObservation::Nothing
    }
}

/// What a mouse hook does with a message: it passes what it must not touch, what is not
/// captured and what this program posted, and swallows everything else.
pub open spec fn mouse_action(
    capturing: bool,
    m: MouseMessage,
    origin_x: i32,
    origin_y: i32,
) -> MouseAction {
    if m.code < 0 || !capturing || m.flags & LLMHF_INJECTED != 0 || m.extra == INJECT_TAG {
        MouseAction::Pass
    } else {
        MouseAction::Swallow(mouse_observed(m, origin_x, origin_y))
    }
}

fn to_signed(n: u16) -> (out: i16)
    ensures
        out == signed(n),
{
    if n < 0x8000 {
        n as i16
    } else {
        (n as i32 - 0x1_0000) as i16
    }
}

/// Decides what a mouse hook does with a message.
pub fn on_mouse(capturing: bool, m: MouseMessage, origin_x: i32, origin_y: i32) -> (out:
    MouseAction)
    ensures
        out == mouse_action(capturing, m, origin_x, origin_y),
{
    if m.code < 0 || !capturing || m.flags & LLMHF_INJECTED != 0 || m.extra == INJECT_TAG {
        return MouseAction::Pass;
    }
    let upper: u16 = (m.mouse_data / 0x1_0000) as u16;
    let observed = if m.message == WM_MOUSEMOVE {
        if m.x != origin_x || m.y != origin_y {
            MouseObservation::Move {
                dx: m.x as i64 - origin_x as i64,
                dy: m.y as i64 - origin_y as i64,
            }
        } else {
            MouseObservation::Nothing
        }
    } else if m.message == WM_LBUTTONDOWN || m.message == WM_LBUTTONUP {
        MouseObservation::Button { button: MouseButton::Left, down: m.message == WM_LBUTTONDOWN }
    } else if m.message == WM_RBUTTONDOWN || m.message == WM_RBUTTONUP {
        MouseObservation::Button { button: MouseButton::Right, down: m.message == WM_RBUTTONDOWN }
    } else if m.message == WM_MBUTTONDOWN || m.message == WM_MBUTTONUP {
        MouseObservation::Button { button: MouseButton::Middle, down: m.message == WM_MBUTTONDOWN }
    } else if m.message == WM_XBUTTONDOWN || m.message == WM_XBUTTONUP {
        let button = if upper == 2 {
            MouseButton::X2
        } else {
            MouseButton::X1
        };
        MouseObservation::Button { button, down: m.message == WM_XBUTTONDOWN }
    } else if m.message == WM_MOUSEWHEEL {
        MouseObservation::Wheel { horizontal: false, delta: to_signed(upper) }
    } else if m.message == WM_MOUSEHWHEEL {
        MouseObservation::Wheel { horizontal: true, delta: to_signed(upper) }
    } else {
        MouseObservation::Nothing
    };
    MouseAction::Swallow(observed)
}

/// A key as the hook sees it.
#[derive(Clone, Copy, Debug, PartialEq, Eq, Structural)]
pub struct KeyMessage {
    /// Hook code; negative where the message must be passed on.
    pub code: i32,
    pub scan_code: u32,
    pub flags: u32,
    pub extra: usize,
}

/// What a keyboard hook does with a key.
#[derive(Clone, Copy, Debug, PartialEq, Eq, Structural)]
pub enum KeyAction {
    /// Let the key pass.
    Pass,
    /// Look up this scan code; where it is known, report the key and swallow it.
    LookUp { scan: u16, down: bool },
}

/// Decides what a keyboard hook does with a key. Extended keys have a scan code with a
/// prefix of their own.
pub fn on_key(capturing: bool, m: KeyMessage) -> (out: KeyAction)
    ensures
        out == if m.code < 0 || !capturing || m.flags & LLKHF_INJECTED != 0 || m.extra
            == INJECT_TAG {
            KeyAction::Pass
        } else {
            KeyAction::LookUp {
                scan: if m.flags & LLKHF_EXTENDED != 0 {
                    (m.scan_code as u16) | 0xe000
                } else {
                    m.scan_code as u16
                },
                down: m.flags & LLKHF_UP == 0,
            }
        },
{
    if m.code < 0 || !capturing || m.flags & LLKHF_INJECTED != 0 || m.extra == INJECT_TAG {
        return KeyAction::Pass;
    }
    let mut scan: u16 = m.scan_code as u16;
    if m.flags & LLKHF_EXTENDED != 0 {
        scan = scan | 0xe000;
    }
    KeyAction::LookUp { scan, down: m.flags & LLKHF_UP == 0 }
}

/// The modifiers that are held, by the state of their keys. Either of the two system keys
/// counts.
pub fn modifiers(
    shift: bool,
    ctrl: bool,
    alt: bool,
    left_system: bool,
    right_system: bool,
    caps_lock: bool,
    num_lock: bool,
) -> (out: Modifiers)
    ensures
        out.holds(Modifiers::SHIFT) == shift,
        out.holds(Modifiers::CTRL) == ctrl,
        out.holds(Modifiers::ALT) == alt,
        out.holds(Modifiers::META) == (left_system || right_system),
        out.holds(Modifiers::CAPS_LOCK) == caps_lock,
        out.holds(Modifiers::NUM_LOCK) == num_lock,
        out.0 < 64,
{
    modifiers_of(shift, ctrl, alt, left_system || right_system, caps_lock, num_lock)
}

/// The extra data of an injected button: which of the side buttons it is.
pub fn button_data(button: MouseButton) -> (out: u32)
    ensures
        out == match button {
            MouseButton::X1 => 1u32,
            MouseButton::X2 => 2u32,
            _ => 0u32,
        },
{
    match button {
        MouseButton::X1 => 1,
        MouseButton::X2 => 2,
        _ => 0,
    }
}

/// How an event of the mouse is injected: its flags and its extra data.
#[derive(Clone, Copy, Debug, PartialEq, Eq, Structural)]
pub struct MousePlan {
    pub flags: u32,
    pub data: u32,
}

/// The flags of an injected button. The side buttons share theirs.
pub open spec fn button_flags(button: MouseButton, down: bool) -> u32 {
    match (button, down) {
        (MouseButton::Left, true) => MOUSEEVENTF_LEFTDOWN,
        (MouseButton::Left, false) => MOUSEEVENTF_LEFTUP,
        (MouseButton::Right, true) => MOUSEEVENTF_RIGHTDOWN,
        (MouseButton::Right, false) => MOUSEEVENTF_RIGHTUP,
        (MouseButton::Middle, true) => MOUSEEVENTF_MIDDLEDOWN,
        (MouseButton::Middle, false) => MOUSEEVENTF_MIDDLEUP,
        (_, true) => MOUSEEVENTF_XDOWN,
        (_, false) => MOUSEEVENTF_XUP,
    }
}

/// Plans how a button event is injected.
pub fn button_plan(button: MouseButton, down: bool) -> (out: MousePlan)
    ensures
        out.flags == button_flags(button, down),
        out.data == match button {
            MouseButton::X1 => 1u32,
            MouseButton::X2 => 2u32,
            _ => 0u32,
        },
{
    let flags: u32 = match (button, down) {
        (MouseButton::Left, true) => MOUSEEVENTF_LEFTDOWN,
        (MouseButton::Left, false) => MOUSEEVENTF_LEFTUP,
        (MouseButton::Right, true) => MOUSEEVENTF_RIGHTDOWN,
        (MouseButton::Right, false) => MOUSEEVENTF_RIGHTUP,
        (MouseButton::Middle, true) => MOUSEEVENTF_MIDDLEDOWN,
        (MouseButton::Middle, false) => MOUSEEVENTF_MIDDLEUP,
        (_, true) => MOUSEEVENTF_XDOWN,
        (_, false) => MOUSEEVENTF_XUP,
    };
    MousePlan { flags, data: button_data(button) }
}

/// The flags of a key that is injected by its scan code.
pub fn key_plan(extended: bool, down: bool) -> (out: u32)
    ensures
        out == KEYEVENTF_SCANCODE + (if extended {
            KEYEVENTF_EXTENDEDKEY
        } else {
            0
        }) + (if down {
            0
        } else {
            KEYEVENTF_KEYUP
        }),
{
    let prefix: u32 = if extended {
        KEYEVENTF_EXTENDEDKEY
    } else {
        0
    };
    let direction: u32 = if down {
        0
    } else {
        KEYEVENTF_KEYUP
    };
    KEYEVENTF_SCANCODE + prefix + direction
}

/// What is said where the system took fewer events than it was given; nothing where it
/// took them all.
pub fn delivery_error(sent: u64, given: u64) -> (out: Option<String>)
    ensures
        match out {
            None => sent == given,
            Some(text) => sent != given && text@ == "SendInput delivered "@ + decimal(sent as nat)
                + " of "@ + decimal(given as nat) + " events"@,
        },
{
    if sent == given {
        None
    } else {
        Some(
            cat5(
                "SendInput delivered ",
                format_decimal(sent).as_str(),
                " of ",
                format_decimal(given).as_str(),
                " events",
            ),
        )
    }
}

/// The id of the display at the given place in the system's list.
pub fn display_id(index: usize) -> (out: String)
    ensures
        out@ == "display-"@ + decimal(index as nat),
{
    cat2("display-", format_decimal(index as u64).as_str())
}

} // verus!
