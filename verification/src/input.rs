//! The input vocabulary: keys, modifiers, buttons and the events that travel.

use vstd::prelude::*;
use vstd::string::*;

use crate::encoding::hex_digit;
use crate::geom::{Double, Point};
use crate::key::{key_name, name_of};
use crate::text::cat2;

verus! {

/// Platform neutral key identity.
///
/// The value is a USB HID keyboard usage id, which every supported platform can
/// map to and from its own native key code without ambiguity.
#[derive(Clone, Copy, Debug, PartialEq, Eq, Hash, Structural)]
pub struct KeyCode(pub u16);

/// The lower case hexadecimal digits of `n`, at least two of them.
pub open spec fn hex_number(n: nat) -> Seq<char>
    decreases n,
{
    if n < 256 {
        seq![hex_digit((n / 16) as int), hex_digit((n % 16) as int)]
    } else {
        hex_number(n / 16).push(hex_digit((n % 16) as int))
    }
}

fn push_hex_digit(out: &mut String, d: u8)
    requires
        d < 16,
    ensures
        final(out)@ == old(out)@.push(hex_digit(d as int)),
{
    if d < 10 {
        out.push((48u8 + d) as char);
    } else {
        out.push((87u8 + d) as char);
    }
}

fn format_hex(n: u16) -> (out: String)
    ensures
        out@ == hex_number(n as nat),
    decreases n,
{
    if n < 256 {
        let mut out = String::new();
        push_hex_digit(&mut out, (n / 16) as u8);
        push_hex_digit(&mut out, (n % 16) as u8);
        assert(out@ =~= hex_number(n as nat));
        out
    } else {
        let mut out = format_hex(n / 16);
        push_hex_digit(&mut out, (n % 16) as u8);
        out
    }
}

impl KeyCode {
    /// The usage id that stands for no key.
    pub const UNKNOWN: u16 = 0;

    pub fn is_unknown(self) -> (out: bool)
        ensures
            out == (self.0 == 0),
    {
        self.0 == 0
    }

    /// Reverse lookup used by the UI and by log output.
    pub fn name(self) -> (out: Option<&'static str>)
        ensures
            out.deep_view() == key_name(self.0),
    {
        name_of(self.0)
    }

    /// How a key is written: by its name, or by its usage id in hexadecimal.
    pub open spec fn shown(self) -> Seq<char> {
        match key_name(self.0) {
            Some(name) => name,
            None => "hid-0x"@ + hex_number(self.0 as nat),
        }
    }

    /// How the key is written on screen.
    pub fn display(self) -> (out: String)
        ensures
            out@ == self.shown(),
    {
        match self.name() {
            Some(name) => name.to_owned(),
            None => cat2("hid-0x", format_hex(self.0).as_str()),
        }
    }
}

impl DeepView for KeyCode {
    type V = KeyCode;

    open spec fn deep_view(&self) -> KeyCode {
        *self
    }
}

/// The modifier keys that are held, one bit each.
#[derive(Clone, Copy, Debug, PartialEq, Eq, Hash, Structural)]
pub struct Modifiers(pub u8);

impl Modifiers {
    pub const NONE: u8 = 0;

    pub const SHIFT: u8 = 1;

    pub const CTRL: u8 = 2;

    pub const ALT: u8 = 4;

    pub const META: u8 = 8;

    pub const CAPS_LOCK: u8 = 16;

    pub const NUM_LOCK: u8 = 32;

    /// Whether any bit of `flag` is set.
    pub open spec fn holds(self, flag: u8) -> bool {
        self.0 & flag != 0
    }

    pub fn empty() -> (out: Self)
        ensures
            out.0 == 0,
    {
        Modifiers(0)
    }

    pub fn contains(self, flag: u8) -> (out: bool)
        ensures
            out == self.holds(flag),
    {
        self.0 & flag != 0
    }

    pub fn set(&mut self, flag: u8, on: bool)
        ensures
            final(self).0 == if on {
                old(self).0 | flag
            } else {
                old(self).0 & !flag
            },
    {
        if on {
            self.0 = self.0 | flag;
        } else {
            self.0 = self.0 & !flag;
        }
    }

    pub fn shift(self) -> (out: bool)
        ensures
            out == self.holds(Modifiers::SHIFT),
    {
        self.contains(Self::SHIFT)
    }

    pub fn ctrl(self) -> (out: bool)
        ensures
            out == self.holds(Modifiers::CTRL),
    {
        self.contains(Self::CTRL)
    }

    pub fn alt(self) -> (out: bool)
        ensures
            out == self.holds(Modifiers::ALT),
    {
        self.contains(Self::ALT)
    }

    pub fn meta(self) -> (out: bool)
        ensures
            out == self.holds(Modifiers::META),
    {
        self.contains(Self::META)
    }
}

impl Default for Modifiers {
    fn default() -> (out: Self)
        ensures
            out.0 == 0,
    {
        Modifiers(0)
    }
}

/// Setting a flag makes it held, clearing it makes it not held, and flags that share
/// no bit with it stay as they were.
pub proof fn law_setting_a_modifier_touches_only_it(before: Modifiers, flag: u8, other: u8)
    requires
        flag & other == 0,
    ensures
        flag != 0 ==> Modifiers(before.0 | flag).holds(flag),
        !Modifiers(before.0 & !flag).holds(flag),
        Modifiers(before.0 | flag).holds(other) == before.holds(other),
        Modifiers(before.0 & !flag).holds(other) == before.holds(other),
{
    let m = before.0;
    assert(flag != 0 ==> (m | flag) & flag != 0) by (bit_vector);
    assert((m & !flag) & flag == 0) by (bit_vector);
    assert(flag & other == 0 ==> ((m | flag) & other != 0) == (m & other != 0)) by (bit_vector);
    assert(flag & other == 0 ==> ((m & !flag) & other != 0) == (m & other != 0)) by (bit_vector);
}

#[derive(Clone, Copy, Debug, PartialEq, Eq, Hash, Structural)]
pub enum MouseButton {
    Left,
    Right,
    Middle,
    X1,
    X2,
}

impl MouseButton {
    pub const ALL: [MouseButton; 5] = [
        MouseButton::Left,
        MouseButton::Right,
        MouseButton::Middle,
        MouseButton::X1,
        MouseButton::X2,
    ];
}

impl DeepView for MouseButton {
    type V = MouseButton;

    open spec fn deep_view(&self) -> MouseButton {
        *self
    }
}

/// Everything that can travel between two machines on the input channel.
#[derive(Clone, Copy, Debug, PartialEq, Eq, Structural)]
pub enum InputEvent {
    /// Raw device movement, in mouse units. Preserved verbatim so that no
    /// acceleration curve is applied twice.
    MoveRel { dx: Double, dy: Double },
    /// Absolute position inside the local desktop rectangle.
    MoveAbs { x: Double, y: Double },
    Button { button: MouseButton, down: bool },
    Wheel { dx: Double, dy: Double },
    Key { code: KeyCode, down: bool, modifiers: Modifiers },
}

impl InputEvent {
    /// Whether the event presses a key or a button.
    pub open spec fn presses(self) -> bool {
        match self {
            InputEvent::Button { down, .. } => down,
            InputEvent::Key { down, .. } => down,
            _ => false,
        }
    }

    /// Keyboard and button events must be released before control is handed over
    /// so that the far side never sees a stuck modifier.
    pub fn is_press(&self) -> (out: bool)
        ensures
            out == self.presses(),
    {
        match self {
            InputEvent::Button { down, .. } => *down,
            InputEvent::Key { down, .. } => *down,
            _ => false,
        }
    }
}

/// Something the platform observed on this machine.
///
/// Absolute cursor positions are polled separately; this stream only carries
/// what cannot be sampled, plus raw movement while capture is active.
#[derive(Debug, PartialEq)]
pub enum CapturedEvent {
    /// Raw device movement in mouse units, only produced while capturing.
    MoveDelta { dx: Double, dy: Double },
    Button { button: MouseButton, down: bool },
    Wheel { dx: Double, dy: Double },
    Key { code: KeyCode, down: bool, modifiers: Modifiers },
    /// Capture ended on its own; the engine must stop relaying input.
    CaptureLost { reason: String },
}

/// An observation, by its contents.
#[verifier::ext_equal]
pub enum CapturedModel {
    MoveDelta { dx: Double, dy: Double },
    Button { button: MouseButton, down: bool },
    Wheel { dx: Double, dy: Double },
    Key { code: KeyCode, down: bool, modifiers: Modifiers },
    CaptureLost { reason: Seq<char> },
}

impl DeepView for CapturedEvent {
    type V = CapturedModel;

    open spec fn deep_view(&self) -> CapturedModel {
        match self {
            CapturedEvent::MoveDelta { dx, dy } => CapturedModel::MoveDelta { dx: *dx, dy: *dy },
            CapturedEvent::Button { button, down } => CapturedModel::Button {
                button: *button,
                down: *down,
            },
            CapturedEvent::Wheel { dx, dy } => CapturedModel::Wheel { dx: *dx, dy: *dy },
            CapturedEvent::Key { code, down, modifiers } => CapturedModel::Key {
                code: *code,
                down: *down,
                modifiers: *modifiers,
            },
            CapturedEvent::CaptureLost { reason } => CapturedModel::CaptureLost { reason: reason@ },
        }
    }
}

impl CapturedModel {
    /// Whether the observation is a press of a key or a button.
    pub open spec fn presses(self) -> bool {
        match self {
            CapturedModel::Button { down, .. } => down,
            CapturedModel::Key { down, .. } => down,
            _ => false,
        }
    }
}

impl CapturedEvent {
    pub fn is_press(&self) -> (out: bool)
        ensures
            out == self.deep_view().presses(),
    {
        match self {
            CapturedEvent::Button { down, .. } => *down,
            CapturedEvent::Key { down, .. } => *down,
            _ => false,
        }
    }
}

/// Which local devices are swallowed.
#[derive(Clone, Copy, Debug, PartialEq, Eq, Structural)]
pub struct CaptureOptions {
    /// Swallow and report mouse movement and buttons.
    pub mouse: bool,
    /// Swallow and report key presses.
    pub keyboard: bool,
    /// Keep the local cursor pinned here so it cannot wander while a peer owns it.
    pub park_at: Option<Point>,
}

impl CaptureOptions {
    /// Nothing is swallowed.
    pub fn off() -> (out: Self)
        ensures
            out == (CaptureOptions { mouse: false, keyboard: false, park_at: None }),
    {
        CaptureOptions { mouse: false, keyboard: false, park_at: None }
    }

    pub fn is_off(&self) -> (out: bool)
        ensures
            out == (!self.mouse && !self.keyboard),
    {
        !self.mouse && !self.keyboard
    }
}

/// Errors of the input backend.
#[derive(Debug, PartialEq)]
pub enum InputError {
    ThreadGone,
    Platform(String),
    Unsupported(String),
}

/// The sentence shown for an input error.
pub open spec fn input_error_sentence(error: InputError) -> Seq<char> {
    match error {
        InputError::ThreadGone => "the input thread is no longer running"@,
        InputError::Platform(text) => "input backend failure: "@ + text@,
        InputError::Unsupported(text) => text@,
    }
}

impl InputError {
    /// The sentence shown for the error.
    pub fn message(&self) -> (out: String)
        ensures
            out@ == input_error_sentence(*self),
    {
        match self {
            InputError::ThreadGone => "the input thread is no longer running".to_owned(),
            InputError::Platform(text) => cat2("input backend failure: ", text.as_str()),
            InputError::Unsupported(text) => text.clone(),
        }
    }
}

} // verus!
