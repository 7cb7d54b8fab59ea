//! Named HID usage ids for the default keyboard page.
//!
//! Media and system keys live on the consumer page but are kept here with an offset
//! so that a single 16 bit space can carry them over the wire.

use vstd::prelude::*;

verus! {

#[allow(non_upper_case_globals)]
pub const A: u16 = 0x04;

#[allow(non_upper_case_globals)]
pub const B: u16 = 0x05;

#[allow(non_upper_case_globals)]
pub const C: u16 = 0x06;

#[allow(non_upper_case_globals)]
pub const D: u16 = 0x07;

#[allow(non_upper_case_globals)]
pub const E: u16 = 0x08;

#[allow(non_upper_case_globals)]
pub const F: u16 = 0x09;

#[allow(non_upper_case_globals)]
pub const G: u16 = 0x0a;

#[allow(non_upper_case_globals)]
pub const H: u16 = 0x0b;

#[allow(non_upper_case_globals)]
pub const I: u16 = 0x0c;

#[allow(non_upper_case_globals)]
pub const J: u16 = 0x0d;

#[allow(non_upper_case_globals)]
pub const K: u16 = 0x0e;

#[allow(non_upper_case_globals)]
pub const L: u16 = 0x0f;

#[allow(non_upper_case_globals)]
pub const M: u16 = 0x10;

#[allow(non_upper_case_globals)]
pub const N: u16 = 0x11;

#[allow(non_upper_case_globals)]
pub const O: u16 = 0x12;

#[allow(non_upper_case_globals)]
pub const P: u16 = 0x13;

#[allow(non_upper_case_globals)]
pub const Q: u16 = 0x14;

#[allow(non_upper_case_globals)]
pub const R: u16 = 0x15;

#[allow(non_upper_case_globals)]
pub const S: u16 = 0x16;

#[allow(non_upper_case_globals)]
pub const T: u16 = 0x17;

#[allow(non_upper_case_globals)]
pub const U: u16 = 0x18;

#[allow(non_upper_case_globals)]
pub const V: u16 = 0x19;

#[allow(non_upper_case_globals)]
pub const W: u16 = 0x1a;

#[allow(non_upper_case_globals)]
pub const X: u16 = 0x1b;

#[allow(non_upper_case_globals)]
pub const Y: u16 = 0x1c;

#[allow(non_upper_case_globals)]
pub const Z: u16 = 0x1d;

#[allow(non_upper_case_globals)]
pub const Num1: u16 = 0x1e;

#[allow(non_upper_case_globals)]
pub const Num2: u16 = 0x1f;

#[allow(non_upper_case_globals)]
pub const Num3: u16 = 0x20;

#[allow(non_upper_case_globals)]
pub const Num4: u16 = 0x21;

#[allow(non_upper_case_globals)]
pub const Num5: u16 = 0x22;

#[allow(non_upper_case_globals)]
pub const Num6: u16 = 0x23;

#[allow(non_upper_case_globals)]
pub const Num7: u16 = 0x24;

#[allow(non_upper_case_globals)]
pub const Num8: u16 = 0x25;

#[allow(non_upper_case_globals)]
pub const Num9: u16 = 0x26;

#[allow(non_upper_case_globals)]
pub const Num0: u16 = 0x27;

#[allow(non_upper_case_globals)]
pub const Enter: u16 = 0x28;

#[allow(non_upper_case_globals)]
pub const Escape: u16 = 0x29;

#[allow(non_upper_case_globals)]
pub const Backspace: u16 = 0x2a;

#[allow(non_upper_case_globals)]
pub const Tab: u16 = 0x2b;

#[allow(non_upper_case_globals)]
pub const Space: u16 = 0x2c;

#[allow(non_upper_case_globals)]
pub const Minus: u16 = 0x2d;

#[allow(non_upper_case_globals)]
pub const Equal: u16 = 0x2e;

#[allow(non_upper_case_globals)]
pub const BracketLeft: u16 = 0x2f;

#[allow(non_upper_case_globals)]
pub const BracketRight: u16 = 0x30;

#[allow(non_upper_case_globals)]
pub const Backslash: u16 = 0x31;

#[allow(non_upper_case_globals)]
pub const Semicolon: u16 = 0x33;

#[allow(non_upper_case_globals)]
pub const Quote: u16 = 0x34;

#[allow(non_upper_case_globals)]
pub const Backquote: u16 = 0x35;

#[allow(non_upper_case_globals)]
pub const Comma: u16 = 0x36;

#[allow(non_upper_case_globals)]
pub const Period: u16 = 0x37;

#[allow(non_upper_case_globals)]
pub const Slash: u16 = 0x38;

#[allow(non_upper_case_globals)]
pub const CapsLock: u16 = 0x39;

#[allow(non_upper_case_globals)]
pub const F1: u16 = 0x3a;

#[allow(non_upper_case_globals)]
pub const F2: u16 = 0x3b;

#[allow(non_upper_case_globals)]
pub const F3: u16 = 0x3c;

#[allow(non_upper_case_globals)]
pub const F4: u16 = 0x3d;

#[allow(non_upper_case_globals)]
pub const F5: u16 = 0x3e;

#[allow(non_upper_case_globals)]
pub const F6: u16 = 0x3f;

#[allow(non_upper_case_globals)]
pub const F7: u16 = 0x40;

#[allow(non_upper_case_globals)]
pub const F8: u16 = 0x41;

#[allow(non_upper_case_globals)]
pub const F9: u16 = 0x42;

#[allow(non_upper_case_globals)]
pub const F10: u16 = 0x43;

#[allow(non_upper_case_globals)]
pub const F11: u16 = 0x44;

#[allow(non_upper_case_globals)]
pub const F12: u16 = 0x45;

#[allow(non_upper_case_globals)]
pub const PrintScreen: u16 = 0x46;

#[allow(non_upper_case_globals)]
pub const ScrollLock: u16 = 0x47;

#[allow(non_upper_case_globals)]
pub const Pause: u16 = 0x48;

#[allow(non_upper_case_globals)]
pub const Insert: u16 = 0x49;

#[allow(non_upper_case_globals)]
pub const Home: u16 = 0x4a;

#[allow(non_upper_case_globals)]
pub const PageUp: u16 = 0x4b;

#[allow(non_upper_case_globals)]
pub const Delete: u16 = 0x4c;

#[allow(non_upper_case_globals)]
pub const End: u16 = 0x4d;

#[allow(non_upper_case_globals)]
pub const PageDown: u16 = 0x4e;

#[allow(non_upper_case_globals)]
pub const ArrowRight: u16 = 0x4f;

#[allow(non_upper_case_globals)]
pub const ArrowLeft: u16 = 0x50;

#[allow(non_upper_case_globals)]
pub const ArrowDown: u16 = 0x51;

#[allow(non_upper_case_globals)]
pub const ArrowUp: u16 = 0x52;

#[allow(non_upper_case_globals)]
pub const NumLock: u16 = 0x53;

#[allow(non_upper_case_globals)]
pub const NumpadDivide: u16 = 0x54;

#[allow(non_upper_case_globals)]
pub const NumpadMultiply: u16 = 0x55;

#[allow(non_upper_case_globals)]
pub const NumpadSubtract: u16 = 0x56;

#[allow(non_upper_case_globals)]
pub const NumpadAdd: u16 = 0x57;

#[allow(non_upper_case_globals)]
pub const NumpadEnter: u16 = 0x58;

#[allow(non_upper_case_globals)]
pub const Numpad1: u16 = 0x59;

#[allow(non_upper_case_globals)]
pub const Numpad2: u16 = 0x5a;

#[allow(non_upper_case_globals)]
pub const Numpad3: u16 = 0x5b;

#[allow(non_upper_case_globals)]
pub const Numpad4: u16 = 0x5c;

#[allow(non_upper_case_globals)]
pub const Numpad5: u16 = 0x5d;

#[allow(non_upper_case_globals)]
pub const Numpad6: u16 = 0x5e;

#[allow(non_upper_case_globals)]
pub const Numpad7: u16 = 0x5f;

#[allow(non_upper_case_globals)]
pub const Numpad8: u16 = 0x60;

#[allow(non_upper_case_globals)]
pub const Numpad9: u16 = 0x61;

#[allow(non_upper_case_globals)]
pub const Numpad0: u16 = 0x62;

#[allow(non_upper_case_globals)]
pub const NumpadDecimal: u16 = 0x63;

#[allow(non_upper_case_globals)]
pub const IntlBackslash: u16 = 0x64;

#[allow(non_upper_case_globals)]
pub const ContextMenu: u16 = 0x65;

#[allow(non_upper_case_globals)]
pub const NumpadEqual: u16 = 0x67;

#[allow(non_upper_case_globals)]
pub const F13: u16 = 0x68;

#[allow(non_upper_case_globals)]
pub const F14: u16 = 0x69;

#[allow(non_upper_case_globals)]
pub const F15: u16 = 0x6a;

#[allow(non_upper_case_globals)]
pub const F16: u16 = 0x6b;

#[allow(non_upper_case_globals)]
pub const F17: u16 = 0x6c;

#[allow(non_upper_case_globals)]
pub const F18: u16 = 0x6d;

#[allow(non_upper_case_globals)]
pub const F19: u16 = 0x6e;

#[allow(non_upper_case_globals)]
pub const F20: u16 = 0x6f;

#[allow(non_upper_case_globals)]
pub const F21: u16 = 0x70;

#[allow(non_upper_case_globals)]
pub const F22: u16 = 0x71;

#[allow(non_upper_case_globals)]
pub const F23: u16 = 0x72;

#[allow(non_upper_case_globals)]
pub const F24: u16 = 0x73;

#[allow(non_upper_case_globals)]
pub const ControlLeft: u16 = 0xe0;

#[allow(non_upper_case_globals)]
pub const ShiftLeft: u16 = 0xe1;

#[allow(non_upper_case_globals)]
pub const AltLeft: u16 = 0xe2;

#[allow(non_upper_case_globals)]
pub const MetaLeft: u16 = 0xe3;

#[allow(non_upper_case_globals)]
pub const ControlRight: u16 = 0xe4;

#[allow(non_upper_case_globals)]
pub const ShiftRight: u16 = 0xe5;

#[allow(non_upper_case_globals)]
pub const AltRight: u16 = 0xe6;

#[allow(non_upper_case_globals)]
pub const MetaRight: u16 = 0xe7;

#[allow(non_upper_case_globals)]
pub const VolumeUp: u16 = 0x2101;

#[allow(non_upper_case_globals)]
pub const VolumeDown: u16 = 0x2102;

#[allow(non_upper_case_globals)]
pub const Mute: u16 = 0x2103;

#[allow(non_upper_case_globals)]
pub const MediaPlayPause: u16 = 0x2104;

#[allow(non_upper_case_globals)]
pub const MediaNext: u16 = 0x2105;

#[allow(non_upper_case_globals)]
pub const MediaPrev: u16 = 0x2106;

#[allow(non_upper_case_globals)]
pub const MediaStop: u16 = 0x2107;

#[allow(non_upper_case_globals)]
pub const BrightnessUp: u16 = 0x2108;

#[allow(non_upper_case_globals)]
pub const BrightnessDown: u16 = 0x2109;

/// The name of a usage id, where it has one.
pub open spec fn key_name(code: u16) -> Option<Seq<char>> {
    match code {
        0x04 => Some("A"@),
        0x05 => Some("B"@),
        0x06 => Some("C"@),
        0x07 => Some("D"@),
        0x08 => Some("E"@),
        0x09 => Some("F"@),
        0x0a => Some("G"@),
        0x0b => Some("H"@),
        0x0c => Some("I"@),
        0x0d => Some("J"@),
        0x0e => Some("K"@),
        0x0f => Some("L"@),
        0x10 => Some("M"@),
        0x11 => Some("N"@),
        0x12 => Some("O"@),
        0x13 => Some("P"@),
        0x14 => Some("Q"@),
        0x15 => Some("R"@),
        0x16 => Some("S"@),
        0x17 => Some("T"@),
        0x18 => Some("U"@),
        0x19 => Some("V"@),
        0x1a => Some("W"@),
        0x1b => Some("X"@),
        0x1c => Some("Y"@),
        0x1d => Some("Z"@),
        0x1e => Some("Num1"@),
        0x1f => Some("Num2"@),
        0x20 => Some("Num3"@),
        0x21 => Some("Num4"@),
        0x22 => Some("Num5"@),
        0x23 => Some("Num6"@),
        0x24 => Some("Num7"@),
        0x25 => Some("Num8"@),
        0x26 => Some("Num9"@),
        0x27 => Some("Num0"@),
        0x28 => Some("Enter"@),
        0x29 => Some("Escape"@),
        0x2a => Some("Backspace"@),
        0x2b => Some("Tab"@),
        0x2c => Some("Space"@),
        0x2d => Some("Minus"@),
        0x2e => Some("Equal"@),
        0x2f => Some("BracketLeft"@),
        0x30 => Some("BracketRight"@),
        0x31 => Some("Backslash"@),
        0x33 => Some("Semicolon"@),
        0x34 => Some("Quote"@),
        0x35 => Some("Backquote"@),
        0x36 => Some("Comma"@),
        0x37 => Some("Period"@),
        0x38 => Some("Slash"@),
        0x39 => Some("CapsLock"@),
        0x3a => Some("F1"@),
        0x3b => Some("F2"@),
        0x3c => Some("F3"@),
        0x3d => Some("F4"@),
        0x3e => Some("F5"@),
        0x3f => Some("F6"@),
        0x40 => Some("F7"@),
        0x41 => Some("F8"@),
        0x42 => Some("F9"@),
        0x43 => Some("F10"@),
        0x44 => Some("F11"@),
        0x45 => Some("F12"@),
        0x46 => Some("PrintScreen"@),
        0x47 => Some("ScrollLock"@),
        0x48 => Some("Pause"@),
        0x49 => Some("Insert"@),
        0x4a => Some("Home"@),
        0x4b => Some("PageUp"@),
        0x4c => Some("Delete"@),
        0x4d => Some("End"@),
        0x4e => Some("PageDown"@),
        0x4f => Some("ArrowRight"@),
        0x50 => Some("ArrowLeft"@),
        0x51 => Some("ArrowDown"@),
        0x52 => Some("ArrowUp"@),
        0x53 => Some("NumLock"@),
        0x54 => Some("NumpadDivide"@),
        0x55 => Some("NumpadMultiply"@),
        0x56 => Some("NumpadSubtract"@),
        0x57 => Some("NumpadAdd"@),
        0x58 => Some("NumpadEnter"@),
        0x59 => Some("Numpad1"@),
        0x5a => Some("Numpad2"@),
        0x5b => Some("Numpad3"@),
        0x5c => Some("Numpad4"@),
        0x5d => Some("Numpad5"@),
        0x5e => Some("Numpad6"@),
        0x5f => Some("Numpad7"@),
        0x60 => Some("Numpad8"@),
        0x61 => Some("Numpad9"@),
        0x62 => Some("Numpad0"@),
        0x63 => Some("NumpadDecimal"@),
        0x64 => Some("IntlBackslash"@),
        0x65 => Some("ContextMenu"@),
        0x67 => Some("NumpadEqual"@),
        0x68 => Some("F13"@),
        0x69 => Some("F14"@),
        0x6a => Some("F15"@),
        0x6b => Some("F16"@),
        0x6c => Some("F17"@),
        0x6d => Some("F18"@),
        0x6e => Some("F19"@),
        0x6f => Some("F20"@),
        0x70 => Some("F21"@),
        0x71 => Some("F22"@),
        0x72 => Some("F23"@),
        0x73 => Some("F24"@),
        0xe0 => Some("ControlLeft"@),
        0xe1 => Some("ShiftLeft"@),
        0xe2 => Some("AltLeft"@),
        0xe3 => Some("MetaLeft"@),
        0xe4 => Some("ControlRight"@),
        0xe5 => Some("ShiftRight"@),
        0xe6 => Some("AltRight"@),
        0xe7 => Some("MetaRight"@),
        0x2101 => Some("VolumeUp"@),
        0x2102 => Some("VolumeDown"@),
        0x2103 => Some("Mute"@),
        0x2104 => Some("MediaPlayPause"@),
        0x2105 => Some("MediaNext"@),
        0x2106 => Some("MediaPrev"@),
        0x2107 => Some("MediaStop"@),
        0x2108 => Some("BrightnessUp"@),
        0x2109 => Some("BrightnessDown"@),
        _ => None,
    }
}

/// Looks up the name of a usage id.
pub fn name_of(code: u16) -> (out: Option<&'static str>)
    ensures
        out.deep_view() == key_name(code),
{
    match code {
        0x04 => Some("A"),
        0x05 => Some("B"),
        0x06 => Some("C"),
        0x07 => Some("D"),
        0x08 => Some("E"),
        0x09 => Some("F"),
        0x0a => Some("G"),
        0x0b => Some("H"),
        0x0c => Some("I"),
        0x0d => Some("J"),
        0x0e => Some("K"),
        0x0f => Some("L"),
        0x10 => Some("M"),
        0x11 => Some("N"),
        0x12 => Some("O"),
        0x13 => Some("P"),
        0x14 => Some("Q"),
        0x15 => Some("R"),
        0x16 => Some("S"),
        0x17 => Some("T"),
        0x18 => Some("U"),
        0x19 => Some("V"),
        0x1a => Some("W"),
        0x1b => Some("X"),
        0x1c => Some("Y"),
        0x1d => Some("Z"),
        0x1e => Some("Num1"),
        0x1f => Some("Num2"),
        0x20 => Some("Num3"),
        0x21 => Some("Num4"),
        0x22 => Some("Num5"),
        0x23 => Some("Num6"),
        0x24 => Some("Num7"),
        0x25 => Some("Num8"),
        0x26 => Some("Num9"),
        0x27 => Some("Num0"),
        0x28 => Some("Enter"),
        0x29 => Some("Escape"),
        0x2a => Some("Backspace"),
        0x2b => Some("Tab"),
        0x2c => Some("Space"),
        0x2d => Some("Minus"),
        0x2e => Some("Equal"),
        0x2f => Some("BracketLeft"),
        0x30 => Some("BracketRight"),
        0x31 => Some("Backslash"),
        0x33 => Some("Semicolon"),
        0x34 => Some("Quote"),
        0x35 => Some("Backquote"),
        0x36 => Some("Comma"),
        0x37 => Some("Period"),
        0x38 => Some("Slash"),
        0x39 => Some("CapsLock"),
        0x3a => Some("F1"),
        0x3b => Some("F2"),
        0x3c => Some("F3"),
        0x3d => Some("F4"),
        0x3e => Some("F5"),
        0x3f => Some("F6"),
        0x40 => Some("F7"),
        0x41 => Some("F8"),
        0x42 => Some("F9"),
        0x43 => Some("F10"),
        0x44 => Some("F11"),
        0x45 => Some("F12"),
        0x46 => Some("PrintScreen"),
        0x47 => Some("ScrollLock"),
        0x48 => Some("Pause"),
        0x49 => Some("Insert"),
        0x4a => Some("Home"),
        0x4b => Some("PageUp"),
        0x4c => Some("Delete"),
        0x4d => Some("End"),
        0x4e => Some("PageDown"),
        0x4f => Some("ArrowRight"),
        0x50 => Some("ArrowLeft"),
        0x51 => Some("ArrowDown"),
        0x52 => Some("ArrowUp"),
        0x53 => Some("NumLock"),
        0x54 => Some("NumpadDivide"),
        0x55 => Some("NumpadMultiply"),
        0x56 => Some("NumpadSubtract"),
        0x57 => Some("NumpadAdd"),
        0x58 => Some("NumpadEnter"),
        0x59 => Some("Numpad1"),
        0x5a => Some("Numpad2"),
        0x5b => Some("Numpad3"),
        0x5c => Some("Numpad4"),
        0x5d => Some("Numpad5"),
        0x5e => Some("Numpad6"),
        0x5f => Some("Numpad7"),
        0x60 => Some("Numpad8"),
        0x61 => Some("Numpad9"),
        0x62 => Some("Numpad0"),
        0x63 => Some("NumpadDecimal"),
        0x64 => Some("IntlBackslash"),
        0x65 => Some("ContextMenu"),
        0x67 => Some("NumpadEqual"),
        0x68 => Some("F13"),
        0x69 => Some("F14"),
        0x6a => Some("F15"),
        0x6b => Some("F16"),
        0x6c => Some("F17"),
        0x6d => Some("F18"),
        0x6e => Some("F19"),
        0x6f => Some("F20"),
        0x70 => Some("F21"),
        0x71 => Some("F22"),
        0x72 => Some("F23"),
        0x73 => Some("F24"),
        0xe0 => Some("ControlLeft"),
        0xe1 => Some("ShiftLeft"),
        0xe2 => Some("AltLeft"),
        0xe3 => Some("MetaLeft"),
        0xe4 => Some("ControlRight"),
        0xe5 => Some("ShiftRight"),
        0xe6 => Some("AltRight"),
        0xe7 => Some("MetaRight"),
        0x2101 => Some("VolumeUp"),
        0x2102 => Some("VolumeDown"),
        0x2103 => Some("Mute"),
        0x2104 => Some("MediaPlayPause"),
        0x2105 => Some("MediaNext"),
        0x2106 => Some("MediaPrev"),
        0x2107 => Some("MediaStop"),
        0x2108 => Some("BrightnessUp"),
        0x2109 => Some("BrightnessDown"),
        _ => None,
    }
}

} // verus!
