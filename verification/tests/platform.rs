use uniondesk::input::{Modifiers, MouseButton};
use uniondesk::platform::macos::{
    button_for, button_plan, buttons_after, drag_button, drag_event_type, event_mask,
    modifier_is_down, modifiers_from, on_tap, TapAction, TapState, BTN_LEFT, BTN_MIDDLE, BTN_RIGHT,
};
use uniondesk::platform::windows::{
    button_data, button_plan as injected_button, delivery_error, display_id, key_plan, modifiers,
    on_key, on_mouse, KeyAction, KeyMessage, MouseAction, MouseMessage, MouseObservation, MousePlan,
    INJECT_TAG,
};

#[test]
fn the_mask_holds_every_tapped_type() {
    let expected = [1u32, 2, 3, 4, 5, 6, 7, 10, 11, 12, 22, 25, 26, 27]
        .iter()
        .fold(0u64, |mask, t| mask | (1u64 << t));
    assert_eq!(event_mask(), expected);
}

#[test]
fn buttons_and_modifiers_are_read_from_events() {
    assert_eq!(button_for(1), MouseButton::Left);
    assert_eq!(button_for(4), MouseButton::Right);
    assert_eq!(button_for(25), MouseButton::Middle);
    assert!(modifier_is_down(0x38, 0x0002_0000));
    assert!(!modifier_is_down(0x38, 0x0004_0000));
    assert!(!modifier_is_down(0x01, u64::MAX));
    let held = modifiers_from(0x0002_0000 | 0x0010_0000 | 0x0020_0000);
    assert!(held.shift() && held.meta() && !held.ctrl() && !held.alt());
    assert!(held.contains(Modifiers::NUM_LOCK));
    assert!(!held.contains(Modifiers::CAPS_LOCK));
}

#[test]
fn drags_follow_the_held_buttons() {
    assert_eq!(drag_event_type(0), 5);
    assert_eq!(drag_event_type(BTN_LEFT | BTN_RIGHT), 6);
    assert_eq!(drag_event_type(BTN_RIGHT), 7);
    assert_eq!(drag_event_type(BTN_MIDDLE), 27);
    assert_eq!(drag_button(BTN_LEFT), 0);
    assert_eq!(drag_button(BTN_RIGHT), 1);
    assert_eq!(drag_button(0), 2);
    let plan = button_plan(MouseButton::X1, true);
    assert_eq!((plan.event_type, plan.button, plan.bit), (25, 2, BTN_MIDDLE));
    assert_eq!(buttons_after(BTN_LEFT, BTN_RIGHT, true), 3);
    assert_eq!(buttons_after(3, BTN_LEFT, false), BTN_RIGHT);
}

#[test]
fn taps_swallow_only_what_is_captured() {
    let off = TapState {
        tap_exists: true,
        warping: false,
        capture_mouse: false,
        capture_keys: false,
    };
    let on = TapState { capture_mouse: true, capture_keys: true, ..off };
    for t in 0..30 {
        assert_eq!(on_tap(off, t, 0, 0, 0), TapAction::Pass);
        assert_eq!(on_tap(on, t, 0x5544_4b31, 0, 0), TapAction::Pass);
        assert_eq!(on_tap(TapState { warping: true, ..on }, t, 0, 0, 0), TapAction::Pass);
    }
    assert_eq!(on_tap(on, 5, 0, 0, 0), TapAction::Move);
    assert_eq!(on_tap(on, 27, 0, 0, 0), TapAction::Move);
    assert_eq!(
        on_tap(on, 3, 0, 0, 0),
        TapAction::Button { button: MouseButton::Right, down: true }
    );
    assert_eq!(
        on_tap(on, 26, 0, 0, 0),
        TapAction::Button { button: MouseButton::Middle, down: false }
    );
    assert_eq!(on_tap(on, 22, 0, 0, 0), TapAction::Wheel);
    assert_eq!(on_tap(on, 10, 0, 0, 0), TapAction::Key { down: true });
    assert_eq!(on_tap(on, 11, 0, 0, 0), TapAction::Key { down: false });
    assert_eq!(on_tap(on, 12, 0, 0x38, 0x0002_0000), TapAction::Key { down: true });
    assert_eq!(on_tap(on, 0xffff_fffe, 0, 0, 0), TapAction::Enable);
    assert_eq!(on_tap(off, 0xffff_ffff, 0, 0, 0), TapAction::Pass);
}

fn mouse(message: u32) -> MouseMessage {
    MouseMessage { code: 0, message, x: 0, y: 0, mouse_data: 0, flags: 0, extra: 0 }
}

#[test]
fn mouse_messages_are_read() {
    let seen = |m: MouseMessage| match on_mouse(true, m, 10, 20) {
        MouseAction::Swallow(observed) => observed,
        MouseAction::Pass => panic!("swallowed"),
    };
    assert_eq!(
        seen(MouseMessage { x: 13, y: 15, ..mouse(0x200) }),
        MouseObservation::Move { dx: 3, dy: -5 }
    );
    assert_eq!(
        seen(MouseMessage { x: 10, y: 20, ..mouse(0x200) }),
        MouseObservation::Nothing
    );
    assert_eq!(
        seen(mouse(0x202)),
        MouseObservation::Button { button: MouseButton::Left, down: false }
    );
    assert_eq!(
        seen(MouseMessage { mouse_data: 2 << 16, ..mouse(0x20b) }),
        MouseObservation::Button { button: MouseButton::X2, down: true }
    );
    assert_eq!(
        seen(MouseMessage { mouse_data: 0xff88_0000, ..mouse(0x20a) }),
        MouseObservation::Wheel { horizontal: false, delta: -120 }
    );
    assert_eq!(
        seen(MouseMessage { mouse_data: 120 << 16, ..mouse(0x20e) }),
        MouseObservation::Wheel { horizontal: true, delta: 120 }
    );
    assert_eq!(on_mouse(false, mouse(0x200), 0, 0), MouseAction::Pass);
    assert_eq!(
        on_mouse(true, MouseMessage { code: -1, ..mouse(0x200) }, 0, 0),
        MouseAction::Pass
    );
    assert_eq!(
        on_mouse(true, MouseMessage { flags: 1, ..mouse(0x200) }, 0, 0),
        MouseAction::Pass
    );
    assert_eq!(
        on_mouse(true, MouseMessage { extra: INJECT_TAG, ..mouse(0x200) }, 0, 0),
        MouseAction::Pass
    );
}

#[test]
fn key_messages_are_read() {
    let key = KeyMessage { code: 0, scan_code: 0x1d, flags: 0, extra: 0 };
    assert_eq!(on_key(true, key), KeyAction::LookUp { scan: 0x1d, down: true });
    assert_eq!(
        on_key(true, KeyMessage { flags: 0x81, ..key }),
        KeyAction::LookUp { scan: 0xe01d, down: false }
    );
    assert_eq!(on_key(true, KeyMessage { flags: 0x10, ..key }), KeyAction::Pass);
    assert_eq!(on_key(false, key), KeyAction::Pass);
    let held = modifiers(true, false, false, false, true, false, true);
    assert!(held.shift() && held.meta() && !held.ctrl());
    assert!(held.contains(Modifiers::NUM_LOCK));
    assert_eq!(button_data(MouseButton::X2), 2);
    assert_eq!(button_data(MouseButton::Left), 0);
    assert_eq!(delivery_error(1, 1), None);
    assert_eq!(
        delivery_error(0, 2),
        Some("SendInput delivered 0 of 2 events".to_string())
    );
    assert_eq!(display_id(3), "display-3");
}

#[test]
fn injected_events_carry_their_flags() {
    let plan = |button, down| {
        let MousePlan { flags, data } = injected_button(button, down);
        (flags, data)
    };
    assert_eq!(plan(MouseButton::Left, true), (0x2, 0));
    assert_eq!(plan(MouseButton::Left, false), (0x4, 0));
    assert_eq!(plan(MouseButton::Right, true), (0x8, 0));
    assert_eq!(plan(MouseButton::Right, false), (0x10, 0));
    assert_eq!(plan(MouseButton::Middle, true), (0x20, 0));
    assert_eq!(plan(MouseButton::Middle, false), (0x40, 0));
    assert_eq!(plan(MouseButton::X1, true), (0x80, 1));
    assert_eq!(plan(MouseButton::X2, true), (0x80, 2));
    assert_eq!(plan(MouseButton::X1, false), (0x100, 1));
    assert_eq!(plan(MouseButton::X2, false), (0x100, 2));
    assert_eq!(key_plan(false, true), 0x8);
    assert_eq!(key_plan(true, true), 0x9);
    assert_eq!(key_plan(false, false), 0xa);
    assert_eq!(key_plan(true, false), 0xb);
}
