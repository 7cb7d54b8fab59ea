//! What watching the clipboard, the network and the devices of this machine promises.

use vstd::prelude::*;
use vstd::utf8::encode_utf8;

use crate::clipboard::{
    digest_of, frame_image, image_fits, image_payload, png_file, poll_after, report, tagged,
    text_payload, with_alpha, ClipboardErrorModel, ClipboardEventModel, Limits, PngColor,
    PngFrameModel,
};
use crate::discovery::{
    beacon_effect, beacon_of, described, mdns_properties, plain_name, usable, worth_forwarding,
    AdvertiseModel, BeaconActionModel, BeaconModel, DiscoverSource, DiscoveredModel, IpModel,
    MdnsService, SightingModel,
};
use crate::encoding::{hex_text, sha256};
use crate::identity::grouped_digits;
use crate::input::MouseButton;
use crate::platform::macos::{button_plan_for, modifier_mask, tap_action, TapAction, TapState};
use crate::platform::windows::{
    button_flags, mouse_action, MouseAction, MouseMessage, MouseObservation,
};
use crate::protocol::{ClipboardModel, MessageModel, OsKind};
use crate::session::{move_at, next_nonce, Move, Role};
use crate::text::upper_text;

verus! {

/// Adding an alpha value keeps the three values of every pixel and makes it opaque.
pub proof fn law_added_alpha_is_opaque(rgb: Seq<u8>, pixel: int)
    requires
        0 <= pixel < rgb.len() as int / 3,
    ensures
        with_alpha(rgb).len() == 4 * (rgb.len() as int / 3),
        with_alpha(rgb)[4 * pixel] == rgb[3 * pixel],
        with_alpha(rgb)[4 * pixel + 1] == rgb[3 * pixel + 1],
        with_alpha(rgb)[4 * pixel + 2] == rgb[3 * pixel + 2],
        with_alpha(rgb)[4 * pixel + 3] == 255,
{
}

/// An image keeps its size and its pixels; one without alpha values gets them. Other layouts
/// are refused.
pub proof fn law_images_keep_their_pixels(frame: PngFrameModel)
    ensures
        match frame_image(frame) {
            Ok(image) => {
                &&& image.width == frame.width
                &&& image.height == frame.height
                &&& frame.color == PngColor::Rgba || frame.color == PngColor::Rgb
                &&& frame.color == PngColor::Rgba ==> image.rgba == frame.data
                &&& frame.color == PngColor::Rgb ==> image.rgba == with_alpha(frame.data)
            },
            Err(e) => frame.color != PngColor::Rgba && frame.color != PngColor::Rgb && (
            e matches Some(ClipboardErrorModel::Image(_))),
        },
{
}

/// Text is taken as it is where texts are shared, there is any and it is not over the limit;
/// an image as the file that it makes, on the same terms.
pub proof fn law_what_is_copied_is_taken_as_it_is(
    limits: Limits,
    text: Seq<char>,
    width: u32,
    height: u32,
    rgba: Seq<u8>,
)
    ensures
        limits.text && text.len() > 0 && encode_utf8(text).len() <= limits.max_bytes
            ==> text_payload(limits, Some(text)) == Some(ClipboardModel::Text { text }),
        !limits.text || text.len() == 0 || encode_utf8(text).len() > limits.max_bytes
            ==> text_payload(limits, Some(text)) is None,
        text_payload(limits, None) is None,
        limits.images && image_fits(width, height, rgba) && png_file(width, height, rgba).len()
            <= limits.max_bytes ==> image_payload(limits, width, height, rgba) == Some(
            ClipboardModel::Image { width, height, png: png_file(width, height, rgba) },
        ),
        !limits.images || !image_fits(width, height, rgba) || png_file(width, height, rgba).len()
            > limits.max_bytes ==> image_payload(limits, width, height, rgba) is None,
{
}

/// A poll reports exactly what it finds, and only where its digest is another one than
/// before. A clipboard without anything to share is no news.
pub proof fn law_new_content_is_reported(last: Option<Seq<u8>>, payload: ClipboardModel)
    ensures
        report(last, Some(payload)) == (if last == Some(sha256(tagged(payload)).take(16)) {
            None
        } else {
            Some(ClipboardEventModel::Changed(payload))
        }),
        report(last, None) is None,
        digest_of(None) is None,
        digest_of(Some(payload)) == Some(sha256(tagged(payload)).take(16)),
{
}

/// The next look comes after the interval, or never where the clock cannot tell.
pub proof fn law_polls_keep_their_interval(now_ms: u64, interval_ms: u64)
    ensures
        now_ms + interval_ms <= u64::MAX ==> poll_after(now_ms, interval_ms) == now_ms
            + interval_ms,
        now_ms + interval_ms > u64::MAX ==> poll_after(now_ms, interval_ms) == u64::MAX,
{
}

/// What a machine announces by a beacon is what others learn of it, with the address that the
/// beacon came from; where it asks, a machine that takes part answers.
pub proof fn law_beacons_tell_what_is_announced(
    sender: AdvertiseModel,
    hearer: AdvertiseModel,
    inquiry: bool,
    from: IpModel,
    now: u64,
)
    requires
        hearer.device_id != sender.device_id,
    ensures
        beacon_effect(hearer, beacon_of(sender, inquiry, true), from, now)
            == BeaconActionModel::Lost(sender.device_id),
        beacon_effect(hearer, beacon_of(sender, inquiry, false), from, now) == (
        BeaconActionModel::Found {
            reply: inquiry && hearer.enabled,
            found: DiscoveredModel {
                device_id: sender.device_id,
                name: sender.name,
                os: sender.os,
                fingerprint: sender.fingerprint,
                addresses: seq![from],
                port: if sender.port > 0 {
                    sender.port
                } else {
                    47823
                },
                source: DiscoverSource::Beacon,
                last_seen: now,
            },
        }),
{
}

/// A datagram without the mark of a beacon means nothing.
pub proof fn law_other_datagrams_mean_nothing(
    hearer: AdvertiseModel,
    sender: AdvertiseModel,
    beacon: BeaconModel,
    from: IpModel,
    now: u64,
)
    requires
        beacon.magic != beacon_of(sender, false, false).magic,
    ensures
        beacon_effect(hearer, beacon, from, now) == BeaconActionModel::Ignore,
{
}

/// What a machine announces by multicast DNS is what others read of it.
pub proof fn law_announcements_are_read_back(
    a: AdvertiseModel,
    service: MdnsService,
    addresses: Seq<IpModel>,
    now: u64,
)
    requires
        service.id is Some && service.name is Some && service.os is Some
            && service.fingerprint is Some,
        mdns_properties(a).contains(("id"@, service.id->Some_0@)),
        mdns_properties(a).contains(("name"@, service.name->Some_0@)),
        mdns_properties(a).contains(("os"@, service.os->Some_0@)),
        mdns_properties(a).contains(("fp"@, service.fingerprint->Some_0@)),
        service.port == a.port,
    ensures
        described(service, addresses, now) == (DiscoveredModel {
            device_id: a.device_id,
            name: a.name,
            os: a.os,
            fingerprint: a.fingerprint,
            addresses,
            port: a.port,
            source: DiscoverSource::Mdns,
            last_seen: now,
        }),
{
    reveal_strlit("id");
    reveal_strlit("name");
    reveal_strlit("os");
    reveal_strlit("fp");
    reveal_strlit("v");
    let all = mdns_properties(a);
    assert("id"@.len() == 2 && "name"@.len() == 4 && "os"@.len() == 2 && "fp"@.len() == 2
        && "v"@.len() == 1);
    assert("id"@[0] == 'i' && "os"@[0] == 'o' && "fp"@[0] == 'f');
    assert(all.len() == 5);
    let i = choose|i: int| 0 <= i < all.len() && all[i] == ("id"@, service.id->Some_0@);
    let n = choose|i: int| 0 <= i < all.len() && all[i] == ("name"@, service.name->Some_0@);
    let o = choose|i: int| 0 <= i < all.len() && all[i] == ("os"@, service.os->Some_0@);
    let f = choose|i: int| 0 <= i < all.len() && all[i] == ("fp"@, service.fingerprint->Some_0@);
    assert(i == 0 && n == 1 && o == 2 && f == 3);
    crate::discovery::law_os_word_round_trip(a.os);
}

/// A service that leaves facts out is shown by its full name, as of an unknown system and
/// without a fingerprint.
pub proof fn law_missing_facts_are_not_made_up(
    service: MdnsService,
    addresses: Seq<IpModel>,
    now: u64,
)
    ensures
        service.name is None ==> described(service, addresses, now).name == service.fullname@,
        service.os is None ==> described(service, addresses, now).os == OsKind::Unknown,
        service.fingerprint is None ==> described(service, addresses, now).fingerprint.len() == 0,
{
}

/// Whether the address lists are the same, place by place.
pub open spec fn same_places(a: Seq<IpModel>, b: Seq<IpModel>) -> bool {
    a.len() == b.len() && forall|i: int|
        0 <= i < a.len() ==> (#[trigger] a[i]).v4 == b[i].v4 && a[i].value == b[i].value
}

/// A machine that was not forwarded yet is forwarded. A change is after five seconds, and
/// what did not change after five minutes.
pub proof fn law_changes_are_forwarded(last: SightingModel, found: DiscoveredModel, now_ms: u64)
    ensures
        worth_forwarding(None, found, now_ms),
        worth_forwarding(Some(last), found, now_ms) <==> if same_places(
            last.addresses,
            found.addresses,
        ) && last.name == found.name {
            now_ms - last.at_ms >= 300_000
        } else {
            now_ms - last.at_ms >= 5_000
        },
{
    assert(same_places(last.addresses, found.addresses) <==> crate::discovery::same_addresses(
        last.addresses,
        found.addresses,
    )) by {
        if same_places(last.addresses, found.addresses) {
            assert forall|i: int| 0 <= i < last.addresses.len() implies (
            #[trigger] last.addresses[i]).same(found.addresses[i]) by {}
        }
        if crate::discovery::same_addresses(last.addresses, found.addresses) {
            assert forall|i: int| 0 <= i < last.addresses.len() implies (
            #[trigger] last.addresses[i]).v4 == found.addresses[i].v4 && last.addresses[i].value
                == found.addresses[i].value by {
                assert(last.addresses[i].same(found.addresses[i]));
            }
        }
    }
}

/// Addresses of this machine itself are of no use: those that start with 127 in the older
/// family, and the number one in the newer. All others are, but the newer family only where
/// it is wanted.
pub proof fn law_own_addresses_are_of_no_use(ip: IpModel, v4_only: bool)
    requires
        ip.v4 ==> ip.value < 0x1_0000_0000,
    ensures
        ip.v4 && 0x7f00_0000 <= ip.value < 0x8000_0000 ==> !usable(ip, v4_only),
        ip.v4 && !(0x7f00_0000 <= ip.value < 0x8000_0000) ==> usable(ip, v4_only),
        !ip.v4 && ip.value == 1 ==> !usable(ip, v4_only),
        !ip.v4 && ip.value != 1 ==> usable(ip, v4_only) == !v4_only,
{
    assert(0x7f00_0000 <= ip.value < 0x8000_0000 <==> ip.value / 0x100_0000 == 127)
        by (nonlinear_arith)
        requires
            true,
    ;
}

/// In a host name letters, digits and hyphens stay where they are, and a hyphen stands for
/// everything else.
pub proof fn law_host_names_are_plain(name: Seq<char>, i: int)
    requires
        0 <= i < name.len(),
    ensures
        plain_name(name).len() == name.len(),
        plain_name(name)[i] == if ('a' <= name[i] <= 'z') || ('A' <= name[i] <= 'Z') || ('0'
            <= name[i] <= '9') || name[i] == '-' {
            name[i]
        } else {
            '-'
        },
{
}

/// An upper case hexadecimal digit.
pub open spec fn hex_upper(d: int) -> char {
    if d < 10 {
        (48 + d) as char
    } else {
        (55 + d) as char
    }
}

/// A fingerprint shows the first eight bytes of the digest, each by its two digits with the
/// high one first, two bytes to a group.
pub proof fn law_a_fingerprint_shows_the_digest(digest: Seq<u8>, i: int)
    requires
        digest.len() >= 8,
        0 <= i < 8,
    ensures
        grouped_digits(digest)[2 * i + i / 2] == hex_upper(digest[i] as int / 16),
        grouped_digits(digest)[2 * i + i / 2 + 1] == hex_upper(digest[i] as int % 16),
{
    reveal_strlit("-");
    let bytes = digest.take(8);
    let digits = upper_text(hex_text(bytes));
    let high = digest[i] as int / 16;
    let low = digest[i] as int % 16;
    assert(0 <= high < 16 && 0 <= low < 16);
    assert(hex_text(bytes)[2 * i] == crate::encoding::hex_digit(high));
    assert(hex_text(bytes)[2 * i + 1] == crate::encoding::hex_digit(low));
    assert(digits[2 * i] == hex_upper(high));
    assert(digits[2 * i + 1] == hex_upper(low));
    let f = grouped_digits(digest);
    if i < 2 {
        assert(f[2 * i] == digits[2 * i]);
    } else if i < 4 {
        assert(f[2 * i + 1] == digits[2 * i]);
    } else if i < 6 {
        assert(f[2 * i + 2] == digits[2 * i]);
    } else {
        assert(f[2 * i + 3] == digits[2 * i]);
    }
}

/// The messages of a handshake: the first carries nothing, the second the identity of the
/// side that answers, the third that of the side that called; then the handshake is over.
pub proof fn law_the_caller_shows_itself_last(step: int)
    requires
        step >= 0,
    ensures
        move_at(Role::Initiator, 0) == Move::SendEmpty,
        move_at(Role::Initiator, 1) == Move::ReceiveHello,
        move_at(Role::Initiator, 2) == Move::SendHello,
        move_at(Role::Responder, 0) == Move::ReceiveEmpty,
        move_at(Role::Responder, 1) == Move::SendHello,
        move_at(Role::Responder, 2) == Move::ReceiveHello,
        step > 2 ==> move_at(Role::Initiator, step) == Move::Done && move_at(Role::Responder, step)
            == Move::Done,
{
}

/// Nonces count up by one, so that none comes twice before all have come.
pub proof fn law_nonces_count_up(n: u64)
    ensures
        n < u64::MAX ==> next_nonce(n) == n + 1,
        next_nonce(u64::MAX) == 0,
{
}

/// Input and the handing over of input go ahead of everything else, and nothing else does.
pub proof fn law_input_goes_ahead(message: MessageModel)
    ensures
        message.urgent() <==> (message matches MessageModel::Input(_)) || (
        message matches MessageModel::Control(_)),
{
}

/// While the mouse is captured, what it does is reported and swallowed: each button by its
/// own events, going down by the one and up by the other, movement with or without a button,
/// and scrolling.
pub proof fn law_the_tap_reports_the_mouse(
    state: TapState,
    user_data: i64,
    virtual_key: u16,
    flags: u64,
)
    requires
        state.capture_mouse,
        !state.warping,
        user_data != 0x5544_4b31,
    ensures
        tap_action(state, 1, user_data, virtual_key, flags) == (TapAction::Button {
            button: MouseButton::Left,
            down: true,
        }),
        tap_action(state, 2, user_data, virtual_key, flags) == (TapAction::Button {
            button: MouseButton::Left,
            down: false,
        }),
        tap_action(state, 3, user_data, virtual_key, flags) == (TapAction::Button {
            button: MouseButton::Right,
            down: true,
        }),
        tap_action(state, 4, user_data, virtual_key, flags) == (TapAction::Button {
            button: MouseButton::Right,
            down: false,
        }),
        tap_action(state, 25, user_data, virtual_key, flags) == (TapAction::Button {
            button: MouseButton::Middle,
            down: true,
        }),
        tap_action(state, 26, user_data, virtual_key, flags) == (TapAction::Button {
            button: MouseButton::Middle,
            down: false,
        }),
        tap_action(state, 5, user_data, virtual_key, flags) == TapAction::Move,
        tap_action(state, 6, user_data, virtual_key, flags) == TapAction::Move,
        tap_action(state, 7, user_data, virtual_key, flags) == TapAction::Move,
        tap_action(state, 27, user_data, virtual_key, flags) == TapAction::Move,
        tap_action(state, 22, user_data, virtual_key, flags) == TapAction::Wheel,
{
}

/// The flag by which a modifier key shows that it is down: the two shift, control, option and
/// command keys have one each, and so has caps lock.
pub open spec fn flag_of(virtual_key: u16) -> u64 {
    if virtual_key == 0x38 || virtual_key == 0x3c {
        0x2_0000
    } else if virtual_key == 0x3b || virtual_key == 0x3e {
        0x4_0000
    } else if virtual_key == 0x3a || virtual_key == 0x3d {
        0x8_0000
    } else if virtual_key == 0x37 || virtual_key == 0x36 {
        0x10_0000
    } else if virtual_key == 0x39 {
        0x1_0000
    } else {
        0
    }
}

/// While the keyboard is captured, its keys are reported and swallowed: ordinary keys going
/// down or up by their own events, modifier keys by their flag. Keys that are not captured
/// pass, and so does a mouse that is not.
pub proof fn law_the_tap_reports_the_keyboard(
    state: TapState,
    event_type: u32,
    user_data: i64,
    virtual_key: u16,
    flags: u64,
)
    requires
        !state.warping,
        user_data != 0x5544_4b31,
    ensures
        state.capture_keys ==> tap_action(state, 10, user_data, virtual_key, flags) == (
        TapAction::Key { down: true }),
        state.capture_keys ==> tap_action(state, 11, user_data, virtual_key, flags) == (
        TapAction::Key { down: false }),
        state.capture_keys ==> tap_action(state, 12, user_data, virtual_key, flags) == (
        TapAction::Key { down: flag_of(virtual_key) != 0 && flags & flag_of(virtual_key) != 0 }),
        !state.capture_keys && 10 <= event_type <= 12 ==> tap_action(
            state,
            event_type,
            user_data,
            virtual_key,
            flags,
        ) == TapAction::Pass,
        !state.capture_mouse && !(10 <= event_type <= 12) && event_type < 0xffff_fffe
            ==> tap_action(state, event_type, user_data, virtual_key, flags) == TapAction::Pass,
        modifier_mask(virtual_key) == flag_of(virtual_key),
{
}

/// A button that is posted is the one that a tap reports of such an event, going the same
/// way; the side buttons count as the middle one. Each button has a bit of its own.
pub proof fn law_posted_buttons_are_what_a_tap_reports(
    state: TapState,
    button: MouseButton,
    down: bool,
)
    requires
        state.capture_mouse,
        !state.warping,
    ensures
        tap_action(state, button_plan_for(button, down).event_type, 0, 0, 0) == (
        TapAction::Button {
            button: match button {
                MouseButton::Left => MouseButton::Left,
                MouseButton::Right => MouseButton::Right,
                _ => MouseButton::Middle,
            },
            down,
        }),
        button_plan_for(button, down).button == match button {
            MouseButton::Left => 0u32,
            MouseButton::Right => 1u32,
            _ => 2u32,
        },
        button_plan_for(button, down).bit == match button {
            MouseButton::Left => 1u8,
            MouseButton::Right => 2u8,
            _ => 4u8,
        },
{
}

/// A mouse message with the given number and data, for a hook that may look at it.
pub open spec fn mouse_message(message: u32, x: i32, y: i32, mouse_data: u32) -> MouseMessage {
    MouseMessage { code: 0, message, x, y, mouse_data, flags: 0, extra: 0 }
}

/// While the mouse is captured, a hook reports and swallows what it does: how far the cursor
/// went from where it is pinned, each button going down or up, and how far a wheel turned.
#[verifier::spinoff_prover]
pub proof fn law_the_hook_reports_the_mouse(
    x: i32,
    y: i32,
    origin_x: i32,
    origin_y: i32,
    data: u32,
    down: bool,
)
    ensures
        x != origin_x || y != origin_y ==> mouse_action(
            true,
            mouse_message(0x200, x, y, data),
            origin_x,
            origin_y,
        ) == MouseAction::Swallow(
            MouseObservation::Move { dx: (x - origin_x) as i64, dy: (y - origin_y) as i64 },
        ),
        mouse_action(
                true,
                mouse_message(
                    if down {
                        0x201
                    } else {
                        0x202
                    },
                    x,
                    y,
                    data,
                ),
                origin_x,
                origin_y,
            ) == MouseAction::Swallow(MouseObservation::Button { button: MouseButton::Left, down }),
        mouse_action(
                true,
                mouse_message(
                    if down {
                        0x204
                    } else {
                        0x205
                    },
                    x,
                    y,
                    data,
                ),
                origin_x,
                origin_y,
            ) == MouseAction::Swallow(
                MouseObservation::Button { button: MouseButton::Right, down },
            ),
        mouse_action(
                true,
                mouse_message(
                    if down {
                        0x207
                    } else {
                        0x208
                    },
                    x,
                    y,
                    data,
                ),
                origin_x,
                origin_y,
            ) == MouseAction::Swallow(
                MouseObservation::Button { button: MouseButton::Middle, down },
            ),
        mouse_action(
                true,
                mouse_message(
                    if down {
                        0x20b
                    } else {
                        0x20c
                    },
                    x,
                    y,
                    data,
                ),
                origin_x,
                origin_y,
            ) == MouseAction::Swallow(
                MouseObservation::Button {
                    button: if data / 0x1_0000 == 2 {
                        MouseButton::X2
                    } else {
                        MouseButton::X1
                    },
                    down,
                },
            ),
        mouse_action(true, mouse_message(0x20a, x, y, data), origin_x, origin_y) matches
            MouseAction::Swallow(MouseObservation::Wheel { horizontal, delta }) && !horizontal
            && turns(delta, data),
        mouse_action(true, mouse_message(0x20e, x, y, data), origin_x, origin_y) matches
            MouseAction::Swallow(MouseObservation::Wheel { horizontal, delta }) && horizontal
            && turns(delta, data),
        mouse_action(true, mouse_message(0x200, origin_x, origin_y, data), origin_x, origin_y)
            == MouseAction::Swallow(MouseObservation::Nothing),
{
    assert(0u32 & 1 == 0) by (bit_vector);
    assert(data / 0x1_0000 < 0x1_0000);
}

/// Whether a wheel turned as far as the upper half of the message data says, read as a signed
/// number.
pub open spec fn turns(delta: i16, data: u32) -> bool {
    &&& delta >= 0 ==> delta == data / 0x1_0000
    &&& delta < 0 ==> delta + 0x1_0000 == data / 0x1_0000
}

/// A hook lets pass what is not captured, what it must not look at, and what was injected.
pub proof fn law_the_hook_lets_the_rest_pass(
    capturing: bool,
    m: MouseMessage,
    origin_x: i32,
    origin_y: i32,
)
    ensures
        mouse_action(capturing, m, origin_x, origin_y) == MouseAction::Pass <==> !capturing
            || m.code < 0 || m.flags & 1 != 0 || m.extra == 0x5544_4b31,
{
}

/// The flags by which a button is injected: one for each button and way, which the two side
/// buttons share.
pub proof fn law_injected_buttons_go_their_way(button: MouseButton)
    ensures
        button_flags(button, true) == match button {
            MouseButton::Left => 0x2u32,
            MouseButton::Right => 0x8u32,
            MouseButton::Middle => 0x20u32,
            _ => 0x80u32,
        },
        button_flags(button, false) == 2 * button_flags(button, true),
{
}

} // verus!
