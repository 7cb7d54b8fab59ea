use std::time::{SystemTime, UNIX_EPOCH};

use uniondesk::bytes::{push_le, read_le};
use uniondesk::clock::{now_unix, seconds_or_zero};
use uniondesk::config::EdgeLink;
use uniondesk::discovery::{os_label, parse_os};
use uniondesk::geom::Side;
use uniondesk::identity::DeviceId;
use uniondesk::keyed::{position, remove_all, replace_or_push};
use uniondesk::protocol::OsKind;
use uniondesk::text::{
    comes_before, count_char, cut_before, format_decimal, format_fixed, has_text, to_upper, trim,
};

#[test]
fn texts_are_ordered_as_strings_are() {
    let words = ["", "a", "aa", "ab", "b", "z", "\u{e9}", "\u{1f600}"];
    for left in words {
        for right in words {
            assert_eq!(comes_before(left, right), left < right, "{left:?} {right:?}");
        }
    }
}

#[test]
fn texts_are_cut_and_counted() {
    assert_eq!(trim(" \t a b\u{2003}\n"), "a b");
    assert_eq!(to_upper("ab1-f\u{e9}"), "AB1-F\u{e9}");
    assert_eq!(cut_before("ab-cd-e", '-'), "ab");
    assert_eq!(cut_before("abc", '-'), "abc");
    assert_eq!(count_char("a:b::", ':'), 3);
    assert!(has_text("ud_engine=debug", "ud_engine"));
    assert!(!has_text("ud_engin", "ud_engine"));
    assert!(has_text("x", ""));
}

#[test]
fn numbers_are_written_in_decimal() {
    assert_eq!(format_decimal(0), "0");
    assert_eq!(format_decimal(u64::MAX), u64::MAX.to_string());
    assert_eq!(format_fixed(7, 6), "000007");
    assert_eq!(format_fixed(999_999, 6), "999999");
}

#[test]
fn numbers_travel_with_the_low_byte_first() {
    let mut out = vec![9];
    push_le(&mut out, 0x0102_0304, 4);
    assert_eq!(out, [9, 4, 3, 2, 1]);
    assert_eq!(read_le(&out, 1, 5), 0x0102_0304);
    let mut wide = Vec::new();
    push_le(&mut wide, u64::MAX - 1, 8);
    assert_eq!(read_le(&wide, 0, 8), u64::MAX - 1);
}

#[test]
fn every_edge_faces_its_opposite() {
    for side in Side::ALL {
        assert_ne!(side.opposite(), side);
        assert_eq!(side.opposite().opposite(), side);
        assert_eq!(side.opposite().is_horizontal(), side.is_horizontal());
    }
}

#[test]
fn system_words_are_read_back() {
    for os in [OsKind::Windows, OsKind::Macos, OsKind::Linux, OsKind::Unknown] {
        assert_eq!(parse_os(os_label(os)), os);
    }
    assert_eq!(parse_os("plan9"), OsKind::Unknown);
    assert_eq!(OsKind::current("linux"), OsKind::Linux);
}

#[test]
fn lists_keep_one_entry_per_key() {
    let id = DeviceId::from_text;
    let link = |peer: &str, name: &str| EdgeLink::new(id(peer), name, Side::Left);
    let mut links = vec![link("a", "one"), link("b", "two")];
    replace_or_push(&mut links, &id("a"), link("a", "three"));
    replace_or_push(&mut links, &id("c"), link("c", "four"));
    let names: Vec<&str> = links.iter().map(|link| link.peer_name.as_str()).collect();
    assert_eq!(names, ["three", "two", "four"]);
    assert_eq!(position(&links, &id("c")), 2);
    assert_eq!(position(&links, &id("z")), 3);
    assert!(remove_all(&mut links, &id("b")));
    assert!(!remove_all(&mut links, &id("b")));
    assert_eq!(position(&links, &id("c")), 1);
}

#[test]
fn the_time_is_the_whole_seconds_since_the_epoch() {
    let reading = || SystemTime::now().duration_since(UNIX_EPOCH).unwrap().as_secs();
    let before = reading();
    let now = now_unix();
    let after = reading();
    assert!(before <= now && now <= after, "{before} {now} {after}");
    assert_eq!(seconds_or_zero(Some(1_700_000_000)), 1_700_000_000);
    assert_eq!(seconds_or_zero(None), 0);
}
