use uniondesk::desktop::{
    app_directives, bad_address, build_filter, chosen_files, input_relay_supported, link_beyond,
    log_starts_over, normalize_address, parse_side, platform_notes,
};
use uniondesk::geom::Side;
use uniondesk::protocol::OsKind;
use uniondesk::transfer::LocalPath;

#[test]
fn addresses_get_the_default_port() {
    assert_eq!(normalize_address("192.168.1.4"), "192.168.1.4:47823");
    assert_eq!(normalize_address("192.168.1.4:1000"), "192.168.1.4:1000");
    assert_eq!(normalize_address("[::1]:1000"), "[::1]:1000");
    assert_eq!(normalize_address(" ::1 "), "::1:47823");
}

#[test]
fn bracketed_addresses_without_a_port_get_one() {
    assert_eq!(normalize_address("[::1]"), "[::1]:47823");
    assert_eq!(normalize_address(""), ":47823");
    assert_eq!(
        bad_address("nowhere"),
        "'nowhere' is not a valid address. Use host:port."
    );
}

#[test]
fn every_side_word_is_read_back() {
    for side in Side::ALL {
        assert_eq!(parse_side(side.label()), Ok(side));
    }
    assert_eq!(
        parse_side("middle"),
        Err("'middle' is not a screen edge".to_string())
    );
}

#[test]
fn a_link_faces_the_machine_beyond_the_edge() {
    let link = link_beyond("b".to_string(), "Beta", "top").unwrap();
    assert_eq!(link.local_side, Side::Top);
    assert_eq!(link.remote_side, Side::Bottom);
    assert!(link.enabled);
    assert_eq!(f64::from_bits(link.local_range.0.bits), 0.0);
    assert_eq!(f64::from_bits(link.local_range.1.bits), 1.0);
    assert!(link_beyond("b".to_string(), "Beta", "up").is_err());
}

#[test]
fn sending_nothing_is_refused() {
    assert_eq!(
        chosen_files(Vec::new()),
        Err("no files were selected".to_string())
    );
    let one = vec![LocalPath { text: "/a".to_string(), ticket: 3 }];
    assert_eq!(chosen_files(one).unwrap().len(), 1);
}

#[test]
fn notes_follow_the_platform() {
    assert!(input_relay_supported(OsKind::Windows));
    assert!(input_relay_supported(OsKind::Macos));
    assert!(!input_relay_supported(OsKind::Linux));
    let notes = platform_notes(Some("grant it".to_string()), OsKind::Windows);
    assert_eq!(notes.len(), 2);
    assert_eq!(notes[0], "grant it");
    assert!(notes[1].starts_with("Windows may show a firewall prompt"));
    assert!(platform_notes(None, OsKind::Macos).is_empty());
    assert_eq!(
        platform_notes(None, OsKind::Linux),
        vec!["Keyboard and mouse relaying is not implemented on this platform yet.".to_string()]
    );
}

#[test]
fn the_log_filter_keeps_the_application_visible() {
    let own = app_directives();
    assert_eq!(
        own,
        "uniondesk_lib=info,ud_engine=info,ud_net=info,ud_input=info,ud_clipboard=info"
    );
    assert_eq!(
        build_filter(None),
        format!("warn,{own},ud_engine=debug,ud_net=debug")
    );
    assert_eq!(build_filter(Some("warn".to_string())), format!("warn,{own}"));
    assert_eq!(
        build_filter(Some("ud_net=trace".to_string())),
        "ud_net=trace"
    );
}

#[test]
fn a_log_starts_over_beyond_two_mebibytes() {
    assert!(!log_starts_over(None));
    assert!(!log_starts_over(Some(2 * 1024 * 1024)));
    assert!(log_starts_over(Some(2 * 1024 * 1024 + 1)));
}
