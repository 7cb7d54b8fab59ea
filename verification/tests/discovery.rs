use uniondesk::discovery::{
    mdns_record, on_beacon, os_label, our_beacon, parse_os, sanitize, usable_addresses, Advertise,
    BeaconAction, DiscoverSource, Discovered, DiscoveryTable, IpAddress, MdnsFilter, MdnsService,
};
use uniondesk::identity::DeviceId;
use uniondesk::now_unix;
use uniondesk::protocol::OsKind;

fn ip(text: &str) -> IpAddress {
    if text.contains(':') {
        let value = match text {
            "::1" => 1,
            "fe80::1" => (0xfe80u128 << 112) + 1,
            "fe80::2" => (0xfe80u128 << 112) + 2,
            other => panic!("{other}"),
        };
        IpAddress { v4: false, value, text: text.to_string() }
    } else {
        let value = text
            .split('.')
            .fold(0u128, |sum, octet| sum * 256 + octet.parse::<u128>().unwrap());
        IpAddress { v4: true, value, text: text.to_string() }
    }
}

fn discovered(id: &str, addr: &str) -> Discovered {
    Discovered {
        device_id: DeviceId(id.into()),
        name: "peer".into(),
        os: OsKind::Windows,
        fingerprint: "AAAA-BBBB-CCCC-DDDD".into(),
        addresses: vec![ip(addr)],
        port: 47823,
        source: DiscoverSource::Beacon,
        last_seen: now_unix(),
    }
}

#[test]
fn the_table_keeps_one_entry_per_device() {
    let mut table = DiscoveryTable::default();
    assert!(table.upsert(discovered("a", "192.168.1.5")));
    assert!(!table.upsert(discovered("a", "192.168.1.5")));
    assert!(table.upsert(discovered("a", "192.168.1.9")));
    assert_eq!(table.list().len(), 1);
    assert_eq!(table.list()[0].best_address().unwrap().ip.text, "192.168.1.9");
}

#[test]
fn stale_entries_are_pruned() {
    let mut table = DiscoveryTable::default();
    let mut old = discovered("a", "192.168.1.5");
    old.last_seen = 1;
    table.upsert(old);
    table.prune(60);
    assert!(table.list().is_empty());
}

#[test]
fn sanitize_removes_dots() {
    assert_eq!(sanitize("Ruiqi's MacBook Pro"), "Ruiqi-s-MacBook-Pro");
}

#[test]
fn pruning_keeps_what_is_fresh_enough() {
    let mut table = DiscoveryTable::default();
    let mut a = discovered("a", "10.0.0.1");
    a.last_seen = 100;
    let mut b = discovered("b", "10.0.0.2");
    b.last_seen = 50;
    table.upsert(a);
    table.upsert(b);
    table.prune_at(140, 90);
    assert_eq!(table.list().len(), 2);
    table.prune_at(141, 90);
    assert_eq!(table.list().len(), 1);
    assert!(table.get(&DeviceId::from_text("a")).is_some());
    assert!(table.get(&DeviceId::from_text("b")).is_none());
}

#[test]
fn the_first_source_is_remembered_and_empty_addresses_keep_the_old() {
    let mut table = DiscoveryTable::default();
    table.upsert(discovered("a", "10.0.0.1"));
    let mut again = discovered("a", "10.0.0.1");
    again.source = DiscoverSource::Mdns;
    again.addresses = Vec::new();
    assert!(table.upsert(again));
    let entry = &table.list()[0];
    assert_eq!(entry.source, DiscoverSource::Beacon);
    assert_eq!(entry.addresses, vec![ip("10.0.0.1")]);
    let mut renamed = discovered("a", "10.0.0.1");
    renamed.name = "other".to_string();
    assert!(table.upsert(renamed));
    assert!(table.remove(&DeviceId::from_text("a")));
    assert!(!table.remove(&DeviceId::from_text("a")));
}

#[test]
fn the_older_family_is_dialled_first() {
    let mut found = discovered("a", "fe80::1");
    assert_eq!(found.best_address().unwrap().display(), "[fe80::1]:47823");
    found.addresses.push(ip("10.0.0.7"));
    assert_eq!(found.best_address().unwrap().display(), "10.0.0.7:47823");
    found.addresses = Vec::new();
    assert!(found.best_address().is_none());
}

fn advertise(id: &str) -> Advertise {
    Advertise {
        device_id: DeviceId::from_text(id),
        name: "My Desk".to_string(),
        os: OsKind::Linux,
        port: 4000,
        fingerprint: "F".to_string(),
        enabled: true,
    }
}

#[test]
fn beacons_reach_others_only() {
    let me = advertise("me");
    let other = advertise("other");
    assert_eq!(
        on_beacon(&me, our_beacon(&me, false, false), ip("10.0.0.1"), 5),
        BeaconAction::Ignore
    );
    match on_beacon(&me, our_beacon(&other, true, false), ip("10.0.0.1"), 5) {
        BeaconAction::Found { reply, found } => {
            assert!(reply);
            assert_eq!(found.device_id.as_str(), "other");
            assert_eq!(found.best_address().unwrap().display(), "10.0.0.1:4000");
            assert_eq!(found.last_seen, 5);
            assert_eq!(found.source, DiscoverSource::Beacon);
        }
        unexpected => panic!("{unexpected:?}"),
    }
    let mut portless = our_beacon(&other, false, false);
    portless.port = 0;
    match on_beacon(&me, portless, ip("10.0.0.1"), 5) {
        BeaconAction::Found { reply, found } => {
            assert!(!reply);
            assert_eq!(found.port, 47823);
        }
        unexpected => panic!("{unexpected:?}"),
    }
    assert_eq!(
        on_beacon(&me, our_beacon(&other, true, true), ip("10.0.0.1"), 5),
        BeaconAction::Lost(DeviceId::from_text("other"))
    );
    let mut foreign = our_beacon(&other, false, false);
    foreign.magic = "uniondesk/2".to_string();
    assert_eq!(on_beacon(&me, foreign, ip("10.0.0.1"), 5), BeaconAction::Ignore);
}

#[test]
fn addresses_are_sorted_and_deduplicated() {
    let all = vec![
        ip("192.168.1.9"),
        ip("fe80::1"),
        ip("127.0.0.1"),
        ip("10.0.0.2"),
        ip("192.168.1.9"),
    ];
    assert_eq!(usable_addresses(&all), vec![ip("10.0.0.2"), ip("192.168.1.9")]);
    let newer = vec![ip("::1"), ip("fe80::2"), ip("fe80::1"), ip("127.8.0.1")];
    assert_eq!(usable_addresses(&newer), vec![ip("fe80::1"), ip("fe80::2")]);
    assert!(usable_addresses(&vec![ip("::1")]).is_empty());
}

fn service(addr: &str) -> MdnsService {
    MdnsService {
        id: Some("peer".to_string()),
        name: None,
        fullname: "full".to_string(),
        os: Some("macos".to_string()),
        fingerprint: None,
        addresses: vec![ip(addr)],
        port: 9,
    }
}

#[test]
fn resolutions_are_forwarded_when_they_change() {
    let mut filter = MdnsFilter::new();
    let found = filter.on_resolved(service("10.0.0.1"), 7, 1_000).unwrap();
    assert_eq!(found.name, "full");
    assert_eq!(found.os, OsKind::Macos);
    assert_eq!(found.fingerprint, "");
    assert_eq!(found.source, DiscoverSource::Mdns);
    assert_eq!(found.last_seen, 7);
    // Unchanged within five minutes, or changed within five seconds: not forwarded.
    assert!(filter.on_resolved(service("10.0.0.1"), 8, 300_999).is_none());
    assert!(filter.on_resolved(service("10.0.0.2"), 8, 5_999).is_none());
    assert!(filter.on_resolved(service("10.0.0.2"), 8, 6_000).is_some());
    assert!(filter.on_resolved(service("10.0.0.2"), 8, 306_000).is_some());
    let mut nameless = service("10.0.0.1");
    nameless.id = None;
    assert!(filter.on_resolved(nameless, 8, 900_000).is_none());
    assert!(filter.on_resolved(service("127.0.0.1"), 8, 900_000).is_none());
}

#[test]
fn announcements_carry_their_properties() {
    let record = mdns_record(&advertise("me"));
    assert_eq!(record.host, "My-Desk-uniondesk.local.");
    let expected: Vec<(String, String)> = vec![
        ("id".to_string(), "me".to_string()),
        ("name".to_string(), "My Desk".to_string()),
        ("os".to_string(), "linux".to_string()),
        ("fp".to_string(), "F".to_string()),
        ("v".to_string(), "1".to_string()),
    ];
    assert_eq!(record.properties, expected);
    for os in [OsKind::Windows, OsKind::Macos, OsKind::Linux, OsKind::Unknown] {
        assert_eq!(parse_os(os_label(os)), os);
    }
    assert_eq!(DiscoverSource::Mdns.label(), "Bonjour");
    assert_eq!(DiscoverSource::Beacon.label(), "Broadcast");
    assert_eq!(DiscoverSource::Manual.label(), "Manual");
}
