use uniondesk::clock::now_unix;
use uniondesk::config::{
    default_device_name, EdgeLink, KeyChange, PeerRecord, PeerStore, ReleaseHotkey, Settings,
};
use uniondesk::encoding::Base64Fault;
use uniondesk::error::Error;
use uniondesk::geom::Side;
use uniondesk::identity::{fingerprint_of, DeviceId, DeviceIdentity};
use uniondesk::noise::KeyPair;
use uniondesk::paths::{DirPath, PathPart};
use uniondesk::protocol::OsKind;

#[test]
fn generated_identity_is_stable_and_well_formed() {
    let id = DeviceIdentity::generate(DeviceId::new()).unwrap();
    assert_eq!(id.private_key().unwrap().len(), 32);
    assert_eq!(id.public_key_raw().unwrap().len(), 32);
    assert_eq!(id.fingerprint().len(), "xxxx-xxxx-xxxx-xxxx".len());
}

#[test]
fn a_fresh_identity_knows_when_it_was_created() {
    let before = now_unix();
    let id = DeviceIdentity::generate(DeviceId::from_text("me")).unwrap();
    let loaded = DeviceIdentity::load_or_create(None).unwrap();
    let after = now_unix();
    assert!(before > 0 && before <= id.created_at && id.created_at <= after);
    assert!(loaded.fresh);
    assert!(before <= loaded.identity.created_at && loaded.identity.created_at <= after);
}

#[test]
fn short_id_is_first_group() {
    let id = DeviceId("a1b2c3d4-0000-0000-0000-000000000000".into());
    assert_eq!(id.short(), "a1b2c3d4");
}

#[test]
fn a_new_id_has_the_shape_of_a_random_uuid() {
    let id = DeviceId::new();
    assert_eq!(id.as_str().len(), 36);
    assert_eq!(id.short().len(), 8);
    assert_eq!(&id.as_str()[14..15], "4");
    assert!(!id.same(&DeviceId::new()));
    assert_eq!(DeviceId::from_text("plain").short(), "plain");
}

#[test]
fn fingerprints_are_the_first_bytes_of_the_digest() {
    // SHA-256 of nothing starts with e3 b0 c4 42 98 fc 1c 14.
    assert_eq!(fingerprint_of(&[]), "E3B0-C442-98FC-1C14");
    // SHA-256 of "abc" starts with ba 78 16 bf 8f 01 cf ea.
    assert_eq!(fingerprint_of(b"abc"), "BA78-16BF-8F01-CFEA");
}

#[test]
fn keys_survive_their_text_form() {
    let pair = KeyPair {
        private: (0u8..32).collect(),
        public: (100u8..132).collect(),
    };
    let id = DeviceIdentity::from_keypair(DeviceId::from_text("me"), 7, &pair);
    assert_eq!(id.private_key().unwrap(), pair.private);
    assert_eq!(id.public_key_raw().unwrap(), pair.public);
    assert_eq!(id.version, DeviceIdentity::FILE_VERSION);
    assert_eq!(id.created_at, 7);
    assert_eq!(
        id.public_key_base64(),
        "ZGVmZ2hpamtsbW5vcHFyc3R1dnd4eXp7fH1+f4CBgoM="
    );
}

#[test]
fn broken_keys_are_refused() {
    let mut id = DeviceIdentity::generate(DeviceId::from_text("me")).unwrap();
    id.private_key = "AAAA".to_string();
    match id.private_key() {
        Err(Error::Key(text)) => {
            assert_eq!(text, "expected a 32 byte private key, found 3");
        }
        other => panic!("{other:?}"),
    }
    id.private_key = "A?==".to_string();
    match id.private_key() {
        Err(Error::Base64(fault)) => {
            assert_eq!(fault, Base64Fault::InvalidByte { offset: 1, byte: 63 });
            assert_eq!(fault.message(), "Invalid symbol 63, offset 1.");
            assert_eq!(
                Error::Base64(fault).message(),
                "invalid base64 payload: Invalid symbol 63, offset 1."
            );
        }
        other => panic!("{other:?}"),
    }
    id.public_key = "!".to_string();
    assert!(id.public_key_raw().is_err());
    assert_eq!(id.fingerprint(), fingerprint_of(&[]));
}

#[test]
fn a_stored_identity_is_used_again() {
    let stored = DeviceIdentity::generate(DeviceId::from_text("me")).unwrap();
    let key = stored.public_key_base64().to_string();
    let loaded = DeviceIdentity::load_or_create(Some(stored)).unwrap();
    assert!(!loaded.fresh);
    assert_eq!(loaded.identity.public_key_base64(), key);
    let fresh = DeviceIdentity::load_or_create(None).unwrap();
    assert!(fresh.fresh);
    assert_eq!(fresh.identity.device_id.as_str().len(), 36);
}

#[test]
fn errors_speak_in_sentences() {
    let broken = Error::Config {
        path: "/etc/x".to_string(),
        source: Box::new(Error::Json("eof".to_string())),
    };
    assert_eq!(
        broken.message(),
        "invalid configuration at /etc/x: serialization error: eof"
    );
    assert_eq!(Error::Io("gone".to_string()).message(), "i/o error: gone");
    assert_eq!(Error::Hex("odd".to_string()).message(), "invalid hex payload: odd");
    assert_eq!(Error::Key("short".to_string()).message(), "invalid key material: short");
    assert_eq!(Error::invalid("bad").message(), "invalid argument: bad");
    assert_eq!(Error::UnknownPeer("x".to_string()).message(), "peer not found: x");
    assert_eq!(Error::other("plain").message(), "plain");
    assert_eq!(
        Base64Fault::InvalidLength { length: 5 }.message(),
        "Invalid input length: 5"
    );
    assert_eq!(
        Base64Fault::InvalidLastSymbol { offset: 2, byte: 66 }.message(),
        "Invalid last symbol 66, offset 2."
    );
    assert_eq!(Base64Fault::InvalidPadding.message(), "Invalid padding");
}

fn record(id: &str, key: &str) -> PeerRecord {
    PeerRecord {
        device_id: DeviceId::from_text(id),
        name: format!("name of {id}"),
        public_key: key.to_string(),
        fingerprint: "F".to_string(),
        os: OsKind::Linux,
        last_seen: None,
        last_address: None,
    }
}

#[test]
fn the_store_pins_one_key_per_peer() {
    let mut store = PeerStore::new();
    let a = DeviceId::from_text("a");
    let b = DeviceId::from_text("b");
    assert_eq!(store.upsert(record("a", "k1")), KeyChange::New);
    assert_eq!(store.upsert(record("b", "k2")), KeyChange::New);
    assert!(store.is_trusted_key(&a, "k1"));
    assert!(!store.is_trusted_key(&a, "k2"));
    assert_eq!(store.upsert(record("a", "k1")), KeyChange::Unchanged);
    assert_eq!(store.upsert(record("a", "k3")), KeyChange::Replaced);
    assert!(store.is_trusted_key(&a, "k3"));
    assert_eq!(store.peers.len(), 2);
    store.get_mut(&a).unwrap().name = "renamed".to_string();
    assert_eq!(store.get(&a).unwrap().name, "renamed");
    assert!(store.remove(&a));
    assert!(!store.remove(&a));
    assert!(store.get(&a).is_none());
    assert!(store.get_mut(&a).is_none());
    assert!(store.is_trusted_key(&b, "k2"));
    assert_eq!(PeerStore::load(None).peers.len(), 0);
    assert_eq!(PeerStore::load(Some(store)).peers.len(), 1);
}

fn downloads() -> DirPath {
    DirPath {
        text: "/home/me/Downloads".to_string(),
        parts: vec![PathPart::Root, PathPart::Normal("home".to_string())],
    }
}

#[test]
fn links_are_replaced_not_repeated() {
    let mut settings = Settings::first_run("desk".to_string(), downloads());
    let a = DeviceId::from_text("a");
    settings.set_link(EdgeLink::new(a.clone(), "A", Side::Left));
    settings.set_link(EdgeLink::new(DeviceId::from_text("b"), "B", Side::Top));
    settings.set_link(EdgeLink::new(a.clone(), "A", Side::Right));
    assert_eq!(settings.links.len(), 2);
    assert_eq!(settings.link_for(&a).unwrap().local_side, Side::Right);
    assert_eq!(settings.link_for(&a).unwrap().remote_side, Side::Left);
    settings.remove_link(&a);
    assert!(settings.link_for(&a).is_none());
    assert_eq!(settings.links.len(), 1);
}

#[test]
fn first_run_settings_have_the_documented_defaults() {
    let settings = Settings::load(None, "desk".to_string(), downloads());
    assert_eq!(settings.port, 47823);
    assert!(settings.discoverable);
    assert!(!settings.input.enabled);
    assert!(settings.input.relay_keyboard);
    assert_eq!(settings.input.release_hotkey, ReleaseHotkey::ScrollLockTwice);
    assert_eq!(f64::from_bits(settings.input.mouse_speed.bits), 1.0);
    assert_eq!(f64::from_bits(settings.input.edge_armed_pixels.bits), 2.0);
    assert_eq!(settings.clipboard.poll_interval_ms, 350);
    assert_eq!(settings.clipboard.max_bytes, 8 * 1024 * 1024);
    assert!(settings.clipboard.always);
    assert!(settings.transfer.auto_accept_trusted);
    assert!(!settings.transfer.overwrite_existing);
    let mut other = Settings::first_run("x".to_string(), downloads());
    other.port = 1;
    assert_eq!(Settings::load(Some(other), "desk".to_string(), downloads()).port, 1);
}

#[test]
fn hotkeys_are_labelled() {
    assert_eq!(ReleaseHotkey::ScrollLockTwice.label(), "Scroll Lock twice");
    assert_eq!(ReleaseHotkey::CtrlAltEscape.label(), "Ctrl + Alt + Esc");
    assert_eq!(ReleaseHotkey::CtrlAltCmdEscape.label(), "Ctrl + Alt + Cmd + Esc");
    assert_eq!(ReleaseHotkey::Disabled.label(), "Disabled");
    assert_eq!(ReleaseHotkey::default(), ReleaseHotkey::ScrollLockTwice);
}

#[test]
fn the_machine_name_comes_from_the_first_source_that_has_one() {
    let some = |s: &str| Some(s.to_string());
    assert_eq!(default_device_name(some("pc"), some("host"), None), "pc");
    assert_eq!(default_device_name(None, some("host"), None), "host");
    assert_eq!(default_device_name(None, None, some(" box\n")), "box");
    assert_eq!(default_device_name(some(""), some("host"), some("box")), "box");
    assert_eq!(default_device_name(None, None, some(" \n")), "UnionDesk device");
    assert_eq!(default_device_name(None, None, None), "UnionDesk device");
}
