use uniondesk::clipboard::{ClipboardEvent, Limits};
use uniondesk::codec::Incoming;
use uniondesk::config::{EdgeLink, PeerRecord, PeerStore, ReleaseHotkey, Settings};
use uniondesk::discovery::{DiscoverSource, Discovered, DiscoveryEvent, IpAddress, SocketAddress};
use uniondesk::engine::dispatch::Event;
use uniondesk::engine::options::{dial_message, DialFailure, EngineError, EngineOptions};
use uniondesk::engine::pairing::{base64_key, normalize_code, pairing_code};
use uniondesk::engine::state::{ChunkTarget, ControlState, Established, Motion, TransferEntry};
use uniondesk::engine::transfers::ChunkOutcome;
use uniondesk::engine::{Action, Command, Engine, Moment};
use uniondesk::geom::{DisplayInfo, Double, Point, Rect, Side};
use uniondesk::identity::{DeviceId, DeviceIdentity};
use uniondesk::input::{CapturedEvent, InputEvent, KeyCode, Modifiers, MouseButton};
use uniondesk::key;
use uniondesk::layout::{PlacedPeer, PushedEdges};
use uniondesk::noise::KeyPair;
use uniondesk::paths::{DirPath, PathPart};
use uniondesk::protocol::{
    ClipboardPayload, DeviceInfo, FileAccept, FileChunk, FileEntry, FileFinished, FileOffer,
    FileProgressReport, InputControl, Message, OsKind, TransferId,
};
use uniondesk::transfer::{FsKind, FsNode, LocalPath};
use uniondesk::view::{
    ConnectionState, ControlModeView, Notice, Snapshot, TransferDirection, TransferState,
};

fn id(text: &str) -> DeviceId {
    DeviceId::from_text(text)
}

fn at(ms: u64) -> Moment {
    Moment { ms, unix: 1_000 + ms / 1_000 }
}

fn double(value: f64) -> Double {
    Double::from_bits(value.to_bits())
}

fn point(x: f64, y: f64) -> Point {
    Point::new(double(x), double(y))
}

fn downloads() -> DirPath {
    DirPath {
        text: "/dl".to_string(),
        parts: vec![PathPart::Root, PathPart::Normal("dl".to_string())],
    }
}

/// The key pair whose bytes all are `seed`.
fn pair(seed: u8) -> KeyPair {
    KeyPair { private: vec![seed; 32], public: vec![seed; 32] }
}

fn engine(name: &str, seed: u8) -> Engine {
    let identity = DeviceIdentity::from_keypair(id(name), 1, &pair(seed));
    let settings = Settings::first_run(name.to_string(), downloads());
    let mut engine = Engine::new(identity, OsKind::Linux, settings, PeerStore::new());
    engine.on_input_started(vec![display()]);
    engine.on_clipboard_started();
    engine.settings.input.enabled = true;
    engine
}

fn display() -> DisplayInfo {
    DisplayInfo {
        id: "one".to_string(),
        name: "One".to_string(),
        bounds: Rect::new(double(0.0), double(0.0), double(800.0), double(600.0)),
        scale_factor: double(1.0),
        is_primary: true,
    }
}

fn info(name: &str, seed: u8) -> DeviceInfo {
    DeviceInfo::new(id(name), name, OsKind::Linux, vec![display()], &[seed; 32])
}

fn established(name: &str, seed: u8, connection: u64, initiator: bool) -> Established {
    Established {
        connection,
        initiator,
        remote_static: vec![seed; 32],
        info: info(name, seed),
        extent: Some((800, 600)),
    }
}

fn trust(engine: &mut Engine, name: &str, seed: u8) {
    engine.peers.upsert(PeerRecord {
        device_id: id(name),
        name: name.to_string(),
        public_key: base64_key(&[seed; 32]),
        fingerprint: info(name, seed).fingerprint,
        os: OsKind::Linux,
        last_seen: None,
        last_address: Some("10.0.0.9:1".to_string()),
    });
}

/// An engine with one trusted, connected peer.
fn connected(me: &str, peer: &str) -> Engine {
    let mut engine = engine(me, 1);
    trust(&mut engine, peer, 2);
    tell(&mut engine, Event::SessionEstablished(established(peer, 2, 7, true)), 0);
    engine
}

/// Hands an event to the engine and takes what it asks for.
fn tell(engine: &mut Engine, event: Event, ms: u64) -> Vec<Action> {
    assert!(engine.handle(event, 123_456_789, at(ms)));
    engine.take_actions()
}

fn hear(engine: &mut Engine, peer: &str, message: Message, ms: u64) -> Vec<Action> {
    let event = Event::Incoming {
        peer: id(peer),
        item: Incoming::Message(message),
        extent: Some((1, 2)),
    };
    tell(engine, event, ms)
}

fn notices(actions: &[Action]) -> Vec<String> {
    actions
        .iter()
        .filter_map(|action| match action {
            Action::Notify(Notice::Info { message }) => Some(format!("info: {message}")),
            Action::Notify(Notice::Warning { message }) => Some(format!("warning: {message}")),
            Action::Notify(Notice::Error { message }) => Some(format!("error: {message}")),
            _ => None,
        })
        .collect()
}

fn last_snapshot(actions: &[Action]) -> &Snapshot {
    actions
        .iter()
        .rev()
        .find_map(|action| match action {
            Action::Publish(snapshot) => Some(&**snapshot),
            _ => None,
        })
        .unwrap()
}

fn sent(actions: &[Action]) -> Vec<&Message> {
    actions
        .iter()
        .filter_map(|action| match action {
            Action::Send { message, .. }
            | Action::SendUrgent { message, .. }
            | Action::SendEither { message, .. } => Some(message),
            _ => None,
        })
        .collect()
}

fn closes(actions: &[Action]) -> Vec<u64> {
    actions
        .iter()
        .filter_map(|action| match action {
            Action::Close { connection } => Some(*connection),
            _ => None,
        })
        .collect()
}

/// Carries messages between two engines until nobody has anything to say.
fn carry(alpha: &mut Engine, beta: &mut Engine, from_alpha: Vec<Action>, from_beta: Vec<Action>) {
    let mut queue: Vec<(bool, Action)> = from_alpha.into_iter().map(|a| (true, a)).collect();
    queue.extend(from_beta.into_iter().map(|a| (false, a)));
    while !queue.is_empty() {
        let (by_alpha, action) = queue.remove(0);
        let message = match action {
            Action::Send { message, .. } | Action::SendEither { message, .. } => message,
            _ => continue,
        };
        let answers = if by_alpha {
            hear(beta, "alpha", message, 1)
        } else {
            hear(alpha, "beta", message, 1)
        };
        queue.extend(answers.into_iter().map(|a| (!by_alpha, a)));
    }
}

#[test]
fn two_engines_pair_and_connect() {
    let mut alpha = engine("alpha", 1);
    let mut beta = engine("beta", 2);
    let dialled = tell(
        &mut alpha,
        Event::Command(Command::ConnectAddress {
            address: SocketAddress {
                ip: IpAddress { v4: true, value: 0x7f00_0001, text: "127.0.0.1".to_string() },
                port: 4000,
            },
            name: Some("beta".to_string()),
        }),
        0,
    );
    assert!(matches!(&dialled[0], Action::Dial { expected: None, .. }));

    let by_alpha = tell(
        &mut alpha,
        Event::SessionEstablished(established("beta", 2, 1, true)),
        0,
    );
    let by_beta = tell(
        &mut beta,
        Event::SessionEstablished(established("alpha", 1, 1, false)),
        0,
    );
    // Exactly one side displays a code; the other has to type it in.
    assert!(by_alpha.iter().any(|a| matches!(a, Action::HandoffLater { .. })));
    let code = last_snapshot(&by_beta).peers[0].pairing.as_ref().unwrap().code_to_share.clone();
    let code = code.unwrap();
    assert_eq!(code.len(), 6, "pairing codes are six digits");
    carry(&mut alpha, &mut beta, by_alpha, by_beta);

    let answer = tell(
        &mut alpha,
        Event::Command(Command::AnswerPairing {
            peer: id("beta"),
            code: Some(code),
            accept: true,
        }),
        0,
    );
    carry(&mut alpha, &mut beta, answer, Vec::new());
    for (engine, peer, side) in [(&alpha, "beta", Side::Right), (&beta, "alpha", Side::Left)] {
        let session = engine.session(&id(peer)).unwrap();
        assert_eq!(session.state, ConnectionState::Connected);
        assert!(session.trusted);
        assert_eq!(engine.settings.link_for(&id(peer)).unwrap().local_side, side);
    }
    assert!(alpha.peers.is_trusted_key(&id("beta"), &base64_key(&[2; 32])));
    assert!(beta.peers.is_trusted_key(&id("alpha"), &base64_key(&[1; 32])));
}

#[test]
fn a_changed_key_is_refused() {
    let mut engine = engine("a", 1);
    trust(&mut engine, "b", 2);
    let actions = tell(
        &mut engine,
        Event::SessionEstablished(established("b", 3, 9, true)),
        0,
    );
    assert_eq!(
        notices(&actions),
        vec![
            "error: b presented a different key than the one you paired with. The connection was \
             refused; forget the machine and pair again if you replaced it."
                .to_string()
        ]
    );
    assert_eq!(sent(&actions), vec![&Message::Bye { reason: "identity changed".to_string() }]);
    assert_eq!(closes(&actions), vec![9]);
    assert!(engine.session(&id("b")).is_none());
    assert!(engine.peers.is_trusted_key(&id("b"), &base64_key(&[2; 32])));
}

#[test]
fn three_wrong_codes_close_the_connection() {
    let mut engine = engine("b", 2);
    let actions = tell(
        &mut engine,
        Event::SessionEstablished(established("a", 1, 4, false)),
        0,
    );
    let code = last_snapshot(&actions).peers[0].pairing.as_ref().unwrap().code_to_share.clone();
    assert_eq!(code, Some(pairing_code(123_456_789)));
    assert_eq!(pairing_code(123_456_789), "456789");
    assert_eq!(pairing_code(7), "000007");
    let wrong = || Message::PairResponse { code: "000000".to_string(), device: info("a", 1) };
    let first = hear(&mut engine, "a", wrong(), 1);
    assert_eq!(
        notices(&first),
        vec!["warning: That code did not match. 1 of 3 attempts used.".to_string()]
    );
    let second = hear(&mut engine, "a", wrong(), 2);
    assert_eq!(
        notices(&second),
        vec!["warning: That code did not match. 2 of 3 attempts used.".to_string()]
    );
    assert!(closes(&second).is_empty());
    let third = hear(&mut engine, "a", wrong(), 3);
    assert_eq!(
        notices(&third),
        vec!["warning: Too many wrong pairing codes; the connection was closed.".to_string()]
    );
    assert_eq!(closes(&third), vec![4]);
    assert!(engine.session(&id("a")).is_none());
    assert!(engine.peers.get(&id("a")).is_none());
}

#[test]
fn typed_codes_may_be_spaced() {
    assert_eq!(normalize_code(" 45-67 89x"), "456789");
    let mut engine = engine("b", 2);
    tell(&mut engine, Event::SessionEstablished(established("a", 1, 4, false)), 0);
    let typed = Message::PairResponse { code: "456 789".to_string(), device: info("a", 1) };
    let actions = hear(&mut engine, "a", typed, 1);
    assert_eq!(notices(&actions), vec!["info: Paired with a.".to_string()]);
    assert_eq!(
        sent(&actions)[0],
        &Message::PairResult { accepted: true, reason: None }
    );
}

#[test]
fn pairing_without_a_code_is_refused() {
    let mut engine = connected("a", "b");
    let typed = Message::PairResponse { code: "1".to_string(), device: info("b", 2) };
    let actions = hear(&mut engine, "b", typed, 1);
    assert_eq!(
        sent(&actions),
        vec![&Message::PairResult {
            accepted: false,
            reason: Some("this machine is not showing a pairing code".to_string()),
        }]
    );
    let rejected = Message::PairResult { accepted: false, reason: None };
    let actions = hear(&mut engine, "b", rejected, 1);
    assert_eq!(
        notices(&actions),
        vec!["warning: Pairing rejected: pairing rejected".to_string()]
    );
    assert_eq!(
        engine.session(&id("b")).unwrap().state,
        ConnectionState::Failed { reason: "pairing rejected".to_string() }
    );
}

#[test]
fn the_code_is_not_told_to_the_peer() {
    let mut engine = engine("b", 2);
    let actions = tell(
        &mut engine,
        Event::SessionEstablished(established("a", 1, 4, false)),
        0,
    );
    let pairing = last_snapshot(&actions).peers[0].pairing.as_ref().unwrap();
    assert_eq!(pairing.code_to_share, Some("456789".to_string()));
    assert_eq!(sent(&actions), vec![&Message::PairRequired { code_hint: String::new() }]);
}

#[test]
fn a_peer_cannot_accept_itself() {
    let accepted = || Message::PairResult { accepted: true, reason: None };
    // The side that shows the code.
    let mut shows = engine("b", 2);
    tell(&mut shows, Event::SessionEstablished(established("a", 1, 4, false)), 0);
    let actions = hear(&mut shows, "a", accepted(), 1);
    assert!(sent(&actions).is_empty() && notices(&actions).is_empty());
    let session = shows.session(&id("a")).unwrap();
    assert!(!session.trusted);
    assert_eq!(session.state, ConnectionState::Pairing);
    assert_eq!(session.pairing.as_ref().unwrap().code_to_share, Some("456789".to_string()));
    assert!(shows.peers.get(&id("a")).is_none());
    assert!(shows.settings.link_for(&id("a")).is_none());
    // The side that was not asked for a code yet.
    let mut silent = engine("a", 1);
    tell(&mut silent, Event::SessionEstablished(established("b", 2, 4, true)), 0);
    hear(&mut silent, "b", accepted(), 1);
    assert!(!silent.session(&id("b")).unwrap().trusted);
    assert!(silent.peers.get(&id("b")).is_none());
}

/// What must hold while no code has been typed for a machine or sent by it.
fn assert_stranger(engine: &Engine, peer: &str) {
    let session = engine.session(&id(peer)).unwrap();
    assert!(!session.trusted);
    assert_eq!(session.state, ConnectionState::Pairing);
    assert!(!session.pairing.as_ref().unwrap().typed);
    assert!(engine.peers.get(&id(peer)).is_none());
    assert!(engine.settings.link_for(&id(peer)).is_none());
}

#[test]
fn asking_for_a_code_does_not_stand_for_typing_one() {
    let required = || Message::PairRequired { code_hint: String::new() };
    let accepted = || Message::PairResult { accepted: true, reason: None };
    // The side that shows a code, and the side that shows none.
    for (me, seed, peer, other, initiator) in [("b", 2, "a", 1, false), ("a", 1, "b", 2, true)] {
        let mut engine = engine(me, seed);
        tell(
            &mut engine,
            Event::SessionEstablished(established(peer, other, 4, initiator)),
            0,
        );
        hear(&mut engine, peer, required(), 1);
        assert_stranger(&engine, peer);
        let actions = hear(&mut engine, peer, accepted(), 2);
        assert!(sent(&actions).is_empty() && notices(&actions).is_empty());
        assert_stranger(&engine, peer);
        hear(&mut engine, peer, required(), 3);
        hear(&mut engine, peer, accepted(), 4);
        assert_stranger(&engine, peer);
    }
}

#[test]
fn a_typed_code_stays_typed_when_it_is_asked_for_again() {
    let mut engine = engine("a", 1);
    tell(&mut engine, Event::SessionEstablished(established("b", 2, 4, true)), 0);
    hear(&mut engine, "b", Message::PairRequired { code_hint: String::new() }, 1);
    let typed = Command::AnswerPairing {
        peer: id("b"),
        code: Some("111111".to_string()),
        accept: true,
    };
    tell(&mut engine, Event::Command(typed), 2);
    assert!(engine.session(&id("b")).unwrap().pairing.as_ref().unwrap().typed);
    hear(&mut engine, "b", Message::PairRequired { code_hint: String::new() }, 3);
    assert!(engine.session(&id("b")).unwrap().pairing.as_ref().unwrap().typed);
    // A new connection has to start over.
    tell(&mut engine, Event::SessionEstablished(established("b", 2, 5, true)), 4);
    hear(&mut engine, "b", Message::PairRequired { code_hint: String::new() }, 5);
    hear(&mut engine, "b", Message::PairResult { accepted: true, reason: None }, 6);
    assert_stranger(&engine, "b");
}

#[test]
fn a_second_code_may_be_typed_after_a_wrong_one() {
    let mut engine = engine("a", 1);
    tell(&mut engine, Event::SessionEstablished(established("b", 2, 4, true)), 0);
    hear(&mut engine, "b", Message::PairRequired { code_hint: String::new() }, 1);
    let answer = |code: &str| {
        Event::Command(Command::AnswerPairing {
            peer: id("b"),
            code: Some(code.to_string()),
            accept: true,
        })
    };
    tell(&mut engine, answer("111111"), 2);
    let reason = Some("the code did not match".to_string());
    hear(&mut engine, "b", Message::PairResult { accepted: false, reason }, 3);
    assert!(engine.session(&id("b")).unwrap().pairing.is_none());
    let again = tell(&mut engine, answer("222222"), 4);
    assert!(matches!(sent(&again)[0], Message::PairResponse { code, .. } if code == "222222"));
    let done = hear(&mut engine, "b", Message::PairResult { accepted: true, reason: None }, 5);
    assert_eq!(notices(&done), vec!["info: Paired with b.".to_string()]);
    let session = engine.session(&id("b")).unwrap();
    assert!(session.trusted && session.pairing.is_none());
    assert!(engine.peers.is_trusted_key(&id("b"), &base64_key(&[2; 32])));
    assert!(engine.settings.link_for(&id("b")).is_some());
}

#[test]
fn the_silent_side_asks_for_the_code_itself() {
    let mut engine = engine("a", 1);
    let actions = tell(
        &mut engine,
        Event::SessionEstablished(established("b", 2, 4, true)),
        0,
    );
    assert!(actions.iter().any(|a| matches!(a, Action::HandoffLater { .. })));
    let handoff = tell(&mut engine, Event::PairingHandoff { peer: id("b") }, 1_500);
    assert!(matches!(sent(&handoff)[0], Message::PairRequired { .. }));
    // Once the peer shows a code, this side waits for the user.
    hear(&mut engine, "b", Message::PairRequired { code_hint: String::new() }, 1_600);
    assert!(tell(&mut engine, Event::PairingHandoff { peer: id("b") }, 3_000).is_empty());
    let declined = tell(
        &mut engine,
        Event::Command(Command::AnswerPairing { peer: id("b"), code: None, accept: false }),
        3_001,
    );
    assert_eq!(closes(&declined), vec![4]);
    assert!(engine.session(&id("b")).is_none());
}

#[test]
fn the_smaller_id_decides_which_connection_is_kept() {
    let mut engine = connected("a", "b");
    // "a" started the first connection and prefers its own.
    let late = tell(
        &mut engine,
        Event::SessionEstablished(established("b", 2, 8, false)),
        1,
    );
    assert_eq!(closes(&late), vec![8]);
    let newer = tell(
        &mut engine,
        Event::SessionEstablished(established("b", 2, 9, true)),
        2,
    );
    assert_eq!(closes(&newer), vec![7]);
    assert_eq!(engine.session(&id("b")).unwrap().connection, 9);
}

const RIGHT: PushedEdges = PushedEdges { left: false, right: true, top: false, bottom: false };

fn placed(engine: &Engine, peer: &str) -> PlacedPeer {
    let link = engine.settings.link_for(&id(peer)).unwrap().clone();
    PlacedPeer {
        device_id: id(peer),
        local: engine.desktop,
        bounds: engine.desktop,
        offset: point(800.0, 0.0),
        link,
    }
}

/// An engine that drives its peer.
fn controlling() -> Engine {
    let mut engine = connected("a", "b");
    engine.settings.set_link(EdgeLink::new(id("b"), "b", Side::Right));
    engine.on_cursor_tick(Some(point(799.0, 5.0)), RIGHT, at(1_000));
    let asked = engine.take_actions();
    let link = match asked.last() {
        Some(Action::Engage { link, options, position, .. }) => {
            assert!(options.mouse && options.keyboard);
            assert_eq!(options.park_at, Some(*position));
            link.clone()
        }
        other => panic!("{other:?}"),
    };
    let placed = placed(&engine, "b");
    let actions = tell(
        &mut engine,
        Event::Engaged { link, placed, entry: point(2.0, 5.0), error: None },
        1_000,
    );
    assert_eq!(notices(&actions), vec!["info: Controlling b.".to_string()]);
    assert_eq!(
        sent(&actions),
        vec![&Message::Control(InputControl::Enter {
            x: double(2.0),
            y: double(5.0),
            return_side: Side::Left,
            keyboard: true,
        })]
    );
    assert!(engine.capture_active);
    engine
}

fn motion() -> Motion {
    Motion { dx: double(3.0), dy: double(4.0), cursor: point(5.0, 9.0) }
}

fn key_press(code: u16, modifiers: u8) -> Event {
    Event::Captured {
        event: CapturedEvent::Key {
            code: KeyCode(code),
            down: true,
            modifiers: Modifiers(modifiers),
        },
        motion: motion(),
    }
}

#[test]
fn captured_input_goes_to_the_peer() {
    let mut engine = controlling();
    let moved = Event::Captured {
        event: CapturedEvent::MoveDelta { dx: double(1.0), dy: double(1.0) },
        motion: motion(),
    };
    let actions = tell(&mut engine, moved, 1_100);
    assert_eq!(
        sent(&actions),
        vec![&Message::Input(InputEvent::MoveRel { dx: double(3.0), dy: double(4.0) })]
    );
    let home = tell(&mut engine, Event::Command(Command::ReleaseControl), 1_200);
    assert_eq!(home[0], Action::ReleaseCapture);
    assert!(matches!(&home[1], Action::WarpHome { cursor, .. } if *cursor == point(5.0, 9.0)));
    assert_eq!(
        sent(&home),
        vec![&Message::Control(InputControl::Release { x: double(5.0), y: double(9.0) })]
    );
    assert_eq!(engine.control, ControlState::Local);
    assert!(!engine.capture_active);
    assert!(engine.is_settling(at(1_499)));
    assert!(!engine.is_settling(at(1_500)));
    // Releasing again changes nothing.
    assert!(tell(&mut engine, Event::Command(Command::ReleaseControl), 1_300).is_empty());
}

#[test]
fn two_quick_taps_of_scroll_lock_release() {
    let mut engine = controlling();
    tell(&mut engine, key_press(key::ScrollLock, 0), 2_000);
    tell(&mut engine, key_press(key::ScrollLock, 0), 2_400);
    assert!(matches!(engine.control, ControlState::Controlling { .. }));
    tell(&mut engine, key_press(key::ScrollLock, 0), 2_799);
    assert_eq!(engine.control, ControlState::Local);
}

#[test]
fn the_escape_gestures_need_their_modifiers() {
    let ctrl_alt = Modifiers::CTRL | Modifiers::ALT;
    let all = ctrl_alt | Modifiers::META;
    for (hotkey, modifiers, released) in [
        (ReleaseHotkey::CtrlAltEscape, ctrl_alt, true),
        (ReleaseHotkey::CtrlAltEscape, all, false),
        (ReleaseHotkey::CtrlAltCmdEscape, all, true),
        (ReleaseHotkey::CtrlAltCmdEscape, ctrl_alt, false),
        (ReleaseHotkey::Disabled, all, false),
    ] {
        let mut engine = controlling();
        engine.settings.input.release_hotkey = hotkey;
        tell(&mut engine, key_press(key::Escape, modifiers), 2_000);
        assert_eq!(engine.control == ControlState::Local, released, "{hotkey:?}");
    }
}

#[test]
fn a_lost_capture_ends_the_handover() {
    let mut engine = controlling();
    let lost = Event::Captured {
        event: CapturedEvent::CaptureLost { reason: "denied".to_string() },
        motion: motion(),
    };
    let actions = tell(&mut engine, lost, 2_000);
    assert_eq!(notices(&actions), vec!["error: Input capture stopped: denied".to_string()]);
    assert_eq!(engine.control, ControlState::Local);
}

#[test]
fn the_peer_returning_brings_control_home() {
    let mut engine = controlling();
    let back = || Message::Control(InputControl::ReturnHome { x: double(0.0), y: double(7.0) });
    assert!(hear(&mut engine, "stranger", back(), 2_000).is_empty());
    let actions = hear(&mut engine, "b", back(), 2_000);
    assert_eq!(
        notices(&actions),
        vec!["info: Control came back to this machine.".to_string()]
    );
    assert!(matches!(&actions[1], Action::WarpHome { cursor, .. } if *cursor == point(0.0, 7.0)));
    assert_eq!(engine.control, ControlState::Local);
}

#[test]
fn handovers_need_a_connected_peer_and_permission() {
    let mut engine = engine("a", 1);
    engine.settings.set_link(EdgeLink::new(id("b"), "b", Side::Right));
    engine.on_discovery_started(None);
    engine.on_cursor_tick(Some(point(799.0, 5.0)), RIGHT, at(1_000));
    assert!(engine.take_actions().is_empty());
    assert_eq!(engine.edge_log_at, Some(1_000));

    let mut engine = connected("a", "b");
    engine.on_discovery_started(None);
    engine.settings.set_link(EdgeLink::new(id("b"), "b", Side::Right));
    engine.set_permission_hint(Some("grant it".to_string()));
    engine.on_cursor_tick(Some(point(799.0, 5.0)), RIGHT, at(1_000));
    assert_eq!(notices(&engine.take_actions()), vec!["warning: grant it".to_string()]);
    engine.on_cursor_tick(Some(point(799.0, 5.0)), RIGHT, at(3_999));
    assert!(engine.take_actions().is_empty());
    engine.on_cursor_tick(Some(point(799.0, 5.0)), RIGHT, at(4_000));
    assert_eq!(engine.take_actions().len(), 1);

    engine.set_permission_hint(None);
    engine.settings.input.enabled = false;
    engine.on_cursor_tick(Some(point(799.0, 5.0)), RIGHT, at(9_000));
    assert!(engine.take_actions().is_empty());
}

#[test]
fn a_refused_capture_starts_nothing() {
    let mut engine = connected("a", "b");
    engine.settings.set_link(EdgeLink::new(id("b"), "b", Side::Right));
    let link = engine.settings.link_for(&id("b")).unwrap().clone();
    let placed = placed(&engine, "b");
    let actions = tell(
        &mut engine,
        Event::Engaged {
            link,
            placed,
            entry: point(0.0, 0.0),
            error: Some("the input thread is no longer running".to_string()),
        },
        1_000,
    );
    assert_eq!(
        notices(&actions),
        vec![
            "error: Could not take over the input: the input thread is no longer running"
                .to_string()
        ]
    );
    assert_eq!(engine.control, ControlState::Local);
}

/// An engine that its peer drives, with one key and one button held.
fn controlled(keyboard: bool) -> Engine {
    let mut engine = connected("a", "b");
    let enter = Message::Control(InputControl::Enter {
        x: double(1.0),
        y: double(2.0),
        return_side: Side::Right,
        keyboard,
    });
    let actions = hear(&mut engine, "b", enter, 1_000);
    assert_eq!(actions[0], Action::Warp(point(1.0, 2.0)));
    assert_eq!(
        notices(&actions),
        vec!["info: b is controlling this machine.".to_string()]
    );
    let shift = InputEvent::Key {
        code: KeyCode(key::ShiftLeft),
        down: true,
        modifiers: Modifiers(1),
    };
    hear(&mut engine, "b", Message::Input(shift), 1_010);
    let press = InputEvent::Button { button: MouseButton::Left, down: true };
    hear(&mut engine, "b", Message::Input(press), 1_020);
    engine
}

fn lifts(actions: &[Action]) -> usize {
    actions
        .iter()
        .filter(|action| {
            matches!(
                action,
                Action::Inject(InputEvent::Key { down: false, .. })
                    | Action::Inject(InputEvent::Button { down: false, .. })
            )
        })
        .count()
}

#[test]
fn nothing_stays_held_however_the_handover_ends() {
    let mut ended = controlled(true);
    assert_eq!(ended.held_keys.len(), 1);
    let actions = tell(&mut ended, Event::SessionEnded { peer: id("b") }, 2_000);
    assert_eq!(lifts(&actions), 2);
    assert_eq!(ended.control, ControlState::Local);
    assert!(ended.held_keys.is_empty() && ended.held_buttons.is_empty());

    let mut cut = controlled(true);
    let actions = tell(&mut cut, Event::Command(Command::Disconnect(id("b"))), 2_000);
    assert_eq!(lifts(&actions), 2);
    assert_eq!(cut.control, ControlState::Local);

    let mut freed = controlled(true);
    let release = Message::Control(InputControl::Release { x: double(3.0), y: double(4.0) });
    let actions = hear(&mut freed, "b", release, 2_000);
    assert_eq!(lifts(&actions), 2);
    assert!(actions.contains(&Action::Warp(point(3.0, 4.0))));
    assert_eq!(freed.control, ControlState::Local);

    let mut reset = controlled(true);
    let actions = hear(&mut reset, "b", Message::Control(InputControl::ResetKeys), 2_000);
    assert_eq!(lifts(&actions), 2);
    assert!(matches!(reset.control, ControlState::Controlled { .. }));

    let mut left = controlled(true);
    left.shutdown();
    assert_eq!(lifts(&left.take_actions()), 2);
}

#[test]
fn keys_count_only_where_they_are_relayed() {
    let engine = controlled(false);
    assert!(engine.held_keys.is_empty());
    assert_eq!(engine.held_buttons, vec![MouseButton::Left]);
    let mut idle = connected("a", "b");
    let press = InputEvent::Button { button: MouseButton::Left, down: true };
    assert!(hear(&mut idle, "b", Message::Input(press), 5).is_empty());
}

#[test]
fn the_cursor_goes_back_through_its_edge() {
    let mut engine = controlled(true);
    engine.on_discovery_started(None);
    engine.on_cursor_tick(Some(point(799.0, 5.0)), RIGHT, at(1_299));
    assert!(engine.take_actions().is_empty());
    engine.on_cursor_tick(Some(point(799.0, 5.0)), RIGHT, at(1_300));
    let actions = engine.take_actions();
    assert_eq!(
        sent(&actions),
        vec![&Message::Control(InputControl::ReturnHome { x: double(799.0), y: double(5.0) })]
    );
    assert_eq!(lifts(&actions), 2);
    assert_eq!(
        notices(&actions),
        vec!["info: Control returned to this machine.".to_string()]
    );
    assert_eq!(engine.control, ControlState::Local);
}

#[test]
fn clipboards_are_shared_within_their_limits() {
    let mut engine = connected("a", "b");
    let text = || ClipboardPayload::Text { text: "hi".to_string() };
    let actions = tell(&mut engine, Event::Clipboard(ClipboardEvent::Changed(text())), 5_000);
    assert_eq!(sent(&actions), vec![&Message::Clipboard(text())]);
    let status = &last_snapshot(&actions).clipboard;
    assert_eq!(status.last_kind, Some("text".to_string()));
    assert_eq!(status.last_at, Some(1_005));
    assert_eq!(status.last_direction, Some(TransferDirection::Sending));
    let received = hear(&mut engine, "b", Message::Clipboard(text()), 6_000);
    assert_eq!(received[0], Action::ApplyClipboard(text()));
    engine.settings.clipboard.max_bytes = 1;
    assert!(hear(&mut engine, "b", Message::Clipboard(text()), 6_000).is_empty());
    engine.settings.clipboard.always = false;
    let quiet = tell(&mut engine, Event::Clipboard(ClipboardEvent::Changed(text())), 7_000);
    assert!(quiet.is_empty());
    let error = Event::Clipboard(ClipboardEvent::Error("busy".to_string()));
    assert!(tell(&mut engine, error, 7_000).is_empty());
    assert_eq!(
        engine.clipboard_limits(),
        Limits { text: true, images: true, max_bytes: 1 }
    );
    engine.settings.clipboard.poll_interval_ms = 10;
    assert_eq!(engine.clipboard_interval(), 100);
}

fn offer(number: u64) -> FileOffer {
    FileOffer {
        transfer: TransferId(number),
        sender_name: "Beta".to_string(),
        total_bytes: 6,
        files: vec![
            FileEntry {
                index: 0,
                name: "d".to_string(),
                relative_path: "d".to_string(),
                size: 0,
                is_dir: true,
            },
            FileEntry {
                index: 1,
                name: "f".to_string(),
                relative_path: "d/f".to_string(),
                size: 6,
                is_dir: false,
            },
            FileEntry {
                index: 2,
                name: "evil".to_string(),
                relative_path: "../evil".to_string(),
                size: 0,
                is_dir: false,
            },
        ],
    }
}

fn below(names: &[&str]) -> Vec<PathPart> {
    let mut out = downloads().parts;
    out.extend(names.iter().map(|name| PathPart::Normal(name.to_string())));
    out
}

fn chunk(number: u64, index: u32, offset: u64, data: &[u8]) -> Event {
    Event::Incoming {
        peer: id("b"),
        item: Incoming::Chunk(FileChunk {
            transfer: TransferId(number),
            index,
            offset,
            data: data.to_vec(),
        }),
        extent: None,
    }
}

#[test]
fn trusted_offers_are_received_below_the_download_directory() {
    let mut engine = connected("a", "b");
    let actions = hear(&mut engine, "b", Message::FileOffer(offer(5)), 1);
    assert_eq!(
        notices(&actions),
        vec!["info: Beta wants to send 3 item(s).".to_string()]
    );
    assert_eq!(
        actions[1],
        Action::CreateFolders { transfer: TransferId(5), folders: vec![below(&["d"])] }
    );
    let created = tell(
        &mut engine,
        Event::FoldersCreated { transfer: TransferId(5), errors: Vec::new() },
        1,
    );
    assert_eq!(
        sent(&created),
        vec![&Message::FileAccept(FileAccept { transfer: TransferId(5), rejected: Vec::new() })]
    );
    match &tell(&mut engine, chunk(5, 1, 0, &[1, 2, 3]), 2)[0] {
        Action::WriteChunk { position: 1, target: ChunkTarget::Fresh { path, overwrite }, .. } => {
            assert_eq!(path, &below(&["d", "f"]));
            assert!(!overwrite);
        }
        other => panic!("{other:?}"),
    }
    let outcome = ChunkOutcome {
        transfer: TransferId(5),
        position: 1,
        placed: Some(below(&["d", "f (2)"])),
        len: 3,
        error: None,
    };
    tell(&mut engine, Event::ChunkWritten(outcome), 2);
    match &tell(&mut engine, chunk(5, 1, 3, &[4, 5, 6]), 3)[0] {
        Action::WriteChunk { target: ChunkTarget::Known(path), .. } => {
            assert_eq!(path, &below(&["d", "f (2)"]));
        }
        other => panic!("{other:?}"),
    }
    // Chunks for directories, unknown entries and unknown transfers are dropped.
    assert!(tell(&mut engine, chunk(5, 0, 0, &[1]), 3).is_empty());
    assert!(tell(&mut engine, chunk(5, 9, 0, &[1]), 3).is_empty());
    assert!(tell(&mut engine, chunk(6, 1, 0, &[1]), 3).is_empty());
    let outcome = ChunkOutcome {
        transfer: TransferId(5),
        position: 1,
        placed: None,
        len: 3,
        error: None,
    };
    tell(&mut engine, Event::ChunkWritten(outcome), 3);
    let done = hear(
        &mut engine,
        "b",
        Message::FileFinished(FileFinished { transfer: TransferId(5), failed: Vec::new() }),
        4,
    );
    assert_eq!(done[0], Action::CloseFiles { transfer: TransferId(5) });
    assert_eq!(notices(&done), vec!["info: Files from Beta saved to /dl".to_string()]);
    let view = &last_snapshot(&done).transfers[0];
    assert_eq!(view.state, TransferState::Completed);
    assert_eq!(view.done_bytes, 6);
    assert_eq!(view.files[1].done_bytes, 6);
    tell(&mut engine, Event::Command(Command::ClearFinishedTransfers), 5);
    assert!(engine.transfers.is_empty());
}

#[test]
fn an_unsafe_path_fails_its_transfer() {
    let mut engine = connected("a", "b");
    hear(&mut engine, "b", Message::FileOffer(offer(5)), 1);
    assert!(tell(&mut engine, chunk(5, 2, 0, &[1]), 2).is_empty());
    match &engine.transfers[0] {
        TransferEntry::Incoming { state, error, .. } => {
            assert_eq!(*state, TransferState::Failed);
            assert_eq!(error, &Some("path is not safe to write: ..".to_string()));
        }
        other => panic!("{other:?}"),
    }
}

#[test]
fn offers_wait_where_nothing_is_accepted_by_itself() {
    let mut engine = connected("a", "b");
    engine.settings.transfer.auto_accept_trusted = false;
    let actions = hear(&mut engine, "b", Message::FileOffer(offer(5)), 1);
    assert!(last_snapshot(&actions).transfers[0].needs_acceptance);
    assert!(tell(&mut engine, chunk(5, 1, 0, &[1]), 1).is_empty());
    let accepted = tell(&mut engine, Event::Command(Command::AcceptTransfer(TransferId(5))), 2);
    assert!(matches!(accepted[0], Action::CreateFolders { .. }));
    let failed = tell(
        &mut engine,
        Event::FoldersCreated { transfer: TransferId(5), errors: vec!["full".to_string()] },
        2,
    );
    assert_eq!(last_snapshot(&failed).transfers[0].error, Some("full".to_string()));
    let cancelled = tell(&mut engine, Event::Command(Command::CancelTransfer(TransferId(5))), 3);
    assert_eq!(
        sent(&cancelled),
        vec![&Message::FileCancel {
            transfer: TransferId(5),
            reason: "cancelled by the user".to_string(),
        }]
    );
    engine.settings.transfer.enabled = false;
    let refused = hear(&mut engine, "b", Message::FileOffer(offer(6)), 4);
    assert_eq!(
        sent(&refused),
        vec![&Message::FileCancel {
            transfer: TransferId(6),
            reason: "file transfer is disabled here".to_string(),
        }]
    );
}

#[test]
fn reported_progress_replaces_what_was_counted() {
    let mut engine = connected("a", "b");
    hear(&mut engine, "b", Message::FileOffer(offer(5)), 1);
    let report = |bytes_done| FileProgressReport {
        transfer: TransferId(5),
        index: 1,
        bytes_done,
    };
    assert!(engine.accepts_report(&report(4)));
    hear(&mut engine, "b", Message::FileProgress(report(4)), 2);
    hear(&mut engine, "b", Message::FileProgress(report(6)), 2);
    match &engine.transfers[0] {
        TransferEntry::Incoming { transfer, .. } => {
            assert_eq!(transfer.done_bytes, 6);
            assert_eq!(transfer.written, vec![0, 6, 0]);
        }
        other => panic!("{other:?}"),
    }
    let last = FileProgressReport { transfer: TransferId(5), index: 0, bytes_done: u64::MAX };
    assert!(!engine.accepts_report(&last));
}

fn file(name: &str, size: u64) -> FsNode {
    FsNode {
        path: LocalPath { text: format!("/s/{name}"), ticket: 1 },
        name: Some(name.to_string()),
        kind: FsKind::File { size },
    }
}

#[test]
fn files_are_offered_streamed_and_finished() {
    let mut engine = connected("a", "b");
    let paths = || vec![LocalPath { text: "/s/x".to_string(), ticket: 1 }];
    let send = |peer: &str| {
        Event::Command(Command::SendFiles { peer: id(peer), paths: paths() })
    };
    assert_eq!(
        notices(&tell(&mut engine, send("c"), 1)),
        vec!["warning: That machine is not connected.".to_string()]
    );
    assert!(matches!(tell(&mut engine, send("b"), 1)[0], Action::ReadFiles { .. }));
    assert_eq!(
        notices(&tell(&mut engine, Event::FilesRead { peer: id("b"), nodes: Vec::new() }, 1)),
        vec!["warning: Nothing to send.".to_string()]
    );
    let broken = vec![file("con", 1)];
    assert_eq!(
        notices(&tell(&mut engine, Event::FilesRead { peer: id("b"), nodes: broken }, 1)),
        vec![
            "error: Could not read those files: path is not safe to write: con".to_string()
        ]
    );
    let nodes = vec![file("x", 5), file("y", 6)];
    let offered = tell(&mut engine, Event::FilesRead { peer: id("b"), nodes }, 1);
    let transfer = match offered.into_iter().next() {
        Some(Action::OfferFiles { connection: 7, message, transfer }) => {
            match message {
                Message::FileOffer(offer) => {
                    assert_eq!(offer.total_bytes, 11);
                    assert_eq!(offer.sender_name, "a");
                    assert_eq!(offer.files.len(), 2);
                    assert_eq!(offer.transfer, TransferId(123_456_789));
                }
                other => panic!("{other:?}"),
            }
            transfer
        }
        other => panic!("{other:?}"),
    };
    tell(&mut engine, Event::OfferSent { transfer, error: None }, 1);
    let number = TransferId(123_456_789);
    let accept = FileAccept { transfer: number, rejected: vec![0] };
    let streaming = hear(&mut engine, "b", Message::FileAccept(accept), 2);
    match &streaming[0] {
        Action::StartSender { files, connection: 7, .. } => {
            assert_eq!(files.len(), 1);
            assert_eq!(files[0].entry.name, "y");
        }
        other => panic!("{other:?}"),
    }
    tell(&mut engine, Event::TransferProgress { id: number, bytes: 6 }, 3);
    let done = tell(&mut engine, Event::TransferDone { id: number, error: None }, 4);
    assert_eq!(notices(&done), vec!["info: Files sent to b.".to_string()]);
    assert_eq!(last_snapshot(&done).transfers[0].done_bytes, 6);
    let failed = tell(
        &mut engine,
        Event::TransferDone { id: number, error: Some("gone".to_string()) },
        5,
    );
    assert_eq!(notices(&failed), vec!["error: Sending to b failed: gone".to_string()]);
    assert_eq!(last_snapshot(&failed).transfers[0].state, TransferState::Failed);
}

#[test]
fn offers_that_cannot_be_sent_are_forgotten() {
    let mut engine = connected("a", "b");
    let nodes = vec![file("x", 5)];
    let offered = tell(&mut engine, Event::FilesRead { peer: id("b"), nodes }, 1);
    let transfer = match offered.into_iter().next() {
        Some(Action::OfferFiles { transfer, .. }) => transfer,
        other => panic!("{other:?}"),
    };
    let actions = tell(
        &mut engine,
        Event::OfferSent { transfer, error: Some("connection closed: gone".to_string()) },
        1,
    );
    assert_eq!(
        notices(&actions),
        vec!["error: Could not offer the files: connection closed: gone".to_string()]
    );
    assert!(engine.transfers.is_empty());
    engine.settings.transfer.enabled = false;
    let off = tell(
        &mut engine,
        Event::Command(Command::SendFiles { peer: id("b"), paths: Vec::new() }),
        1,
    );
    assert_eq!(notices(&off), vec!["warning: File transfer is turned off.".to_string()]);
}

fn found(name: &str, seed: u8) -> Event {
    Event::Discovered(DiscoveryEvent::Found(Box::new(Discovered {
        device_id: id(name),
        name: name.to_string(),
        os: OsKind::Linux,
        fingerprint: info(name, seed).fingerprint,
        addresses: vec![IpAddress { v4: true, value: 1, text: "0.0.0.1".to_string() }],
        port: 5,
        source: DiscoverSource::Mdns,
        last_seen: 1_000,
    })))
}

#[test]
fn only_the_smaller_id_dials_a_trusted_machine() {
    let mut small = engine("a", 1);
    trust(&mut small, "b", 2);
    let actions = tell(&mut small, found("b", 2), 1);
    match &actions[0] {
        Action::Dial { address, name, expected } => {
            assert_eq!(address.display(), "0.0.0.1:5");
            assert_eq!(name, &Some("b".to_string()));
            assert_eq!(expected, &Some(id("b")));
        }
        other => panic!("{other:?}"),
    }
    // It is being dialled already.
    assert_eq!(tell(&mut small, found("b", 2), 2).len(), 1);
    let mut large = engine("c", 1);
    trust(&mut large, "b", 2);
    assert_eq!(tell(&mut large, found("b", 2), 1).len(), 1);
    let mut wary = engine("a", 1);
    trust(&mut wary, "b", 3);
    assert_eq!(tell(&mut wary, found("b", 2), 1).len(), 1);
    assert!(tell(&mut wary, found("a", 1), 1).is_empty());
    let lost = || Event::Discovered(DiscoveryEvent::Lost(id("b")));
    assert_eq!(tell(&mut wary, lost(), 2).len(), 1);
    assert!(tell(&mut wary, lost(), 2).is_empty());
    let unseen = tell(&mut wary, Event::Command(Command::Connect(id("z"))), 3);
    assert_eq!(
        notices(&unseen),
        vec![
            "warning: That machine is not visible right now. Check that UnionDesk is running \
             there."
                .to_string()
        ]
    );
    let failed = tell(
        &mut small,
        Event::ConnectionFailed { peer: Some(id("b")), message: "no".to_string() },
        3,
    );
    assert_eq!(notices(&failed), vec!["error: no".to_string()]);
    assert!(small.connecting.is_empty());
}

#[test]
fn silent_peers_are_let_go_and_the_others_pinged() {
    let mut engine = connected("a", "b");
    trust(&mut engine, "c", 3);
    tell(&mut engine, Event::SessionEstablished(established("c", 3, 8, true)), 20_000);
    engine.on_discovery_started(None);
    engine.on_housekeeping(Some("hint".to_string()), &vec![11, 22], at(25_000));
    engine.take_actions();
    assert_eq!(engine.sessions.len(), 2);
    engine.on_housekeeping(Some("hint".to_string()), &vec![11, 22], at(25_001));
    let actions = engine.take_actions();
    assert!(engine.session(&id("b")).is_none());
    assert_eq!(sent(&actions), vec![&Message::Ping { nonce: 11 }]);
    let shown = last_snapshot(&actions);
    assert_eq!(shown.input.permission_hint, Some("hint".to_string()));
    let pong = hear(&mut engine, "c", Message::Ping { nonce: 5 }, 25_002);
    assert_eq!(sent(&pong), vec![&Message::Pong { nonce: 5 }]);
    assert_eq!(engine.session(&id("c")).unwrap().last_rx, 25_002);
    engine.housekeeping(None, at(26_000));
    assert!(matches!(sent(&engine.take_actions())[0], Message::Ping { .. }));
}

#[test]
fn the_snapshot_lists_everyone_once_by_name() {
    let mut engine = connected("m", "zed");
    trust(&mut engine, "Away", 4);
    tell(&mut engine, found("bob", 5), 1);
    tell(&mut engine, found("zed", 2), 1);
    let actions = tell(&mut engine, Event::Command(Command::Refresh), 9_000);
    let shown = last_snapshot(&actions);
    let names: Vec<&str> = shown.peers.iter().map(|p| p.name.as_str()).collect();
    assert_eq!(names, vec!["Away", "bob", "zed"]);
    let away = &shown.peers[0];
    assert!(away.trusted && away.can_connect());
    assert_eq!(away.address, Some("10.0.0.9:1".to_string()));
    let bob = &shown.peers[1];
    assert!(!bob.trusted);
    assert_eq!(bob.discovered_via, Some("Bonjour".to_string()));
    assert_eq!(bob.address, Some("0.0.0.1:5".to_string()));
    let zed = &shown.peers[2];
    assert_eq!(zed.connection, ConnectionState::Connected);
    assert_eq!(zed.display_count, 1);
    assert_eq!(zed.display_summary, Some("800x600 across 1 display(s)".to_string()));
    assert!(!zed.can_connect());
    assert_eq!(shown.listening_port, 47823);
    assert_eq!(shown.control.mode, ControlModeView::Local);
    assert_eq!(shown.control.release_hotkey, "Scroll Lock twice");
    assert_eq!(shown.device.version, "0.1.0");
}

#[test]
fn equal_names_keep_their_order() {
    let mut engine = engine("m", 1);
    for name in ["b", "a"] {
        let mut event = found(name, 1);
        if let Event::Discovered(DiscoveryEvent::Found(seen)) = &mut event {
            seen.name = "Same".to_string();
        }
        tell(&mut engine, event, 1);
    }
    let actions = tell(&mut engine, Event::Command(Command::Refresh), 2);
    let ids: Vec<&str> = last_snapshot(&actions).peers.iter().map(|p| p.device_id.as_str()).collect();
    assert_eq!(ids, vec!["b", "a"]);
}

#[test]
fn unknown_machines_are_named_by_the_start_of_their_id() {
    let engine = engine("m", 1);
    assert_eq!(engine.name_of(&id("abc-def")), "abc");
    let other = connected("m", "peer-1");
    assert_eq!(other.name_of(&id("peer-1")), "peer-1");
}

#[test]
fn new_settings_take_effect_where_they_differ() {
    let mut engine = engine("a", 1);
    let mut settings = Settings::first_run("a".to_string(), downloads());
    settings.input.enabled = true;
    let same = tell(
        &mut engine,
        Event::Command(Command::UpdateSettings(Box::new(settings))),
        1,
    );
    assert_eq!(same[0], Action::SaveSettings);
    assert_eq!(same.len(), 2);
    let mut settings = Settings::first_run("renamed".to_string(), downloads());
    settings.clipboard.sync_text = false;
    let changed = tell(
        &mut engine,
        Event::Command(Command::UpdateSettings(Box::new(settings))),
        1,
    );
    assert_eq!(
        changed[1],
        Action::SetClipboardLimits(Limits {
            text: false,
            images: true,
            max_bytes: 8 * 1024 * 1024,
        })
    );
    assert_eq!(changed[2], Action::StopDiscovery);
    match &changed[3] {
        Action::StartDiscovery(advertise) => {
            assert_eq!(advertise.name, "renamed");
            assert_eq!(advertise.fingerprint, info("a", 1).fingerprint);
        }
        other => panic!("{other:?}"),
    }
    assert_eq!(last_snapshot(&changed).device.name, "renamed");
    assert!(engine.discovery_dirty);
    let failed = Event::DiscoveryStarted { error: Some("no network".to_string()) };
    assert_eq!(
        notices(&tell(&mut engine, failed, 2)),
        vec!["warning: Peer discovery failed: no network".to_string()]
    );
    // It is tried again with the next look at the cursor.
    engine.on_cursor_tick(None, RIGHT, at(10));
    assert!(matches!(engine.take_actions()[1], Action::StartDiscovery(_)));
    tell(&mut engine, Event::DiscoveryStarted { error: None }, 3);
    assert!(!engine.discovery_dirty && engine.discovery_ready);
}

#[test]
fn hidden_machines_do_not_start_discovery() {
    let mut engine = engine("a", 1);
    engine.settings.discoverable = false;
    engine.rebuild_discovery();
    assert_eq!(engine.take_actions(), vec![Action::StopDiscovery]);
    assert!(!engine.discovery_dirty);
}

#[test]
fn sharing_can_be_switched_off_in_a_hurry() {
    let mut engine = controlling();
    let actions = tell(&mut engine, Event::Command(Command::SetSharing(false)), 2_000);
    assert_eq!(engine.control, ControlState::Local);
    assert!(actions.contains(&Action::SaveSettings));
    assert!(!last_snapshot(&actions).control.sharing_enabled);
}

#[test]
fn disconnecting_and_forgetting() {
    let mut engine = connected("a", "b");
    engine.settings.set_link(EdgeLink::new(id("b"), "b", Side::Top));
    let gone = tell(&mut engine, Event::Command(Command::Disconnect(id("b"))), 1);
    assert_eq!(
        sent(&gone),
        vec![&Message::Bye { reason: "disconnected locally".to_string() }]
    );
    assert_eq!(closes(&gone), vec![7]);
    let forgotten = tell(&mut engine, Event::Command(Command::Forget(id("b"))), 2);
    assert!(forgotten.contains(&Action::SavePeers));
    assert!(engine.peers.get(&id("b")).is_none());
    assert!(engine.settings.link_for(&id("b")).is_none());
    assert_eq!(tell(&mut engine, Event::Command(Command::Forget(id("b"))), 3).len(), 1);
    let link = Box::new(EdgeLink::new(id("c"), "c", Side::Left));
    tell(&mut engine, Event::Command(Command::SetLink(link)), 4);
    assert_eq!(engine.settings.links.len(), 1);
    tell(&mut engine, Event::Command(Command::RemoveLink(id("c"))), 5);
    assert!(engine.settings.links.is_empty());
}

#[test]
fn ended_sessions_fail_their_running_transfers() {
    let mut engine = connected("a", "b");
    hear(&mut engine, "b", Message::FileOffer(offer(5)), 1);
    let actions = hear(&mut engine, "b", Message::Bye { reason: "bye".to_string() }, 2);
    assert_eq!(last_snapshot(&actions).transfers[0].state, TransferState::Failed);
    assert!(engine.sessions.is_empty());
    let late = hear(&mut engine, "b", Message::Error { message: "late".to_string() }, 3);
    assert_eq!(notices(&late), vec!["error: Peer error: late".to_string()]);
    let cancelled = Message::FileCancel { transfer: TransferId(5), reason: "why".to_string() };
    assert_eq!(
        notices(&hear(&mut engine, "b", cancelled, 4)),
        vec!["warning: Transfer cancelled: why".to_string()]
    );
}

#[test]
fn displays_of_a_peer_are_remembered() {
    let mut engine = connected("a", "b");
    hear(&mut engine, "b", Message::Displays { displays: vec![display(), display()] }, 1);
    let session = engine.session(&id("b")).unwrap();
    assert_eq!(session.displays.len(), 2);
    assert_eq!(session.extent, Some((1, 2)));
}

#[test]
fn leaving_says_goodbye_to_everyone() {
    let mut engine = connected("a", "b");
    engine.on_discovery_started(None);
    assert!(!engine.handle(Event::Command(Command::Shutdown), 0, at(1)));
    engine.shutdown();
    let actions = engine.take_actions();
    assert_eq!(actions[0], Action::SayGoodbye);
    assert_eq!(sent(&actions), vec![&Message::Bye { reason: "shutting down".to_string() }]);
    assert_eq!(closes(&actions), vec![7]);
    for wanted in [
        Action::ReleaseCapture,
        Action::StopInput,
        Action::StopClipboard,
        Action::SaveSettings,
        Action::SavePeers,
    ] {
        assert!(actions.contains(&wanted));
    }
    assert!(engine.sessions.is_empty());
}

#[test]
fn the_platform_may_be_missing() {
    let identity = DeviceIdentity::from_keypair(id("a"), 1, &pair(1));
    let settings = Settings::first_run("a".to_string(), downloads());
    let mut engine = Engine::new(identity, OsKind::Linux, settings, PeerStore::new());
    engine.on_input_failed("no backend");
    assert_eq!(
        notices(&engine.take_actions()),
        vec![
            "error: Keyboard and mouse sharing could not start on this machine: no backend"
                .to_string()
        ]
    );
    assert_eq!(engine.displays[0].id, "primary");
    assert_eq!(f64::from_bits(engine.displays[0].bounds.width.bits), 1920.0);
    engine.set_desktop(engine.displays[0].bounds);
    let bound = tell(&mut engine, Event::ListenerBound(5), 1);
    assert_eq!(notices(&bound), vec!["info: Listening for peers on port 5.".to_string()]);
    assert_eq!(last_snapshot(&bound).listening_port, 5);
    assert!(!last_snapshot(&bound).input.backend_available);
    let failed = tell(&mut engine, Event::ListenerFailed("in use".to_string()), 1);
    assert_eq!(
        notices(&failed),
        vec!["error: Port 47823 is not available: in use".to_string()]
    );
    let open = tell(&mut engine, Event::Command(Command::OpenDownloadDir), 1);
    assert_eq!(open, vec![Action::OpenFolder(downloads())]);
    let closed = Event::FolderFailed { shown: "\"/dl\"".to_string(), error: "ro".to_string() };
    assert_eq!(
        notices(&tell(&mut engine, closed, 1)),
        vec!["error: Could not open \"/dl\": ro".to_string()]
    );
    // Events can be taken with the clock and chance of the machine.
    assert!(engine.dispatch(Event::ListenerBound(6), 5));
    assert_eq!(engine.listening_port, 6);
}

#[test]
fn options_and_dial_failures_are_spelled_out() {
    let options = EngineOptions::in_dir(&downloads().parts);
    assert_eq!(options.identity_path, below(&["identity.json"]));
    assert_eq!(options.settings_path, below(&["settings.json"]));
    assert_eq!(options.peers_path, below(&["peers.json"]));
    let address = SocketAddress {
        ip: IpAddress { v4: false, value: 1, text: "::1".to_string() },
        port: 9,
    };
    let reason = || "refused".to_string();
    assert_eq!(
        dial_message(&DialFailure::Unreachable(reason()), &Some("desk".to_string()), &address),
        "Could not reach desk: refused"
    );
    assert_eq!(
        dial_message(&DialFailure::Unreachable(reason()), &None, &address),
        "Could not reach [::1]:9: refused"
    );
    assert_eq!(
        dial_message(&DialFailure::TimedOut, &None, &address),
        "Timed out reaching [::1]:9"
    );
    assert_eq!(
        dial_message(&DialFailure::Handshake(reason()), &None, &address),
        "Handshake failed: refused"
    );
    assert_eq!(EngineError::NotRunning.message(), "the engine is not running");
    assert_eq!(
        EngineError::NoRuntime.message(),
        "the engine must be started from inside a Tokio runtime"
    );
    assert_eq!(EngineError::Other("x".to_string()).message(), "x");
}
