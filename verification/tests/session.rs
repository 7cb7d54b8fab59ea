use uniondesk::codec::{read_record, write_record, Inner};
use uniondesk::identity::{DeviceId, DeviceIdentity};
use uniondesk::net_error::Error;
use uniondesk::protocol::{FileChunk, TransferId};
use uniondesk::session::{in_memory_pair, Handshake, Move, Role, Transport};

struct End {
    remote_static: Vec<u8>,
    hello: Vec<u8>,
    transport: Transport,
}

/// Runs a whole handshake between two identities in memory.
fn pair(a: &DeviceIdentity, b: &DeviceIdentity, a_hello: &[u8], b_hello: &[u8]) -> (End, End) {
    let mut initiator = Handshake::start(a, Role::Initiator).unwrap();
    let mut responder = Handshake::start(b, Role::Responder).unwrap();
    let mut to_initiator = Vec::new();
    let mut to_responder = Vec::new();
    loop {
        let (from, to, hello, heard) = match initiator.next() {
            Move::SendEmpty | Move::SendHello => {
                (&mut initiator, &mut responder, a_hello, &mut to_responder)
            }
            Move::ReceiveEmpty | Move::ReceiveHello => {
                (&mut responder, &mut initiator, b_hello, &mut to_initiator)
            }
            Move::Done => break,
        };
        let message = from.write(hello).unwrap();
        let wire = write_record(&message).unwrap();
        assert_eq!(read_record(&wire[..4]).unwrap(), message.len());
        *heard = to.read(&wire[4..]).unwrap();
    }
    assert_eq!(responder.next(), Move::Done);
    let (a_key, a_transport) = initiator.finish().unwrap();
    let (b_key, b_transport) = responder.finish().unwrap();
    (
        End { remote_static: a_key, hello: to_initiator, transport: a_transport },
        End { remote_static: b_key, hello: to_responder, transport: b_transport },
    )
}

#[test]
fn handshake_authenticates_both_static_keys() {
    let a = DeviceIdentity::generate(DeviceId::new()).unwrap();
    let b = DeviceIdentity::generate(DeviceId::new()).unwrap();
    let a_pub = a.public_key_raw().unwrap();
    let b_pub = b.public_key_raw().unwrap();
    let (client, server) = pair(&a, &b, b"alpha", b"beta");
    assert_eq!(client.remote_static, b_pub);
    assert_eq!(server.remote_static, a_pub);
    assert_eq!(client.hello, b"beta");
    assert_eq!(server.hello, b"alpha");
}

#[test]
fn messages_survive_the_round_trip() {
    let a = DeviceIdentity::generate(DeviceId::new()).unwrap();
    let b = DeviceIdentity::generate(DeviceId::new()).unwrap();
    let (mut client, mut server) = pair(&a, &b, b"alpha", b"beta");
    let ping = b"{\"t\":\"ping\",\"nonce\":99}".to_vec();
    let wire = client.transport.send(&Inner::Json(ping.clone())).unwrap();
    assert_eq!(read_record(&wire[..4]).unwrap(), wire.len() - 4);
    assert_ne!(&wire[5..], ping.as_slice());
    assert_eq!(server.transport.receive(&wire[4..]).unwrap(), Inner::Json(ping));
    let chunk = || FileChunk {
        transfer: TransferId(3),
        index: 1,
        offset: 2,
        data: vec![7; 48 * 1024],
    };
    let wire = server.transport.send(&Inner::Chunk(chunk())).unwrap();
    assert_eq!(client.transport.receive(&wire[4..]).unwrap(), Inner::Chunk(chunk()));
    assert_eq!(client.transport.send_nonce, 1);
    assert_eq!(client.transport.receive_nonce, 1);
}

#[test]
fn records_open_once_and_in_order() {
    let a = DeviceIdentity::generate(DeviceId::new()).unwrap();
    let b = DeviceIdentity::generate(DeviceId::new()).unwrap();
    let (mut client, mut server) = pair(&a, &b, b"", b"");
    let first = client.transport.send(&Inner::Json(vec![1])).unwrap();
    let second = client.transport.send(&Inner::Json(vec![2])).unwrap();
    assert!(matches!(server.transport.receive(&second[4..]), Err(Error::Crypto(_))));
    assert_eq!(server.transport.receive(&first[4..]).unwrap(), Inner::Json(vec![1]));
    assert!(server.transport.receive(&first[4..]).is_err());
    assert_eq!(server.transport.receive(&second[4..]).unwrap(), Inner::Json(vec![2]));
    let mut tampered = client.transport.send(&Inner::Json(vec![3])).unwrap();
    tampered[6] ^= 1;
    assert!(server.transport.receive(&tampered[4..]).is_err());
}

#[test]
fn oversized_payloads_are_refused_by_the_channel() {
    let a = DeviceIdentity::generate(DeviceId::new()).unwrap();
    let b = DeviceIdentity::generate(DeviceId::new()).unwrap();
    let (mut client, _server) = pair(&a, &b, b"", b"");
    assert!(matches!(
        client.transport.send(&Inner::Json(vec![0; 65_519])),
        Err(Error::Crypto(_))
    ));
    assert!(matches!(
        client.transport.send(&Inner::Json(vec![0; 65_535])),
        Err(Error::Range(_))
    ));
    assert!(client.transport.send(&Inner::Json(vec![0; 65_518])).is_ok());
}

#[test]
fn a_handshake_needs_a_readable_key() {
    let mut a = DeviceIdentity::generate(DeviceId::new()).unwrap();
    a.private_key = "AAAA".to_string();
    match Handshake::start(&a, Role::Initiator) {
        Err(Error::Other(text)) => assert_eq!(
            text,
            "invalid key material: expected a 32 byte private key, found 3"
        ),
        _ => panic!("the key must be refused"),
    }
}

#[test]
fn strange_handshake_messages_are_refused() {
    let b = DeviceIdentity::generate(DeviceId::new()).unwrap();
    let mut responder = Handshake::start(&b, Role::Responder).unwrap();
    assert_eq!(responder.next(), Move::ReceiveEmpty);
    assert!(matches!(responder.read(&[1, 2, 3]), Err(Error::Crypto(_))));
    assert_eq!(responder.next(), Move::ReceiveEmpty);
}

#[test]
fn a_pair_in_memory_meets_and_talks() {
    let a = DeviceIdentity::generate(DeviceId::new()).unwrap();
    let b = DeviceIdentity::generate(DeviceId::new()).unwrap();
    let (mut near, mut far) = in_memory_pair(&a, b"alpha", &b, b"beta").unwrap();
    assert_eq!(near.remote_static, b.public_key_raw().unwrap());
    assert_eq!(far.remote_static, a.public_key_raw().unwrap());
    assert_eq!((near.hello.as_slice(), far.hello.as_slice()), (&b"beta"[..], &b"alpha"[..]));
    let wire = far.transport.send(&Inner::Json(vec![1, 2, 3])).unwrap();
    assert_eq!(near.transport.receive(&wire[4..]).unwrap(), Inner::Json(vec![1, 2, 3]));
}

#[test]
fn introductions_have_to_fit_in_their_messages() {
    let a = DeviceIdentity::generate(DeviceId::new()).unwrap();
    let b = DeviceIdentity::generate(DeviceId::new()).unwrap();
    let (long, longer) = (vec![7u8; 65_439], vec![8u8; 65_471]);
    let (near, far) = in_memory_pair(&a, &longer, &b, &long).unwrap();
    assert_eq!(near.hello, long);
    assert_eq!(far.hello, longer);
    assert!(matches!(in_memory_pair(&a, b"", &b, &vec![0; 65_440]), Err(Error::Crypto(_))));
    assert!(matches!(in_memory_pair(&a, &vec![0; 65_472], &b, b""), Err(Error::Crypto(_))));
    let mut broken = DeviceIdentity::generate(DeviceId::new()).unwrap();
    broken.private_key = "AAAA".to_string();
    let refused = in_memory_pair(&broken, b"", &b, b"").err().unwrap();
    assert_eq!(
        refused.message(),
        "invalid key material: expected a 32 byte private key, found 3"
    );
}

#[test]
fn the_last_nonce_is_never_used() {
    let a = DeviceIdentity::generate(DeviceId::new()).unwrap();
    let b = DeviceIdentity::generate(DeviceId::new()).unwrap();
    let (mut near, mut far) = in_memory_pair(&a, b"", &b, b"").unwrap();
    near.transport.send_nonce = u64::MAX - 1;
    far.transport.receive_nonce = u64::MAX - 1;
    let wire = near.transport.send(&Inner::Json(vec![9])).unwrap();
    assert_eq!(far.transport.receive(&wire[4..]).unwrap(), Inner::Json(vec![9]));
    assert!(matches!(near.transport.send(&Inner::Json(vec![9])), Err(Error::Crypto(_))));
}
