use connection_handler::addr::SocketAddr;
use connection_handler::connection::{SendOutcome, SentTracker};
use connection_handler::crypto::{encrypt_symmetric, SymmetricKey};
use connection_handler::error::{FailureCause, TransportError};
use connection_handler::gateway::{GatewayAction, GatewayEvent, GatewayHandshake};
use connection_handler::intro::encode_intro;

type Event = GatewayEvent<&'static str>;
type Action = GatewayAction<&'static str>;

const PEER: SocketAddr = SocketAddr::V6 { ip: 1, port: 31_337, flowinfo: 0, scope_id: 0 };

fn opened() -> GatewayHandshake {
    let intro = encode_intro(&SymmetricKey::new([2; 16]));
    let opened: Result<(GatewayHandshake, Action), _> =
        GatewayHandshake::open_with_key(PEER, Ok(intro), SymmetricKey::new([1; 16]));
    let (handshake, action) = opened.ok().unwrap();
    is_ack(action);
    handshake
}

fn is_ack(action: Action) {
    match action {
        GatewayAction::SendAck { ack } => {
            assert_eq!(ack.sealed_under.bytes(), [2; 16]);
            assert_eq!(ack.key.bytes(), [1; 16]);
            assert_eq!(ack.remote_addr, PEER);
        }
        _ => panic!("no acknowledgement"),
    }
}

fn is_connected(action: Action) {
    match action {
        GatewayAction::Connected(connection) => {
            assert_eq!(connection.remote_addr, PEER);
            assert_eq!(connection.outbound_symmetric_key.bytes(), [2; 16]);
            assert_eq!(connection.inbound_symmetric_key.bytes(), [1; 16]);
            assert_eq!(connection.my_address, None);
            assert_eq!(connection.last_packet_id, 0);
            assert_eq!(connection.inbound_capacity, 100);
            assert_eq!(connection.sent_tracker, SentTracker::Fresh);
        }
        _ => panic!("no connection"),
    }
}

fn waiting() -> GatewayHandshake {
    let (handshake, action) = opened().step(Event::Send(SendOutcome::Sent));
    assert!(matches!(action, GatewayAction::Wait { timeout: 200 }));
    handshake
}

fn cause(action: Action) -> String {
    match action {
        GatewayAction::Fail(TransportError::ConnectionEstablishmentFailure { cause }) => {
            cause.text()
        }
        _ => panic!("no failure to establish"),
    }
}

fn refusing() -> GatewayHandshake {
    let mut intro = encode_intro(&SymmetricKey::new([2; 16]));
    intro[0] = b'v';
    intro[1] = b'2';
    let opened: Result<(GatewayHandshake, Action), _> =
        GatewayHandshake::open_with_key(PEER, Ok(intro), SymmetricKey::new([1; 16]));
    let (handshake, action) = opened.ok().unwrap();
    match action {
        GatewayAction::SendAckError { sealed_under } => assert_eq!(sealed_under.bytes(), [2; 16]),
        _ => panic!("no refusal"),
    }
    handshake
}

#[test]
fn an_intro_that_does_not_decrypt_fails() {
    let opened: Result<(GatewayHandshake, Action), _> = GatewayHandshake::open(PEER, Err("rsa"));
    assert!(matches!(opened, Err(TransportError::Other("rsa"))));
}

#[test]
fn a_gateway_announces_a_key_drawn_at_random() {
    let mut keys: Vec<[u8; 16]> = Vec::new();
    for _ in 0..2 {
        let intro = encode_intro(&SymmetricKey::new([2; 16]));
        let opened: Result<(GatewayHandshake, Action), _> = GatewayHandshake::open(PEER, Ok(intro));
        match opened {
            Ok((_, GatewayAction::SendAck { ack })) => {
                assert_eq!(ack.sealed_under.bytes(), [2; 16]);
                keys.push(ack.key.bytes());
            }
            _ => panic!("no acknowledgement"),
        }
    }
    assert_ne!(keys[0], keys[1]);
}

#[test]
fn another_version_is_refused() {
    let (_, action) = refusing().step(Event::Send(SendOutcome::Sent));
    match action {
        GatewayAction::Fail(TransportError::ConnectionEstablishmentFailure {
            cause: FailureCause::DifferentProtocolVersion { protoc },
        }) => assert_eq!(&protoc, b"v2"),
        _ => panic!("not refused"),
    }
    let (_, action) = refusing().step(Event::Send(SendOutcome::Sent));
    assert_eq!(cause(action), "remote is using a different protocol version: \"v2\"");
}

#[test]
fn a_refusal_that_is_not_sent_fails_otherwise() {
    let (_, action) = refusing().step(Event::Send(SendOutcome::ChannelClosed));
    assert!(matches!(action, GatewayAction::Fail(TransportError::ChannelClosed)));
    let (_, action) = refusing().step(Event::Send(SendOutcome::NotBuilt("codec")));
    assert!(matches!(action, GatewayAction::Fail(TransportError::Other("codec"))));
}

#[test]
fn a_packet_under_the_key_connects() {
    let packet = encrypt_symmetric(b"anything", &SymmetricKey::new([1; 16]));
    let (_, action) = waiting().step(Event::Inbound(packet));
    is_connected(action);
}

#[test]
fn a_packet_under_another_key_fails() {
    let packet = encrypt_symmetric(b"anything", &SymmetricKey::new([3; 16]));
    let (_, action) = waiting().step(Event::Inbound(packet));
    assert_eq!(cause(action), "invalid symmetric key");
}

#[test]
fn a_listener_that_stops_ends_a_gateway_handshake() {
    let (_, action) = waiting().step(Event::InboundClosed);
    assert_eq!(cause(action), "connection close");
}

#[test]
fn a_closed_queue_ends_a_gateway_handshake() {
    let (_, action) = opened().step(Event::Send(SendOutcome::ChannelClosed));
    assert!(matches!(action, GatewayAction::Fail(TransportError::ChannelClosed)));
    let (_, action) = opened().step(Event::Send(SendOutcome::NotBuilt("codec")));
    assert!(matches!(action, GatewayAction::Fail(TransportError::Other("codec"))));
}

#[test]
fn a_silent_peer_is_connected_after_thirty_waits() {
    let waits: [u64; 6] = [200, 400, 800, 1600, 3200, 5000];
    let mut handshake = opened();
    for i in 0..30 {
        let (next, action) = handshake.step(Event::Send(SendOutcome::Sent));
        match action {
            GatewayAction::Wait { timeout } => assert_eq!(timeout, waits[i.min(5)]),
            _ => panic!("no wait"),
        }
        let (next, action) = next.step(Event::Elapsed);
        if i < 29 {
            is_ack(action);
        } else {
            is_connected(action);
        }
        handshake = next;
    }
}
