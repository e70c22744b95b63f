use connection_handler::addr::SocketAddr;
use connection_handler::connection::{
    OutboundConnection, SendOutcome, SentTracker, SymmetricMessagePayload,
};
use connection_handler::crypto::{encrypt_symmetric, SymmetricKey};
use connection_handler::error::{FailureCause, TransportError};
use connection_handler::intro::encode_intro;
use connection_handler::traversal::{NatTraversal, TraversalAction, TraversalEvent};

type Event = TraversalEvent<&'static str>;
type Action = TraversalAction<&'static str>;

const REMOTE: SocketAddr = SocketAddr::V4 { ip: 0x0a00_0001, port: 31_337 };
const MINE: SocketAddr = SocketAddr::V4 { ip: 0x0a00_0002, port: 31_338 };

fn started() -> NatTraversal {
    let (traversal, action): (NatTraversal, Action) =
        NatTraversal::start_with_key(REMOTE, SymmetricKey::new([1; 16]));
    assert!(matches!(action, TraversalAction::SendIntro));
    traversal
}

fn waiting() -> NatTraversal {
    let (traversal, action) = started().step(Event::Send(SendOutcome::Sent));
    assert!(matches!(action, TraversalAction::Wait { timeout: 15 }));
    traversal
}

fn ack(key: Vec<u8>) -> Event {
    Event::Deserialized(Ok(SymmetricMessagePayload::AckConnection {
        result: Ok(OutboundConnection { key, remote_addr: MINE }),
    }))
}

fn deserializing() -> NatTraversal {
    let packet = encrypt_symmetric(b"message", &SymmetricKey::new([1; 16]));
    let (traversal, action) = waiting().step(Event::Inbound(packet));
    match action {
        TraversalAction::Deserialize { data } => assert_eq!(data, b"message".to_vec()),
        _ => panic!("not to be deserialized"),
    }
    traversal
}

fn introduced() -> NatTraversal {
    let (traversal, action) = waiting().step(Event::Inbound(vec![9; 256]));
    match action {
        TraversalAction::DecryptIntro { packet } => assert_eq!(packet, vec![9; 256]),
        _ => panic!("not to be decrypted"),
    }
    let intro = encode_intro(&SymmetricKey::new([2; 16]));
    let (traversal, action) = traversal.step(Event::Decrypted(Some(intro)));
    match action {
        TraversalAction::SendAck { ack, track } => {
            assert!(track);
            assert_eq!(ack.sealed_under.bytes(), [2; 16]);
            assert_eq!(ack.key.bytes(), [1; 16]);
            assert_eq!(ack.remote_addr, REMOTE);
        }
        _ => panic!("no acknowledgement"),
    }
    let (traversal, action) = traversal.step(Event::Send(SendOutcome::Sent));
    assert!(matches!(action, TraversalAction::Wait { timeout: 15 }));
    traversal
}

fn failed(action: Action) -> TransportError<&'static str> {
    match action {
        TraversalAction::Fail(error) => error,
        _ => panic!("no failure"),
    }
}

fn cause(action: Action) -> String {
    match failed(action) {
        TransportError::ConnectionEstablishmentFailure { cause } => cause.text(),
        _ => panic!("no failure to establish"),
    }
}

#[test]
fn a_handshake_announces_a_key_drawn_at_random() {
    let (a, action): (NatTraversal, Action) = NatTraversal::start(REMOTE);
    assert!(matches!(action, TraversalAction::SendIntro));
    let (b, _): (NatTraversal, Action) = NatTraversal::start(REMOTE);
    assert_ne!(a.intro(), b.intro());
    assert_eq!(started().intro(), vec![1, 0, 1, 1, 1, 1, 1, 1, 1, 1, 1, 1, 1, 1, 1, 1, 1, 1]);
}

#[test]
fn an_acknowledged_peer_confirms_and_connects() {
    let (traversal, action) = deserializing().step(ack(vec![2; 16]));
    match action {
        TraversalAction::SendAck { ack, track } => {
            assert!(!track);
            assert_eq!(ack.sealed_under.bytes(), [2; 16]);
            assert_eq!(ack.key.bytes(), [1; 16]);
            assert_eq!(ack.remote_addr, REMOTE);
        }
        _ => panic!("no acknowledgement"),
    }
    let (_, action) = traversal.step(Event::Send(SendOutcome::Sent));
    match action {
        TraversalAction::Connected(connection) => {
            assert_eq!(connection.remote_addr, REMOTE);
            assert_eq!(connection.outbound_symmetric_key.bytes(), [2; 16]);
            assert_eq!(connection.inbound_symmetric_key.bytes(), [1; 16]);
            assert_eq!(connection.my_address, Some(MINE));
            assert_eq!(connection.last_packet_id, 0);
            assert_eq!(connection.inbound_capacity, 100);
            assert_eq!(connection.sent_tracker, SentTracker::OfHandshake);
        }
        _ => panic!("no connection"),
    }
}

#[test]
fn an_introduced_peer_connects_with_the_next_packet() {
    let (_, action) = introduced().step(Event::Inbound(vec![8; 20]));
    match action {
        TraversalAction::Connected(connection) => {
            assert_eq!(connection.remote_addr, REMOTE);
            assert_eq!(connection.outbound_symmetric_key.bytes(), [2; 16]);
            assert_eq!(connection.inbound_symmetric_key.bytes(), [1; 16]);
            assert_eq!(connection.my_address, None);
            assert_eq!(connection.last_packet_id, 0);
            assert_eq!(connection.inbound_capacity, 1);
            assert_eq!(connection.sent_tracker, SentTracker::Fresh);
        }
        _ => panic!("no connection"),
    }
}

#[test]
fn the_same_intro_packet_again_is_a_failed_attempt() {
    let mut traversal = introduced();
    for _ in 0..19 {
        let (next, action) = traversal.step(Event::Inbound(vec![9; 256]));
        assert!(matches!(action, TraversalAction::SendAck { track: true, .. }));
        let (next, action) = next.step(Event::Send(SendOutcome::Sent));
        assert!(matches!(action, TraversalAction::Wait { timeout: 15 }));
        traversal = next;
    }
    let (_, action) = traversal.step(Event::Inbound(vec![9; 256]));
    assert_eq!(cause(action), "max connection attempts reached");
}

#[test]
fn a_lost_acknowledgement_is_sent_again_and_the_peer_connects() {
    let (traversal, action) = introduced().step(Event::Elapsed);
    assert!(matches!(action, TraversalAction::Tick { restart: Some(400) }));
    let (traversal, action) = traversal.step(Event::Ticked);
    match action {
        TraversalAction::SendAck { ack, track } => {
            assert!(track);
            assert_eq!(ack.sealed_under.bytes(), [2; 16]);
            assert_eq!(ack.key.bytes(), [1; 16]);
            assert_eq!(ack.remote_addr, REMOTE);
        }
        _ => panic!("no acknowledgement"),
    }
    let (traversal, _) = traversal.step(Event::Send(SendOutcome::Sent));
    let (traversal, action) = traversal.step(Event::Inbound(vec![9; 256]));
    assert!(matches!(action, TraversalAction::SendAck { track: true, .. }));
    let (traversal, _) = traversal.step(Event::Send(SendOutcome::Sent));
    let (_, action) = traversal.step(Event::Inbound(vec![8; 20]));
    match action {
        TraversalAction::Connected(connection) => {
            assert_eq!(connection.outbound_symmetric_key.bytes(), [2; 16]);
            assert_eq!(connection.my_address, None);
        }
        _ => panic!("no connection"),
    }
}

#[test]
fn a_handshake_that_heard_the_remote_makes_one_attempt_more() {
    let mut traversal = introduced();
    let mut attempts = 2;
    loop {
        let (next, _) = traversal.step(Event::Elapsed);
        let (next, action) = next.step(Event::Ticked);
        if !matches!(action, TraversalAction::SendAck { track: true, .. }) {
            assert_eq!(cause(action), "max connection attempts reached");
            break;
        }
        attempts += 1;
        let (next, _) = next.step(Event::Send(SendOutcome::Sent));
        traversal = next;
    }
    assert_eq!(attempts, 21);
}

#[test]
fn a_key_of_the_wrong_length_is_refused() {
    for len in [0usize, 15, 17] {
        let (_, action) = deserializing().step(ack(vec![2; len]));
        assert_eq!(cause(action), "invalid symmetric key");
    }
}

#[test]
fn a_refusal_is_passed_on() {
    let refusal = SymmetricMessagePayload::AckConnection { result: Err("go away".to_string()) };
    let (_, action) = deserializing().step(Event::Deserialized(Ok(refusal)));
    match failed(action) {
        TransportError::ConnectionEstablishmentFailure { cause: FailureCause::Remote(text) } => {
            assert_eq!(text, "go away")
        }
        _ => panic!("not the remote's words"),
    }
}

#[test]
fn an_unreadable_message_ends_the_handshake() {
    let (_, action) = deserializing().step(Event::Deserialized(Err("no message")));
    assert!(matches!(failed(action), TransportError::Other("no message")));
}

#[test]
fn another_message_is_a_failed_attempt() {
    let (traversal, action) =
        deserializing().step(Event::Deserialized(Ok(SymmetricMessagePayload::Other)));
    assert!(matches!(action, TraversalAction::SendIntro));
    let (_, action) = traversal.step(Event::Send(SendOutcome::Sent));
    assert!(matches!(action, TraversalAction::Wait { timeout: 15 }));
}

#[test]
fn a_packet_for_someone_else_is_a_failed_attempt() {
    let (traversal, _) = waiting().step(Event::Inbound(vec![9; 256]));
    let (_, action) = traversal.step(Event::Decrypted(None));
    assert!(matches!(action, TraversalAction::SendIntro));
}

#[test]
fn a_handshake_gives_up_after_twenty_waits() {
    let timeouts: [u64; 20] = [
        15, 18, 21, 25, 30, 36, 43, 51, 61, 73, 87, 104, 124, 148, 177, 212, 254, 304, 364, 436,
    ];
    let restarts: [Option<u64>; 7] =
        [Some(400), Some(800), Some(1600), Some(3200), Some(5000), None, None];
    let mut traversal = started();
    for i in 0..20 {
        let (next, action) = traversal.step(Event::Send(SendOutcome::Sent));
        match action {
            TraversalAction::Wait { timeout } => assert_eq!(timeout, timeouts[i]),
            _ => panic!("no wait"),
        }
        let (next, action) = next.step(Event::Elapsed);
        match action {
            TraversalAction::Tick { restart } => assert_eq!(restart, restarts[i.min(6)]),
            _ => panic!("no tick"),
        }
        let (next, action) = next.step(Event::Ticked);
        if i < 19 {
            assert!(matches!(action, TraversalAction::SendIntro));
        } else {
            assert_eq!(cause(action), "max connection attempts reached");
        }
        traversal = next;
    }
}

#[test]
fn a_closed_queue_ends_the_handshake() {
    let (_, action) = started().step(Event::Send(SendOutcome::ChannelClosed));
    assert!(matches!(failed(action), TransportError::ChannelClosed));
    let (traversal, _) = deserializing().step(ack(vec![2; 16]));
    let (_, action) = traversal.step(Event::Send(SendOutcome::ChannelClosed));
    assert!(matches!(failed(action), TransportError::ChannelClosed));
}

#[test]
fn a_packet_that_cannot_be_built_ends_the_handshake() {
    let (traversal, _) = deserializing().step(ack(vec![2; 16]));
    let (_, action) = traversal.step(Event::Send(SendOutcome::NotBuilt("too long")));
    assert!(matches!(failed(action), TransportError::Other("too long")));
}

#[test]
fn a_listener_that_stops_closes_the_connection() {
    let (_, action) = waiting().step(Event::InboundClosed);
    match failed(action) {
        TransportError::ConnectionClosed(addr) => assert_eq!(addr, REMOTE),
        _ => panic!("not closed"),
    }
}
