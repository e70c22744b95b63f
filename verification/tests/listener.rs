use connection_handler::addr::SocketAddr;
use connection_handler::addr_map::AddrMap;
use connection_handler::listener::{Listener, Received, BANDWITH_LIMIT};

type TestListener = Listener<&'static str, u32>;

fn addr(port: u16) -> SocketAddr {
    SocketAddr::V4 { ip: 0x7f00_0001, port }
}

fn receiver(listener: &TestListener, remote: SocketAddr) -> Option<&'static str> {
    match listener.received::<()>(Ok(remote)) {
        Received::Deliver(packets) => Some(*packets),
        _ => None,
    }
}

fn opens(listener: &TestListener, remote: SocketAddr) -> bool {
    matches!(listener.received::<()>(Ok(remote)), Received::OpenGatewayConnection)
}

fn unexpected(listener: &TestListener, remote: SocketAddr) -> bool {
    matches!(listener.received::<()>(Ok(remote)), Received::Unexpected)
}

#[test]
fn a_map_keeps_addresses_apart() {
    let mut map: AddrMap<u32> = AddrMap::new();
    let addrs = [
        SocketAddr::V4 { ip: 1, port: 2 },
        SocketAddr::V4 { ip: 1, port: 3 },
        SocketAddr::V4 { ip: 2, port: 2 },
        SocketAddr::V6 { ip: 1, port: 2, flowinfo: 0, scope_id: 0 },
        SocketAddr::V6 { ip: 1, port: 2, flowinfo: 1, scope_id: 0 },
        SocketAddr::V6 { ip: 1, port: 2, flowinfo: 0, scope_id: 1 },
        SocketAddr::V6 { ip: u128::MAX, port: 2, flowinfo: 0, scope_id: 0 },
    ];
    for (i, addr) in addrs.iter().enumerate() {
        assert_eq!(map.insert(*addr, i as u32), None);
    }
    for (i, addr) in addrs.iter().enumerate() {
        assert_eq!(map.get(addr), Some(&(i as u32)));
    }
    assert_eq!(map.insert(addrs[3], 9), Some(3));
    assert_eq!(map.remove(&addrs[3]), Some(9));
    assert_eq!(map.remove(&addrs[3]), None);
    assert_eq!(map.get(&addrs[3]), None);
    assert_eq!(map.get(&addrs[0]), Some(&0));
}

#[test]
fn a_peer_drops_packets_of_unknown_remotes() {
    let listener = TestListener::new(false);
    assert!(unexpected(&listener, addr(1)));
}

#[test]
fn a_gateway_opens_a_handshake_for_unknown_remotes() {
    let listener = TestListener::new(true);
    assert!(opens(&listener, addr(1)));
}

#[test]
fn a_socket_that_fails_stops_the_listener() {
    let listener = TestListener::new(true);
    assert!(matches!(listener.received(Err("io")), Received::Stop("io")));
}

#[test]
fn a_gateway_handshake_runs_its_course() {
    let mut listener = TestListener::new(true);
    listener.gateway_opened(addr(1), "handshake");
    assert_eq!(receiver(&listener, addr(1)), Some("handshake"));
    assert!(opens(&listener, addr(2)));
    let connection = listener.gateway_handshake_ended::<u8, ()>(addr(1), Ok((5, "connection")));
    assert_eq!(connection, Ok(5));
    assert_eq!(receiver(&listener, addr(1)), Some("connection"));
}

#[test]
fn a_failed_gateway_handshake_can_be_opened_again() {
    let mut listener = TestListener::new(true);
    listener.gateway_opened(addr(1), "handshake");
    let _ = listener.requested(addr(1), "requested", 7);
    let connection = listener.gateway_handshake_ended::<u8, &str>(addr(1), Err("refused"));
    assert_eq!(connection, Err("refused"));
    assert!(opens(&listener, addr(1)));
    assert_eq!(listener.handshake_ended::<u8, ()>(addr(1), Err(())), None);
}

#[test]
fn a_request_is_answered_with_the_connection() {
    let mut listener = TestListener::new(false);
    assert!(!listener.requested(addr(1), "handshake", 7));
    assert_eq!(receiver(&listener, addr(1)), Some("handshake"));
    let _ = listener.requested(addr(2), "another", 8);
    let answer = listener.handshake_ended::<u8, ()>(addr(1), Ok((5, "connection")));
    assert_eq!(answer, Some((7, Ok(5))));
    assert_eq!(receiver(&listener, addr(1)), Some("connection"));
    assert_eq!(receiver(&listener, addr(2)), Some("another"));
}

#[test]
fn a_request_is_answered_with_the_failure() {
    let mut listener = TestListener::new(false);
    let _ = listener.requested(addr(1), "handshake", 7);
    let answer = listener.handshake_ended::<u8, &str>(addr(1), Err("no answer"));
    assert_eq!(answer, Some((7, Err("no answer"))));
    assert!(unexpected(&listener, addr(1)));
}

#[test]
fn a_request_drops_the_open_connection() {
    let mut listener = TestListener::new(false);
    let _ = listener.requested(addr(1), "handshake", 7);
    let _ = listener.handshake_ended::<u8, ()>(addr(1), Ok((5, "connection")));
    assert!(listener.requested(addr(1), "second", 8));
    assert_eq!(receiver(&listener, addr(1)), Some("second"));
}

#[test]
fn a_later_request_takes_the_place_of_an_earlier_one() {
    let mut listener = TestListener::new(false);
    let _ = listener.requested(addr(1), "first", 7);
    assert!(!listener.requested(addr(1), "second", 8));
    assert_eq!(receiver(&listener, addr(1)), Some("second"));
    let answer = listener.handshake_ended::<u8, ()>(addr(1), Ok((5, "connection")));
    assert_eq!(answer, Some((8, Ok(5))));
    let stale = listener.handshake_ended::<u8, ()>(addr(1), Ok((6, "stale")));
    assert_eq!(stale, None);
    assert_eq!(receiver(&listener, addr(1)), Some("connection"));
}

#[test]
fn a_gateway_handshake_comes_before_a_request() {
    let mut listener = TestListener::new(true);
    listener.gateway_opened(addr(1), "gateway");
    let _ = listener.requested(addr(1), "requested", 7);
    assert_eq!(receiver(&listener, addr(1)), Some("gateway"));
}

#[test]
fn a_request_stands_while_the_remote_connects() {
    let mut listener = TestListener::new(true);
    listener.gateway_opened(addr(1), "gateway");
    let _ = listener.requested(addr(1), "requested", 7);
    let announced = listener.gateway_handshake_ended::<u8, ()>(addr(1), Ok((4, "theirs")));
    assert_eq!(announced, Ok(4));
    assert_eq!(receiver(&listener, addr(1)), Some("theirs"));
    let answer = listener.handshake_ended::<u8, ()>(addr(1), Ok((5, "ours")));
    assert_eq!(answer, Some((7, Ok(5))));
    assert_eq!(receiver(&listener, addr(1)), Some("ours"));
}

#[test]
fn a_failed_request_leaves_the_gateway_handshake() {
    let mut listener = TestListener::new(true);
    listener.gateway_opened(addr(1), "gateway");
    let _ = listener.requested(addr(1), "requested", 7);
    let answer = listener.handshake_ended::<u8, ()>(addr(1), Err(()));
    assert_eq!(answer, Some((7, Err(()))));
    assert_eq!(receiver(&listener, addr(1)), Some("gateway"));
}

#[test]
fn the_bandwidth_is_ten_mebibytes() {
    assert_eq!(BANDWITH_LIMIT, 10_485_760);
}
