//! Handshakes over a network of sockets that lose packets, with a clock of its own.

use std::collections::VecDeque;
use std::ops::Range;

use connection_handler::addr::SocketAddr;
use connection_handler::connection::{
    Ack, OutboundConnection, RemoteConnection, SendOutcome, SymmetricMessagePayload,
};
use connection_handler::crypto::{encrypt_symmetric, SymmetricKey};
use connection_handler::error::TransportError;
use connection_handler::gateway::{GatewayAction, GatewayEvent, GatewayHandshake};
use connection_handler::intro::parse_intro;
use connection_handler::listener::{Listener, Received};
use connection_handler::traversal::{NatTraversal, TraversalAction, TraversalEvent};

type Outcome = Result<RemoteConnection, TransportError<()>>;

const LATENCY: u64 = 1;

/// A packet encrypted for the owner of an identity, and for no one else.
fn encrypt_for(identity: u8, data: &[u8]) -> Vec<u8> {
    let mut packet = vec![0xee, identity, data.len() as u8];
    packet.extend_from_slice(data);
    packet.resize(256, 0);
    packet
}

fn decrypt(identity: u8, packet: &[u8]) -> Option<Vec<u8>> {
    if packet.len() == 256 && packet[0] == 0xee && packet[1] == identity {
        Some(packet[3..3 + packet[2] as usize].to_vec())
    } else {
        None
    }
}

fn port(addr: SocketAddr) -> u16 {
    match addr {
        SocketAddr::V4 { port, .. } => port,
        SocketAddr::V6 { port, .. } => port,
    }
}

fn addr(port: u16) -> SocketAddr {
    SocketAddr::V4 { ip: 0x7f00_0001, port }
}

fn build_ack(ack: &Ack) -> Vec<u8> {
    let mut message = vec![1];
    message.extend_from_slice(&port(ack.remote_addr).to_le_bytes());
    message.extend_from_slice(&ack.key.bytes());
    encrypt_symmetric(&message, &ack.sealed_under)
}

fn build_ack_error(sealed_under: &SymmetricKey) -> Vec<u8> {
    encrypt_symmetric(b"\x02wrong version", sealed_under)
}

fn deserialize(data: &[u8]) -> Result<SymmetricMessagePayload, ()> {
    match data[0] {
        1 => Ok(SymmetricMessagePayload::AckConnection {
            result: Ok(OutboundConnection {
                key: data[3..].to_vec(),
                remote_addr: addr(u16::from_le_bytes([data[1], data[2]])),
            }),
        }),
        2 => Ok(SymmetricMessagePayload::AckConnection {
            result: Err(String::from_utf8_lossy(&data[1..]).into_owned()),
        }),
        _ => Err(()),
    }
}

enum Handshake {
    Over,
    Peer(NatTraversal),
    Gateway(GatewayHandshake),
}

enum Pending {
    Nothing,
    Packet { deadline: u64 },
    Tick { at: u64 },
}

/// A peer, with its socket.
struct Node {
    port: u16,
    remote: u16,
    intro: Vec<u8>,
    listener: Listener<(), ()>,
    handshake: Handshake,
    pending: Pending,
    interval: u64,
    next_tick: u64,
    inbox: VecDeque<Vec<u8>>,
    outbox: Vec<Vec<u8>>,
    packets_sent: usize,
    drops: Vec<Range<usize>>,
    refused: Vec<TransportError<()>>,
    outcome: Option<Outcome>,
}

impl Node {
    fn new(port: u16, remote: u16, is_gateway: bool, drops: Vec<Range<usize>>) -> Node {
        Node {
            port,
            remote,
            intro: Vec::new(),
            listener: Listener::new(is_gateway),
            handshake: Handshake::Over,
            pending: Pending::Nothing,
            interval: 200,
            next_tick: 0,
            inbox: VecDeque::new(),
            outbox: Vec::new(),
            packets_sent: 0,
            drops,
            refused: Vec::new(),
            outcome: None,
        }
    }

    /// Asks for a connection to the remote.
    fn connect(&mut self) {
        self.connect_as([1, 0]);
    }

    fn connect_as(&mut self, protoc: [u8; 2]) {
        let (traversal, action): (NatTraversal, TraversalAction<()>) =
            NatTraversal::start(addr(self.remote));
        let mut intro = traversal.intro();
        intro[0] = protoc[0];
        intro[1] = protoc[1];
        self.intro = encrypt_for(self.remote as u8, &intro);
        let _ = self.listener.requested(addr(self.remote), (), ());
        self.perform(0, traversal, action);
    }

    fn send(&mut self, packet: Vec<u8>) {
        let idx = self.packets_sent;
        self.packets_sent += 1;
        if !self.drops.iter().any(|range| range.contains(&idx)) {
            self.outbox.push(packet);
        }
    }

    fn perform(
        &mut self,
        now: u64,
        mut traversal: NatTraversal,
        mut action: TraversalAction<()>,
    ) {
        loop {
            let event: TraversalEvent<()> = match action {
                TraversalAction::SendIntro => {
                    self.send(self.intro.clone());
                    TraversalEvent::Send(SendOutcome::Sent)
                }
                TraversalAction::SendAck { ack, .. } => {
                    self.send(build_ack(&ack));
                    TraversalEvent::Send(SendOutcome::Sent)
                }
                TraversalAction::Wait { timeout } => {
                    match self.inbox.pop_front() {
                        Some(packet) => TraversalEvent::Inbound(packet),
                        None => {
                            self.pending = Pending::Packet { deadline: now + timeout };
                            self.handshake = Handshake::Peer(traversal);
                            return;
                        }
                    }
                }
                TraversalAction::Deserialize { data } => {
                    TraversalEvent::Deserialized(deserialize(&data))
                }
                TraversalAction::DecryptIntro { packet } => {
                    let data = decrypt(self.port as u8, &packet);
                    if let Some(data) = &data {
                        assert!(parse_intro(data).unwrap().is_current());
                    }
                    TraversalEvent::Decrypted(data)
                }
                TraversalAction::Tick { restart: Some(interval) } => {
                    self.interval = interval;
                    self.next_tick = now + interval;
                    TraversalEvent::Ticked
                }
                TraversalAction::Tick { restart: None } => {
                    self.pending = Pending::Tick { at: self.next_tick.max(now) };
                    self.next_tick += self.interval;
                    self.handshake = Handshake::Peer(traversal);
                    return;
                }
                TraversalAction::Connected(connection) => {
                    self.ended(Ok(connection));
                    return;
                }
                TraversalAction::Fail(error) => {
                    self.ended(Err(error));
                    return;
                }
            };
            (traversal, action) = traversal.step(event);
        }
    }

    fn ended(&mut self, outcome: Outcome) {
        let answer = self.listener.handshake_ended(addr(self.remote), outcome.map(|c| (c, ())));
        self.outcome = Some(answer.unwrap().1);
    }

    fn perform_gateway(
        &mut self,
        now: u64,
        mut handshake: GatewayHandshake,
        mut action: GatewayAction<()>,
    ) {
        loop {
            let event: GatewayEvent<()> = match action {
                GatewayAction::SendAck { ack } => {
                    self.send(build_ack(&ack));
                    GatewayEvent::Send(SendOutcome::Sent)
                }
                GatewayAction::SendAckError { sealed_under } => {
                    self.send(build_ack_error(&sealed_under));
                    GatewayEvent::Send(SendOutcome::Sent)
                }
                GatewayAction::Wait { timeout } => match self.inbox.pop_front() {
                    Some(packet) => GatewayEvent::Inbound(packet),
                    None => {
                        self.pending = Pending::Packet { deadline: now + timeout };
                        self.handshake = Handshake::Gateway(handshake);
                        return;
                    }
                },
                GatewayAction::Connected(connection) => {
                    self.gateway_ended(Ok(connection));
                    return;
                }
                GatewayAction::Fail(error) => {
                    self.gateway_ended(Err(error));
                    return;
                }
            };
            (handshake, action) = handshake.step(event);
        }
    }

    /// A gateway goes on listening when a handshake fails.
    fn gateway_ended(&mut self, outcome: Outcome) {
        let remote = addr(self.remote);
        let outcome = outcome.map(|connection| (connection, ()));
        match self.listener.gateway_handshake_ended(remote, outcome) {
            Ok(connection) => self.outcome = Some(Ok(connection)),
            Err(error) => {
                self.inbox.clear();
                self.refused.push(error);
            }
        }
    }

    fn receive(&mut self, now: u64, from: u16, packet: Vec<u8>) {
        let opens = match self.listener.received::<()>(Ok(addr(from))) {
            Received::Deliver(_) => false,
            Received::OpenGatewayConnection => true,
            Received::Unexpected => return,
            Received::Stop(_) => panic!("the socket does not fail"),
        };
        if opens {
            let decrypted = decrypt(self.port as u8, &packet).ok_or(());
            assert!(parse_intro(decrypted.as_ref().unwrap()).is_some());
            self.listener.gateway_opened(addr(from), ());
            match GatewayHandshake::open(addr(from), decrypted) {
                Ok((handshake, action)) => self.perform_gateway(now, handshake, action),
                Err(error) => self.gateway_ended(Err(error)),
            }
        } else if self.outcome.is_none() {
            self.inbox.push_back(packet);
            if let Pending::Packet { .. } = self.pending {
                self.wake(now);
            }
        }
    }

    /// Goes on when a packet came, or the time that was waited for.
    fn wake(&mut self, now: u64) {
        let pending = std::mem::replace(&mut self.pending, Pending::Nothing);
        let packet = match pending {
            Pending::Packet { .. } => self.inbox.pop_front(),
            _ => None,
        };
        match std::mem::replace(&mut self.handshake, Handshake::Over) {
            Handshake::Peer(traversal) => {
                let event: TraversalEvent<()> = match (pending, packet) {
                    (Pending::Tick { .. }, _) => TraversalEvent::Ticked,
                    (_, Some(packet)) => TraversalEvent::Inbound(packet),
                    (_, None) => TraversalEvent::Elapsed,
                };
                let (traversal, action) = traversal.step(event);
                self.perform(now, traversal, action);
            }
            Handshake::Gateway(handshake) => {
                let event: GatewayEvent<()> = match packet {
                    Some(packet) => GatewayEvent::Inbound(packet),
                    None => GatewayEvent::Elapsed,
                };
                let (handshake, action) = handshake.step(event);
                self.perform_gateway(now, handshake, action);
            }
            Handshake::Over => {}
        }
    }

    fn wakes_at(&self) -> Option<u64> {
        match self.pending {
            Pending::Nothing => None,
            Pending::Packet { deadline } => Some(deadline),
            Pending::Tick { at } => Some(at),
        }
    }
}

/// Runs two nodes until both have an outcome or the time is over, and returns the time.
fn run(a: &mut Node, b: &mut Node, limit: u64) -> u64 {
    let mut now: u64 = 0;
    let mut flying: VecDeque<(u64, bool, Vec<u8>)> = VecDeque::new();
    loop {
        for packet in a.outbox.drain(..) {
            flying.push_back((now + LATENCY, true, packet));
        }
        for packet in b.outbox.drain(..) {
            flying.push_back((now + LATENCY, false, packet));
        }
        if a.outcome.is_some() && b.outcome.is_some() {
            return now;
        }
        let next = [flying.front().map(|p| p.0), a.wakes_at(), b.wakes_at()]
            .into_iter()
            .flatten()
            .min();
        match next {
            Some(at) if at <= limit => now = at,
            _ => return limit,
        }
        if flying.front().map(|p| p.0) == Some(now) {
            let (_, to_b, packet) = flying.pop_front().unwrap();
            if to_b {
                b.receive(now, a.port, packet);
            } else {
                a.receive(now, b.port, packet);
            }
        } else if a.wakes_at() == Some(now) {
            a.wake(now);
        } else {
            b.wake(now);
        }
    }
}

fn connection(node: &Node) -> RemoteConnection {
    match &node.outcome {
        Some(Ok(connection)) => *connection,
        _ => panic!("no connection"),
    }
}

fn connects(a: &mut Node, b: &mut Node, limit: u64) {
    let time = run(a, b, limit);
    assert!(time < limit);
    let at_a = connection(a);
    let at_b = connection(b);
    assert_eq!(at_a.remote_addr, addr(b.port));
    assert_eq!(at_b.remote_addr, addr(a.port));
    assert_eq!(at_a.outbound_symmetric_key.bytes(), at_b.inbound_symmetric_key.bytes());
    assert_eq!(at_b.outbound_symmetric_key.bytes(), at_a.inbound_symmetric_key.bytes());
    assert_ne!(at_a.outbound_symmetric_key.bytes(), at_a.inbound_symmetric_key.bytes());
}

fn two_peers(a_drops: Vec<Range<usize>>, b_drops: Vec<Range<usize>>) -> (Node, Node) {
    let mut a = Node::new(25_000, 25_001, false, a_drops);
    let mut b = Node::new(25_001, 25_000, false, b_drops);
    b.connect();
    a.connect();
    (a, b)
}

fn peer_and_gateway(a_drops: Vec<Range<usize>>, gw_drops: Vec<Range<usize>>) -> (Node, Node) {
    let mut a = Node::new(25_000, 25_001, false, a_drops);
    let gw = Node::new(25_001, 25_000, true, gw_drops);
    a.connect();
    (a, gw)
}

#[test]
fn simulate_nat_traversal() {
    let (mut a, mut b) = two_peers(vec![], vec![]);
    connects(&mut a, &mut b, 500_000);
}

#[test]
fn simulate_nat_traversal_drop_first_packets_for_all() {
    let (mut a, mut b) = two_peers(vec![0..1], vec![0..1]);
    connects(&mut a, &mut b, 500_000);
}

#[test]
fn simulate_nat_traversal_drop_first_packets_of_peerb() {
    let (mut a, mut b) = two_peers(vec![], vec![0..1]);
    connects(&mut a, &mut b, 500_000);
    // acknowledged by b, which never got its intro packet through
    assert_eq!(connection(&a).my_address, Some(addr(a.port)));
    assert_eq!(connection(&b).my_address, None);
}

#[test]
fn peers_connect_though_most_packets_of_one_are_lost() {
    let (mut a, mut b) = two_peers(vec![], vec![0..1, 3..9]);
    connects(&mut a, &mut b, 2_000);
    let (mut a, mut b) = two_peers(vec![], vec![0..1, 3..usize::MAX]);
    connects(&mut a, &mut b, 2_000);
}

#[test]
fn simulate_gateway_connection() {
    let (mut a, mut gw) = peer_and_gateway(vec![], vec![]);
    connects(&mut a, &mut gw, 10_000);
    assert_eq!(connection(&a).my_address, Some(addr(a.port)));
    assert_eq!(connection(&gw).my_address, None);
}

#[test]
fn simulate_gateway_connection_drop_first_packets_of_gateway() {
    let (mut a, mut gw) = peer_and_gateway(vec![], vec![0..1]);
    connects(&mut a, &mut gw, 10_000);
    // the intro packet that came again is not under the gateway's key
    assert_eq!(gw.refused.len(), 1);
}

#[test]
fn simulate_gateway_connection_drop_first_packets_for_all() {
    let (mut a, mut gw) = peer_and_gateway(vec![0..1], vec![0..1]);
    connects(&mut a, &mut gw, 10_000);
}

#[test]
fn simulate_gateway_connection_drop_first_packets_of_peer() {
    let (mut a, mut gw) = peer_and_gateway(vec![0..1], vec![]);
    connects(&mut a, &mut gw, 10_000);
}

#[test]
fn a_peer_of_another_version_is_told_so() {
    let mut a = Node::new(25_000, 25_001, false, vec![]);
    let mut gw = Node::new(25_001, 25_000, true, vec![]);
    a.connect_as([2, 0]);
    let _ = run(&mut a, &mut gw, 10_000);
    assert!(gw.outcome.is_none());
    match (a.outcome, gw.refused.pop()) {
        (
            Some(Err(TransportError::ConnectionEstablishmentFailure { cause: at_a })),
            Some(TransportError::ConnectionEstablishmentFailure { cause: at_gw }),
        ) => {
            assert_eq!(at_a.text(), "wrong version");
            assert_eq!(
                at_gw.text(),
                "remote is using a different protocol version: \"\\u{2}\\0\""
            );
        }
        _ => panic!("not refused"),
    }
}

#[test]
fn a_peer_without_a_remote_gives_up() {
    let mut a = Node::new(25_000, 25_001, false, vec![]);
    let mut b = Node::new(25_001, 25_000, false, vec![]);
    a.connect();
    let _ = run(&mut a, &mut b, 500_000);
    assert_eq!(a.packets_sent, 20);
    match a.outcome {
        Some(Err(TransportError::ConnectionEstablishmentFailure { cause })) => {
            assert_eq!(cause.text(), "max connection attempts reached")
        }
        _ => panic!("not given up"),
    }
}
