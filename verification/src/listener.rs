//! Whom a listener talks to, and who gets the packets that arrive.
//!
//! A listener tells packets apart by the address they come from. `S` is what packets of one
//! remote are handed on through, and `R` is what a request for a connection is answered through.

use vstd::prelude::*;

use crate::addr::SocketAddr;
use crate::addr_map::AddrMap;

verus! {

/// How many requests for a connection can wait for the listener.
pub const CONNECTION_EVENTS_CAPACITY: usize = 100;

/// How many connections that remotes opened can wait to be taken.
pub const NEW_CONNECTIONS_CAPACITY: usize = 100;

/// How many packets can wait to be sent. One, so that senders wait for the bandwidth.
pub const OUTBOUND_PACKETS_CAPACITY: usize = 1;

/// How many packets of a remote can wait for an ongoing handshake.
pub const HANDSHAKE_CAPACITY: usize = 1;

/// Over how many milliseconds bandwidth is measured.
pub const DEFAULT_BW_TRACKER_WINDOW_SIZE: u64 = 10_000;

/// How many bytes a second may be sent.
pub const BANDWITH_LIMIT: usize = 1024 * 1024 * 10;

/// The connections and handshakes of a peer.
pub struct Listener<S, R> {
    is_gateway: bool,
    remote_connections: AddrMap<S>,
    ongoing_gw_connections: AddrMap<S>,
    ongoing_connections: AddrMap<(S, R)>,
}

/// The connections and handshakes of a peer, by the address of the remote.
pub struct ListenerModel<S, R> {
    /// Whether the peer is a gateway.
    pub is_gateway: bool,
    /// The open connections.
    pub remote_connections: Map<SocketAddr, S>,
    /// The handshakes that remotes began.
    pub ongoing_gw_connections: Map<SocketAddr, S>,
    /// The handshakes that were asked for.
    pub ongoing_connections: Map<SocketAddr, (S, R)>,
}

/// What is to be done about a packet, or about the socket that failed to give one.
pub enum Received<'a, S, E> {
    /// Hand the packet on through this.
    Deliver(&'a S),
    /// Open a handshake with the remote, whose intro packet this is.
    OpenGatewayConnection,
    /// Drop the packet.
    Unexpected,
    /// Stop listening, with this error.
    Stop(E),
}

impl<S, R> View for Listener<S, R> {
    type V = ListenerModel<S, R>;

    closed spec fn view(&self) -> ListenerModel<S, R> {
        ListenerModel {
            is_gateway: self.is_gateway,
            remote_connections: self.remote_connections@,
            ongoing_gw_connections: self.ongoing_gw_connections@,
            ongoing_connections: self.ongoing_connections@,
        }
    }
}

impl<S, R> ListenerModel<S, R> {
    /// A peer without connections.
    pub open spec fn initial(is_gateway: bool) -> ListenerModel<S, R> {
        ListenerModel {
            is_gateway,
            remote_connections: Map::empty(),
            ongoing_gw_connections: Map::empty(),
            ongoing_connections: Map::empty(),
        }
    }

    /// Through what a packet from `remote_addr` is handed on, if anyone waits for it: an open
    /// connection, or else a handshake that the remote began, or else one that was asked for.
    pub open spec fn receiver(self, remote_addr: SocketAddr) -> Option<S> {
        if self.remote_connections.contains_key(remote_addr) {
            Some(self.remote_connections[remote_addr])
        } else if self.ongoing_gw_connections.contains_key(remote_addr) {
            Some(self.ongoing_gw_connections[remote_addr])
        } else if self.ongoing_connections.contains_key(remote_addr) {
            Some(self.ongoing_connections[remote_addr].0)
        } else {
            None
        }
    }

    /// Whether a packet from `remote_addr` opens a handshake.
    pub open spec fn opens_gateway_connection(self, remote_addr: SocketAddr) -> bool {
        self.is_gateway && self.receiver(remote_addr) is None
    }

    /// A remote began a handshake.
    pub open spec fn gateway_opened(self, remote_addr: SocketAddr, packets: S) -> ListenerModel<
        S,
        R,
    > {
        ListenerModel {
            ongoing_gw_connections: self.ongoing_gw_connections.insert(remote_addr, packets),
            ..self
        }
    }

    /// A handshake that a remote began ended in a connection.
    pub open spec fn gateway_connected(self, remote_addr: SocketAddr, inbound: S) -> ListenerModel<
        S,
        R,
    > {
        ListenerModel {
            remote_connections: self.remote_connections.insert(remote_addr, inbound),
            ongoing_gw_connections: self.ongoing_gw_connections.remove(remote_addr),
            ..self
        }
    }

    /// A handshake that a remote began failed. One that was asked for is given up with it.
    pub open spec fn gateway_failed(self, remote_addr: SocketAddr) -> ListenerModel<S, R> {
        ListenerModel {
            ongoing_gw_connections: self.ongoing_gw_connections.remove(remote_addr),
            ongoing_connections: self.ongoing_connections.remove(remote_addr),
            ..self
        }
    }

    /// A connection was asked for. One that was open is dropped, and so is an ongoing handshake
    /// that was asked for before.
    pub open spec fn requested(
        self,
        remote_addr: SocketAddr,
        packets: S,
        reply: R,
    ) -> ListenerModel<S, R> {
        ListenerModel {
            remote_connections: self.remote_connections.remove(remote_addr),
            ongoing_connections: self.ongoing_connections.insert(remote_addr, (packets, reply)),
            ..self
        }
    }

    /// A handshake that was asked for ended in a connection. It is open only where the request
    /// still stands.
    pub open spec fn connected(self, remote_addr: SocketAddr, inbound: S) -> ListenerModel<S, R> {
        if self.ongoing_connections.contains_key(remote_addr) {
            ListenerModel {
                remote_connections: self.remote_connections.insert(remote_addr, inbound),
                ongoing_connections: self.ongoing_connections.remove(remote_addr),
                ..self
            }
        } else {
            self
        }
    }

    /// A handshake that was asked for failed.
    pub open spec fn failed(self, remote_addr: SocketAddr) -> ListenerModel<S, R> {
        ListenerModel {
            ongoing_connections: self.ongoing_connections.remove(remote_addr),
            ..self
        }
    }

    /// Through what a request for a connection to `remote_addr` is answered, where one stands.
    pub open spec fn reply(self, remote_addr: SocketAddr) -> Option<R> {
        if self.ongoing_connections.contains_key(remote_addr) {
            Some(self.ongoing_connections[remote_addr].1)
        } else {
            None
        }
    }
}

impl<S, R> Listener<S, R> {
    /// A peer without connections.
    pub fn new(is_gateway: bool) -> (listener: Listener<S, R>)
        ensures
            listener@ == ListenerModel::<S, R>::initial(is_gateway),
    {
        Listener {
            is_gateway,
            remote_connections: AddrMap::new(),
            ongoing_gw_connections: AddrMap::new(),
            ongoing_connections: AddrMap::new(),
        }
    }

    /// Decides about a packet, by the address it comes from, or about the error of the socket.
    pub fn received<E>(&self, remote_addr: Result<SocketAddr, E>) -> (received: Received<'_, S, E>)
        ensures
            match remote_addr {
                Ok(addr) => match self@.receiver(addr) {
                    Some(packets) => received matches Received::Deliver(to) && *to == packets,
                    None => if self@.is_gateway {
                        received is OpenGatewayConnection
                    } else {
                        received is Unexpected
                    },
                },
                Err(error) => received == Received::<S, E>::Stop(error),
            },
            remote_addr matches Ok(addr) ==> {
                if self@.remote_connections.contains_key(addr) {
                    received matches Received::Deliver(to)
                        && *to == self@.remote_connections[addr]
                } else if self@.ongoing_gw_connections.contains_key(addr) {
                    received matches Received::Deliver(to)
                        && *to == self@.ongoing_gw_connections[addr]
                } else if self@.ongoing_connections.contains_key(addr) {
                    received matches Received::Deliver(to)
                        && *to == self@.ongoing_connections[addr].0
                } else if self@.is_gateway {
                    received is OpenGatewayConnection
                } else {
                    received is Unexpected
                }
            },
    {
        let addr = match remote_addr {
            Ok(addr) => addr,
            Err(error) => {
                return Received::Stop(error);
            },
        };
        if let Some(packets) = self.remote_connections.get(&addr) {
            return Received::Deliver(packets);
        }
        if let Some(packets) = self.ongoing_gw_connections.get(&addr) {
            return Received::Deliver(packets);
        }
        if let Some((packets, _)) = self.ongoing_connections.get(&addr) {
            return Received::Deliver(packets);
        }
        if self.is_gateway {
            Received::OpenGatewayConnection
        } else {
            Received::Unexpected
        }
    }

    /// Takes up a handshake that a remote began with its first packet.
    pub fn gateway_opened(&mut self, remote_addr: SocketAddr, packets: S)
        requires
            old(self)@.opens_gateway_connection(remote_addr),
        ensures
            final(self)@ == old(self)@.gateway_opened(remote_addr, packets),
    {
        let _ = self.ongoing_gw_connections.insert(remote_addr, packets);
    }

    /// Takes up what a handshake ended in that a remote began, and returns the connection that is
    /// to be announced, or why there is none.
    pub fn gateway_handshake_ended<C, E>(
        &mut self,
        remote_addr: SocketAddr,
        outcome: Result<(C, S), E>,
    ) -> (connection: Result<C, E>)
        ensures
            match outcome {
                Ok((c, inbound)) => connection == Ok::<C, E>(c) && final(self)@ == old(
                    self,
                )@.gateway_connected(remote_addr, inbound),
                Err(error) => connection == Err::<C, E>(error) && final(self)@ == old(
                    self,
                )@.gateway_failed(remote_addr),
            },
    {
        let _ = self.ongoing_gw_connections.remove(&remote_addr);
        match outcome {
            Ok((connection, inbound)) => {
                let _ = self.remote_connections.insert(remote_addr, inbound);
                Ok(connection)
            },
            Err(error) => {
                let _ = self.ongoing_connections.remove(&remote_addr);
                Err(error)
            },
        }
    }

    /// Takes up a handshake that was asked for, and returns whether a connection was open that
    /// is dropped for it.
    pub fn requested(&mut self, remote_addr: SocketAddr, packets: S, reply: R) -> (dropped: bool)
        ensures
            dropped == old(self)@.remote_connections.contains_key(remote_addr),
            final(self)@ == old(self)@.requested(remote_addr, packets, reply),
    {
        let dropped = self.remote_connections.remove(&remote_addr).is_some();
        let _ = self.ongoing_connections.insert(remote_addr, (packets, reply));
        dropped
    }

    /// Takes up what a handshake ended in that was asked for, and returns the answer to the
    /// request and through what it is given. There is none where the request stands no more.
    pub fn handshake_ended<C, E>(
        &mut self,
        remote_addr: SocketAddr,
        outcome: Result<(C, S), E>,
    ) -> (answer: Option<(R, Result<C, E>)>)
        ensures
            final(self)@ == match outcome {
                Ok((_, inbound)) => old(self)@.connected(remote_addr, inbound),
                Err(_) => old(self)@.failed(remote_addr),
            },
            answer == match old(self)@.reply(remote_addr) {
                Some(reply) => Some(
                    (
                        reply,
                        match outcome {
                            Ok((connection, _)) => Ok::<C, E>(connection),
                            Err(error) => Err::<C, E>(error),
                        },
                    ),
                ),
                None => None,
            },
    {
        let reply = match self.ongoing_connections.remove(&remote_addr) {
            Some((_, reply)) => reply,
            None => {
                assert(self@.ongoing_connections =~= old(self)@.ongoing_connections);
                return None;
            },
        };
        match outcome {
            Ok((connection, inbound)) => {
                let _ = self.remote_connections.insert(remote_addr, inbound);
                Some((reply, Ok(connection)))
            },
            Err(error) => Some((reply, Err(error))),
        }
    }
}

/// How much can wait, and how much may be sent: the queues hold 100 requests, 100 new connections,
/// one packet to send and one packet for a handshake, and ten mebibytes a second are measured over
/// ten seconds.
pub proof fn limits_of_a_listener()
    ensures
        CONNECTION_EVENTS_CAPACITY == 100,
        NEW_CONNECTIONS_CAPACITY == 100,
        OUTBOUND_PACKETS_CAPACITY == 1,
        HANDSHAKE_CAPACITY == 1,
        DEFAULT_BW_TRACKER_WINDOW_SIZE == 10_000,
        BANDWITH_LIMIT == 10_485_760,
{
}

} // verus!
