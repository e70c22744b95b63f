//! What handshakes exchange and what they end in.

use vstd::prelude::*;

use crate::addr::SocketAddr;
use crate::crypto::SymmetricKey;

verus! {

/// How many packets of an established connection can wait to be read.
pub const INBOUND_CAPACITY: usize = 100;

/// How many packets of a connection that the remote was first to reach can wait to be read.
pub const REMOTE_INBOUND_CAPACITY: usize = 1;

/// What a remote acknowledges a connection with.
pub struct OutboundConnection {
    /// The key under which the remote opens what it receives.
    pub key: Vec<u8>,
    /// The address at which the remote sees this peer.
    pub remote_addr: SocketAddr,
}

/// What a symmetric message holds, as far as a handshake tells messages apart.
pub enum SymmetricMessagePayload {
    /// The remote acknowledges the connection, or says why it does not.
    AckConnection { result: Result<OutboundConnection, String> },
    /// Any other message.
    Other,
}

/// An acknowledgement to send: a message that names `key` and `remote_addr`, sealed under
/// `sealed_under`.
#[derive(Clone, Copy)]
pub struct Ack {
    /// The remote's key, under which it opens what it receives.
    pub sealed_under: SymmetricKey,
    /// The key under which this peer opens what it receives.
    pub key: SymmetricKey,
    /// The address at which this peer sees the remote.
    pub remote_addr: SocketAddr,
}

/// An [`Ack`], with its keys as bytes.
pub struct AckModel {
    pub sealed_under: Seq<u8>,
    pub key: Seq<u8>,
    pub remote_addr: SocketAddr,
}

impl View for Ack {
    type V = AckModel;

    open spec fn view(&self) -> AckModel {
        AckModel {
            sealed_under: self.sealed_under@,
            key: self.key@,
            remote_addr: self.remote_addr,
        }
    }
}

/// What came of a packet that was to be built and sent.
pub enum SendOutcome<E> {
    /// It was handed to the socket's queue.
    Sent,
    /// The socket's queue is gone.
    ChannelClosed,
    /// It could not be built.
    NotBuilt(E),
}

/// Which tracker of sent packets a new connection goes on with.
#[derive(Clone, Copy, Debug, PartialEq, Eq, Structural)]
pub enum SentTracker {
    /// The one that the handshake reported its packets to.
    OfHandshake,
    /// One without packets.
    Fresh,
}

/// A connection to a remote, as a handshake leaves it.
#[derive(Clone, Copy)]
pub struct RemoteConnection {
    /// The address of the remote.
    pub remote_addr: SocketAddr,
    /// The key under which packets to the remote are sealed.
    pub outbound_symmetric_key: SymmetricKey,
    /// The key under which packets from the remote are opened.
    pub inbound_symmetric_key: SymmetricKey,
    /// The address at which the remote sees this peer, where the remote has said so.
    pub my_address: Option<SocketAddr>,
    /// The id of the last packet sent.
    pub last_packet_id: u32,
    /// How many packets of the remote can wait to be read.
    pub inbound_capacity: usize,
    /// The tracker of sent packets.
    pub sent_tracker: SentTracker,
}

/// A [`RemoteConnection`], with its keys as bytes.
pub struct ConnectionModel {
    pub remote_addr: SocketAddr,
    pub outbound_key: Seq<u8>,
    pub inbound_key: Seq<u8>,
    pub my_address: Option<SocketAddr>,
    pub last_packet_id: nat,
    pub inbound_capacity: nat,
    pub sent_tracker: SentTracker,
}

impl View for RemoteConnection {
    type V = ConnectionModel;

    open spec fn view(&self) -> ConnectionModel {
        ConnectionModel {
            remote_addr: self.remote_addr,
            outbound_key: self.outbound_symmetric_key@,
            inbound_key: self.inbound_symmetric_key@,
            my_address: self.my_address,
            last_packet_id: self.last_packet_id as nat,
            inbound_capacity: self.inbound_capacity as nat,
            sent_tracker: self.sent_tracker,
        }
    }
}

/// Whether each of two connections opens what the other seals.
pub open spec fn keys_agree(a: ConnectionModel, b: ConnectionModel) -> bool {
    a.outbound_key == b.inbound_key && a.inbound_key == b.outbound_key
}

/// Whether a packet is an intro packet that came before: whether it holds the same bytes.
pub fn is_intro_packet(packet: &[u8], intro_packet: &[u8]) -> (same: bool)
    ensures
        same == (packet@ == intro_packet@),
{
    if packet.len() != intro_packet.len() {
        return false;
    }
    let mut i: usize = 0;
    while i < packet.len()
        invariant
            i <= packet@.len(),
            packet@.len() == intro_packet@.len(),
            forall|j: int| 0 <= j < i ==> packet@[j] == intro_packet@[j],
        decreases packet@.len() - i,
    {
        if packet[i] != intro_packet[i] {
            return false;
        }
        i += 1;
    }
    assert(packet@ =~= intro_packet@);
    true
}

/// The bytes of an acknowledgement's keys and its address are what it was made of.
pub proof fn acks_show_their_parts(ack: Ack)
    ensures
        ack@.sealed_under == ack.sealed_under@,
        ack@.key == ack.key@,
        ack@.remote_addr == ack.remote_addr,
{
}

/// The bytes of a connection's keys and the rest of it are what it was made of.
pub proof fn connections_show_their_parts(connection: RemoteConnection)
    ensures
        connection@.remote_addr == connection.remote_addr,
        connection@.outbound_key == connection.outbound_symmetric_key@,
        connection@.inbound_key == connection.inbound_symmetric_key@,
        connection@.my_address == connection.my_address,
        connection@.last_packet_id == connection.last_packet_id,
        connection@.inbound_capacity == connection.inbound_capacity,
        connection@.sent_tracker == connection.sent_tracker,
{
}

/// Two connections fit exactly where each opens under the key that the other seals under.
pub proof fn agreement_is_of_both_keys(a: ConnectionModel, b: ConnectionModel)
    ensures
        keys_agree(a, b) <==> a.outbound_key == b.inbound_key && b.outbound_key == a.inbound_key,
{
}

} // verus!
