//! Two handshakes that hear of each other end in connections that fit together.

use vstd::prelude::*;

use crate::addr::SocketAddr;
use crate::connection::{keys_agree, ConnectionModel};
use crate::crypto::KEY_SIZE;
use crate::gateway::GatewayEvent;
use crate::gateway_laws;
use crate::gateway_model::{GatewayActionModel, GatewayModel};
use crate::intro::{intro_announces_key, intro_data, intro_key};
use crate::traversal::TraversalEvent;
use crate::traversal_laws;
use crate::traversal_laws::{heard_address, hears_only};
use crate::traversal_model::{ActionModel, TraversalModel};

verus! {

/// Two peers that connect to each other, and hear of no other keys than each other's, open what
/// the other seals. Where the acknowledgements name the addresses that they go to, each knows its
/// own address, unless it heard the other's intro packet: it knows none in that case.
pub proof fn peers_agree<E>(
    a_addr: SocketAddr,
    a_key: Seq<u8>,
    a_events: Seq<TraversalEvent<E>>,
    a: ConnectionModel,
    b_addr: SocketAddr,
    b_key: Seq<u8>,
    b_events: Seq<TraversalEvent<E>>,
    b: ConnectionModel,
)
    requires
        a_key.len() == KEY_SIZE,
        b_key.len() == KEY_SIZE,
        a_events.len() > 0,
        b_events.len() > 0,
        TraversalModel::initial(b_addr, a_key).awaits_all(a_events),
        TraversalModel::initial(a_addr, b_key).awaits_all(b_events),
        forall|i: int|
            0 <= i < a_events.len() ==> hears_only(#[trigger] a_events[i], b_key, a_addr),
        forall|i: int|
            0 <= i < b_events.len() ==> hears_only(#[trigger] b_events[i], a_key, b_addr),
        TraversalModel::initial(b_addr, a_key).action_after(a_events)
            == ActionModel::<E>::Connected(a),
        TraversalModel::initial(a_addr, b_key).action_after(b_events)
            == ActionModel::<E>::Connected(b),
    ensures
        keys_agree(a, b),
        a.outbound_key == b_key && b.inbound_key == b_key,
        b.outbound_key == a_key && a.inbound_key == a_key,
        a.remote_addr == b_addr,
        b.remote_addr == a_addr,
        a.my_address == heard_address(a_events, a_addr),
        b.my_address == heard_address(b_events, b_addr),
{
    traversal_laws::uses_both_keys(b_addr, a_key, b_key, a_addr, a_events);
    traversal_laws::uses_both_keys(a_addr, b_key, a_key, b_addr, b_events);
}

/// A peer that connects to a gateway, and hears of no other key than the gateway's, opens what
/// the gateway seals, and the gateway opens what the peer seals, since the gateway takes the
/// peer's key from its intro packet. Where the acknowledgements name the address that they go to,
/// the peer knows its own address, unless it heard an intro packet: it knows none in that case.
/// The gateway knows none.
pub proof fn peer_and_gateway_agree<E>(
    peer_addr: SocketAddr,
    peer_key: Seq<u8>,
    peer_events: Seq<TraversalEvent<E>>,
    peer: ConnectionModel,
    gateway_addr: SocketAddr,
    gateway_key: Seq<u8>,
    gateway_events: Seq<GatewayEvent<E>>,
    gateway: ConnectionModel,
)
    requires
        peer_key.len() == KEY_SIZE,
        gateway_key.len() == KEY_SIZE,
        peer_events.len() > 0,
        gateway_events.len() > 0,
        TraversalModel::initial(gateway_addr, peer_key).awaits_all(peer_events),
        forall|i: int|
            0 <= i < peer_events.len() ==> hears_only(
                #[trigger] peer_events[i],
                gateway_key,
                peer_addr,
            ),
        GatewayModel::accepting(
            peer_addr,
            intro_key(intro_data(peer_key)),
            gateway_key,
        ).awaits_all(gateway_events),
        TraversalModel::initial(gateway_addr, peer_key).action_after(peer_events)
            == ActionModel::<E>::Connected(peer),
        GatewayModel::accepting(
            peer_addr,
            intro_key(intro_data(peer_key)),
            gateway_key,
        ).action_after(gateway_events) == GatewayActionModel::<E>::Connected(gateway),
    ensures
        keys_agree(peer, gateway),
        peer.outbound_key == gateway_key && gateway.inbound_key == gateway_key,
        gateway.outbound_key == peer_key && peer.inbound_key == peer_key,
        peer.remote_addr == gateway_addr,
        gateway.remote_addr == peer_addr,
        peer.my_address == heard_address(peer_events, peer_addr),
        gateway.my_address is None,
{
    intro_announces_key(peer_key);
    traversal_laws::uses_both_keys(gateway_addr, peer_key, gateway_key, peer_addr, peer_events);
    gateway_laws::uses_both_keys(peer_addr, peer_key, gateway_key, gateway_events);
}

} // verus!
