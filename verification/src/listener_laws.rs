//! What holds of a listener over several events.

use vstd::prelude::*;

use crate::addr::SocketAddr;
use crate::listener::{Listener, ListenerModel, Received};

verus! {

/// What changes the connections and handshakes of a listener.
pub enum ListenerEvent<S, R> {
    GatewayOpened { remote_addr: SocketAddr, packets: S },
    GatewayConnected { remote_addr: SocketAddr, inbound: S },
    GatewayFailed { remote_addr: SocketAddr },
    Requested { remote_addr: SocketAddr, packets: S, reply: R },
    Connected { remote_addr: SocketAddr, inbound: S },
    Failed { remote_addr: SocketAddr },
}

impl<S, R> ListenerEvent<S, R> {
    /// The remote that an event is about.
    pub open spec fn remote_addr(self) -> SocketAddr {
        match self {
            ListenerEvent::GatewayOpened { remote_addr, .. } => remote_addr,
            ListenerEvent::GatewayConnected { remote_addr, .. } => remote_addr,
            ListenerEvent::GatewayFailed { remote_addr } => remote_addr,
            ListenerEvent::Requested { remote_addr, .. } => remote_addr,
            ListenerEvent::Connected { remote_addr, .. } => remote_addr,
            ListenerEvent::Failed { remote_addr } => remote_addr,
        }
    }
}

impl<S, R> ListenerModel<S, R> {
    /// Whether an event can come: a gateway opens a handshake only for a packet that calls for
    /// one, and only a handshake that a gateway opened ends as one.
    pub open spec fn awaits(self, event: ListenerEvent<S, R>) -> bool {
        match event {
            ListenerEvent::GatewayOpened { remote_addr, .. } => self.opens_gateway_connection(
                remote_addr,
            ),
            ListenerEvent::GatewayConnected { remote_addr, .. } => {
                self.ongoing_gw_connections.contains_key(remote_addr)
            },
            ListenerEvent::GatewayFailed { remote_addr } => {
                self.ongoing_gw_connections.contains_key(remote_addr)
            },
            _ => true,
        }
    }

    /// The listener after an event.
    pub open spec fn after(self, event: ListenerEvent<S, R>) -> ListenerModel<S, R> {
        match event {
            ListenerEvent::GatewayOpened { remote_addr, packets } => self.gateway_opened(
                remote_addr,
                packets,
            ),
            ListenerEvent::GatewayConnected { remote_addr, inbound } => self.gateway_connected(
                remote_addr,
                inbound,
            ),
            ListenerEvent::GatewayFailed { remote_addr } => self.gateway_failed(remote_addr),
            ListenerEvent::Requested { remote_addr, packets, reply } => self.requested(
                remote_addr,
                packets,
                reply,
            ),
            ListenerEvent::Connected { remote_addr, inbound } => self.connected(
                remote_addr,
                inbound,
            ),
            ListenerEvent::Failed { remote_addr } => self.failed(remote_addr),
        }
    }

    /// The listener after a sequence of events.
    pub open spec fn after_all(self, events: Seq<ListenerEvent<S, R>>) -> ListenerModel<S, R>
        decreases events.len(),
    {
        if events.len() == 0 {
            self
        } else {
            self.after_all(events.drop_last()).after(events.last())
        }
    }

    /// Whether each event of a sequence can come when it comes.
    pub open spec fn awaits_all(self, events: Seq<ListenerEvent<S, R>>) -> bool
        decreases events.len(),
    {
        if events.len() == 0 {
            true
        } else {
            &&& self.awaits_all(events.drop_last())
            &&& self.after_all(events.drop_last()).awaits(events.last())
        }
    }

    /// The remotes whose connections the listener announces, in order: those that the remotes
    /// opened. A connection that was asked for goes to whoever asked, and is not announced.
    pub open spec fn announced(events: Seq<ListenerEvent<S, R>>) -> Seq<SocketAddr>
        decreases events.len(),
    {
        if events.len() == 0 {
            Seq::empty()
        } else {
            let before = Self::announced(events.drop_last());
            match events.last() {
                ListenerEvent::GatewayConnected { remote_addr, .. } => before.push(remote_addr),
                _ => before,
            }
        }
    }

    /// Whether two listeners hold the same for a remote.
    pub open spec fn same_for(self, other: ListenerModel<S, R>, remote_addr: SocketAddr) -> bool {
        &&& same_entry(self.remote_connections, other.remote_connections, remote_addr)
        &&& same_entry(self.ongoing_gw_connections, other.ongoing_gw_connections, remote_addr)
        &&& same_entry(self.ongoing_connections, other.ongoing_connections, remote_addr)
    }
}

/// Whether two maps hold the same value for a remote, or both hold none.
pub open spec fn same_entry<V>(
    a: Map<SocketAddr, V>,
    b: Map<SocketAddr, V>,
    remote_addr: SocketAddr,
) -> bool {
    &&& a.contains_key(remote_addr) <==> b.contains_key(remote_addr)
    &&& a.contains_key(remote_addr) ==> a[remote_addr] == b[remote_addr]
}

/// What happens with one remote changes nothing for another.
pub proof fn remotes_are_independent<S, R>(
    listener: ListenerModel<S, R>,
    event: ListenerEvent<S, R>,
    other: SocketAddr,
)
    requires
        event.remote_addr() != other,
    ensures
        listener.after(event).same_for(listener, other),
        listener.after(event).receiver(other) == listener.receiver(other),
        listener.after(event).reply(other) == listener.reply(other),
{
}

/// What happens with other remotes changes nothing for a remote, however much it is.
proof fn lemma_undisturbed<S, R>(
    listener: ListenerModel<S, R>,
    events: Seq<ListenerEvent<S, R>>,
    remote_addr: SocketAddr,
)
    requires
        forall|i: int| 0 <= i < events.len() ==> (#[trigger] events[i]).remote_addr()
            != remote_addr,
    ensures
        listener.after_all(events).same_for(listener, remote_addr),
    decreases events.len(),
{
    if events.len() > 0 {
        assert forall|i: int| 0 <= i < events.drop_last().len() implies (
        #[trigger] events.drop_last()[i]).remote_addr() != remote_addr by {
            assert(events[i].remote_addr() != remote_addr);
        }
        lemma_undisturbed(listener, events.drop_last(), remote_addr);
        assert(events[events.len() - 1].remote_addr() != remote_addr);
        remotes_are_independent(
            listener.after_all(events.drop_last()),
            events.last(),
            remote_addr,
        );
    }
}

/// A peer that is no gateway never takes up a handshake that a remote began, so none ever ends, in
/// a connection or otherwise, and no connection is announced.
pub proof fn only_gateways_accept<S, R>(events: Seq<ListenerEvent<S, R>>)
    requires
        ListenerModel::<S, R>::initial(false).awaits_all(events),
    ensures
        !ListenerModel::<S, R>::initial(false).after_all(events).is_gateway,
        ListenerModel::<S, R>::initial(false).after_all(events).ongoing_gw_connections
            == Map::<SocketAddr, S>::empty(),
        forall|i: int|
            0 <= i < events.len() ==> {
                &&& !((#[trigger] events[i]) is GatewayOpened)
                &&& !(events[i] is GatewayConnected)
                &&& !(events[i] is GatewayFailed)
            },
        ListenerModel::<S, R>::announced(events) == Seq::<SocketAddr>::empty(),
    decreases events.len(),
{
    if events.len() > 0 {
        only_gateways_accept(events.drop_last());
        assert forall|i: int| 0 <= i < events.len() implies {
            &&& !((#[trigger] events[i]) is GatewayOpened)
            &&& !(events[i] is GatewayConnected)
            &&& !(events[i] is GatewayFailed)
        } by {
            if i < events.len() - 1 {
                assert(events.drop_last()[i] == events[i]);
            }
        }
        assert(ListenerModel::<S, R>::initial(false).after_all(
            events,
        ).ongoing_gw_connections =~= Map::<SocketAddr, S>::empty());
    }
}

/// Whether an event ends a request for a connection to a remote: the handshake for it ends, or one
/// that the remote began fails, or another request takes its place.
pub open spec fn ends_request<S, R>(event: ListenerEvent<S, R>, remote_addr: SocketAddr) -> bool {
    &&& event.remote_addr() == remote_addr
    &&& event is GatewayFailed || event is Requested || event is Connected || event is Failed
}

/// A request for a connection stands until something ends it.
proof fn lemma_request_stands<S, R>(
    listener: ListenerModel<S, R>,
    events: Seq<ListenerEvent<S, R>>,
    remote_addr: SocketAddr,
)
    requires
        forall|i: int| 0 <= i < events.len() ==> !ends_request(#[trigger] events[i], remote_addr),
    ensures
        same_entry(
            listener.after_all(events).ongoing_connections,
            listener.ongoing_connections,
            remote_addr,
        ),
    decreases events.len(),
{
    if events.len() > 0 {
        assert forall|i: int| 0 <= i < events.drop_last().len() implies !ends_request(
            #[trigger] events.drop_last()[i],
            remote_addr,
        ) by {
            assert(!ends_request(events[i], remote_addr));
        }
        lemma_request_stands(listener, events.drop_last(), remote_addr);
        assert(!ends_request(events[events.len() - 1], remote_addr));
    }
}

/// A request for a connection is answered through what it came with, once the handshake for it
/// ends, whatever happens in between that does not end the request. Where it ends in a connection,
/// packets of the remote go there from then on. A request is answered once.
pub proof fn requests_are_answered<S, R>(
    listener: ListenerModel<S, R>,
    remote_addr: SocketAddr,
    packets: S,
    reply: R,
    events: Seq<ListenerEvent<S, R>>,
    inbound: S,
)
    requires
        forall|i: int| 0 <= i < events.len() ==> !ends_request(#[trigger] events[i], remote_addr),
    ensures
        ({
            let waiting = listener.requested(remote_addr, packets, reply).after_all(events);
            &&& waiting.reply(remote_addr) == Some(reply)
            &&& waiting.connected(remote_addr, inbound).receiver(remote_addr) == Some(inbound)
            &&& waiting.connected(remote_addr, inbound).reply(remote_addr) is None
            &&& waiting.failed(remote_addr).reply(remote_addr) is None
        }),
{
    lemma_request_stands(listener.requested(remote_addr, packets, reply), events, remote_addr);
}

/// While a connection that was asked for is not there, packets of the remote go to the handshake
/// for it, unless the remote began one too: they go to that one in that case. They never go to the
/// connection that was open before. Once the handshake failed, no one waits for them but the
/// handshake that the remote began.
pub proof fn requests_drop_open_connections<S, R>(
    listener: ListenerModel<S, R>,
    remote_addr: SocketAddr,
    packets: S,
    reply: R,
    events: Seq<ListenerEvent<S, R>>,
)
    requires
        forall|i: int| 0 <= i < events.len() ==> (#[trigger] events[i]).remote_addr()
            != remote_addr,
    ensures
        ({
            let waiting = listener.requested(remote_addr, packets, reply).after_all(events);
            &&& !waiting.remote_connections.contains_key(remote_addr)
            &&& if listener.ongoing_gw_connections.contains_key(remote_addr) {
                let begun = listener.ongoing_gw_connections[remote_addr];
                &&& waiting.receiver(remote_addr) == Some(begun)
                &&& waiting.failed(remote_addr).receiver(remote_addr) == Some(begun)
            } else {
                &&& waiting.receiver(remote_addr) == Some(packets)
                &&& waiting.failed(remote_addr).receiver(remote_addr) is None
            }
        }),
{
    lemma_undisturbed(listener.requested(remote_addr, packets, reply), events, remote_addr);
}

/// The first packet of a remote opens a handshake at a gateway, the packets after it go to that
/// handshake, and the packets after that to the connection it ends in. After a failure, the next
/// packet opens a handshake again, and no request for a connection to the remote stands.
pub proof fn gateway_handshakes_run_their_course<S, R>(
    listener: ListenerModel<S, R>,
    remote_addr: SocketAddr,
    packets: S,
    events: Seq<ListenerEvent<S, R>>,
    inbound: S,
)
    requires
        listener.opens_gateway_connection(remote_addr),
        forall|i: int| 0 <= i < events.len() ==> (#[trigger] events[i]).remote_addr()
            != remote_addr,
    ensures
        ({
            let waiting = listener.gateway_opened(remote_addr, packets).after_all(events);
            &&& waiting.receiver(remote_addr) == Some(packets)
            &&& waiting.gateway_connected(remote_addr, inbound).receiver(remote_addr) == Some(
                inbound,
            )
            &&& waiting.gateway_failed(remote_addr).opens_gateway_connection(remote_addr)
            &&& waiting.gateway_failed(remote_addr).reply(remote_addr) is None
        }),
{
    let opened = listener.gateway_opened(remote_addr, packets);
    lemma_undisturbed(opened, events, remote_addr);
    lemma_stays_gateway(opened, events);
}

/// A gateway stays a gateway, and another peer does not become one.
proof fn lemma_stays_gateway<S, R>(
    listener: ListenerModel<S, R>,
    events: Seq<ListenerEvent<S, R>>,
)
    ensures
        listener.after_all(events).is_gateway == listener.is_gateway,
    decreases events.len(),
{
    if events.len() > 0 {
        lemma_stays_gateway(listener, events.drop_last());
    }
}

/// A packet goes to the open connection with its remote, or else to the handshake that the remote
/// began, or else to the one that was asked for. One of an unknown remote opens a handshake exactly
/// at a gateway.
pub proof fn packets_go_by_precedence<S, R>(listener: ListenerModel<S, R>, remote_addr: SocketAddr)
    ensures
        listener.remote_connections.contains_key(remote_addr) ==> listener.receiver(remote_addr)
            == Some(listener.remote_connections[remote_addr]),
        !listener.remote_connections.contains_key(remote_addr)
            && listener.ongoing_gw_connections.contains_key(remote_addr) ==> listener.receiver(
            remote_addr,
        ) == Some(listener.ongoing_gw_connections[remote_addr]),
        !listener.remote_connections.contains_key(remote_addr)
            && !listener.ongoing_gw_connections.contains_key(remote_addr)
            && listener.ongoing_connections.contains_key(remote_addr) ==> listener.receiver(
            remote_addr,
        ) == Some(listener.ongoing_connections[remote_addr].0),
        listener.receiver(remote_addr) is None <==> {
            &&& !listener.remote_connections.contains_key(remote_addr)
            &&& !listener.ongoing_gw_connections.contains_key(remote_addr)
            &&& !listener.ongoing_connections.contains_key(remote_addr)
        },
        listener.opens_gateway_connection(remote_addr) <==> {
            &&& listener.is_gateway
            &&& !listener.remote_connections.contains_key(remote_addr)
            &&& !listener.ongoing_gw_connections.contains_key(remote_addr)
            &&& !listener.ongoing_connections.contains_key(remote_addr)
        },
{
}

/// A request is answered through what it came with, and where none stands there is nothing to
/// answer through.
pub proof fn replies_are_those_of_requests<S, R>(
    listener: ListenerModel<S, R>,
    remote_addr: SocketAddr,
)
    ensures
        listener.reply(remote_addr) is Some <==> listener.ongoing_connections.contains_key(
            remote_addr,
        ),
        listener.reply(remote_addr) matches Some(reply) ==> reply
            == listener.ongoing_connections[remote_addr].1,
{
}

/// A listener starts without connections and without handshakes.
pub proof fn listeners_start_empty<S, R>(is_gateway: bool, remote_addr: SocketAddr)
    ensures
        ({
            let listener = ListenerModel::<S, R>::initial(is_gateway);
            &&& listener.is_gateway == is_gateway
            &&& !listener.remote_connections.contains_key(remote_addr)
            &&& !listener.ongoing_gw_connections.contains_key(remote_addr)
            &&& !listener.ongoing_connections.contains_key(remote_addr)
        }),
{
}

/// A handshake that a remote begins is added, and nothing else changes.
pub proof fn opening_adds_a_handshake<S, R>(
    listener: ListenerModel<S, R>,
    remote_addr: SocketAddr,
    packets: S,
)
    ensures
        ({
            let next = listener.gateway_opened(remote_addr, packets);
            &&& next.is_gateway == listener.is_gateway
            &&& next.remote_connections == listener.remote_connections
            &&& next.ongoing_gw_connections == listener.ongoing_gw_connections.insert(
                remote_addr,
                packets,
            )
            &&& next.ongoing_connections == listener.ongoing_connections
        }),
{
}

/// Where a handshake that a remote began ends in a connection, the connection is open in its place,
/// and a request for the remote still stands.
pub proof fn begun_handshakes_become_connections<S, R>(
    listener: ListenerModel<S, R>,
    remote_addr: SocketAddr,
    inbound: S,
)
    ensures
        ({
            let next = listener.gateway_connected(remote_addr, inbound);
            &&& next.is_gateway == listener.is_gateway
            &&& next.remote_connections == listener.remote_connections.insert(remote_addr, inbound)
            &&& next.ongoing_gw_connections == listener.ongoing_gw_connections.remove(remote_addr)
            &&& next.ongoing_connections == listener.ongoing_connections
            &&& next.receiver(remote_addr) == Some(inbound)
            &&& next.reply(remote_addr) == listener.reply(remote_addr)
        }),
{
}

/// Where a handshake that a remote began fails, it is given up, and with it the request for the
/// remote. Open connections stay.
pub proof fn begun_handshakes_fail_alone<S, R>(
    listener: ListenerModel<S, R>,
    remote_addr: SocketAddr,
)
    ensures
        ({
            let next = listener.gateway_failed(remote_addr);
            &&& next.is_gateway == listener.is_gateway
            &&& next.remote_connections == listener.remote_connections
            &&& next.ongoing_gw_connections == listener.ongoing_gw_connections.remove(remote_addr)
            &&& next.ongoing_connections == listener.ongoing_connections.remove(remote_addr)
        }),
{
}

/// A request takes the place of the open connection with the remote and of an earlier request. A
/// handshake that the remote began goes on.
pub proof fn requests_take_the_place<S, R>(
    listener: ListenerModel<S, R>,
    remote_addr: SocketAddr,
    packets: S,
    reply: R,
)
    ensures
        ({
            let next = listener.requested(remote_addr, packets, reply);
            &&& next.is_gateway == listener.is_gateway
            &&& next.remote_connections == listener.remote_connections.remove(remote_addr)
            &&& next.ongoing_gw_connections == listener.ongoing_gw_connections
            &&& next.ongoing_connections == listener.ongoing_connections.insert(
                remote_addr,
                (packets, reply),
            )
            &&& next.reply(remote_addr) == Some(reply)
        }),
{
}

/// Where a handshake that was asked for ends in a connection, the connection is open and the request
/// is done. Where the request stands no more, nothing changes.
pub proof fn asked_for_connections_open<S, R>(
    listener: ListenerModel<S, R>,
    remote_addr: SocketAddr,
    inbound: S,
)
    ensures
        ({
            let next = listener.connected(remote_addr, inbound);
            if listener.ongoing_connections.contains_key(remote_addr) {
                &&& next.is_gateway == listener.is_gateway
                &&& next.remote_connections == listener.remote_connections.insert(
                    remote_addr,
                    inbound,
                )
                &&& next.ongoing_gw_connections == listener.ongoing_gw_connections
                &&& next.ongoing_connections == listener.ongoing_connections.remove(remote_addr)
                &&& next.receiver(remote_addr) == Some(inbound)
            } else {
                next == listener
            }
        }),
{
}

/// Where a handshake that was asked for fails, only the request is given up. A connection that the
/// remote opened meanwhile stays, and goes on to get the packets of the remote, and so does a
/// handshake that the remote began.
pub proof fn failed_requests_keep_connections<S, R>(
    listener: ListenerModel<S, R>,
    remote_addr: SocketAddr,
)
    ensures
        ({
            let next = listener.failed(remote_addr);
            &&& next.is_gateway == listener.is_gateway
            &&& next.remote_connections == listener.remote_connections
            &&& next.ongoing_gw_connections == listener.ongoing_gw_connections
            &&& next.ongoing_connections == listener.ongoing_connections.remove(remote_addr)
            &&& listener.remote_connections.contains_key(remote_addr)
                || listener.ongoing_gw_connections.contains_key(remote_addr) ==> next.receiver(
                remote_addr,
            ) == listener.receiver(remote_addr)
        }),
{
}

/// An open connection gets the packets of its remote until a request for that remote or another
/// connection with it takes its place, whatever else happens, failures among it.
pub proof fn open_connections_stay<S, R>(
    listener: ListenerModel<S, R>,
    events: Seq<ListenerEvent<S, R>>,
    remote_addr: SocketAddr,
)
    requires
        listener.remote_connections.contains_key(remote_addr),
        forall|i: int|
            0 <= i < events.len() && (#[trigger] events[i]).remote_addr() == remote_addr ==> {
                &&& !(events[i] is Requested)
                &&& !(events[i] is GatewayConnected)
                &&& !(events[i] is Connected)
            },
    ensures
        same_entry(
            listener.after_all(events).remote_connections,
            listener.remote_connections,
            remote_addr,
        ),
        listener.after_all(events).receiver(remote_addr) == Some(
            listener.remote_connections[remote_addr],
        ),
    decreases events.len(),
{
    if events.len() > 0 {
        assert forall|i: int|
            0 <= i < events.drop_last().len() && (#[trigger] events.drop_last()[i]).remote_addr()
                == remote_addr implies {
            &&& !(events.drop_last()[i] is Requested)
            &&& !(events.drop_last()[i] is GatewayConnected)
            &&& !(events.drop_last()[i] is Connected)
        } by {
            assert(events[i] == events.drop_last()[i]);
        }
        open_connections_stay(listener, events.drop_last(), remote_addr);
        assert(events[events.len() - 1] == events.last());
    }
}

/// A handshake that a remote began gets the packets of the remote until it ends, unless a connection
/// with the remote opens meanwhile. A request for the remote does not disturb it.
pub proof fn begun_handshakes_stay<S, R>(
    listener: ListenerModel<S, R>,
    events: Seq<ListenerEvent<S, R>>,
    remote_addr: SocketAddr,
)
    requires
        listener.ongoing_gw_connections.contains_key(remote_addr),
        forall|i: int|
            0 <= i < events.len() && (#[trigger] events[i]).remote_addr() == remote_addr ==> {
                &&& !(events[i] is GatewayOpened)
                &&& !(events[i] is GatewayConnected)
                &&& !(events[i] is GatewayFailed)
            },
    ensures
        same_entry(
            listener.after_all(events).ongoing_gw_connections,
            listener.ongoing_gw_connections,
            remote_addr,
        ),
        !listener.after_all(events).remote_connections.contains_key(remote_addr)
            ==> listener.after_all(events).receiver(remote_addr) == Some(
            listener.ongoing_gw_connections[remote_addr],
        ),
    decreases events.len(),
{
    if events.len() > 0 {
        assert forall|i: int|
            0 <= i < events.drop_last().len() && (#[trigger] events.drop_last()[i]).remote_addr()
                == remote_addr implies {
            &&& !(events.drop_last()[i] is GatewayOpened)
            &&& !(events.drop_last()[i] is GatewayConnected)
            &&& !(events.drop_last()[i] is GatewayFailed)
        } by {
            assert(events[i] == events.drop_last()[i]);
        }
        begun_handshakes_stay(listener, events.drop_last(), remote_addr);
        assert(events[events.len() - 1] == events.last());
    }
}

/// What a listener does with a packet is decided by whom it knows at the address that the packet
/// comes from, and a socket that fails stops it.
pub proof fn packets_are_told_apart_by_address<S, R, E>(
    listener: Listener<S, R>,
    remote_addr: Result<SocketAddr, E>,
    received: Received<'_, S, E>,
)
    requires
        call_ensures(Listener::<S, R>::received::<E>, (&listener, remote_addr), received),
    ensures
        remote_addr matches Err(error) ==> received == Received::<S, E>::Stop(error),
        remote_addr matches Ok(addr) ==> {
            if listener@.remote_connections.contains_key(addr) {
                received matches Received::Deliver(to) && *to == listener@.remote_connections[addr]
            } else if listener@.ongoing_gw_connections.contains_key(addr) {
                received matches Received::Deliver(to) && *to
                    == listener@.ongoing_gw_connections[addr]
            } else if listener@.ongoing_connections.contains_key(addr) {
                received matches Received::Deliver(to) && *to
                    == listener@.ongoing_connections[addr].0
            } else if listener@.is_gateway {
                received is OpenGatewayConnection
            } else {
                received is Unexpected
            }
        },
{
}

/// Whoever asked for a connection is told what came of it, and only where the request still stands.
/// A connection that came of it is open from then on. A failure leaves all open connections.
pub proof fn requests_end_in_an_answer<S, R, C, E>(
    listener: &mut Listener<S, R>,
    remote_addr: SocketAddr,
    outcome: Result<(C, S), E>,
    answer: Option<(R, Result<C, E>)>,
)
    requires
        call_ensures(
            Listener::<S, R>::handshake_ended::<C, E>,
            (listener, remote_addr, outcome),
            answer,
        ),
    ensures
        ({
            let (before, after) = (old(listener)@, final(listener)@);
            &&& after.is_gateway == before.is_gateway
            &&& after.ongoing_gw_connections == before.ongoing_gw_connections
            &&& after.ongoing_connections == before.ongoing_connections.remove(remote_addr)
            &&& answer is Some <==> before.ongoing_connections.contains_key(remote_addr)
            &&& answer matches Some((reply, _)) ==> reply
                == before.ongoing_connections[remote_addr].1
            &&& match outcome {
                Ok((connection, inbound)) => {
                    &&& answer matches Some((_, result)) ==> result == Ok::<C, E>(connection)
                    &&& after.remote_connections == if answer is Some {
                        before.remote_connections.insert(remote_addr, inbound)
                    } else {
                        before.remote_connections
                    }
                },
                Err(error) => {
                    &&& answer matches Some((_, result)) ==> result == Err::<C, E>(error)
                    &&& after.remote_connections == before.remote_connections
                },
            }
        }),
{
    asked_for_connections_open(
        old(listener)@,
        remote_addr,
        match outcome {
            Ok((_, inbound)) => inbound,
            Err(_) => arbitrary(),
        },
    );
    failed_requests_keep_connections(old(listener)@, remote_addr);
    replies_are_those_of_requests(old(listener)@, remote_addr);
    assert(!old(listener)@.ongoing_connections.contains_key(remote_addr) ==> old(
        listener,
    )@.ongoing_connections =~= old(listener)@.ongoing_connections.remove(remote_addr));
}

/// A connection that a remote opened is announced, and open from then on. A failure leaves all open
/// connections, and gives up the request for the remote.
pub proof fn begun_handshakes_end_in_a_connection<S, R, C, E>(
    listener: &mut Listener<S, R>,
    remote_addr: SocketAddr,
    outcome: Result<(C, S), E>,
    announced: Result<C, E>,
)
    requires
        call_ensures(
            Listener::<S, R>::gateway_handshake_ended::<C, E>,
            (listener, remote_addr, outcome),
            announced,
        ),
    ensures
        ({
            let (before, after) = (old(listener)@, final(listener)@);
            &&& after.is_gateway == before.is_gateway
            &&& after.ongoing_gw_connections == before.ongoing_gw_connections.remove(remote_addr)
            &&& match outcome {
                Ok((connection, inbound)) => {
                    &&& announced == Ok::<C, E>(connection)
                    &&& after.remote_connections == before.remote_connections.insert(
                        remote_addr,
                        inbound,
                    )
                    &&& after.ongoing_connections == before.ongoing_connections
                },
                Err(error) => {
                    &&& announced == Err::<C, E>(error)
                    &&& after.remote_connections == before.remote_connections
                    &&& after.ongoing_connections == before.ongoing_connections.remove(remote_addr)
                },
            }
        }),
{
}

/// A request drops the connection that is open with the remote, says whether there was one, and
/// stands from then on. A handshake that the remote began goes on.
pub proof fn requests_are_taken_up<S, R>(
    listener: &mut Listener<S, R>,
    remote_addr: SocketAddr,
    packets: S,
    reply: R,
    dropped: bool,
)
    requires
        call_ensures(
            Listener::<S, R>::requested,
            (listener, remote_addr, packets, reply),
            dropped,
        ),
    ensures
        ({
            let (before, after) = (old(listener)@, final(listener)@);
            &&& dropped <==> before.remote_connections.contains_key(remote_addr)
            &&& after.is_gateway == before.is_gateway
            &&& after.remote_connections == before.remote_connections.remove(remote_addr)
            &&& after.ongoing_gw_connections == before.ongoing_gw_connections
            &&& after.ongoing_connections == before.ongoing_connections.insert(
                remote_addr,
                (packets, reply),
            )
        }),
{
}

/// A handshake that a remote begins is added to those that go on, and nothing else changes.
pub proof fn begun_handshakes_are_taken_up<S, R>(
    listener: &mut Listener<S, R>,
    remote_addr: SocketAddr,
    packets: S,
)
    requires
        call_ensures(Listener::<S, R>::gateway_opened, (listener, remote_addr, packets), ()),
    ensures
        ({
            let (before, after) = (old(listener)@, final(listener)@);
            &&& after.is_gateway == before.is_gateway
            &&& after.remote_connections == before.remote_connections
            &&& after.ongoing_gw_connections == before.ongoing_gw_connections.insert(
                remote_addr,
                packets,
            )
            &&& after.ongoing_connections == before.ongoing_connections
        }),
{
}

} // verus!
