//! What holds of every handshake between two peers.

use vstd::prelude::*;

use crate::addr::SocketAddr;
use crate::backoff::{
    interval_after, lemma_interval_at_most, lemma_longest_timeout, lemma_timeout_monotonic,
    timeout_after,
};
use crate::connection::{
    AckModel, ConnectionModel, OutboundConnection, SendOutcome, SentTracker,
    SymmetricMessagePayload, INBOUND_CAPACITY, REMOTE_INBOUND_CAPACITY,
};
use crate::crypto::{
    aes128_gcm_opened, opened_packet, packets_open_as_the_cipher_does, SymmetricKey, KEY_SIZE,
};
use crate::error::{FailureCause, TransportError};
use crate::intro::{
    intro_data, intro_key, intros_are_read_by_position, intros_hold_version_and_key,
    is_current_intro,
};
use crate::traversal::{NatTraversal, TraversalAction, TraversalEvent};
use crate::traversal_model::{
    ActionModel, PhaseModel, StateModel, TraversalModel, NAT_TRAVERSAL_MAX_ATTEMPTS,
};

verus! {

impl TraversalModel {
    /// The handshake after a sequence of events.
    pub open spec fn after_all<E>(self, events: Seq<TraversalEvent<E>>) -> TraversalModel
        decreases events.len(),
    {
        if events.len() == 0 {
            self
        } else {
            self.after_all(events.drop_last()).after(events.last()).0
        }
    }

    /// Whether each event of a sequence is one that the handshake waits for when it comes.
    pub open spec fn awaits_all<E>(self, events: Seq<TraversalEvent<E>>) -> bool
        decreases events.len(),
    {
        if events.len() == 0 {
            true
        } else {
            &&& self.awaits_all(events.drop_last())
            &&& self.after_all(events.drop_last()).awaits(events.last())
        }
    }

    /// What the handshake asks for after a sequence of at least one event.
    pub open spec fn action_after<E>(self, events: Seq<TraversalEvent<E>>) -> ActionModel<E> {
        self.after_all(events.drop_last()).after(events.last()).1
    }

    /// How many waits for an answer were in vain.
    pub open spec fn vain_waits<E>(events: Seq<TraversalEvent<E>>) -> nat
        decreases events.len(),
    {
        if events.len() == 0 {
            0
        } else {
            Self::vain_waits(events.drop_last()) + (if events.last() is Elapsed {
                1nat
            } else {
                0
            })
        }
    }

    /// How many acknowledgements the handshake has reported as sent, or is about to.
    pub open spec fn tracked_acks<E>(self, events: Seq<TraversalEvent<E>>) -> nat
        decreases events.len(),
    {
        if events.len() == 0 {
            0
        } else {
            self.tracked_acks(events.drop_last()) + (if is_tracked_ack(self.action_after(events)) {
                1nat
            } else {
                0
            })
        }
    }

    /// How many times a handshake that began by sending its intro packet has made an attempt.
    pub open spec fn attempts_made<E>(self, events: Seq<TraversalEvent<E>>) -> nat
        decreases events.len(),
    {
        if events.len() == 0 {
            1
        } else {
            self.attempts_made(events.drop_last()) + (if is_attempt(self.action_after(events)) {
                1nat
            } else {
                0
            })
        }
    }

    /// A bound on how many events the handshake still takes.
    spec fn events_left(self) -> int {
        let attempts = NAT_TRAVERSAL_MAX_ATTEMPTS - self.failures + (
        if self.state is StartOutbound {
            1int
        } else {
            0
        });
        match self.phase {
            PhaseModel::Sending => 3 * attempts + 1,
            PhaseModel::Waiting => 3 * attempts,
            PhaseModel::Deserializing => 3 * attempts - 1,
            PhaseModel::Decrypting { .. } => 3 * attempts - 1,
            PhaseModel::Confirming { .. } => 3 * attempts - 2,
            PhaseModel::Pausing => 3 * attempts + 2,
            PhaseModel::Closed => 0,
        }
    }
}

/// Whether an action sends an acknowledgement that is to be reported as sent.
pub open spec fn is_tracked_ack<E>(action: ActionModel<E>) -> bool {
    action matches ActionModel::SendAck { track, .. } && track
}

/// Whether an action is an attempt to reach the remote.
pub open spec fn is_attempt<E>(action: ActionModel<E>) -> bool {
    action is SendIntro || is_tracked_ack(action)
}

/// A handshake stays well formed, whatever happens.
pub proof fn stays_well_formed<E>(handshake: TraversalModel, event: TraversalEvent<E>)
    requires
        handshake.wf(),
        handshake.awaits(event),
    ensures
        handshake.after(event).0.wf(),
{
}

/// A handshake keeps its remote and its key. It never waits less than it did before, and never
/// goes back to not having heard of the remote.
pub proof fn only_moves_forward<E>(handshake: TraversalModel, event: TraversalEvent<E>)
    requires
        handshake.wf(),
        handshake.awaits(event),
    ensures
        ({
            let next = handshake.after(event).0;
            &&& next.remote_addr == handshake.remote_addr
            &&& next.inbound_key == handshake.inbound_key
            &&& next.failures >= handshake.failures
            &&& next.timeout >= handshake.timeout
            &&& next.interval >= handshake.interval
            &&& handshake.state is RemoteInbound ==> next.state == handshake.state
        }),
{
}

/// Every handshake ends: it makes at most one attempt more than it allows to fail, and takes no
/// more than three events for each, and one more to confirm.
pub proof fn every_handshake_ends<E>(
    remote_addr: SocketAddr,
    inbound_key: Seq<u8>,
    events: Seq<TraversalEvent<E>>,
)
    requires
        inbound_key.len() == KEY_SIZE,
        TraversalModel::initial(remote_addr, inbound_key).awaits_all(events),
    ensures
        TraversalModel::initial(remote_addr, inbound_key).attempts_made(events)
            <= NAT_TRAVERSAL_MAX_ATTEMPTS + 1,
        events.len() <= 3 * (NAT_TRAVERSAL_MAX_ATTEMPTS + 1) + 1,
{
    lemma_progress(remote_addr, inbound_key, events);
}

/// What every handshake has come to after some events.
proof fn lemma_progress<E>(
    remote_addr: SocketAddr,
    inbound_key: Seq<u8>,
    events: Seq<TraversalEvent<E>>,
)
    requires
        inbound_key.len() == KEY_SIZE,
        TraversalModel::initial(remote_addr, inbound_key).awaits_all(events),
    ensures
        ({
            let start = TraversalModel::initial(remote_addr, inbound_key);
            let now = start.after_all(events);
            let heard: nat = if now.state is StartOutbound {
                0
            } else {
                1
            };
            &&& now.wf()
            &&& now.remote_addr == remote_addr
            &&& now.inbound_key == inbound_key
            &&& events.len() + now.events_left() <= 3 * (NAT_TRAVERSAL_MAX_ATTEMPTS + 1) + 1
            &&& 0 <= now.events_left()
            &&& now.phase !is Closed ==> start.attempts_made(events) == now.failures + heard + (
            if now.phase is Pausing {
                0nat
            } else {
                1
            })
            &&& start.attempts_made(events) <= NAT_TRAVERSAL_MAX_ATTEMPTS + heard
            &&& now.state is StartOutbound ==> start.tracked_acks(events) == 0
            &&& TraversalModel::vain_waits(events) <= now.failures
            &&& now.timeout == timeout_after(TraversalModel::vain_waits(events))
            &&& now.interval == interval_after(TraversalModel::vain_waits(events))
        }),
    decreases events.len(),
{
    if events.len() > 0 {
        let start = TraversalModel::initial(remote_addr, inbound_key);
        let before = start.after_all(events.drop_last());
        lemma_progress(remote_addr, inbound_key, events.drop_last());
        stays_well_formed(before, events.last());
        only_moves_forward(before, events.last());
        let waits = TraversalModel::vain_waits(events.drop_last());
        lemma_timeout_monotonic(waits, NAT_TRAVERSAL_MAX_ATTEMPTS as nat);
        lemma_longest_timeout();
        lemma_interval_at_most(waits);
    }
}

/// A handshake gives up when as many attempts failed as are allowed, and only then: no wait becomes
/// as long as [`MAX_TIMEOUT`] before. It has made that many attempts by then, and one more where it
/// heard the remote's intro packet, which calls for an attempt though none failed.
pub proof fn gives_up_after_all_attempts<E>(
    remote_addr: SocketAddr,
    inbound_key: Seq<u8>,
    events: Seq<TraversalEvent<E>>,
)
    requires
        inbound_key.len() == KEY_SIZE,
        events.len() > 0,
        TraversalModel::initial(remote_addr, inbound_key).awaits_all(events),
    ensures
        ({
            let start = TraversalModel::initial(remote_addr, inbound_key);
            let now = start.after_all(events);
            let gives_up = start.action_after(events) == ActionModel::<E>::Fail(
                TransportError::ConnectionEstablishmentFailure {
                    cause: FailureCause::MaxAttemptsReached,
                },
            );
            &&& gives_up <==> now.phase is Closed && now.failures == NAT_TRAVERSAL_MAX_ATTEMPTS
            &&& gives_up ==> start.attempts_made(events) == NAT_TRAVERSAL_MAX_ATTEMPTS + (
            if now.state is StartOutbound {
                0nat
            } else {
                1
            })
        }),
{
    let before = TraversalModel::initial(remote_addr, inbound_key).after_all(events.drop_last());
    lemma_progress(remote_addr, inbound_key, events.drop_last());
    lemma_timeout_monotonic(
        TraversalModel::vain_waits(events.drop_last()),
        NAT_TRAVERSAL_MAX_ATTEMPTS as nat,
    );
    lemma_longest_timeout();
}

/// Each wait in vain makes the next one longer, and the interval between attempts too.
pub proof fn waits_grow<E>(
    remote_addr: SocketAddr,
    inbound_key: Seq<u8>,
    events: Seq<TraversalEvent<E>>,
)
    requires
        inbound_key.len() == KEY_SIZE,
        TraversalModel::initial(remote_addr, inbound_key).awaits_all(events),
    ensures
        TraversalModel::initial(remote_addr, inbound_key).after_all(events).timeout
            == timeout_after(TraversalModel::vain_waits(events)),
        TraversalModel::initial(remote_addr, inbound_key).after_all(events).interval
            == interval_after(TraversalModel::vain_waits(events)),
{
    lemma_progress(remote_addr, inbound_key, events);
}

/// Every wait lasts as long as the backoff says after so many waits in vain, and so does every pause
/// after one, whichever packet is waited for and wherever the remote is.
pub proof fn waits_follow_the_backoff<E>(
    remote_addr: SocketAddr,
    inbound_key: Seq<u8>,
    events: Seq<TraversalEvent<E>>,
)
    requires
        inbound_key.len() == KEY_SIZE,
        events.len() > 0,
        TraversalModel::initial(remote_addr, inbound_key).awaits_all(events),
    ensures
        match TraversalModel::initial(remote_addr, inbound_key).action_after(events) {
            ActionModel::Wait { timeout } => timeout == timeout_after(
                TraversalModel::vain_waits(events),
            ),
            ActionModel::Tick { restart } => {
                let waits = TraversalModel::vain_waits(events);
                &&& waits > 0
                &&& restart == if interval_after((waits - 1) as nat) < 5_000 {
                    Some(interval_after(waits))
                } else {
                    None
                }
            },
            _ => true,
        },
        events.last() == TraversalEvent::<E>::Send(SendOutcome::Sent) ==> {
            ||| TraversalModel::initial(remote_addr, inbound_key).action_after(events) is Connected
            ||| TraversalModel::initial(remote_addr, inbound_key).action_after(events) is Wait
        },
{
    lemma_progress(remote_addr, inbound_key, events);
    lemma_progress(remote_addr, inbound_key, events.drop_last());
    lemma_timeout_monotonic(
        TraversalModel::vain_waits(events.drop_last()),
        NAT_TRAVERSAL_MAX_ATTEMPTS as nat,
    );
    lemma_longest_timeout();
}

/// The longest that any handshake waits for an answer is 436 milliseconds.
pub proof fn longest_wait<E>(
    remote_addr: SocketAddr,
    inbound_key: Seq<u8>,
    events: Seq<TraversalEvent<E>>,
)
    requires
        inbound_key.len() == KEY_SIZE,
        events.len() > 0,
        TraversalModel::initial(remote_addr, inbound_key).awaits_all(events),
    ensures
        TraversalModel::initial(remote_addr, inbound_key).action_after(events)
            matches ActionModel::Wait { timeout } ==> timeout <= 436,
{
    let before = TraversalModel::initial(remote_addr, inbound_key).after_all(events.drop_last());
    lemma_progress(remote_addr, inbound_key, events.drop_last());
    if before.phase is Sending {
        lemma_timeout_monotonic(
            TraversalModel::vain_waits(events.drop_last()),
            (NAT_TRAVERSAL_MAX_ATTEMPTS - 1) as nat,
        );
        lemma_longest_timeout();
    }
}

/// The tracker that a connection takes over from its handshake is empty: a handshake that is
/// acknowledged has not reported an acknowledgement of its own.
pub proof fn connections_start_without_tracked_packets<E>(
    remote_addr: SocketAddr,
    inbound_key: Seq<u8>,
    events: Seq<TraversalEvent<E>>,
)
    requires
        inbound_key.len() == KEY_SIZE,
        events.len() > 0,
        TraversalModel::initial(remote_addr, inbound_key).awaits_all(events),
    ensures
        TraversalModel::initial(remote_addr, inbound_key).action_after(events)
            matches ActionModel::Connected(connection) ==> {
            ||| connection.sent_tracker is Fresh
            ||| TraversalModel::initial(remote_addr, inbound_key).tracked_acks(events) == 0
        },
{
    lemma_progress(remote_addr, inbound_key, events.drop_last());
}

/// Whether an event tells a handshake of no key of the remote but `key`, and of no address of this
/// peer but `my_addr`.
pub open spec fn hears_only<E>(
    event: TraversalEvent<E>,
    key: Seq<u8>,
    my_addr: SocketAddr,
) -> bool {
    match event {
        TraversalEvent::Deserialized(
            Ok(SymmetricMessagePayload::AckConnection { result: Ok(remote) }),
        ) => remote.key@ == key && remote.remote_addr == my_addr,
        TraversalEvent::Decrypted(Some(data)) => intro_key(data@) == key,
        _ => true,
    }
}

/// Whether one of the events is the remote's intro packet.
pub open spec fn hears_intro<E>(events: Seq<TraversalEvent<E>>) -> bool {
    exists|i: int|
        0 <= i < events.len() && (#[trigger] events[i]) matches TraversalEvent::Decrypted(Some(_))
}

/// The address of this peer that a connection knows: the one that the remote acknowledged, unless
/// the remote's intro packet came first, after which no acknowledgement is read.
pub open spec fn heard_address<E>(
    events: Seq<TraversalEvent<E>>,
    my_addr: SocketAddr,
) -> Option<SocketAddr> {
    if hears_intro(events) {
        None
    } else {
        Some(my_addr)
    }
}

/// A handshake that hears of one key of the remote uses that key and its own, in every
/// acknowledgement it sends and in the connection that it ends in. Where it hears of one address of
/// this peer, the connection knows that address or none.
pub proof fn uses_both_keys<E>(
    remote_addr: SocketAddr,
    inbound_key: Seq<u8>,
    remote_key: Seq<u8>,
    my_addr: SocketAddr,
    events: Seq<TraversalEvent<E>>,
)
    requires
        inbound_key.len() == KEY_SIZE,
        events.len() > 0,
        TraversalModel::initial(remote_addr, inbound_key).awaits_all(events),
        forall|i: int|
            0 <= i < events.len() ==> hears_only(#[trigger] events[i], remote_key, my_addr),
    ensures
        match TraversalModel::initial(remote_addr, inbound_key).action_after(events) {
            ActionModel::SendAck { ack, .. } => {
                &&& ack.sealed_under == remote_key
                &&& ack.key == inbound_key
                &&& ack.remote_addr == remote_addr
            },
            ActionModel::Connected(connection) => {
                &&& connection.outbound_key == remote_key
                &&& connection.inbound_key == inbound_key
                &&& connection.remote_addr == remote_addr
                &&& connection.my_address == heard_address(events, my_addr)
            },
            _ => true,
        },
{
    lemma_remembers_remote(remote_addr, inbound_key, remote_key, my_addr, events.drop_last());
    lemma_progress(remote_addr, inbound_key, events.drop_last());
    lemma_hears_intro(events);
    assert(hears_only(events[events.len() - 1], remote_key, my_addr));
}

/// A handshake that hears of one key of the remote, and of one address of this peer, remembers no
/// other, and remembers the remote's intro packet once it came.
proof fn lemma_remembers_remote<E>(
    remote_addr: SocketAddr,
    inbound_key: Seq<u8>,
    remote_key: Seq<u8>,
    my_addr: SocketAddr,
    events: Seq<TraversalEvent<E>>,
)
    requires
        inbound_key.len() == KEY_SIZE,
        TraversalModel::initial(remote_addr, inbound_key).awaits_all(events),
        forall|i: int|
            0 <= i < events.len() ==> hears_only(#[trigger] events[i], remote_key, my_addr),
    ensures
        ({
            let now = TraversalModel::initial(remote_addr, inbound_key).after_all(events);
            &&& now.state matches StateModel::RemoteInbound { outbound_key, .. } ==> outbound_key
                == remote_key
            &&& now.state is RemoteInbound <==> hears_intro(events)
            &&& now.phase matches PhaseModel::Confirming { outbound_key, my_address }
                ==> outbound_key == remote_key && my_address == my_addr
        }),
    decreases events.len(),
{
    if events.len() > 0 {
        assert forall|i: int| 0 <= i < events.drop_last().len() implies hears_only(
            #[trigger] events.drop_last()[i],
            remote_key,
            my_addr,
        ) by {
            assert(hears_only(events[i], remote_key, my_addr));
        }
        lemma_remembers_remote(remote_addr, inbound_key, remote_key, my_addr, events.drop_last());
        lemma_progress(remote_addr, inbound_key, events.drop_last());
        lemma_hears_intro(events);
        assert(hears_only(events[events.len() - 1], remote_key, my_addr));
    }
}

/// The intro packet comes with the last event or came before.
proof fn lemma_hears_intro<E>(events: Seq<TraversalEvent<E>>)
    requires
        events.len() > 0,
    ensures
        hears_intro(events) <==> hears_intro(events.drop_last()) || (events.last() matches
            TraversalEvent::Decrypted(Some(_))),
{
    let before = events.drop_last();
    if hears_intro(before) {
        let i = choose|i: int|
            0 <= i < before.len() && (#[trigger] before[i]) matches TraversalEvent::Decrypted(
                Some(_),
            );
        assert(events[i] == before[i]);
    }
    if hears_intro(events) {
        let i = choose|i: int|
            0 <= i < events.len() && (#[trigger] events[i]) matches TraversalEvent::Decrypted(
                Some(_),
            );
        if i < before.len() {
            assert(events[i] == before[i]);
        }
    }
    assert(events[events.len() - 1] == events.last());
}

/// A peer that has not heard of the remote yet connects once the remote acknowledges it, however
/// many packets were lost before.
pub proof fn acknowledged_peers_connect<E>(
    handshake: TraversalModel,
    packet: Vec<u8>,
    data: Seq<u8>,
    remote: OutboundConnection,
)
    requires
        handshake.wf(),
        handshake.state is StartOutbound,
        handshake.awaits(TraversalEvent::<E>::Inbound(packet)),
        opened_packet(handshake.inbound_key, packet@) == Some(data),
        remote.key@.len() == KEY_SIZE,
    ensures
        ({
            let message = SymmetricMessagePayload::AckConnection { result: Ok(remote) };
            let (opened, deserialize) = handshake.after(TraversalEvent::<E>::Inbound(packet));
            let (told, confirm) = opened.after(TraversalEvent::<E>::Deserialized(Ok(message)));
            let (_, connected) = told.after(TraversalEvent::<E>::Send(SendOutcome::Sent));
            &&& deserialize == ActionModel::<E>::Deserialize { data }
            &&& confirm == ActionModel::<E>::SendAck {
                ack: handshake.ack(remote.key@),
                track: false,
            }
            &&& connected == ActionModel::<E>::Connected(
                handshake.connection(
                    remote.key@,
                    Some(remote.remote_addr),
                    INBOUND_CAPACITY,
                    SentTracker::OfHandshake,
                ),
            )
        }),
{
}

/// A peer that has not heard of the remote yet acknowledges the remote's intro packet, and
/// connects with the next packet that is another one, however many packets were lost before.
pub proof fn introduced_peers_connect<E>(
    handshake: TraversalModel,
    packet: Vec<u8>,
    data: Vec<u8>,
    answer: Vec<u8>,
)
    requires
        handshake.wf(),
        handshake.state is StartOutbound,
        handshake.awaits(TraversalEvent::<E>::Inbound(packet)),
        opened_packet(handshake.inbound_key, packet@) is None,
        is_current_intro(data@),
        answer@ != packet@,
    ensures
        ({
            let (unopened, decrypt) = handshake.after(TraversalEvent::<E>::Inbound(packet));
            let (told, acknowledge) = unopened.after(TraversalEvent::<E>::Decrypted(Some(data)));
            let (waiting, wait) = told.after(TraversalEvent::<E>::Send(SendOutcome::Sent));
            let (_, connected) = waiting.after(TraversalEvent::<E>::Inbound(answer));
            &&& decrypt == ActionModel::<E>::DecryptIntro { packet: packet@ }
            &&& acknowledge == ActionModel::<E>::SendAck {
                ack: handshake.ack(intro_key(data@)),
                track: true,
            }
            &&& wait == ActionModel::<E>::Wait { timeout: handshake.timeout }
            &&& connected == ActionModel::<E>::Connected(
                handshake.connection(
                    intro_key(data@),
                    None,
                    REMOTE_INBOUND_CAPACITY,
                    SentTracker::Fresh,
                ),
            )
        }),
{
}

/// A peer that waits after the remote's intro packet connects with any other packet, under the key
/// that the intro packet announced. The same intro packet again means that the acknowledgement
/// was lost: it is sent once more while attempts are left. This holds however many packets were
/// lost before.
pub proof fn acknowledgements_are_repeated<E>(
    handshake: TraversalModel,
    intro_packet: Seq<u8>,
    outbound_key: Seq<u8>,
    packet: Vec<u8>,
)
    requires
        handshake.wf(),
        handshake.state == (StateModel::RemoteInbound { intro_packet, outbound_key }),
        handshake.awaits(TraversalEvent::<E>::Inbound(packet)),
    ensures
        ({
            let (next, action) = handshake.after(TraversalEvent::<E>::Inbound(packet));
            if packet@ != intro_packet {
                &&& next.phase is Closed
                &&& action == ActionModel::<E>::Connected(
                    handshake.connection(
                        outbound_key,
                        None,
                        REMOTE_INBOUND_CAPACITY,
                        SentTracker::Fresh,
                    ),
                )
            } else if handshake.failures + 1 < NAT_TRAVERSAL_MAX_ATTEMPTS {
                &&& next == handshake.failed_once().goes_to(PhaseModel::Sending)
                &&& action == ActionModel::<E>::SendAck {
                    ack: handshake.ack(outbound_key),
                    track: true,
                }
            } else {
                &&& next.phase is Closed
                &&& action == ActionModel::<E>::Fail(
                    TransportError::ConnectionEstablishmentFailure {
                        cause: FailureCause::MaxAttemptsReached,
                    },
                )
            }
        }),
{
}

/// A wait in vain is followed, after a pause, by the same packet once more while attempts are
/// left: the intro packet, or the acknowledgement where the remote's intro packet came.
pub proof fn silence_repeats_the_attempt<E>(
    remote_addr: SocketAddr,
    inbound_key: Seq<u8>,
    events: Seq<TraversalEvent<E>>,
)
    requires
        inbound_key.len() == KEY_SIZE,
        TraversalModel::initial(remote_addr, inbound_key).awaits_all(events),
        TraversalModel::initial(remote_addr, inbound_key).after_all(events).phase is Waiting,
    ensures
        ({
            let now = TraversalModel::initial(remote_addr, inbound_key).after_all(events);
            let (pausing, tick) = now.after(TraversalEvent::<E>::Elapsed);
            let (next, action) = pausing.after(TraversalEvent::<E>::Ticked);
            &&& tick is Tick
            &&& next.state == now.state
            &&& action == if now.failures + 1 < NAT_TRAVERSAL_MAX_ATTEMPTS {
                match now.state {
                    StateModel::StartOutbound => ActionModel::<E>::SendIntro,
                    StateModel::RemoteInbound { outbound_key, .. } => ActionModel::SendAck {
                        ack: now.ack(outbound_key),
                        track: true,
                    },
                }
            } else {
                ActionModel::Fail(
                    TransportError::ConnectionEstablishmentFailure {
                        cause: FailureCause::MaxAttemptsReached,
                    },
                )
            }
        }),
{
    lemma_progress(remote_addr, inbound_key, events);
    lemma_timeout_monotonic(
        TraversalModel::vain_waits(events),
        NAT_TRAVERSAL_MAX_ATTEMPTS as nat,
    );
    lemma_longest_timeout();
}

/// Every handshake starts by sending its intro packet, with no failure, a timeout of 15 and an
/// interval of 200 milliseconds, whatever the remote and the key.
pub proof fn handshakes_start_alike(remote_addr: SocketAddr, inbound_key: Seq<u8>)
    ensures
        TraversalModel::initial(remote_addr, inbound_key) == (TraversalModel {
            remote_addr,
            inbound_key,
            state: StateModel::StartOutbound,
            phase: PhaseModel::Sending,
            failures: 0,
            timeout: 15,
            interval: 200,
        }),
{
}

/// A handshake takes exactly the events that can follow what it asked for. A packet that it gave to
/// be decrypted is taken where it is a current intro packet.
pub proof fn takes_what_it_asked_for<E>(handshake: TraversalModel, event: TraversalEvent<E>)
    ensures
        handshake.awaits(event) <==> match event {
            TraversalEvent::Send(_) => handshake.phase is Sending || handshake.phase is Confirming,
            TraversalEvent::Inbound(packet) => handshake.phase is Waiting && packet@.len()
                <= 65_535,
            TraversalEvent::InboundClosed => handshake.phase is Waiting,
            TraversalEvent::Elapsed => handshake.phase is Waiting,
            TraversalEvent::Deserialized(_) => handshake.phase is Deserializing,
            TraversalEvent::Decrypted(None) => handshake.phase is Decrypting,
            TraversalEvent::Decrypted(Some(data)) => handshake.phase is Decrypting && data@.len()
                >= 18 && data@[0] == 1 && data@[1] == 0,
            TraversalEvent::Ticked => handshake.phase is Pausing,
        },
{
    if let TraversalEvent::Decrypted(Some(data)) = event {
        if data@.len() >= 2 {
            intros_are_read_by_position(data@);
        }
    }
}

/// What a handshake waits for is what it asked for last, and a handshake that has asked for its
/// end waits for nothing.
pub proof fn waits_for_what_it_asked_for<E>(handshake: TraversalModel, event: TraversalEvent<E>)
    requires
        handshake.awaits(event),
    ensures
        ({
            let (next, action) = handshake.after(event);
            match action {
                ActionModel::SendIntro => next.phase is Sending,
                ActionModel::SendAck { track, .. } => if track {
                    next.phase is Sending
                } else {
                    next.phase is Confirming
                },
                ActionModel::Wait { .. } => next.phase is Waiting,
                ActionModel::Deserialize { .. } => next.phase is Deserializing,
                ActionModel::DecryptIntro { packet } => next.phase == (PhaseModel::Decrypting {
                    packet,
                }),
                ActionModel::Tick { .. } => next.phase is Pausing,
                ActionModel::Connected(_) => next.phase is Closed,
                ActionModel::Fail(_) => next.phase is Closed,
            }
        }),
{
}

/// Where the remote is decides nothing but the address that acknowledgements, connections and the
/// end of the listener name.
pub proof fn addresses_decide_nothing<E>(
    handshake: TraversalModel,
    addr: SocketAddr,
    event: TraversalEvent<E>,
)
    requires
        handshake.awaits(event),
    ensures
        ({
            let moved = TraversalModel { remote_addr: addr, ..handshake };
            let (next, action) = handshake.after(event);
            let (moved_next, moved_action) = moved.after(event);
            &&& moved.awaits(event)
            &&& moved_next == (TraversalModel { remote_addr: addr, ..next })
            &&& moved_action == match action {
                ActionModel::SendAck { ack, track } => ActionModel::SendAck {
                    ack: AckModel { remote_addr: addr, ..ack },
                    track,
                },
                ActionModel::Connected(connection) => ActionModel::Connected(
                    ConnectionModel { remote_addr: addr, ..connection },
                ),
                ActionModel::Fail(TransportError::ConnectionClosed(_)) => ActionModel::Fail(
                    TransportError::ConnectionClosed(addr),
                ),
                _ => action,
            }
        }),
{
}

/// How many attempts failed decides nothing but when a handshake gives up: while attempts are left,
/// it goes on in the same way after few failures and after many.
pub proof fn failures_decide_only_when_to_give_up<E>(
    handshake: TraversalModel,
    failures: nat,
    event: TraversalEvent<E>,
)
    requires
        handshake.awaits(event),
        handshake.failures + 1 < 20,
        failures + 1 < 20,
    ensures
        ({
            let other = TraversalModel { failures, ..handshake };
            let (next, action) = handshake.after(event);
            let (other_next, other_action) = other.after(event);
            &&& other.awaits(event)
            &&& other_action == action
            &&& other_next == (TraversalModel { failures: other_next.failures, ..next })
            &&& other_next.failures - failures == next.failures - handshake.failures
        }),
{
}

/// A handshake whose packet was not handed to the socket ends with the reason, whatever it was
/// sending.
pub proof fn unsent_packets_end_the_handshake<E>(handshake: TraversalModel, error: E)
    requires
        handshake.phase is Sending || handshake.phase is Confirming,
    ensures
        ({
            let (closed, gone) = handshake.after(
                TraversalEvent::<E>::Send(SendOutcome::ChannelClosed),
            );
            let (unbuilt, failed) = handshake.after(
                TraversalEvent::<E>::Send(SendOutcome::NotBuilt(error)),
            );
            &&& closed.phase is Closed && unbuilt.phase is Closed
            &&& gone == ActionModel::Fail(TransportError::<E>::ChannelClosed)
            &&& failed == ActionModel::Fail(TransportError::Other(error))
        }),
{
}

/// A handshake to which no packet can come any more ends, and names the remote.
pub proof fn closed_queues_end_the_handshake<E>(handshake: TraversalModel)
    requires
        handshake.phase is Waiting,
    ensures
        ({
            let (next, action) = handshake.after(TraversalEvent::<E>::InboundClosed);
            &&& next.phase is Closed
            &&& action == ActionModel::Fail(
                TransportError::<E>::ConnectionClosed(handshake.remote_addr),
            )
        }),
{
}

/// An attempt that was sent is followed by a wait of the present timeout, whatever was sent, and
/// nothing else changes.
pub proof fn sent_attempts_are_waited_for<E>(handshake: TraversalModel)
    requires
        handshake.phase is Sending,
    ensures
        ({
            let (next, action) = handshake.after(TraversalEvent::<E>::Send(SendOutcome::Sent));
            &&& next == (TraversalModel { phase: PhaseModel::Waiting, ..handshake })
            &&& action == ActionModel::<E>::Wait { timeout: handshake.timeout }
        }),
{
}

/// A confirmation that was sent opens the connection, with the acknowledged key and address.
pub proof fn sent_confirmations_connect<E>(
    handshake: TraversalModel,
    outbound_key: Seq<u8>,
    my_address: SocketAddr,
)
    requires
        handshake.phase == (PhaseModel::Confirming { outbound_key, my_address }),
    ensures
        ({
            let (next, action) = handshake.after(TraversalEvent::<E>::Send(SendOutcome::Sent));
            &&& next.phase is Closed
            &&& action == ActionModel::<E>::Connected(
                ConnectionModel {
                    remote_addr: handshake.remote_addr,
                    outbound_key,
                    inbound_key: handshake.inbound_key,
                    my_address: Some(my_address),
                    last_packet_id: 0,
                    inbound_capacity: 100,
                    sent_tracker: SentTracker::OfHandshake,
                },
            )
        }),
{
}

/// A peer that has not heard of the remote yet reads a packet as a message exactly where the cipher
/// opens it under the peer's key, and takes every other packet, short or long, for one that may be
/// the remote's intro packet. Nothing else changes.
pub proof fn the_cipher_alone_decides<E>(handshake: TraversalModel, packet: Vec<u8>)
    requires
        handshake.phase is Waiting,
        handshake.state is StartOutbound,
    ensures
        ({
            let (next, action) = handshake.after(TraversalEvent::<E>::Inbound(packet));
            let opened = if packet@.len() < 12 {
                None
            } else {
                aes128_gcm_opened(
                    handshake.inbound_key,
                    packet@.subrange(0, 12),
                    packet@.subrange(12, packet@.len() as int),
                )
            };
            match opened {
                Some(data) => {
                    &&& next == (TraversalModel { phase: PhaseModel::Deserializing, ..handshake })
                    &&& action == ActionModel::<E>::Deserialize { data }
                },
                None => {
                    &&& next == (TraversalModel {
                        phase: PhaseModel::Decrypting { packet: packet@ },
                        ..handshake
                    })
                    &&& action == ActionModel::<E>::DecryptIntro { packet: packet@ }
                },
            }
        }),
{
    packets_open_as_the_cipher_does(handshake.inbound_key, packet@);
}

/// A peer that knows the remote's intro packet connects with every other packet, under the key that
/// the intro packet announced, however many attempts failed.
pub proof fn other_packets_connect<E>(
    handshake: TraversalModel,
    intro_packet: Seq<u8>,
    outbound_key: Seq<u8>,
    packet: Vec<u8>,
)
    requires
        handshake.phase is Waiting,
        handshake.state == (StateModel::RemoteInbound { intro_packet, outbound_key }),
        packet@ != intro_packet,
    ensures
        ({
            let (next, action) = handshake.after(TraversalEvent::<E>::Inbound(packet));
            &&& next.phase is Closed
            &&& action == ActionModel::<E>::Connected(
                ConnectionModel {
                    remote_addr: handshake.remote_addr,
                    outbound_key,
                    inbound_key: handshake.inbound_key,
                    my_address: None,
                    last_packet_id: 0,
                    inbound_capacity: 1,
                    sent_tracker: SentTracker::Fresh,
                },
            )
        }),
{
}

/// A remote that acknowledges with a key of 16 bytes is answered under that key, with this peer's
/// own, and the address that it names is kept. Nothing else changes.
pub proof fn acknowledgements_are_confirmed<E>(
    handshake: TraversalModel,
    remote: OutboundConnection,
)
    requires
        handshake.phase is Deserializing,
        remote.key@.len() == 16,
    ensures
        ({
            let message = SymmetricMessagePayload::AckConnection { result: Ok(remote) };
            let (next, action) = handshake.after(TraversalEvent::<E>::Deserialized(Ok(message)));
            &&& next == (TraversalModel {
                phase: PhaseModel::Confirming {
                    outbound_key: remote.key@,
                    my_address: remote.remote_addr,
                },
                ..handshake
            })
            &&& action == ActionModel::<E>::SendAck {
                ack: AckModel {
                    sealed_under: remote.key@,
                    key: handshake.inbound_key,
                    remote_addr: handshake.remote_addr,
                },
                track: false,
            }
        }),
{
}

/// A remote that acknowledges with a key of another length ends the handshake, however many attempts
/// failed.
pub proof fn wrong_keys_end_the_handshake<E>(handshake: TraversalModel, remote: OutboundConnection)
    requires
        handshake.phase is Deserializing,
        remote.key@.len() != 16,
    ensures
        ({
            let message = SymmetricMessagePayload::AckConnection { result: Ok(remote) };
            let (next, action) = handshake.after(TraversalEvent::<E>::Deserialized(Ok(message)));
            &&& next.phase is Closed
            &&& action == ActionModel::<E>::Fail(
                TransportError::ConnectionEstablishmentFailure {
                    cause: FailureCause::InvalidSymmetricKey,
                },
            )
        }),
{
}

/// A remote that refuses ends the handshake at once with its own words, however many attempts
/// failed before.
pub proof fn refusals_end_the_handshake<E>(handshake: TraversalModel, text: String)
    requires
        handshake.phase is Deserializing,
    ensures
        ({
            let message = SymmetricMessagePayload::AckConnection { result: Err(text) };
            let (next, action) = handshake.after(TraversalEvent::<E>::Deserialized(Ok(message)));
            &&& next.phase is Closed
            &&& action == ActionModel::<E>::Fail(
                TransportError::ConnectionEstablishmentFailure {
                    cause: FailureCause::Remote(text),
                },
            )
        }),
{
}

/// A packet under this peer's key that holds no message ends the handshake with the reason.
pub proof fn unreadable_messages_end_the_handshake<E>(handshake: TraversalModel, error: E)
    requires
        handshake.phase is Deserializing,
    ensures
        ({
            let (next, action) = handshake.after(TraversalEvent::<E>::Deserialized(Err(error)));
            &&& next.phase is Closed
            &&& action == ActionModel::Fail(TransportError::Other(error))
        }),
{
}

/// A packet of no use counts as one failure and is followed by the next attempt at once, with the
/// same waits, until twenty attempts failed. Of no use are another message than an
/// acknowledgement, a packet for someone else, and the same intro packet again.
pub proof fn useless_packets_are_failed_attempts<E>(
    handshake: TraversalModel,
    event: TraversalEvent<E>,
)
    requires
        match event {
            TraversalEvent::Deserialized(Ok(SymmetricMessagePayload::Other)) => {
                handshake.phase is Deserializing
            },
            TraversalEvent::Decrypted(None) => handshake.phase is Decrypting,
            TraversalEvent::Inbound(packet) => handshake.phase is Waiting && (
            handshake.state matches StateModel::RemoteInbound { intro_packet, .. } && packet@
                == intro_packet),
            _ => false,
        },
    ensures
        ({
            let (next, action) = handshake.after(event);
            if handshake.failures + 1 < 20 {
                &&& next == (TraversalModel {
                    failures: handshake.failures + 1,
                    phase: PhaseModel::Sending,
                    ..handshake
                })
                &&& action == match handshake.state {
                    StateModel::StartOutbound => ActionModel::<E>::SendIntro,
                    StateModel::RemoteInbound { outbound_key, .. } => ActionModel::SendAck {
                        ack: AckModel {
                            sealed_under: outbound_key,
                            key: handshake.inbound_key,
                            remote_addr: handshake.remote_addr,
                        },
                        track: true,
                    },
                }
            } else {
                &&& next.phase is Closed
                &&& next.failures == handshake.failures + 1
                &&& action == ActionModel::<E>::Fail(
                    TransportError::ConnectionEstablishmentFailure {
                        cause: FailureCause::MaxAttemptsReached,
                    },
                )
            }
        }),
{
}

/// The remote's intro packet is kept with the key that it announces and acknowledged under that
/// key. It counts as no failure.
pub proof fn intros_are_acknowledged<E>(
    handshake: TraversalModel,
    packet: Seq<u8>,
    data: Vec<u8>,
)
    requires
        handshake.phase == (PhaseModel::Decrypting { packet }),
        handshake.failures < 20,
        data@.len() >= 18,
    ensures
        ({
            let (next, action) = handshake.after(TraversalEvent::<E>::Decrypted(Some(data)));
            &&& next == (TraversalModel {
                state: StateModel::RemoteInbound {
                    intro_packet: packet,
                    outbound_key: data@.subrange(2, 18),
                },
                phase: PhaseModel::Sending,
                ..handshake
            })
            &&& action == ActionModel::<E>::SendAck {
                ack: AckModel {
                    sealed_under: data@.subrange(2, 18),
                    key: handshake.inbound_key,
                    remote_addr: handshake.remote_addr,
                },
                track: true,
            }
        }),
{
    intros_are_read_by_position(data@);
}

/// A wait in vain counts as one failure and makes the next wait longer by a fifth and the interval
/// twice as long, up to a minute and five seconds. The interval is restarted where it grew. After
/// a wait of a minute the handshake gives up.
pub proof fn vain_waits_lead_to_a_pause<E>(handshake: TraversalModel)
    requires
        handshake.phase is Waiting,
    ensures
        ({
            let (next, action) = handshake.after(TraversalEvent::<E>::Elapsed);
            if handshake.timeout < 60_000 {
                &&& next == (TraversalModel {
                    failures: handshake.failures + 1,
                    phase: PhaseModel::Pausing,
                    timeout: next.timeout,
                    interval: next.interval,
                    ..handshake
                })
                &&& if 6 * handshake.timeout < 300_005 {
                    5 * next.timeout <= 6 * handshake.timeout < 5 * next.timeout + 5
                } else {
                    next.timeout == 60_000
                }
                &&& next.interval == if handshake.interval >= 5_000 {
                    handshake.interval
                } else if 2 * handshake.interval <= 5_000 {
                    2 * handshake.interval
                } else {
                    5_000
                }
                &&& action == ActionModel::<E>::Tick {
                    restart: if handshake.interval < 5_000 {
                        Some(next.interval)
                    } else {
                        None
                    },
                }
            } else {
                &&& next.phase is Closed
                &&& next.failures == handshake.failures + 1
                &&& action == ActionModel::<E>::Fail(
                    TransportError::ConnectionEstablishmentFailure {
                        cause: FailureCause::MaxAttemptsReached,
                    },
                )
            }
        }),
{
}

/// A pause is followed by the next attempt, the intro packet or the acknowledgement, until twenty
/// attempts failed.
pub proof fn pauses_end_in_an_attempt<E>(handshake: TraversalModel)
    requires
        handshake.phase is Pausing,
    ensures
        ({
            let (next, action) = handshake.after(TraversalEvent::<E>::Ticked);
            if handshake.failures < 20 {
                &&& next == (TraversalModel { phase: PhaseModel::Sending, ..handshake })
                &&& action == match handshake.state {
                    StateModel::StartOutbound => ActionModel::<E>::SendIntro,
                    StateModel::RemoteInbound { outbound_key, .. } => ActionModel::SendAck {
                        ack: AckModel {
                            sealed_under: outbound_key,
                            key: handshake.inbound_key,
                            remote_addr: handshake.remote_addr,
                        },
                        track: true,
                    },
                }
            } else {
                &&& next.phase is Closed
                &&& action == ActionModel::<E>::Fail(
                    TransportError::ConnectionEstablishmentFailure {
                        cause: FailureCause::MaxAttemptsReached,
                    },
                )
            }
        }),
{
}

/// An action shows what it was made of.
pub proof fn actions_show_their_parts<E>(action: TraversalAction<E>)
    ensures
        match action {
            TraversalAction::SendIntro => action@ is SendIntro,
            TraversalAction::SendAck { ack, track } => action@ == (ActionModel::<E>::SendAck {
                ack: ack@,
                track,
            }),
            TraversalAction::Wait { timeout } => action@ == (ActionModel::<E>::Wait {
                timeout: timeout as nat,
            }),
            TraversalAction::Deserialize { data } => action@ == (ActionModel::<E>::Deserialize {
                data: data@,
            }),
            TraversalAction::DecryptIntro { packet } => action@ == (
            ActionModel::<E>::DecryptIntro { packet: packet@ }),
            TraversalAction::Tick { restart: None } => action@ == (ActionModel::<E>::Tick {
                restart: None,
            }),
            TraversalAction::Tick { restart: Some(interval) } => action@ == (
            ActionModel::<E>::Tick { restart: Some(interval as nat) }),
            TraversalAction::Connected(connection) => action@ == ActionModel::<E>::Connected(
                connection@,
            ),
            TraversalAction::Fail(error) => action@ == ActionModel::Fail(error),
        },
{
}

/// A handshake that is started is a handshake from the start, and asks for its intro packet to be
/// sent: the version and the key that it was started with.
pub proof fn started_handshakes_introduce_themselves<E>(
    remote_addr: SocketAddr,
    inbound_key: SymmetricKey,
    started: (NatTraversal, TraversalAction<E>),
    intro: Vec<u8>,
)
    requires
        call_ensures(
            NatTraversal::start_with_key::<E>,
            (remote_addr, inbound_key),
            started,
        ),
        call_ensures(NatTraversal::intro, (&started.0,), intro),
    ensures
        started.0@.remote_addr == remote_addr,
        started.0@.inbound_key == inbound_key@,
        started.0@.state is StartOutbound,
        started.0@.phase is Sending,
        started.0@.failures == 0,
        started.0@.timeout == 15,
        started.0@.interval == 200,
        started.1@ is SendIntro,
        intro@ == seq![1u8, 0u8] + inbound_key@,
{
    intros_hold_version_and_key(inbound_key@);
    assert(intro@ =~= seq![1u8, 0u8] + inbound_key@) by {
        assert forall|i: int| 0 <= i < intro@.len() implies #[trigger] intro@[i] == (seq![1u8, 0u8]
            + inbound_key@)[i] by {
            if i >= 2 {
                assert(intro_data(inbound_key@)[2 + (i - 2)] == inbound_key@[i - 2]);
            }
        }
    }
}

/// What holds of every step of a handshake holds of the steps that handshakes take.
pub proof fn handshakes_take_these_steps<E>(
    handshake: NatTraversal,
    event: TraversalEvent<E>,
    next: (NatTraversal, TraversalAction<E>),
)
    requires
        call_ensures(NatTraversal::step::<E>, (handshake, event), next),
    ensures
        next.0@ == handshake@.after(event).0,
        next.1@ == handshake@.after(event).1,
{
}

/// A handshake that draws its key starts in the same way, with some key of 16 bytes.
pub proof fn drawn_keys_decide_nothing<E>(
    remote_addr: SocketAddr,
    started: (NatTraversal, TraversalAction<E>),
)
    requires
        call_ensures(NatTraversal::start::<E>, (remote_addr,), started),
    ensures
        started.0@ == (TraversalModel {
            remote_addr,
            inbound_key: started.0@.inbound_key,
            state: StateModel::StartOutbound,
            phase: PhaseModel::Sending,
            failures: 0,
            timeout: 15,
            interval: 200,
        }),
        started.0@.inbound_key.len() == 16,
        started.1@ is SendIntro,
{
}

} // verus!
