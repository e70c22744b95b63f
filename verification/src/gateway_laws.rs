//! What holds of every handshake of a gateway with a peer.

use vstd::prelude::*;

use crate::addr::SocketAddr;
use crate::backoff::interval_after;
use crate::connection::{AckModel, ConnectionModel, SendOutcome, SentTracker};
use crate::crypto::{
    aes128_gcm_opened, opened_packet, packets_open_as_the_cipher_does, SymmetricKey, KEY_SIZE,
};
use crate::error::{FailureCause, TransportError};
use crate::gateway::{opens, GatewayAction, GatewayEvent, GatewayHandshake};
use crate::gateway_model::{
    AttemptModel, GatewayActionModel, GatewayModel, GatewayPhaseModel, MAX_ATTEMPTS,
};
use crate::intro::{intro_data, intros_are_read_by_position, intros_hold_version_and_key};

verus! {

impl GatewayModel {
    /// The handshake after a sequence of events.
    pub open spec fn after_all<E>(self, events: Seq<GatewayEvent<E>>) -> GatewayModel
        decreases events.len(),
    {
        if events.len() == 0 {
            self
        } else {
            self.after_all(events.drop_last()).after(events.last()).0
        }
    }

    /// Whether each event of a sequence is one that the handshake waits for when it comes.
    pub open spec fn awaits_all<E>(self, events: Seq<GatewayEvent<E>>) -> bool
        decreases events.len(),
    {
        if events.len() == 0 {
            true
        } else {
            &&& self.awaits_all(events.drop_last())
            &&& self.after_all(events.drop_last()).awaits(events.last())
        }
    }

    /// What the handshake asks for after a sequence of at least one event.
    pub open spec fn action_after<E>(self, events: Seq<GatewayEvent<E>>) -> GatewayActionModel<E> {
        self.after_all(events.drop_last()).after(events.last()).1
    }

    /// How many times a handshake that began by sending its acknowledgement has sent it.
    pub open spec fn acks_sent<E>(self, events: Seq<GatewayEvent<E>>) -> nat
        decreases events.len(),
    {
        if events.len() == 0 {
            1
        } else {
            self.acks_sent(events.drop_last()) + (if self.action_after(events) is SendAck {
                1nat
            } else {
                0
            })
        }
    }

    /// How many events the handshake has taken, where it is not over.
    spec fn events_taken(self) -> nat {
        match self.phase {
            GatewayPhaseModel::Sending(attempt) => 2 * attempt.attempts,
            GatewayPhaseModel::Waiting(attempt) => 2 * attempt.attempts + 1,
            _ => 0,
        }
    }
}

/// A handshake stays well formed, whatever happens.
pub proof fn stays_well_formed<E>(handshake: GatewayModel, event: GatewayEvent<E>)
    requires
        handshake.wf(),
        handshake.awaits(event),
    ensures
        handshake.after(event).0.wf(),
{
}

/// A peer that speaks another version of the protocol gets no connection, whatever comes of the
/// refusal that is sent.
pub proof fn other_versions_are_refused<E>(
    remote_addr: SocketAddr,
    outbound_key: Seq<u8>,
    protoc: [u8; 2],
    event: GatewayEvent<E>,
)
    requires
        GatewayModel::refusing(remote_addr, outbound_key, protoc).awaits(event),
    ensures
        ({
            let (next, action) = GatewayModel::refusing(remote_addr, outbound_key, protoc).after(
                event,
            );
            &&& next.phase is Closed
            &&& action is Fail
            &&& event == GatewayEvent::<E>::Send(SendOutcome::Sent) ==> action
                == GatewayActionModel::<E>::Fail(
                TransportError::ConnectionEstablishmentFailure {
                    cause: FailureCause::DifferentProtocolVersion { protoc },
                },
            )
        }),
{
}

/// What every handshake with a peer of the same version has come to after some events.
proof fn lemma_progress<E>(
    remote_addr: SocketAddr,
    outbound_key: Seq<u8>,
    inbound_key: Seq<u8>,
    events: Seq<GatewayEvent<E>>,
)
    requires
        outbound_key.len() == KEY_SIZE,
        inbound_key.len() == KEY_SIZE,
        GatewayModel::accepting(remote_addr, outbound_key, inbound_key).awaits_all(events),
    ensures
        ({
            let start = GatewayModel::accepting(remote_addr, outbound_key, inbound_key);
            let now = start.after_all(events);
            &&& now.wf()
            &&& now.remote_addr == remote_addr
            &&& now.outbound_key == outbound_key
            &&& now.phase !is Refusing
            &&& now.phase !is Closed ==> events.len() == now.events_taken()
            &&& events.len() <= 2 * MAX_ATTEMPTS
            &&& start.acks_sent(events) <= MAX_ATTEMPTS
            &&& match now.phase {
                GatewayPhaseModel::Sending(attempt) => {
                    &&& attempt.inbound_key == inbound_key
                    &&& attempt.waiting_time == interval_after(attempt.attempts)
                    &&& start.acks_sent(events) == attempt.attempts + 1
                },
                GatewayPhaseModel::Waiting(attempt) => {
                    &&& attempt.inbound_key == inbound_key
                    &&& attempt.waiting_time == interval_after(attempt.attempts)
                    &&& start.acks_sent(events) == attempt.attempts + 1
                },
                _ => true,
            }
        }),
    decreases events.len(),
{
    if events.len() > 0 {
        let start = GatewayModel::accepting(remote_addr, outbound_key, inbound_key);
        lemma_progress(remote_addr, outbound_key, inbound_key, events.drop_last());
        stays_well_formed(start.after_all(events.drop_last()), events.last());
    }
}

/// Every handshake ends: the acknowledgement is sent a bounded number of times, and each is
/// followed by one wait.
pub proof fn every_handshake_ends<E>(
    remote_addr: SocketAddr,
    outbound_key: Seq<u8>,
    inbound_key: Seq<u8>,
    events: Seq<GatewayEvent<E>>,
)
    requires
        outbound_key.len() == KEY_SIZE,
        inbound_key.len() == KEY_SIZE,
        GatewayModel::accepting(remote_addr, outbound_key, inbound_key).awaits_all(events),
    ensures
        GatewayModel::accepting(remote_addr, outbound_key, inbound_key).acks_sent(events)
            <= MAX_ATTEMPTS,
        events.len() <= 2 * MAX_ATTEMPTS,
{
    lemma_progress(remote_addr, outbound_key, inbound_key, events);
}

/// The wait after the acknowledgement was sent for the n-th time lasts as long as the n-th
/// interval.
pub proof fn waits_grow<E>(
    remote_addr: SocketAddr,
    outbound_key: Seq<u8>,
    inbound_key: Seq<u8>,
    events: Seq<GatewayEvent<E>>,
)
    requires
        outbound_key.len() == KEY_SIZE,
        inbound_key.len() == KEY_SIZE,
        events.len() > 0,
        GatewayModel::accepting(remote_addr, outbound_key, inbound_key).awaits_all(events),
    ensures
        GatewayModel::accepting(remote_addr, outbound_key, inbound_key).action_after(events)
            matches GatewayActionModel::Wait { timeout } ==> timeout == interval_after(
            (GatewayModel::accepting(remote_addr, outbound_key, inbound_key).acks_sent(events)
                - 1) as nat,
        ),
{
    lemma_progress(remote_addr, outbound_key, inbound_key, events);
    lemma_progress(remote_addr, outbound_key, inbound_key, events.drop_last());
}

/// A handshake uses the key that the peer announced and the gateway's own, in every
/// acknowledgement it sends and in the connection that it ends in.
pub proof fn uses_both_keys<E>(
    remote_addr: SocketAddr,
    outbound_key: Seq<u8>,
    inbound_key: Seq<u8>,
    events: Seq<GatewayEvent<E>>,
)
    requires
        outbound_key.len() == KEY_SIZE,
        inbound_key.len() == KEY_SIZE,
        events.len() > 0,
        GatewayModel::accepting(remote_addr, outbound_key, inbound_key).awaits_all(events),
    ensures
        match GatewayModel::accepting(remote_addr, outbound_key, inbound_key).action_after(events) {
            GatewayActionModel::SendAck { ack } => {
                &&& ack.sealed_under == outbound_key
                &&& ack.key == inbound_key
                &&& ack.remote_addr == remote_addr
            },
            GatewayActionModel::Connected(connection) => {
                &&& connection.outbound_key == outbound_key
                &&& connection.inbound_key == inbound_key
                &&& connection.remote_addr == remote_addr
                &&& connection.my_address is None
            },
            _ => true,
        },
{
    lemma_progress(remote_addr, outbound_key, inbound_key, events.drop_last());
}

/// A gateway that waits connects with the first packet under its key, however many packets were
/// lost before, and fails with a packet under another key.
pub proof fn answers_connect<E>(handshake: GatewayModel, attempt: AttemptModel, packet: Vec<u8>)
    requires
        handshake.wf(),
        handshake.phase == GatewayPhaseModel::Waiting(attempt),
        handshake.awaits(GatewayEvent::<E>::Inbound(packet)),
    ensures
        handshake.after(GatewayEvent::<E>::Inbound(packet)) == if opened_packet(
            attempt.inbound_key,
            packet@,
        ) is Some {
            handshake.connects::<E>(attempt)
        } else {
            handshake.fails_for::<E>(FailureCause::InvalidSymmetricKey)
        },
{
}

/// A peer whose packets never arrive is connected all the same, once the acknowledgement was
/// sent as often as it may be.
pub proof fn silent_peers_are_connected<E>(handshake: GatewayModel, attempt: AttemptModel)
    requires
        handshake.wf(),
        handshake.phase == GatewayPhaseModel::Waiting(attempt),
        attempt.attempts + 1 == MAX_ATTEMPTS,
    ensures
        handshake.after(GatewayEvent::<E>::Elapsed) == handshake.connects::<E>(attempt),
{
}

/// After a wait in vain the acknowledgement is sent once more, until it was sent as often as it may
/// be. A wait in vain ends in a connection exactly then.
pub proof fn silence_repeats_the_acknowledgement<E>(
    remote_addr: SocketAddr,
    outbound_key: Seq<u8>,
    inbound_key: Seq<u8>,
    events: Seq<GatewayEvent<E>>,
)
    requires
        outbound_key.len() == KEY_SIZE,
        inbound_key.len() == KEY_SIZE,
        events.len() > 0,
        GatewayModel::accepting(remote_addr, outbound_key, inbound_key).awaits_all(events),
        events.last() is Elapsed,
    ensures
        ({
            let start = GatewayModel::accepting(remote_addr, outbound_key, inbound_key);
            let action = start.action_after(events);
            if start.acks_sent(events.drop_last()) == MAX_ATTEMPTS {
                action is Connected
            } else {
                action is SendAck
            }
        }),
{
    lemma_progress(remote_addr, outbound_key, inbound_key, events.drop_last());
}

/// Whether a gateway accepts a peer is decided by the first two bytes of the peer's intro packet
/// alone, whatever the peer's address and key. It accepts with an acknowledgement under the peer's
/// key that names its own, and refuses under the peer's key.
pub proof fn versions_alone_decide<E>(
    remote_addr: SocketAddr,
    data: Seq<u8>,
    inbound_key: Seq<u8>,
    handshake: GatewayModel,
    action: GatewayActionModel<E>,
)
    requires
        data.len() >= 18,
        opens(remote_addr, data, inbound_key, handshake, action),
    ensures
        handshake.remote_addr == remote_addr,
        handshake.outbound_key == data.subrange(2, 18),
        data[0] == 1 && data[1] == 0 ==> {
            &&& handshake.phase == GatewayPhaseModel::Sending(
                AttemptModel { inbound_key, attempts: 0, waiting_time: 200 },
            )
            &&& action == GatewayActionModel::<E>::SendAck {
                ack: AckModel {
                    sealed_under: data.subrange(2, 18),
                    key: inbound_key,
                    remote_addr,
                },
            }
        },
        !(data[0] == 1 && data[1] == 0) ==> {
            &&& handshake.phase matches GatewayPhaseModel::Refusing { protoc }
            &&& protoc@[0] == data[0] && protoc@[1] == data[1]
            &&& action == GatewayActionModel::<E>::SendAckError {
                sealed_under: data.subrange(2, 18),
            }
        },
{
    intros_are_read_by_position(data);
    if !(data[0] == 1 && data[1] == 0) {
        let protoc = handshake.phase->protoc;
        assert(protoc@ == seq![data[0], data[1]]);
    }
}

/// A gateway accepts every peer that announces a key in this version of the protocol, wherever it
/// is.
pub proof fn current_peers_are_accepted<E>(
    remote_addr: SocketAddr,
    key: Seq<u8>,
    inbound_key: Seq<u8>,
    handshake: GatewayModel,
    action: GatewayActionModel<E>,
)
    requires
        key.len() == KEY_SIZE,
        opens(remote_addr, intro_data(key), inbound_key, handshake, action),
    ensures
        handshake == GatewayModel::accepting(remote_addr, key, inbound_key),
        handshake.phase is Sending,
        action == (GatewayActionModel::<E>::SendAck {
            ack: AckModel { sealed_under: key, key: inbound_key, remote_addr },
        }),
{
    intros_hold_version_and_key(key);
    versions_alone_decide(remote_addr, intro_data(key), inbound_key, handshake, action);
    assert(intro_data(key).subrange(2, 18) =~= key) by {
        assert forall|i: int| 0 <= i < 16 implies #[trigger] intro_data(key).subrange(2, 18)[i]
            == key[i] by {
            assert(intro_data(key)[2 + i] == key[i]);
        }
    }
}

/// A handshake that accepts starts with the first of its acknowledgements, and one that refuses
/// with its refusal.
pub proof fn handshakes_start_by_sending(
    remote_addr: SocketAddr,
    outbound_key: Seq<u8>,
    inbound_key: Seq<u8>,
    protoc: [u8; 2],
)
    ensures
        GatewayModel::accepting(remote_addr, outbound_key, inbound_key) == (GatewayModel {
            remote_addr,
            outbound_key,
            phase: GatewayPhaseModel::Sending(
                AttemptModel { inbound_key, attempts: 0, waiting_time: 200 },
            ),
        }),
        GatewayModel::refusing(remote_addr, outbound_key, protoc) == (GatewayModel {
            remote_addr,
            outbound_key,
            phase: GatewayPhaseModel::Refusing { protoc },
        }),
{
}

/// A handshake takes exactly the events that can follow what it asked for: what came of sending,
/// or the end of a wait, with any packet that fits into a datagram.
pub proof fn takes_what_it_asked_for<E>(handshake: GatewayModel, event: GatewayEvent<E>)
    ensures
        handshake.awaits(event) <==> match event {
            GatewayEvent::Send(_) => handshake.phase is Sending || handshake.phase is Refusing,
            GatewayEvent::Inbound(packet) => handshake.phase is Waiting && packet@.len() <= 65_535,
            GatewayEvent::InboundClosed => handshake.phase is Waiting,
            GatewayEvent::Elapsed => handshake.phase is Waiting,
        },
{
}

/// What a handshake waits for is what it asked for last, and a handshake that has asked for its
/// end waits for nothing.
pub proof fn waits_for_what_it_asked_for<E>(handshake: GatewayModel, event: GatewayEvent<E>)
    requires
        handshake.awaits(event),
    ensures
        ({
            let (next, action) = handshake.after(event);
            match action {
                GatewayActionModel::SendAck { .. } => next.phase is Sending,
                GatewayActionModel::SendAckError { .. } => false,
                GatewayActionModel::Wait { .. } => next.phase is Waiting,
                GatewayActionModel::Connected(_) => next.phase is Closed,
                GatewayActionModel::Fail(_) => next.phase is Closed,
            }
        }),
{
}

/// Where the peer is decides nothing but the address that acknowledgements and connections name.
pub proof fn addresses_decide_nothing<E>(
    handshake: GatewayModel,
    addr: SocketAddr,
    event: GatewayEvent<E>,
)
    requires
        handshake.awaits(event),
    ensures
        ({
            let moved = GatewayModel { remote_addr: addr, ..handshake };
            let (next, action) = handshake.after(event);
            let (moved_next, moved_action) = moved.after(event);
            &&& moved.awaits(event)
            &&& moved_next == (GatewayModel { remote_addr: addr, ..next })
            &&& moved_action == match action {
                GatewayActionModel::SendAck { ack } => GatewayActionModel::SendAck {
                    ack: AckModel { remote_addr: addr, ..ack },
                },
                GatewayActionModel::Connected(connection) => GatewayActionModel::Connected(
                    ConnectionModel { remote_addr: addr, ..connection },
                ),
                _ => action,
            }
        }),
{
}

/// A handshake whose packet was not handed to the socket ends with the reason, whatever it was
/// sending.
pub proof fn unsent_packets_end_the_handshake<E>(handshake: GatewayModel, error: E)
    requires
        handshake.phase is Sending || handshake.phase is Refusing,
    ensures
        ({
            let (closed, gone) = handshake.after(
                GatewayEvent::<E>::Send(SendOutcome::ChannelClosed),
            );
            let (unbuilt, failed) = handshake.after(
                GatewayEvent::<E>::Send(SendOutcome::NotBuilt(error)),
            );
            &&& closed.phase is Closed && unbuilt.phase is Closed
            &&& gone == GatewayActionModel::Fail(TransportError::<E>::ChannelClosed)
            &&& failed == GatewayActionModel::Fail(TransportError::Other(error))
        }),
{
}

/// A gateway whose refusal is sent ends with the version that it refused.
pub proof fn refusals_name_the_version<E>(handshake: GatewayModel, protoc: [u8; 2])
    requires
        handshake.phase == (GatewayPhaseModel::Refusing { protoc }),
    ensures
        ({
            let (next, action) = handshake.after(GatewayEvent::<E>::Send(SendOutcome::Sent));
            &&& next.phase is Closed
            &&& action == GatewayActionModel::<E>::Fail(
                TransportError::ConnectionEstablishmentFailure {
                    cause: FailureCause::DifferentProtocolVersion { protoc },
                },
            )
        }),
{
}

/// A gateway that has sent its acknowledgement waits as long as the attempt says, and nothing else
/// changes.
pub proof fn sent_acknowledgements_are_waited_for<E>(handshake: GatewayModel, attempt: AttemptModel)
    requires
        handshake.phase == GatewayPhaseModel::Sending(attempt),
    ensures
        ({
            let (next, action) = handshake.after(GatewayEvent::<E>::Send(SendOutcome::Sent));
            &&& next.remote_addr == handshake.remote_addr
            &&& next.outbound_key == handshake.outbound_key
            &&& next.phase == GatewayPhaseModel::Waiting(attempt)
            &&& action == GatewayActionModel::<E>::Wait { timeout: attempt.waiting_time }
        }),
{
}

/// A gateway that waits connects with a packet exactly where the cipher opens it under the key that
/// the gateway announced. It fails with every other packet, short or long.
pub proof fn the_cipher_alone_decides<E>(
    handshake: GatewayModel,
    attempt: AttemptModel,
    packet: Vec<u8>,
)
    requires
        handshake.phase == GatewayPhaseModel::Waiting(attempt),
    ensures
        ({
            let (next, action) = handshake.after(GatewayEvent::<E>::Inbound(packet));
            let opens = packet@.len() >= 12 && aes128_gcm_opened(
                attempt.inbound_key,
                packet@.subrange(0, 12),
                packet@.subrange(12, packet@.len() as int),
            ) is Some;
            &&& next.phase is Closed
            &&& action == if opens {
                GatewayActionModel::<E>::Connected(
                    ConnectionModel {
                        remote_addr: handshake.remote_addr,
                        outbound_key: handshake.outbound_key,
                        inbound_key: attempt.inbound_key,
                        my_address: None,
                        last_packet_id: 0,
                        inbound_capacity: 100,
                        sent_tracker: SentTracker::Fresh,
                    },
                )
            } else {
                GatewayActionModel::Fail(
                    TransportError::ConnectionEstablishmentFailure {
                        cause: FailureCause::InvalidSymmetricKey,
                    },
                )
            }
        }),
{
    packets_open_as_the_cipher_does(attempt.inbound_key, packet@);
}

/// A gateway to which no packet can come any more fails, however often it has sent its
/// acknowledgement.
pub proof fn closed_queues_end_the_handshake<E>(handshake: GatewayModel)
    requires
        handshake.phase is Waiting,
    ensures
        ({
            let (next, action) = handshake.after(GatewayEvent::<E>::InboundClosed);
            &&& next.phase is Closed
            &&& action == GatewayActionModel::<E>::Fail(
                TransportError::ConnectionEstablishmentFailure {
                    cause: FailureCause::ConnectionClose,
                },
            )
        }),
{
}

/// After a wait in vain the same acknowledgement is sent again, to be waited for twice as long, up
/// to five seconds. After the thirtieth, the gateway connects.
pub proof fn vain_waits_lead_to_the_next_attempt<E>(handshake: GatewayModel, attempt: AttemptModel)
    requires
        handshake.phase == GatewayPhaseModel::Waiting(attempt),
    ensures
        ({
            let (next, action) = handshake.after(GatewayEvent::<E>::Elapsed);
            if attempt.attempts + 1 < 30 {
                &&& next.remote_addr == handshake.remote_addr
                &&& next.outbound_key == handshake.outbound_key
                &&& next.phase matches GatewayPhaseModel::Sending(following)
                &&& following.inbound_key == attempt.inbound_key
                &&& following.attempts == attempt.attempts + 1
                &&& following.waiting_time == if 2 * attempt.waiting_time <= 5_000 {
                    2 * attempt.waiting_time
                } else {
                    5_000
                }
                &&& action == GatewayActionModel::<E>::SendAck {
                    ack: AckModel {
                        sealed_under: handshake.outbound_key,
                        key: attempt.inbound_key,
                        remote_addr: handshake.remote_addr,
                    },
                }
            } else {
                &&& next.phase is Closed
                &&& action == GatewayActionModel::<E>::Connected(
                    ConnectionModel {
                        remote_addr: handshake.remote_addr,
                        outbound_key: handshake.outbound_key,
                        inbound_key: attempt.inbound_key,
                        my_address: None,
                        last_packet_id: 0,
                        inbound_capacity: 100,
                        sent_tracker: SentTracker::Fresh,
                    },
                )
            }
        }),
{
}

/// An action shows what it was made of.
pub proof fn actions_show_their_parts<E>(action: GatewayAction<E>)
    ensures
        match action {
            GatewayAction::SendAck { ack } => action@ == (GatewayActionModel::<E>::SendAck {
                ack: ack@,
            }),
            GatewayAction::SendAckError { sealed_under } => action@ == (
            GatewayActionModel::<E>::SendAckError { sealed_under: sealed_under@ }),
            GatewayAction::Wait { timeout } => action@ == (GatewayActionModel::<E>::Wait {
                timeout: timeout as nat,
            }),
            GatewayAction::Connected(connection) => action@ == GatewayActionModel::<E>::Connected(
                connection@,
            ),
            GatewayAction::Fail(error) => action@ == GatewayActionModel::Fail(error),
        },
{
}

/// A gateway that opens a handshake acknowledges a peer of its own version of the protocol and
/// refuses any other, wherever the peer is. It opens none where the peer's packet did not decrypt.
pub proof fn gateways_open_to_current_peers<E>(
    remote_addr: SocketAddr,
    decrypted: Result<Vec<u8>, E>,
    inbound_key: SymmetricKey,
    opened: Result<(GatewayHandshake, GatewayAction<E>), TransportError<E>>,
)
    requires
        decrypted matches Ok(data) ==> data@.len() >= 18,
        call_ensures(
            GatewayHandshake::open_with_key::<E>,
            (remote_addr, decrypted, inbound_key),
            opened,
        ),
    ensures
        decrypted matches Err(error) ==> opened == Err::<(GatewayHandshake, GatewayAction<E>), _>(
            TransportError::Other(error),
        ),
        decrypted matches Ok(data) ==> {
            &&& opened matches Ok((handshake, action))
            &&& handshake@.remote_addr == remote_addr
            &&& handshake@.outbound_key == data@.subrange(2, 18)
            &&& if data@[0] == 1 && data@[1] == 0 {
                &&& handshake@.phase is Sending
                &&& action@ == GatewayActionModel::<E>::SendAck {
                    ack: AckModel {
                        sealed_under: data@.subrange(2, 18),
                        key: inbound_key@,
                        remote_addr,
                    },
                }
            } else {
                &&& handshake@.phase is Refusing
                &&& action@ == GatewayActionModel::<E>::SendAckError {
                    sealed_under: data@.subrange(2, 18),
                }
            }
        },
{
    if let Ok(data) = decrypted {
        let (handshake, action) = opened->Ok_0;
        versions_alone_decide(remote_addr, data@, inbound_key@, handshake@, action@);
    }
}

/// What holds of every step of a handshake holds of the steps that handshakes take.
pub proof fn handshakes_take_these_steps<E>(
    handshake: GatewayHandshake,
    event: GatewayEvent<E>,
    next: (GatewayHandshake, GatewayAction<E>),
)
    requires
        call_ensures(GatewayHandshake::step::<E>, (handshake, event), next),
    ensures
        next.0@ == handshake@.after(event).0,
        next.1@ == handshake@.after(event).1,
{
}

/// A gateway that draws its key opens a handshake in the same way: it acknowledges with some key
/// exactly a peer of its own version of the protocol, wherever the peer is.
pub proof fn drawn_keys_decide_nothing<E>(
    remote_addr: SocketAddr,
    decrypted: Result<Vec<u8>, E>,
    opened: Result<(GatewayHandshake, GatewayAction<E>), TransportError<E>>,
)
    requires
        decrypted matches Ok(data) ==> data@.len() >= 18,
        call_ensures(GatewayHandshake::open::<E>, (remote_addr, decrypted), opened),
    ensures
        decrypted matches Err(error) ==> opened == Err::<(GatewayHandshake, GatewayAction<E>), _>(
            TransportError::Other(error),
        ),
        decrypted matches Ok(data) ==> {
            &&& opened matches Ok((handshake, action))
            &&& handshake@.remote_addr == remote_addr
            &&& handshake@.outbound_key == data@.subrange(2, 18)
            &&& if data@[0] == 1 && data@[1] == 0 {
                &&& action@ matches GatewayActionModel::SendAck { ack }
                &&& ack.sealed_under == data@.subrange(2, 18)
                &&& ack.key.len() == 16
                &&& ack.remote_addr == remote_addr
                &&& handshake@.phase == GatewayPhaseModel::Sending(
                    AttemptModel { inbound_key: ack.key, attempts: 0, waiting_time: 200 },
                )
            } else {
                &&& handshake@.phase is Refusing
                &&& action@ == GatewayActionModel::<E>::SendAckError {
                    sealed_under: data@.subrange(2, 18),
                }
            }
        },
{
    if let Ok(data) = decrypted {
        let (handshake, action) = opened->Ok_0;
        let key = choose|key: Seq<u8>|
            key.len() == KEY_SIZE && #[trigger] opens(
                remote_addr,
                data@,
                key,
                handshake@,
                action@,
            );
        versions_alone_decide(remote_addr, data@, key, handshake@, action@);
    }
}

} // verus!
