//! The handshake of a gateway with a peer as a transition system.

use vstd::prelude::*;

use crate::addr::SocketAddr;
use crate::backoff::{longer_interval, INITIAL_INTERVAL, MAX_INTERVAL};
use crate::connection::{AckModel, ConnectionModel, SendOutcome, SentTracker, INBOUND_CAPACITY};
use crate::crypto::{opened_packet, KEY_SIZE, MAX_DATAGRAM};
use crate::error::{FailureCause, TransportError};
use crate::gateway::GatewayEvent;

verus! {

/// How many times a gateway sends its acknowledgement without an answer.
pub const MAX_ATTEMPTS: usize = 30;

/// An acknowledgement that a gateway sends until it is answered.
pub struct AttemptModel {
    /// The key under which the peer is told to seal.
    pub inbound_key: Seq<u8>,
    /// How many waits for an answer were in vain.
    pub attempts: nat,
    /// How long the next wait is.
    pub waiting_time: nat,
}

/// Which event a handshake waits for.
pub enum GatewayPhaseModel {
    Refusing { protoc: [u8; 2] },
    Sending(AttemptModel),
    Waiting(AttemptModel),
    Closed,
}

/// A handshake of a gateway with a peer.
pub struct GatewayModel {
    pub remote_addr: SocketAddr,
    pub outbound_key: Seq<u8>,
    pub phase: GatewayPhaseModel,
}

/// What a handshake asks for.
pub enum GatewayActionModel<E> {
    SendAck { ack: AckModel },
    SendAckError { sealed_under: Seq<u8> },
    Wait { timeout: nat },
    Connected(ConnectionModel),
    Fail(TransportError<E>),
}

impl AttemptModel {
    /// The first attempt.
    pub open spec fn first(inbound_key: Seq<u8>) -> AttemptModel {
        AttemptModel { inbound_key, attempts: 0, waiting_time: INITIAL_INTERVAL as nat }
    }

    /// The attempt after this one.
    pub open spec fn following(self) -> AttemptModel {
        AttemptModel {
            inbound_key: self.inbound_key,
            attempts: self.attempts + 1,
            waiting_time: longer_interval(self.waiting_time),
        }
    }

    /// What holds of every attempt.
    pub open spec fn wf(self) -> bool {
        &&& self.inbound_key.len() == KEY_SIZE
        &&& self.attempts < MAX_ATTEMPTS
        &&& self.waiting_time <= MAX_INTERVAL
    }
}

impl GatewayModel {
    /// A handshake with a peer that speaks another version of the protocol.
    pub open spec fn refusing(
        remote_addr: SocketAddr,
        outbound_key: Seq<u8>,
        protoc: [u8; 2],
    ) -> GatewayModel {
        GatewayModel { remote_addr, outbound_key, phase: GatewayPhaseModel::Refusing { protoc } }
    }

    /// A handshake with a peer that is told to seal under `inbound_key`.
    pub open spec fn accepting(
        remote_addr: SocketAddr,
        outbound_key: Seq<u8>,
        inbound_key: Seq<u8>,
    ) -> GatewayModel {
        GatewayModel {
            remote_addr,
            outbound_key,
            phase: GatewayPhaseModel::Sending(AttemptModel::first(inbound_key)),
        }
    }

    /// What holds of every handshake.
    pub open spec fn wf(self) -> bool {
        &&& self.outbound_key.len() == KEY_SIZE
        &&& match self.phase {
            GatewayPhaseModel::Sending(attempt) => attempt.wf(),
            GatewayPhaseModel::Waiting(attempt) => attempt.wf(),
            _ => true,
        }
    }

    /// Whether an event is one that the handshake waits for.
    pub open spec fn awaits<E>(self, event: GatewayEvent<E>) -> bool {
        match event {
            GatewayEvent::Send(_) => self.phase is Refusing || self.phase is Sending,
            GatewayEvent::Inbound(packet) => self.phase is Waiting && packet@.len()
                <= MAX_DATAGRAM,
            GatewayEvent::InboundClosed => self.phase is Waiting,
            GatewayEvent::Elapsed => self.phase is Waiting,
        }
    }

    /// The acknowledgement that names the gateway's key, sealed under the peer's.
    pub open spec fn ack(self, attempt: AttemptModel) -> AckModel {
        AckModel {
            sealed_under: self.outbound_key,
            key: attempt.inbound_key,
            remote_addr: self.remote_addr,
        }
    }

    /// The handshake waits for another event.
    pub open spec fn goes_to(self, phase: GatewayPhaseModel) -> GatewayModel {
        GatewayModel { phase, ..self }
    }

    /// The handshake ends with a failure.
    pub open spec fn fails<E>(self, error: TransportError<E>) -> (
        GatewayModel,
        GatewayActionModel<E>,
    ) {
        (self.goes_to(GatewayPhaseModel::Closed), GatewayActionModel::Fail(error))
    }

    /// The handshake ends with a failure to establish the connection.
    pub open spec fn fails_for<E>(self, cause: FailureCause) -> (
        GatewayModel,
        GatewayActionModel<E>,
    ) {
        self.fails(TransportError::ConnectionEstablishmentFailure { cause })
    }

    /// The handshake ends with a connection.
    pub open spec fn connects<E>(self, attempt: AttemptModel) -> (
        GatewayModel,
        GatewayActionModel<E>,
    ) {
        (
            self.goes_to(GatewayPhaseModel::Closed),
            GatewayActionModel::Connected(
                ConnectionModel {
                    remote_addr: self.remote_addr,
                    outbound_key: self.outbound_key,
                    inbound_key: attempt.inbound_key,
                    my_address: None,
                    last_packet_id: 0,
                    inbound_capacity: INBOUND_CAPACITY as nat,
                    sent_tracker: SentTracker::Fresh,
                },
            ),
        )
    }

    /// What follows a packet that was sent.
    pub open spec fn after_sent<E>(self) -> (GatewayModel, GatewayActionModel<E>) {
        match self.phase {
            GatewayPhaseModel::Refusing { protoc } => self.fails_for(
                FailureCause::DifferentProtocolVersion { protoc },
            ),
            GatewayPhaseModel::Sending(attempt) => (
                self.goes_to(GatewayPhaseModel::Waiting(attempt)),
                GatewayActionModel::Wait { timeout: attempt.waiting_time },
            ),
            _ => arbitrary(),
        }
    }

    /// What follows the end of a wait: a packet of the peer, no packet in time, or none any
    /// more.
    ///
    /// A packet under the gateway's key opens the connection. So does the last wait, where no
    /// packet came in any.
    pub open spec fn after_wait<E>(self, attempt: AttemptModel, event: GatewayEvent<E>) -> (
        GatewayModel,
        GatewayActionModel<E>,
    ) {
        match event {
            GatewayEvent::Inbound(packet) => if opened_packet(
                attempt.inbound_key,
                packet@,
            ) is Some {
                self.connects(attempt)
            } else {
                self.fails_for(FailureCause::InvalidSymmetricKey)
            },
            GatewayEvent::Elapsed => if attempt.attempts + 1 < MAX_ATTEMPTS {
                let following = attempt.following();
                (
                    self.goes_to(GatewayPhaseModel::Sending(following)),
                    GatewayActionModel::SendAck { ack: self.ack(following) },
                )
            } else {
                self.connects(attempt)
            },
            _ => self.fails_for(FailureCause::ConnectionClose),
        }
    }

    /// What follows an event: how the handshake goes on, and what it asks for.
    pub open spec fn after<E>(self, event: GatewayEvent<E>) -> (
        GatewayModel,
        GatewayActionModel<E>,
    ) {
        match event {
            GatewayEvent::Send(SendOutcome::Sent) => self.after_sent(),
            GatewayEvent::Send(SendOutcome::ChannelClosed) => self.fails(
                TransportError::ChannelClosed,
            ),
            GatewayEvent::Send(SendOutcome::NotBuilt(error)) => self.fails(
                TransportError::Other(error),
            ),
            _ => match self.phase {
                GatewayPhaseModel::Waiting(attempt) => self.after_wait(attempt, event),
                _ => arbitrary(),
            },
        }
    }
}

} // verus!
