//! The handshake between two peers as a transition system.

use vstd::prelude::*;

use crate::addr::SocketAddr;
use crate::backoff::{
    longer_interval, longer_timeout, INITIAL_INTERVAL, INITIAL_TIMEOUT, MAX_INTERVAL, MAX_TIMEOUT,
};
use crate::connection::{
    AckModel, ConnectionModel, SendOutcome, SentTracker, SymmetricMessagePayload,
    INBOUND_CAPACITY, REMOTE_INBOUND_CAPACITY,
};
use crate::crypto::{opened_packet, KEY_SIZE, MAX_DATAGRAM};
use crate::error::{FailureCause, TransportError};
use crate::intro::{intro_key, is_current_intro};
use crate::traversal::TraversalEvent;

verus! {

/// How many attempts may fail before a handshake gives up.
pub const NAT_TRAVERSAL_MAX_ATTEMPTS: usize = 20;

/// How far the two peers have come.
pub enum StateModel {
    StartOutbound,
    RemoteInbound { intro_packet: Seq<u8>, outbound_key: Seq<u8> },
}

/// Which event a handshake waits for.
pub enum PhaseModel {
    Sending,
    Waiting,
    Deserializing,
    Decrypting { packet: Seq<u8> },
    Confirming { outbound_key: Seq<u8>, my_address: SocketAddr },
    Pausing,
    Closed,
}

/// A handshake with a remote peer.
pub struct TraversalModel {
    pub remote_addr: SocketAddr,
    pub inbound_key: Seq<u8>,
    pub state: StateModel,
    pub phase: PhaseModel,
    pub failures: nat,
    pub timeout: nat,
    pub interval: nat,
}

/// What a handshake asks for.
pub enum ActionModel<E> {
    SendIntro,
    SendAck { ack: AckModel, track: bool },
    Wait { timeout: nat },
    Deserialize { data: Seq<u8> },
    DecryptIntro { packet: Seq<u8> },
    Tick { restart: Option<nat> },
    Connected(ConnectionModel),
    Fail(TransportError<E>),
}

impl TraversalModel {
    /// A handshake before anything was sent.
    pub open spec fn initial(remote_addr: SocketAddr, inbound_key: Seq<u8>) -> TraversalModel {
        TraversalModel {
            remote_addr,
            inbound_key,
            state: StateModel::StartOutbound,
            phase: PhaseModel::Sending,
            failures: 0,
            timeout: INITIAL_TIMEOUT as nat,
            interval: INITIAL_INTERVAL as nat,
        }
    }

    /// What holds of every handshake.
    pub open spec fn wf(self) -> bool {
        &&& self.inbound_key.len() == KEY_SIZE
        &&& self.failures <= NAT_TRAVERSAL_MAX_ATTEMPTS
        &&& self.phase !is Pausing && self.phase !is Closed ==> self.failures
            < NAT_TRAVERSAL_MAX_ATTEMPTS
        &&& self.timeout <= MAX_TIMEOUT
        &&& self.interval <= MAX_INTERVAL
        &&& self.state matches StateModel::RemoteInbound { outbound_key, .. } ==> {
            &&& outbound_key.len() == KEY_SIZE
            &&& self.phase is Sending || self.phase is Waiting || self.phase is Pausing
                || self.phase is Closed
        }
        &&& self.phase matches PhaseModel::Confirming { outbound_key, .. } ==> outbound_key.len()
            == KEY_SIZE
    }

    /// Whether an event is one that the handshake waits for.
    ///
    /// A decrypted packet is the remote's intro packet, in this version of the protocol.
    pub open spec fn awaits<E>(self, event: TraversalEvent<E>) -> bool {
        match event {
            TraversalEvent::Send(_) => self.phase is Sending || self.phase is Confirming,
            TraversalEvent::Inbound(packet) => self.phase is Waiting && packet@.len()
                <= MAX_DATAGRAM,
            TraversalEvent::InboundClosed => self.phase is Waiting,
            TraversalEvent::Elapsed => self.phase is Waiting,
            TraversalEvent::Deserialized(_) => self.phase is Deserializing,
            TraversalEvent::Decrypted(data) => self.phase is Decrypting && (data matches Some(data)
                ==> is_current_intro(data@)),
            TraversalEvent::Ticked => self.phase is Pausing,
        }
    }

    /// The acknowledgement that names this peer's key, sealed under the remote's.
    pub open spec fn ack(self, outbound_key: Seq<u8>) -> AckModel {
        AckModel {
            sealed_under: outbound_key,
            key: self.inbound_key,
            remote_addr: self.remote_addr,
        }
    }

    /// The connection with this peer's key and the remote's.
    pub open spec fn connection(
        self,
        outbound_key: Seq<u8>,
        my_address: Option<SocketAddr>,
        inbound_capacity: usize,
        sent_tracker: SentTracker,
    ) -> ConnectionModel {
        ConnectionModel {
            remote_addr: self.remote_addr,
            outbound_key,
            inbound_key: self.inbound_key,
            my_address,
            last_packet_id: 0,
            inbound_capacity: inbound_capacity as nat,
            sent_tracker,
        }
    }

    /// The handshake waits for another event.
    pub open spec fn goes_to(self, phase: PhaseModel) -> TraversalModel {
        TraversalModel { phase, ..self }
    }

    /// The handshake ends with `action`.
    pub open spec fn ends<E>(self, action: ActionModel<E>) -> (TraversalModel, ActionModel<E>) {
        (self.goes_to(PhaseModel::Closed), action)
    }

    /// The handshake ends with a failure.
    pub open spec fn fails<E>(self, error: TransportError<E>) -> (TraversalModel, ActionModel<E>) {
        self.ends(ActionModel::Fail(error))
    }

    /// The handshake ends with a failure to establish the connection.
    pub open spec fn fails_for<E>(self, cause: FailureCause) -> (
        TraversalModel,
        ActionModel<E>,
    ) {
        self.fails(TransportError::ConnectionEstablishmentFailure { cause })
    }

    /// The next attempt: send what the state calls for, or give up where all attempts failed.
    pub open spec fn attempts<E>(self) -> (TraversalModel, ActionModel<E>) {
        if self.failures >= NAT_TRAVERSAL_MAX_ATTEMPTS {
            self.fails_for(FailureCause::MaxAttemptsReached)
        } else {
            (
                self.goes_to(PhaseModel::Sending),
                match self.state {
                    StateModel::StartOutbound => ActionModel::SendIntro,
                    StateModel::RemoteInbound { outbound_key, .. } => ActionModel::SendAck {
                        ack: self.ack(outbound_key),
                        track: true,
                    },
                },
            )
        }
    }

    /// One more attempt failed.
    pub open spec fn failed_once(self) -> TraversalModel {
        TraversalModel { failures: self.failures + 1, ..self }
    }

    /// The handshake with a longer timeout and a longer interval.
    pub open spec fn backed_off(self) -> TraversalModel {
        TraversalModel {
            timeout: longer_timeout(self.timeout),
            interval: if self.interval < MAX_INTERVAL {
                longer_interval(self.interval)
            } else {
                self.interval
            },
            ..self
        }
    }

    /// What follows a packet of the remote.
    ///
    /// The first packet of the remote is an acknowledgement, under this peer's key, or else the
    /// remote's intro packet. After an intro packet, another packet means that the remote has
    /// connected, unless it is the same intro packet again.
    pub open spec fn after_inbound<E>(self, packet: Seq<u8>) -> (TraversalModel, ActionModel<E>) {
        match self.state {
            StateModel::StartOutbound => match opened_packet(self.inbound_key, packet) {
                Some(data) => (
                    self.goes_to(PhaseModel::Deserializing),
                    ActionModel::Deserialize { data },
                ),
                None => (
                    self.goes_to(PhaseModel::Decrypting { packet }),
                    ActionModel::DecryptIntro { packet },
                ),
            },
            StateModel::RemoteInbound { intro_packet, outbound_key } => if packet == intro_packet {
                self.failed_once().attempts()
            } else {
                self.ends(
                    ActionModel::Connected(
                        self.connection(
                            outbound_key,
                            None,
                            REMOTE_INBOUND_CAPACITY,
                            SentTracker::Fresh,
                        ),
                    ),
                )
            },
        }
    }

    /// What follows a message of the remote.
    pub open spec fn after_message<E>(self, message: SymmetricMessagePayload) -> (
        TraversalModel,
        ActionModel<E>,
    ) {
        match message {
            SymmetricMessagePayload::AckConnection { result: Ok(remote) } => if remote.key@.len()
                == KEY_SIZE {
                (
                    self.goes_to(
                        PhaseModel::Confirming {
                            outbound_key: remote.key@,
                            my_address: remote.remote_addr,
                        },
                    ),
                    ActionModel::SendAck { ack: self.ack(remote.key@), track: false },
                )
            } else {
                self.fails_for(FailureCause::InvalidSymmetricKey)
            },
            SymmetricMessagePayload::AckConnection { result: Err(text) } => self.fails_for(
                FailureCause::Remote(text),
            ),
            SymmetricMessagePayload::Other => self.failed_once().attempts(),
        }
    }

    /// What follows a packet that was sent.
    pub open spec fn after_sent<E>(self) -> (TraversalModel, ActionModel<E>) {
        match self.phase {
            PhaseModel::Confirming { outbound_key, my_address } => self.ends(
                ActionModel::Connected(
                    self.connection(
                        outbound_key,
                        Some(my_address),
                        INBOUND_CAPACITY,
                        SentTracker::OfHandshake,
                    ),
                ),
            ),
            _ => (
                self.goes_to(PhaseModel::Waiting),
                ActionModel::Wait { timeout: self.timeout },
            ),
        }
    }

    /// What follows a wait in which no packet came.
    pub open spec fn after_elapsed<E>(self) -> (TraversalModel, ActionModel<E>) {
        if self.timeout >= MAX_TIMEOUT {
            self.failed_once().fails_for(FailureCause::MaxAttemptsReached)
        } else {
            let next = self.failed_once().backed_off().goes_to(PhaseModel::Pausing);
            (
                next,
                ActionModel::Tick {
                    restart: if self.interval < MAX_INTERVAL {
                        Some(next.interval)
                    } else {
                        None
                    },
                },
            )
        }
    }

    /// What follows the decryption of a packet that is not sealed under this peer's key.
    pub open spec fn after_decrypted<E>(self, data: Option<Seq<u8>>) -> (
        TraversalModel,
        ActionModel<E>,
    ) {
        match (data, self.phase) {
            (Some(data), PhaseModel::Decrypting { packet }) => (TraversalModel {
                state: StateModel::RemoteInbound {
                    intro_packet: packet,
                    outbound_key: intro_key(data),
                },
                ..self
            }).attempts(),
            _ => self.failed_once().attempts(),
        }
    }

    /// What follows an event: how the handshake goes on, and what it asks for.
    pub open spec fn after<E>(self, event: TraversalEvent<E>) -> (TraversalModel, ActionModel<E>) {
        match event {
            TraversalEvent::Send(SendOutcome::Sent) => self.after_sent(),
            TraversalEvent::Send(SendOutcome::ChannelClosed) => self.fails(
                TransportError::ChannelClosed,
            ),
            TraversalEvent::Send(SendOutcome::NotBuilt(error)) => self.fails(
                TransportError::Other(error),
            ),
            TraversalEvent::Inbound(packet) => self.after_inbound(packet@),
            TraversalEvent::InboundClosed => self.fails(
                TransportError::ConnectionClosed(self.remote_addr),
            ),
            TraversalEvent::Elapsed => self.after_elapsed(),
            TraversalEvent::Deserialized(Ok(message)) => self.after_message(message),
            TraversalEvent::Deserialized(Err(error)) => self.fails(TransportError::Other(error)),
            TraversalEvent::Decrypted(data) => self.after_decrypted(
                match data {
                    Some(data) => Some(data@),
                    None => None,
                },
            ),
            TraversalEvent::Ticked => self.attempts(),
        }
    }
}

} // verus!
