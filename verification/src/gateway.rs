//! Opening a connection to a peer that a gateway has not heard of.
//!
//! The first packet of such a peer is its intro packet. The gateway answers with an
//! acknowledgement under the key that it announces, and sends it again until the peer answers.

use vstd::pervasive::unreached;
use vstd::prelude::*;

use crate::addr::SocketAddr;
use crate::backoff::{next_interval, INITIAL_INTERVAL};
use crate::connection::{
    Ack, AckModel, RemoteConnection, SendOutcome, SentTracker, INBOUND_CAPACITY,
};
use crate::crypto::{try_decrypt_sym, SymmetricKey, KEY_SIZE};
use crate::error::{FailureCause, TransportError};
use crate::gateway_model::{
    AttemptModel, GatewayActionModel, GatewayModel, GatewayPhaseModel, MAX_ATTEMPTS,
};
use crate::intro::{
    intro_key, intro_protoc, intros_are_read_by_position, parse_intro, INTRO_SIZE, PROTOC_VERSION,
};

verus! {

/// An acknowledgement that a gateway sends until it is answered.
#[derive(Clone, Copy)]
struct Attempt {
    inbound_key: SymmetricKey,
    attempts: usize,
    waiting_time: u64,
}

/// Which event a handshake waits for.
#[derive(Clone, Copy)]
enum Phase {
    /// What came of sending a refusal.
    Refusing { protoc: [u8; 2] },
    /// What came of sending the acknowledgement.
    Sending(Attempt),
    /// A packet of the peer, or the end of the wait for one.
    Waiting(Attempt),
    /// None. The handshake is over.
    Closed,
}

/// A handshake of a gateway with a peer.
pub struct GatewayHandshake {
    remote_addr: SocketAddr,
    outbound_key: SymmetricKey,
    phase: Phase,
}

/// Something that happened, for a handshake to go on from.
pub enum GatewayEvent<E> {
    /// A packet was sent, or not.
    Send(SendOutcome<E>),
    /// A packet of the peer arrived.
    Inbound(Vec<u8>),
    /// No packet of the peer will arrive any more.
    InboundClosed,
    /// No packet of the peer arrived in time.
    Elapsed,
}

/// What a handshake asks for.
pub enum GatewayAction<E> {
    /// Send this acknowledgement. It is the same every time, so it need be built only once.
    SendAck { ack: Ack },
    /// Send a refusal, sealed under this key.
    SendAckError { sealed_under: SymmetricKey },
    /// Wait so many milliseconds for a packet of the peer.
    Wait { timeout: u64 },
    /// The connection is open.
    Connected(RemoteConnection),
    /// The connection cannot be opened.
    Fail(TransportError<E>),
}

impl View for Attempt {
    type V = AttemptModel;

    closed spec fn view(&self) -> AttemptModel {
        AttemptModel {
            inbound_key: self.inbound_key@,
            attempts: self.attempts as nat,
            waiting_time: self.waiting_time as nat,
        }
    }
}

impl View for Phase {
    type V = GatewayPhaseModel;

    closed spec fn view(&self) -> GatewayPhaseModel {
        match *self {
            Phase::Refusing { protoc } => GatewayPhaseModel::Refusing { protoc },
            Phase::Sending(attempt) => GatewayPhaseModel::Sending(attempt@),
            Phase::Waiting(attempt) => GatewayPhaseModel::Waiting(attempt@),
            Phase::Closed => GatewayPhaseModel::Closed,
        }
    }
}

impl<E> View for GatewayAction<E> {
    type V = GatewayActionModel<E>;

    open spec fn view(&self) -> GatewayActionModel<E> {
        match *self {
            GatewayAction::SendAck { ack } => GatewayActionModel::SendAck { ack: ack@ },
            GatewayAction::SendAckError { sealed_under } => GatewayActionModel::SendAckError {
                sealed_under: sealed_under@,
            },
            GatewayAction::Wait { timeout } => GatewayActionModel::Wait {
                timeout: timeout as nat,
            },
            GatewayAction::Connected(connection) => GatewayActionModel::Connected(connection@),
            GatewayAction::Fail(error) => GatewayActionModel::Fail(error),
        }
    }
}

impl View for GatewayHandshake {
    type V = GatewayModel;

    closed spec fn view(&self) -> GatewayModel {
        GatewayModel {
            remote_addr: self.remote_addr,
            outbound_key: self.outbound_key@,
            phase: self.phase@,
        }
    }
}

/// How a gateway's handshake with the peer at `remote_addr` starts: with a refusal, where the
/// peer's intro packet is of another version of the protocol, and else with an acknowledgement
/// that names `inbound_key`.
pub open spec fn opens<E>(
    remote_addr: SocketAddr,
    intro: Seq<u8>,
    inbound_key: Seq<u8>,
    handshake: GatewayModel,
    action: GatewayActionModel<E>,
) -> bool {
    if intro_protoc(intro) == PROTOC_VERSION@ {
        &&& handshake == GatewayModel::accepting(remote_addr, intro_key(intro), inbound_key)
        &&& action == GatewayActionModel::<E>::SendAck {
            ack: handshake.ack(AttemptModel::first(inbound_key)),
        }
    } else {
        &&& handshake.phase matches GatewayPhaseModel::Refusing { protoc }
        &&& protoc@ == intro_protoc(intro)
        &&& handshake == GatewayModel::refusing(remote_addr, intro_key(intro), protoc)
        &&& action == GatewayActionModel::<E>::SendAckError { sealed_under: intro_key(intro) }
    }
}

impl GatewayHandshake {
    #[verifier::type_invariant]
    spec fn inv(self) -> bool {
        self@.wf()
    }

    /// Opens a handshake with the peer at `remote_addr`, whose first packet was decrypted to
    /// these data, or not. The key that the peer is told to seal under is drawn at random.
    pub fn open<E>(remote_addr: SocketAddr, decrypted: Result<Vec<u8>, E>) -> (opened: Result<
        (GatewayHandshake, GatewayAction<E>),
        TransportError<E>,
    >)
        requires
            decrypted matches Ok(intro) ==> intro@.len() >= INTRO_SIZE,
        ensures
            match decrypted {
                Ok(intro) => opened matches Ok((handshake, action)) && exists|key: Seq<u8>|
                    key.len() == KEY_SIZE && #[trigger] opens(
                        remote_addr,
                        intro@,
                        key,
                        handshake@,
                        action@,
                    ) && action@ == (if intro@[0] == 1 && intro@[1] == 0 {
                        GatewayActionModel::<E>::SendAck {
                            ack: AckModel {
                                sealed_under: intro@.subrange(2, 18),
                                key,
                                remote_addr,
                            },
                        }
                    } else {
                        GatewayActionModel::SendAckError { sealed_under: intro@.subrange(2, 18) }
                    }),
                Err(error) => opened == Err::<(GatewayHandshake, GatewayAction<E>), _>(
                    TransportError::Other(error),
                ),
            },
    {
        GatewayHandshake::open_with_key(remote_addr, decrypted, SymmetricKey::generate())
    }

    /// Opens a handshake with the peer at `remote_addr`, whose first packet was decrypted to
    /// these data, or not. The peer is told to seal under `inbound_key`.
    pub fn open_with_key<E>(
        remote_addr: SocketAddr,
        decrypted: Result<Vec<u8>, E>,
        inbound_key: SymmetricKey,
    ) -> (opened: Result<(GatewayHandshake, GatewayAction<E>), TransportError<E>>)
        requires
            decrypted matches Ok(intro) ==> intro@.len() >= INTRO_SIZE,
        ensures
            match decrypted {
                Ok(intro) => opened matches Ok((handshake, action)) && opens(
                    remote_addr,
                    intro@,
                    inbound_key@,
                    handshake@,
                    action@,
                ) && handshake@.remote_addr == remote_addr && handshake@.outbound_key
                    == intro@.subrange(2, 18) && action@ == (if intro@[0] == 1 && intro@[1] == 0 {
                    GatewayActionModel::<E>::SendAck {
                        ack: AckModel {
                            sealed_under: intro@.subrange(2, 18),
                            key: inbound_key@,
                            remote_addr,
                        },
                    }
                } else {
                    GatewayActionModel::SendAckError { sealed_under: intro@.subrange(2, 18) }
                }),
                Err(error) => opened == Err::<(GatewayHandshake, GatewayAction<E>), _>(
                    TransportError::Other(error),
                ),
            },
    {
        let data = match decrypted {
            Ok(data) => data,
            Err(error) => {
                return Err(TransportError::Other(error));
            },
        };
        let intro = match parse_intro(&data) {
            Some(intro) => intro,
            None => unreached(),
        };
        proof {
            intro.key.lemma_len();
            inbound_key.lemma_len();
            intros_are_read_by_position(data@);
        }
        if !intro.is_current() {
            let handshake = GatewayHandshake {
                remote_addr,
                outbound_key: intro.key,
                phase: Phase::Refusing { protoc: intro.protoc },
            };
            return Ok((handshake, GatewayAction::SendAckError { sealed_under: intro.key }));
        }
        let attempt = Attempt { inbound_key, attempts: 0, waiting_time: INITIAL_INTERVAL };
        let handshake = GatewayHandshake {
            remote_addr,
            outbound_key: intro.key,
            phase: Phase::Sending(attempt),
        };
        let ack = handshake.ack(&attempt);
        Ok((handshake, GatewayAction::SendAck { ack }))
    }

    /// Goes on from an event, and says what to do next.
    pub fn step<E>(self, event: GatewayEvent<E>) -> (next: (GatewayHandshake, GatewayAction<E>))
        requires
            self@.awaits(event),
        ensures
            (next.0@, next.1@) == self@.after(event),
    {
        proof {
            use_type_invariant(&self);
        }
        match event {
            GatewayEvent::Send(SendOutcome::Sent) => match self.phase {
                Phase::Refusing { protoc } => self.fail_for(
                    FailureCause::DifferentProtocolVersion { protoc },
                ),
                Phase::Sending(attempt) => (
                    GatewayHandshake { phase: Phase::Waiting(attempt), ..self },
                    GatewayAction::Wait { timeout: attempt.waiting_time },
                ),
                _ => unreached(),
            },
            GatewayEvent::Send(SendOutcome::ChannelClosed) => self.fail(
                TransportError::ChannelClosed,
            ),
            GatewayEvent::Send(SendOutcome::NotBuilt(error)) => self.fail(
                TransportError::Other(error),
            ),
            GatewayEvent::Inbound(packet) => match self.phase {
                Phase::Waiting(attempt) => match try_decrypt_sym(&packet, &attempt.inbound_key) {
                    Some(_) => self.connect(&attempt),
                    None => self.fail_for(FailureCause::InvalidSymmetricKey),
                },
                _ => unreached(),
            },
            GatewayEvent::InboundClosed => self.fail_for(FailureCause::ConnectionClose),
            GatewayEvent::Elapsed => match self.phase {
                Phase::Waiting(attempt) => self.elapsed(attempt),
                _ => unreached(),
            },
        }
    }

    /// The acknowledgement that names the gateway's key, sealed under the peer's.
    fn ack(&self, attempt: &Attempt) -> (ack: Ack)
        ensures
            ack@ == self@.ack(attempt@),
    {
        Ack {
            sealed_under: self.outbound_key,
            key: attempt.inbound_key,
            remote_addr: self.remote_addr,
        }
    }

    /// Ends with a failure.
    fn fail<E>(self, error: TransportError<E>) -> (next: (GatewayHandshake, GatewayAction<E>))
        ensures
            (next.0@, next.1@) == self@.fails(error),
    {
        proof {
            use_type_invariant(&self);
        }
        (GatewayHandshake { phase: Phase::Closed, ..self }, GatewayAction::Fail(error))
    }

    /// Ends with a failure to establish the connection.
    fn fail_for<E>(self, cause: FailureCause) -> (next: (GatewayHandshake, GatewayAction<E>))
        ensures
            (next.0@, next.1@) == self@.fails_for::<E>(cause),
    {
        self.fail(TransportError::ConnectionEstablishmentFailure { cause })
    }

    /// Ends with a connection.
    fn connect<E>(self, attempt: &Attempt) -> (next: (GatewayHandshake, GatewayAction<E>))
        ensures
            (next.0@, next.1@) == self@.connects::<E>(attempt@),
    {
        proof {
            use_type_invariant(&self);
        }
        let connection = RemoteConnection {
            remote_addr: self.remote_addr,
            outbound_symmetric_key: self.outbound_key,
            inbound_symmetric_key: attempt.inbound_key,
            my_address: None,
            last_packet_id: 0,
            inbound_capacity: INBOUND_CAPACITY,
            sent_tracker: SentTracker::Fresh,
        };
        (
            GatewayHandshake { phase: Phase::Closed, ..self },
            GatewayAction::Connected(connection),
        )
    }

    /// Goes on from a wait in which no packet came.
    fn elapsed<E>(self, attempt: Attempt) -> (next: (GatewayHandshake, GatewayAction<E>))
        requires
            self@.phase == GatewayPhaseModel::Waiting(attempt@),
        ensures
            (next.0@, next.1@) == self@.after_wait(attempt@, GatewayEvent::<E>::Elapsed),
    {
        proof {
            use_type_invariant(&self);
        }
        if attempt.attempts + 1 >= MAX_ATTEMPTS {
            return self.connect(&attempt);
        }
        let following = Attempt {
            inbound_key: attempt.inbound_key,
            attempts: attempt.attempts + 1,
            waiting_time: next_interval(attempt.waiting_time),
        };
        let next = GatewayHandshake { phase: Phase::Sending(following), ..self };
        let ack = next.ack(&following);
        (next, GatewayAction::SendAck { ack })
    }
}

} // verus!
