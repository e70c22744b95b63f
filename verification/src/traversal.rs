//! Opening a connection to a peer through the NATs that both may be behind.
//!
//! Both peers start at about the same time and send each other their intro packet until one gets
//! through. The peer that receives it knows the remote's key and acknowledges under it. A peer
//! that is acknowledged confirms under the remote's key and is connected. A peer that acknowledged
//! is connected with the next packet of the remote.

use vstd::prelude::*;

use crate::addr::SocketAddr;
use crate::backoff::{
    next_interval, next_timeout, INITIAL_INTERVAL, INITIAL_TIMEOUT, MAX_INTERVAL, MAX_TIMEOUT,
};
use crate::connection::{
    is_intro_packet, Ack, RemoteConnection, SendOutcome, SentTracker, SymmetricMessagePayload,
    INBOUND_CAPACITY, REMOTE_INBOUND_CAPACITY,
};
use crate::crypto::{try_decrypt_sym, SymmetricKey, KEY_SIZE, MAX_DATAGRAM};
use crate::error::{FailureCause, TransportError};
use crate::intro::{encode_intro, intro_data, parse_intro};
use crate::traversal_model::{
    ActionModel, PhaseModel, StateModel, TraversalModel, NAT_TRAVERSAL_MAX_ATTEMPTS,
};

verus! {

/// How far the two peers have come.
enum ConnectionState {
    /// Nothing has come from the remote. Where every handshake starts.
    StartOutbound,
    /// The remote's intro packet has come, so the NATs are traversed.
    RemoteInbound {
        /// The intro packet as it came, to know it again.
        intro_packet: Vec<u8>,
        /// The key that it announces.
        outbound_key: SymmetricKey,
    },
}

/// Which event a handshake waits for.
enum Phase {
    /// What came of sending.
    Sending,
    /// A packet of the remote, or the end of the wait for one.
    Waiting,
    /// What an opened packet says.
    Deserializing,
    /// What came of decrypting a packet.
    Decrypting { packet: Vec<u8> },
    /// What came of sending the acknowledgement of an acknowledgement.
    Confirming { outbound_key: SymmetricKey, my_address: SocketAddr },
    /// The end of the pause between two attempts.
    Pausing,
    /// None. The handshake is over.
    Closed,
}

/// A handshake with a remote peer.
pub struct NatTraversal {
    remote_addr: SocketAddr,
    inbound_key: SymmetricKey,
    state: ConnectionState,
    phase: Phase,
    failures: usize,
    timeout: u64,
    interval: u64,
}

/// Something that happened, for a handshake to go on from.
pub enum TraversalEvent<E> {
    /// A packet was sent, or not.
    Send(SendOutcome<E>),
    /// A packet of the remote arrived.
    Inbound(Vec<u8>),
    /// No packet of the remote will arrive any more.
    InboundClosed,
    /// No packet of the remote arrived in time.
    Elapsed,
    /// The data of an opened packet are this message, or none.
    Deserialized(Result<SymmetricMessagePayload, E>),
    /// A packet was decrypted with this peer's secret key, or is not encrypted for it.
    Decrypted(Option<Vec<u8>>),
    /// The pause between two attempts is over.
    Ticked,
}

/// What a handshake asks for.
pub enum TraversalAction<E> {
    /// Send the intro packet: the data that [`NatTraversal::intro`] gives, encrypted for the
    /// remote.
    SendIntro,
    /// Build this acknowledgement and send it. Where `track` holds, report it as sent.
    SendAck { ack: Ack, track: bool },
    /// Wait so many milliseconds for a packet of the remote.
    Wait { timeout: u64 },
    /// Read a message out of these data.
    Deserialize { data: Vec<u8> },
    /// Decrypt this packet with this peer's secret key.
    DecryptIntro { packet: Vec<u8> },
    /// Wait for the next tick of the interval, restarted with so many milliseconds if that is
    /// given.
    Tick { restart: Option<u64> },
    /// The connection is open.
    Connected(RemoteConnection),
    /// The connection cannot be opened.
    Fail(TransportError<E>),
}

impl View for ConnectionState {
    type V = StateModel;

    closed spec fn view(&self) -> StateModel {
        match *self {
            ConnectionState::StartOutbound => StateModel::StartOutbound,
            ConnectionState::RemoteInbound { intro_packet, outbound_key } =>
                StateModel::RemoteInbound {
                    intro_packet: intro_packet@,
                    outbound_key: outbound_key@,
                },
        }
    }
}

impl View for Phase {
    type V = PhaseModel;

    closed spec fn view(&self) -> PhaseModel {
        match *self {
            Phase::Sending => PhaseModel::Sending,
            Phase::Waiting => PhaseModel::Waiting,
            Phase::Deserializing => PhaseModel::Deserializing,
            Phase::Decrypting { packet } => PhaseModel::Decrypting { packet: packet@ },
            Phase::Confirming { outbound_key, my_address } => PhaseModel::Confirming {
                outbound_key: outbound_key@,
                my_address,
            },
            Phase::Pausing => PhaseModel::Pausing,
            Phase::Closed => PhaseModel::Closed,
        }
    }
}

impl<E> View for TraversalAction<E> {
    type V = ActionModel<E>;

    open spec fn view(&self) -> ActionModel<E> {
        match *self {
            TraversalAction::SendIntro => ActionModel::SendIntro,
            TraversalAction::SendAck { ack, track } => ActionModel::SendAck { ack: ack@, track },
            TraversalAction::Wait { timeout } => ActionModel::Wait { timeout: timeout as nat },
            TraversalAction::Deserialize { data } => ActionModel::Deserialize { data: data@ },
            TraversalAction::DecryptIntro { packet } => ActionModel::DecryptIntro {
                packet: packet@,
            },
            TraversalAction::Tick { restart } => ActionModel::Tick {
                restart: match restart {
                    Some(interval) => Some(interval as nat),
                    None => None,
                },
            },
            TraversalAction::Connected(connection) => ActionModel::Connected(connection@),
            TraversalAction::Fail(error) => ActionModel::Fail(error),
        }
    }
}

impl View for NatTraversal {
    type V = TraversalModel;

    closed spec fn view(&self) -> TraversalModel {
        TraversalModel {
            remote_addr: self.remote_addr,
            inbound_key: self.inbound_key@,
            state: self.state@,
            phase: self.phase@,
            failures: self.failures as nat,
            timeout: self.timeout as nat,
            interval: self.interval as nat,
        }
    }
}

impl NatTraversal {
    #[verifier::type_invariant]
    spec fn inv(self) -> bool {
        self@.wf()
    }

    /// Starts a handshake with the peer at `remote_addr`, with a key drawn at random.
    pub fn start<E>(remote_addr: SocketAddr) -> (started: (NatTraversal, TraversalAction<E>))
        ensures
            exists|key: Seq<u8>|
                key.len() == KEY_SIZE && started.0@ == #[trigger] TraversalModel::initial(
                    remote_addr,
                    key,
                ),
            started.1@ == ActionModel::<E>::SendIntro,
    {
        NatTraversal::start_with_key(remote_addr, SymmetricKey::generate())
    }

    /// Starts a handshake with the peer at `remote_addr`, which is told to seal under
    /// `inbound_key`.
    pub fn start_with_key<E>(remote_addr: SocketAddr, inbound_key: SymmetricKey) -> (started: (
        NatTraversal,
        TraversalAction<E>,
    ))
        ensures
            started.0@ == TraversalModel::initial(remote_addr, inbound_key@),
            started.1@ == ActionModel::<E>::SendIntro,
    {
        proof {
            inbound_key.lemma_len();
        }
        let traversal = NatTraversal {
            remote_addr,
            inbound_key,
            state: ConnectionState::StartOutbound,
            phase: Phase::Sending,
            failures: 0,
            timeout: INITIAL_TIMEOUT,
            interval: INITIAL_INTERVAL,
        };
        (traversal, TraversalAction::SendIntro)
    }

    /// The data of the intro packet, which are to be encrypted for the remote.
    pub fn intro(&self) -> (data: Vec<u8>)
        ensures
            data@ == intro_data(self@.inbound_key),
    {
        encode_intro(&self.inbound_key)
    }

    /// Goes on from an event, and says what to do next.
    pub fn step<E>(self, event: TraversalEvent<E>) -> (next: (NatTraversal, TraversalAction<E>))
        requires
            self@.awaits(event),
        ensures
            (next.0@, next.1@) == self@.after(event),
    {
        proof {
            use_type_invariant(&self);
        }
        match event {
            TraversalEvent::Send(SendOutcome::Sent) => self.sent(),
            TraversalEvent::Send(SendOutcome::ChannelClosed) => self.fail(
                TransportError::ChannelClosed,
            ),
            TraversalEvent::Send(SendOutcome::NotBuilt(error)) => self.fail(
                TransportError::Other(error),
            ),
            TraversalEvent::Inbound(packet) => self.inbound(packet),
            TraversalEvent::InboundClosed => {
                let remote_addr = self.remote_addr;
                self.fail(TransportError::ConnectionClosed(remote_addr))
            },
            TraversalEvent::Elapsed => self.elapsed(),
            TraversalEvent::Deserialized(Ok(message)) => self.message(message),
            TraversalEvent::Deserialized(Err(error)) => self.fail(TransportError::Other(error)),
            TraversalEvent::Decrypted(data) => self.decrypted(data),
            TraversalEvent::Ticked => self.attempt(),
        }
    }

    /// Waits for another event.
    fn go_to(self, phase: Phase) -> (next: NatTraversal)
        requires
            self@.goes_to(phase@).wf(),
        ensures
            next@ == self@.goes_to(phase@),
    {
        NatTraversal { phase, ..self }
    }

    /// Ends with a failure.
    fn fail<E>(self, error: TransportError<E>) -> (next: (NatTraversal, TraversalAction<E>))
        ensures
            (next.0@, next.1@) == self@.fails(error),
    {
        proof {
            use_type_invariant(&self);
        }
        (self.go_to(Phase::Closed), TraversalAction::Fail(error))
    }

    /// Ends with a connection.
    fn connect<E>(
        self,
        outbound_key: SymmetricKey,
        my_address: Option<SocketAddr>,
        inbound_capacity: usize,
        sent_tracker: SentTracker,
    ) -> (next: (NatTraversal, TraversalAction<E>))
        ensures
            (next.0@, next.1@) == self@.ends(
                ActionModel::<E>::Connected(
                    self@.connection(outbound_key@, my_address, inbound_capacity, sent_tracker),
                ),
            ),
    {
        proof {
            use_type_invariant(&self);
        }
        let connection = RemoteConnection {
            remote_addr: self.remote_addr,
            outbound_symmetric_key: outbound_key,
            inbound_symmetric_key: self.inbound_key,
            my_address,
            last_packet_id: 0,
            inbound_capacity,
            sent_tracker,
        };
        (self.go_to(Phase::Closed), TraversalAction::Connected(connection))
    }

    /// The acknowledgement that names this peer's key, sealed under the remote's.
    fn ack(&self, outbound_key: SymmetricKey) -> (ack: Ack)
        ensures
            ack@ == self@.ack(outbound_key@),
    {
        Ack { sealed_under: outbound_key, key: self.inbound_key, remote_addr: self.remote_addr }
    }

    /// Makes the next attempt, or gives up.
    fn attempt<E>(self) -> (next: (NatTraversal, TraversalAction<E>))
        requires
            self@.phase is Pausing,
        ensures
            (next.0@, next.1@) == self@.attempts::<E>(),
    {
        proof {
            use_type_invariant(&self);
        }
        if self.failures >= NAT_TRAVERSAL_MAX_ATTEMPTS {
            return self.fail(
                TransportError::ConnectionEstablishmentFailure {
                    cause: FailureCause::MaxAttemptsReached,
                },
            );
        }
        let action = match &self.state {
            ConnectionState::StartOutbound => TraversalAction::SendIntro,
            ConnectionState::RemoteInbound { outbound_key, .. } => TraversalAction::SendAck {
                ack: self.ack(*outbound_key),
                track: true,
            },
        };
        (self.go_to(Phase::Sending), action)
    }

    /// Counts a failed attempt, and makes the next one.
    fn attempt_again<E>(self) -> (next: (NatTraversal, TraversalAction<E>))
        requires
            self@.failures < NAT_TRAVERSAL_MAX_ATTEMPTS,
        ensures
            (next.0@, next.1@) == self@.failed_once().attempts::<E>(),
    {
        proof {
            use_type_invariant(&self);
        }
        let failures = self.failures + 1;
        (NatTraversal { failures, phase: Phase::Pausing, ..self }).attempt()
    }

    /// Goes on from a packet that was sent.
    fn sent<E>(self) -> (next: (NatTraversal, TraversalAction<E>))
        requires
            self@.phase is Sending || self@.phase is Confirming,
        ensures
            (next.0@, next.1@) == self@.after_sent::<E>(),
    {
        proof {
            use_type_invariant(&self);
        }
        match self.phase {
            Phase::Confirming { outbound_key, my_address } => self.connect(
                outbound_key,
                Some(my_address),
                INBOUND_CAPACITY,
                SentTracker::OfHandshake,
            ),
            _ => {
                let timeout = self.timeout;
                (self.go_to(Phase::Waiting), TraversalAction::Wait { timeout })
            },
        }
    }

    /// Goes on from a packet of the remote.
    fn inbound<E>(self, packet: Vec<u8>) -> (next: (NatTraversal, TraversalAction<E>))
        requires
            self@.phase is Waiting,
            packet@.len() <= MAX_DATAGRAM,
        ensures
            (next.0@, next.1@) == self@.after_inbound::<E>(packet@),
    {
        proof {
            use_type_invariant(&self);
        }
        match &self.state {
            ConnectionState::StartOutbound => match try_decrypt_sym(&packet, &self.inbound_key) {
                Some(data) => (
                    self.go_to(Phase::Deserializing),
                    TraversalAction::Deserialize { data },
                ),
                None => {
                    let copy = packet.clone();
                    assert(copy@ =~= packet@);
                    (
                        self.go_to(Phase::Decrypting { packet }),
                        TraversalAction::DecryptIntro { packet: copy },
                    )
                },
            },
            ConnectionState::RemoteInbound { intro_packet, outbound_key } => if is_intro_packet(
                &packet,
                intro_packet,
            ) {
                self.attempt_again()
            } else {
                let outbound_key = *outbound_key;
                self.connect(outbound_key, None, REMOTE_INBOUND_CAPACITY, SentTracker::Fresh)
            },
        }
    }

    /// Goes on from a wait in which no packet came.
    fn elapsed<E>(self) -> (next: (NatTraversal, TraversalAction<E>))
        requires
            self@.phase is Waiting,
        ensures
            (next.0@, next.1@) == self@.after_elapsed::<E>(),
    {
        proof {
            use_type_invariant(&self);
        }
        let failures = self.failures + 1;
        if self.timeout >= MAX_TIMEOUT {
            return (NatTraversal { failures, phase: Phase::Closed, ..self }).fail(
                TransportError::ConnectionEstablishmentFailure {
                    cause: FailureCause::MaxAttemptsReached,
                },
            );
        }
        let timeout = next_timeout(self.timeout);
        let restart = if self.interval < MAX_INTERVAL {
            Some(next_interval(self.interval))
        } else {
            None
        };
        let interval = match restart {
            Some(interval) => interval,
            None => self.interval,
        };
        let next = NatTraversal { failures, timeout, interval, phase: Phase::Pausing, ..self };
        (next, TraversalAction::Tick { restart })
    }

    /// Goes on from a message of the remote.
    fn message<E>(self, message: SymmetricMessagePayload) -> (next: (
        NatTraversal,
        TraversalAction<E>,
    ))
        requires
            self@.phase is Deserializing,
        ensures
            (next.0@, next.1@) == self@.after_message::<E>(message),
    {
        proof {
            use_type_invariant(&self);
        }
        match message {
            SymmetricMessagePayload::AckConnection { result: Ok(remote) } =>
                match SymmetricKey::new_from_slice(&remote.key) {
                    Ok(outbound_key) => {
                        let ack = self.ack(outbound_key);
                        let my_address = remote.remote_addr;
                        (
                            self.go_to(Phase::Confirming { outbound_key, my_address }),
                            TraversalAction::SendAck { ack, track: false },
                        )
                    },
                    Err(_) => self.fail(
                        TransportError::ConnectionEstablishmentFailure {
                            cause: FailureCause::InvalidSymmetricKey,
                        },
                    ),
                },
            SymmetricMessagePayload::AckConnection { result: Err(text) } => self.fail(
                TransportError::ConnectionEstablishmentFailure { cause: FailureCause::Remote(text) },
            ),
            SymmetricMessagePayload::Other => self.attempt_again(),
        }
    }

    /// Goes on from the decryption of a packet.
    fn decrypted<E>(self, data: Option<Vec<u8>>) -> (next: (NatTraversal, TraversalAction<E>))
        requires
            self@.awaits(TraversalEvent::<E>::Decrypted(data)),
        ensures
            (next.0@, next.1@) == self@.after(TraversalEvent::<E>::Decrypted(data)),
    {
        proof {
            use_type_invariant(&self);
        }
        let intro = match &data {
            Some(data) => parse_intro(data),
            None => None,
        };
        match (intro, self.phase) {
            (Some(intro), Phase::Decrypting { packet }) => (NatTraversal {
                state: ConnectionState::RemoteInbound {
                    intro_packet: packet,
                    outbound_key: intro.key,
                },
                phase: Phase::Pausing,
                ..self
            }).attempt(),
            (_, phase) => (NatTraversal { phase, ..self }).attempt_again(),
        }
    }
}

} // verus!
