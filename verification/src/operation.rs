//! The dialogue between the endpoint and the engine of one association.
use crate::conn::{NewConn, Status};
use crate::transport::{EcnCodepoint, Instant, SocketAddr};
use bytes::BytesMut;
use std::collections::VecDeque;
use vstd::prelude::*;

verus! {

/// What the endpoint reports to its caller.
#[non_exhaustive]
pub enum EndpointEvent {
    /// The handshake finished; application data may now be sent, and SRTP keys can be exported.
    HandshakeComplete,
    /// Decrypted application data arrived.
    ApplicationData(BytesMut),
}

/// One call into an engine.
pub enum Call<'a> {
    /// Take in a datagram that arrived from the peer.
    Read(BytesMut),
    /// Encrypt application data for the peer. The call is made whether or not the handshake has
    /// completed: it is for the engine to fail while it has not, and nothing else refuses the data.
    Write(&'a [u8]),
    /// Run the handshake as far as it gets.
    Handshake(Instant),
    /// Take in the packets of a later epoch that were put aside. The outcome says whether a
    /// handshake record was among them.
    HandleIncomingQueuedPackets,
    /// Forget that a handshake record came in, so that a retransmission sends the buffered flight
    /// again instead of parsing the transcript anew.
    ClearHandshakeRx,
    /// Send the current or, after the handshake, the last flight again. It is for the engine to
    /// limit how often: it fails when the retransmissions of a handshake are exhausted, and sends
    /// nothing more when those of the last flight are.
    HandshakeTimeout(Instant),
    /// Disarm the retransmission timer.
    ClearRetransmitTimer,
    /// Say goodbye to the peer.
    Close,
}

/// Which call of an operation is under way.
#[derive(Clone, Copy, PartialEq, Eq, Structural, Debug)]
pub enum Phase {
    /// A datagram is being read.
    Ingesting,
    /// The handshake runs on what the datagram brought.
    Handshaking,
    /// Packets of a later epoch, put aside until the handshake had got further, are taken in.
    HandlingQueued,
    /// The handshake runs on what those packets brought.
    HandshakingAgain,
    /// The peer repeated its last flight; the engine is prepared for sending its own again.
    ClearingHandshakeRx,
    /// The last flight is sent again.
    Resending,
    /// Application data is being written.
    Writing,
    /// The retransmission timer ran out and is disarmed.
    ClearingTimer,
    /// The current flight is sent again.
    TimingOut,
}

/// An operation on the association with `remote` whose engine has been called.
#[derive(Clone, Copy)]
pub struct Operation {
    pub now: Instant,
    pub remote: SocketAddr,
    /// What the packets that come of the operation are marked with.
    pub ecn: Option<EcnCodepoint>,
    /// Whether the handshake had finished before the operation.
    pub completed_before: bool,
    pub phase: Phase,
}

/// The end of a read: the decrypted data can be handed to the application.
#[derive(Clone, Copy)]
pub struct Delivery {
    pub now: Instant,
    pub remote: SocketAddr,
    pub ecn: Option<EcnCodepoint>,
    /// Whether the handshake finished in this read.
    pub newly_completed: bool,
}

/// The end of an operation: the packets that the engine has ready can be queued.
#[derive(Clone, Copy)]
pub struct Transmission {
    pub now: Instant,
    pub remote: SocketAddr,
    pub ecn: Option<EcnCodepoint>,
}

/// What the caller has to do next for an operation.
pub enum Step<'a> {
    /// Perform `call` on the engine of `operation.remote`; report to `Endpoint::advance`.
    Call { operation: Operation, call: Call<'a> },
    /// Take all decrypted data from the engine; hand it to `Delivery::deliver`.
    Deliver(Delivery),
    /// Take all outgoing packets from the engine; hand them to `Endpoint::transmit`, with the
    /// engine's status after that.
    Transmit(Transmission),
}

/// A connection attempt whose engine has been created.
#[derive(Clone, Copy)]
pub struct Dial {
    pub now: Instant,
    pub remote: SocketAddr,
}

/// A datagram of a stranger, kept until the engine for it has been created.
pub struct Accepting {
    pub now: Instant,
    pub remote: SocketAddr,
    pub ecn: Option<EcnCodepoint>,
    pub data: BytesMut,
}

/// How the reading of a datagram starts.
pub enum ReadStart<'a, H, S> {
    /// The association is there.
    Known(Step<'a>),
    /// The peer is new: create an engine from the first part and hand it, with the second, to
    /// `Endpoint::accept`.
    Stranger(NewConn<H, S>, Accepting),
}

/// An association that is to be closed and forgotten.
#[derive(Clone, Copy)]
pub struct Stopping {
    pub now: Instant,
    pub remote: SocketAddr,
}

impl Operation {
    /// The operation in the phase `phase`, with the call that belongs to it.
    pub open spec fn calling<'a>(self, phase: Phase, call: Call<'a>) -> Step<'a> {
        Step::Call { operation: Operation { phase, ..self }, call }
    }

    /// The end of a read that left the handshake completed or not.
    pub open spec fn delivering<'a>(self, completed: bool) -> Step<'a> {
        Step::Deliver(
            Delivery {
                now: self.now,
                remote: self.remote,
                ecn: self.ecn,
                newly_completed: completed && !self.completed_before,
            },
        )
    }

    /// The end of an operation that yields no data.
    pub open spec fn transmitting<'a>(self) -> Step<'a> {
        Step::Transmit(Transmission { now: self.now, remote: self.remote, ecn: self.ecn })
    }

    /// What follows when the call of the present phase has succeeded.
    ///
    /// `status` is the engine's after the call, `is_handshake` what the call answered (only
    /// [`Call::HandleIncomingQueuedPackets`] answers anything).
    pub open spec fn following<'a, S>(self, status: Status<S>, is_handshake: bool) -> Step<'a> {
        let completed = status.handshake_completed;
        match self.phase {
            Phase::Ingesting => if !completed {
                self.calling(Phase::Handshaking, Call::Handshake(self.now))
            } else if status.received_handshake_in_last_datagram {
                self.calling(Phase::ClearingHandshakeRx, Call::ClearHandshakeRx)
            } else {
                self.delivering(completed)
            },
            Phase::Handshaking => self.calling(
                Phase::HandlingQueued,
                Call::HandleIncomingQueuedPackets,
            ),
            Phase::HandlingQueued => if is_handshake && !completed {
                self.calling(Phase::HandshakingAgain, Call::Handshake(self.now))
            } else {
                self.delivering(completed)
            },
            Phase::ClearingHandshakeRx => self.calling(
                Phase::Resending,
                Call::HandshakeTimeout(self.now),
            ),
            Phase::HandshakingAgain | Phase::Resending => self.delivering(completed),
            Phase::ClearingTimer => if !completed {
                self.calling(Phase::TimingOut, Call::HandshakeTimeout(self.now))
            } else {
                self.transmitting()
            },
            Phase::Writing | Phase::TimingOut => self.transmitting(),
        }
    }

    fn call<'a>(self, phase: Phase, call: Call<'a>) -> (step: Step<'a>)
        ensures
            step == self.calling(phase, call),
    {
        Step::Call { operation: Operation { phase, ..self }, call }
    }

    fn deliver<'a>(self, completed: bool) -> (step: Step<'a>)
        ensures
            step == self.delivering::<'a>(completed),
            step matches Step::Deliver(d) && d.newly_completed == (completed
                && !self.completed_before),
    {
        Step::Deliver(
            Delivery {
                now: self.now,
                remote: self.remote,
                ecn: self.ecn,
                newly_completed: completed && !self.completed_before,
            },
        )
    }

    fn transmit<'a>(self) -> (step: Step<'a>)
        ensures
            step == self.transmitting::<'a>(),
    {
        Step::Transmit(Transmission { now: self.now, remote: self.remote, ecn: self.ecn })
    }

    /// What follows when the call of the present phase has succeeded and has left the engine with
    /// `status`; `is_handshake` is what the call answered.
    pub fn follow<'a, S>(self, status: &Status<S>, is_handshake: bool) -> (step: Step<'a>)
        ensures
            step == self.following::<'a, S>(*status, is_handshake),
    {
        let completed = status.handshake_completed;
        match self.phase {
            Phase::Ingesting => {
                if !completed {
                    self.call(Phase::Handshaking, Call::Handshake(self.now))
                } else if status.received_handshake_in_last_datagram {
                    // RFC 6347 4.2.4: the datagram carried a handshake record although the
                    // association is established, so the peer repeats its final flight: ours was
                    // lost. Application data carries no such record and provokes no flight.
                    self.call(Phase::ClearingHandshakeRx, Call::ClearHandshakeRx)
                } else {
                    self.deliver(completed)
                }
            },
            Phase::Handshaking => self.call(
                Phase::HandlingQueued,
                Call::HandleIncomingQueuedPackets,
            ),
            Phase::HandlingQueued => {
                if is_handshake && !completed {
                    self.call(Phase::HandshakingAgain, Call::Handshake(self.now))
                } else {
                    self.deliver(completed)
                }
            },
            Phase::ClearingHandshakeRx => self.call(
                Phase::Resending,
                Call::HandshakeTimeout(self.now),
            ),
            Phase::HandshakingAgain | Phase::Resending => self.deliver(completed),
            Phase::ClearingTimer => {
                if !completed {
                    self.call(Phase::TimingOut, Call::HandshakeTimeout(self.now))
                } else {
                    self.transmit()
                }
            },
            Phase::Writing | Phase::TimingOut => self.transmit(),
        }
    }
}

/// The first step of reading `data` from `remote`.
pub open spec fn reading<'a>(
    now: Instant,
    remote: SocketAddr,
    ecn: Option<EcnCodepoint>,
    data: BytesMut,
    completed_before: bool,
) -> Step<'a> {
    Step::Call {
        operation: Operation { now, remote, ecn, completed_before, phase: Phase::Ingesting },
        call: Call::Read(data),
    }
}

/// The first step of reading `data` from `remote`.
pub(crate) fn start_reading<'a>(
    now: Instant,
    remote: SocketAddr,
    ecn: Option<EcnCodepoint>,
    data: BytesMut,
    completed_before: bool,
) -> (step: Step<'a>)
    ensures
        step == reading::<'a>(now, remote, ecn, data, completed_before),
{
    Step::Call {
        operation: Operation { now, remote, ecn, completed_before, phase: Phase::Ingesting },
        call: Call::Read(data),
    }
}

/// The events of a read that brought `data`.
pub open spec fn events_of(newly_completed: bool, data: Seq<BytesMut>) -> Seq<EndpointEvent> {
    let completion = if newly_completed {
        seq![EndpointEvent::HandshakeComplete]
    } else {
        Seq::empty()
    };
    completion + data.map_values(|d: BytesMut| EndpointEvent::ApplicationData(d))
}

impl Delivery {
    /// The packets to be queued once the data has been delivered.
    pub open spec fn transmission(self) -> Transmission {
        Transmission { now: self.now, remote: self.remote, ecn: self.ecn }
    }

    /// Turns the data that the engine has decrypted into events.
    ///
    /// The completion of the handshake comes first, then the data in the order in which it is
    /// given. The outgoing packets are next.
    pub fn deliver(self, data: VecDeque<BytesMut>) -> (result: (Vec<EndpointEvent>, Transmission))
        ensures
            result.0@ == events_of(self.newly_completed, data@),
            result.1 == self.transmission(),
    {
        let mut events: Vec<EndpointEvent> = Vec::new();
        if self.newly_completed {
            events.push(EndpointEvent::HandshakeComplete);
        }
        let ghost all = data@;
        let ghost mut done: int = 0;
        let mut data = data;
        assert(events@ =~= events_of(self.newly_completed, all.take(0)));
        while data.len() > 0
            invariant
                0 <= done <= all.len(),
                data@ == all.skip(done),
                events@ == events_of(self.newly_completed, all.take(done)),
            decreases data@.len(),
        {
            let message = data.pop_front().unwrap();
            events.push(EndpointEvent::ApplicationData(message));
            proof {
                done = done + 1;
                assert(all.take(done) =~= all.take(done - 1).push(message));
                assert(events@ =~= events_of(self.newly_completed, all.take(done)));
                assert(data@ =~= all.skip(done));
            }
        }
        assert(all.take(all.len() as int) =~= all);
        (events, Transmission { now: self.now, remote: self.remote, ecn: self.ecn })
    }
}

} // verus!
