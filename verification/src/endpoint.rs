//! The endpoint itself.
use crate::conn::{DTLSConn, NewConn, Status};
use crate::operation::{
    reading, start_reading, Accepting, Call, Dial, Operation, Phase, ReadStart, Step, Stopping,
    Transmission,
};
use crate::table::ConnectionTable;
use crate::transport::{
    EcnCodepoint, Error, Instant, SocketAddr, TransportContext, TransportMessage,
    TransportProtocol,
};
use crate::view::EndpointView;
use bytes::BytesMut;
use std::collections::VecDeque;
use std::sync::Arc;
use vstd::prelude::*;

verus! {

/// The main entry point to the library.
///
/// The endpoint performs no I/O whatsoever. It holds the associations, keyed by remote address,
/// each with its engine of type `C`; it decides which calls the engines get, and in which order;
/// and it keeps the queue of the messages to be sent, which [`Endpoint::poll_transmit`] empties.
/// `H` is the type of handshake configurations and `S` that of connection states: the endpoint
/// passes both on and looks into neither.
pub struct Endpoint<C, H, S> {
    local_addr: SocketAddr,
    transport_protocol: TransportProtocol,
    transmits: VecDeque<TransportMessage<BytesMut>>,
    connections: ConnectionTable<DTLSConn<C, S>>,
    server_config: Option<Arc<H>>,
}

impl<C, H, S> View for Endpoint<C, H, S> {
    type V = EndpointView<C, H, S>;

    /// The endpoint as a mathematical value.
    closed spec fn view(&self) -> EndpointView<C, H, S> {
        EndpointView {
            local_addr: self.local_addr,
            transport_protocol: self.transport_protocol,
            transmits: self.transmits@,
            keys: self.connections.spec_keys(),
            connections: self.connections@,
            server_config: self.server_config,
        }
    }
}

impl<C, H, S> Endpoint<C, H, S> {
    /// What holds of every endpoint.
    pub closed spec fn wf(&self) -> bool {
        self.connections.wf() && self@.wf()
    }

    /// Each association of an endpoint is listed once, and each message in its queue names it as
    /// the origin.
    pub proof fn lemma_wf(&self)
        requires
            self.wf(),
        ensures
            self@.wf(),
    {
    }

    /// Create a new endpoint.
    ///
    /// It serves strangers if it has a `server_config`.
    pub fn new(
        local_addr: SocketAddr,
        protocol: TransportProtocol,
        server_config: Option<Arc<H>>,
    ) -> (endpoint: Self)
        ensures
            endpoint.wf(),
            endpoint@ == EndpointView::<C, H, S>::fresh(local_addr, protocol, server_config),
    {
        Endpoint {
            local_addr,
            transport_protocol: protocol,
            transmits: VecDeque::new(),
            connections: ConnectionTable::new(),
            server_config,
        }
    }

    /// Replace the server configuration, affecting new incoming associations only.
    pub fn set_server_config(&mut self, server_config: Option<Arc<H>>)
        requires
            old(self).wf(),
        ensures
            final(self).wf(),
            final(self)@ == old(self)@.serve(server_config),
    {
        self.server_config = server_config;
    }

    /// Get the next packet to transmit.
    #[must_use]
    pub fn poll_transmit(&mut self) -> (message: Option<TransportMessage<BytesMut>>)
        requires
            old(self).wf(),
        ensures
            final(self).wf(),
            final(self)@ == old(self)@.poll(),
            message == (if old(self)@.transmits.len() > 0 {
                Some(old(self)@.transmits[0])
            } else {
                None
            }),
    {
        let ghost before = self@;
        let message = self.transmits.pop_front();
        assert(before.transmits.len() > 0 ==> self@.transmits =~= before.transmits.drop_first());
        message
    }

    /// Get the remote addresses of the associations, the oldest association first.
    pub fn get_connections_keys(&self) -> (keys: Vec<SocketAddr>)
        requires
            self.wf(),
        ensures
            keys@ == self@.keys,
    {
        self.connections.keys()
    }

    /// Get the connection state of the association with `remote`.
    pub fn get_connection_state(&self, remote: SocketAddr) -> (state: Option<&S>)
        requires
            self.wf(),
        ensures
            match state {
                Some(s) => self@.knows(remote) && *s == self@.connections[remote].status.state,
                None => !self@.knows(remote),
            },
    {
        if let Some(conn) = self.connections.get(&remote) {
            Some(conn.connection_state())
        } else {
            None
        }
    }

    /// The engine of the association with `remote`, on which to perform a call.
    pub fn engine_mut(&mut self, remote: &SocketAddr) -> (engine: Option<&mut C>)
        requires
            old(self).wf(),
        ensures
            final(self).wf(),
            match engine {
                Some(e) => {
                    &&& old(self)@.knows(*remote)
                    &&& *e == old(self)@.connections[*remote].engine
                    &&& final(self)@ == old(self)@.with_engine(*remote, *final(e))
                },
                None => !old(self)@.knows(*remote) && final(self)@ == old(self)@,
            },
    {
        match self.connections.get_mut(remote) {
            Some(conn) => Some(&mut conn.engine),
            None => None,
        }
    }

    /// Queues `payloads` for `remote`, in order.
    fn enqueue(
        &mut self,
        now: Instant,
        remote: SocketAddr,
        ecn: Option<EcnCodepoint>,
        payloads: VecDeque<BytesMut>,
    )
        requires
            old(self).wf(),
        ensures
            final(self).wf(),
            final(self)@ == old(self)@.enqueue(now, remote, ecn, payloads@),
            final(self)@.transmits.len() == old(self)@.transmits.len() + payloads@.len(),
    {
        let ghost before = self@;
        let ghost all = payloads@;
        let ghost mut done: int = 0;
        let mut payloads = payloads;
        assert(self@ =~= before.enqueue(now, remote, ecn, all.take(0)));
        while payloads.len() > 0
            invariant
                self.wf(),
                0 <= done <= all.len(),
                payloads@ == all.skip(done),
                self@ == before.enqueue(now, remote, ecn, all.take(done)),
            decreases payloads@.len(),
        {
            let ghost shorter = self@;
            let payload = payloads.pop_front().unwrap();
            self.transmits.push_back(
                TransportMessage {
                    now,
                    transport: TransportContext {
                        local_addr: self.local_addr,
                        peer_addr: remote,
                        transport_protocol: self.transport_protocol,
                        ecn,
                    },
                    message: payload,
                },
            );
            proof {
                done = done + 1;
                assert(all.take(done) =~= all.take(done - 1).push(payload));
                assert(payloads@ =~= all.skip(done));
                assert(self@ =~= before.enqueue(now, remote, ecn, all.take(done)));
                assert forall|i: int| 0 <= i < self@.transmits.len() implies self@.sent_from_here(
                    #[trigger] self@.transmits[i],
                ) by {
                    if i < shorter.transmits.len() {
                        assert(shorter.sent_from_here(shorter.transmits[i]));
                    }
                }
            }
        }
        assert(all.take(all.len() as int) =~= all);
    }

    /// Initiate an association.
    ///
    /// Nothing is to be done where there is one with `remote` already. Otherwise a client engine
    /// has to be created, the call performed on it, and [`Endpoint::connected`] told how that went.
    ///
    /// # Errors
    ///
    /// Fails if the port of `remote` is 0.
    pub fn connect<'a>(
        &self,
        now: Instant,
        remote: SocketAddr,
        client_config: Arc<H>,
        initial_state: Option<S>,
    ) -> (result: Result<Option<(NewConn<H, S>, Dial, Call<'a>)>, Error>)
        requires
            self.wf(),
        ensures
            result == self@.dialing::<'a>(now, remote, client_config, initial_state),
    {
        if remote.port() == 0 {
            return Err(Error::InvalidRemoteAddress(remote));
        }
        if self.connections.contains_key(&remote) {
            Ok(None)
        } else {
            Ok(
                Some(
                    (
                        NewConn { config: client_config, is_client: true, initial_state },
                        Dial { now, remote },
                        Call::Handshake(now),
                    ),
                ),
            )
        }
    }

    /// Complete [`Endpoint::connect`].
    ///
    /// `handshake` says how the beginning of the handshake went: the packets that `engine` had
    /// ready then, or its error. `status` is the engine's status now that they are taken. On an
    /// error the engine is dropped, and the endpoint is as before. So it is where there is an
    /// association with the peer by now.
    ///
    /// # Errors
    ///
    /// Fails with the engine's error if the handshake could not begin.
    pub fn connected<E>(
        &mut self,
        dial: Dial,
        engine: C,
        status: Status<S>,
        handshake: Result<VecDeque<BytesMut>, E>,
    ) -> (result: Result<(), E>)
        requires
            old(self).wf(),
        ensures
            final(self).wf(),
            match handshake {
                Ok(outgoing) => {
                    &&& result == Ok::<(), E>(())
                    &&& final(self)@ == if old(self)@.knows(dial.remote) {
                        old(self)@
                    } else {
                        old(self)@.enqueue(dial.now, dial.remote, None, outgoing@).associate(
                            dial.remote,
                            DTLSConn { engine, status },
                        )
                    }
                },
                Err(e) => result == Err::<(), E>(e) && final(self)@ == old(self)@,
            },
    {
        match handshake {
            Ok(outgoing) => {
                if !self.connections.contains_key(&dial.remote) {
                    self.enqueue(dial.now, dial.remote, None, outgoing);
                    self.associate(dial.remote, DTLSConn { engine, status });
                }
                Ok(())
            },
            Err(e) => Err(e),
        }
    }

    /// Adds an association with a new peer.
    fn associate(&mut self, remote: SocketAddr, conn: DTLSConn<C, S>)
        requires
            old(self).wf(),
            !old(self)@.knows(remote),
        ensures
            final(self).wf(),
            final(self)@ == old(self)@.associate(remote, conn),
    {
        self.connections.insert(remote, conn);
        proof {
            self.connections.lemma_keys();
        }
    }

    /// Process stop remote.
    ///
    /// Nothing is to be done where there is no association with `remote`. Otherwise the call has to
    /// be performed on its engine, and [`Endpoint::stopped`] given the packets that it then has
    /// ready. `now` stamps those, the close_notify among them.
    pub fn stop<'a>(&self, now: Instant, remote: SocketAddr) -> (result: Option<
        (Stopping, Call<'a>),
    >)
        requires
            self.wf(),
        ensures
            result == (if self@.knows(remote) {
                Some((Stopping { now, remote }, Call::Close))
            } else {
                None
            }),
    {
        if self.connections.contains_key(&remote) {
            Some((Stopping { now, remote }, Call::Close))
        } else {
            None
        }
    }

    /// Complete [`Endpoint::stop`]: queue what the closed engine had ready and hand the association
    /// back, with `status`, the engine's status now that it is closed and its packets are taken.
    ///
    /// Where there is no such association by now, nothing happens.
    pub fn stopped(
        &mut self,
        stopping: Stopping,
        status: Status<S>,
        outgoing: VecDeque<BytesMut>,
    ) -> (conn: Option<DTLSConn<C, S>>)
        requires
            old(self).wf(),
        ensures
            final(self).wf(),
            final(self)@ == old(self)@.dismiss(stopping.now, stopping.remote, outgoing@),
            !old(self)@.knows(stopping.remote) ==> final(self)@ == old(self)@,
            conn == (if old(self)@.knows(stopping.remote) {
                Some(DTLSConn { engine: old(self)@.connections[stopping.remote].engine, status })
            } else {
                None
            }),
    {
        if !self.connections.contains_key(&stopping.remote) {
            return None;
        }
        self.enqueue(stopping.now, stopping.remote, None, outgoing);
        let removed = self.connections.remove(&stopping.remote);
        proof {
            self.connections.lemma_keys();
        }
        match removed {
            Some(conn) => Some(DTLSConn { engine: conn.engine, status }),
            None => None,
        }
    }

    /// Process close.
    ///
    /// Names the association that is to be stopped next, the oldest one, as [`Endpoint::stop`]
    /// does; none is left when there is none. `now` stamps the close_notify queued for each.
    pub fn close<'a>(&self, now: Instant) -> (result: Option<(Stopping, Call<'a>)>)
        requires
            self.wf(),
        ensures
            result == (if self@.keys.len() > 0 {
                Some((Stopping { now, remote: self@.keys[0] }, Call::Close))
            } else {
                None
            }),
    {
        match self.connections.first_key() {
            Some(remote) => Some((Stopping { now, remote }, Call::Close)),
            None => None,
        }
    }

    /// Process an incoming UDP datagram.
    ///
    /// A stranger is met with an engine that has the server's configuration: see
    /// [`Endpoint::accept`]. The packets that come of the datagram are marked with `ecn`.
    ///
    /// # Errors
    ///
    /// Fails if there is no association with `remote` and no server configuration.
    pub fn read<'a>(
        &self,
        now: Instant,
        remote: SocketAddr,
        ecn: Option<EcnCodepoint>,
        data: BytesMut,
    ) -> (result: Result<ReadStart<'a, H, S>, Error>)
        requires
            self.wf(),
        ensures
            match self@.admission(remote) {
                Ok(None) => result == Ok::<ReadStart<'a, H, S>, Error>(
                    ReadStart::Known(
                        reading(
                            now,
                            remote,
                            ecn,
                            data,
                            self@.connections[remote].status.handshake_completed,
                        ),
                    ),
                ),
                Ok(Some(new)) => result == Ok::<ReadStart<'a, H, S>, Error>(
                    ReadStart::Stranger(new, Accepting { now, remote, ecn, data }),
                ),
                Err(e) => result == Err::<ReadStart<'a, H, S>, Error>(e),
            },
    {
        match self.connections.get(&remote) {
            Some(conn) => Ok(
                ReadStart::Known(
                    start_reading(now, remote, ecn, data, conn.is_handshake_completed()),
                ),
            ),
            None => match &self.server_config {
                Some(server_config) => Ok(
                    ReadStart::Stranger(
                        NewConn {
                            config: server_config.clone(),
                            is_client: false,
                            initial_state: None,
                        },
                        Accepting { now, remote, ecn, data },
                    ),
                ),
                None => Err(Error::NoServerConfig),
            },
        }
    }

    /// Take the engine that was created for a stranger, and read its datagram.
    ///
    /// The association stays, however the reading goes. Where there is one with the peer by now,
    /// that one is kept and `engine` is dropped.
    pub fn accept<'a>(&mut self, accepting: Accepting, engine: C, status: Status<S>) -> (step: Step<
        'a,
    >)
        requires
            old(self).wf(),
        ensures
            final(self).wf(),
            final(self)@ == old(self)@.associate(accepting.remote, DTLSConn { engine, status }),
            step == reading::<'a>(
                accepting.now,
                accepting.remote,
                accepting.ecn,
                accepting.data,
                final(self)@.connections[accepting.remote].status.handshake_completed,
            ),
    {
        let completed = match self.connections.get(&accepting.remote) {
            Some(conn) => conn.is_handshake_completed(),
            None => {
                let completed = status.handshake_completed;
                self.associate(accepting.remote, DTLSConn { engine, status });
                completed
            },
        };
        start_reading(accepting.now, accepting.remote, accepting.ecn, accepting.data, completed)
    }

    /// Report how a call went and learn what is to be done next.
    ///
    /// `status` is the engine's status after the call. `outcome` is the engine's error, or what
    /// the call answered; `false` stands for a call that answers nothing.
    ///
    /// # Errors
    ///
    /// Fails with the engine's error if the call failed. The operation ends there: packets that
    /// the engine has ready stay with it until the next operation that transmits.
    pub fn advance<'a, E>(
        &mut self,
        operation: Operation,
        status: Status<S>,
        outcome: Result<bool, E>,
    ) -> (result: Result<Step<'a>, E>)
        requires
            old(self).wf(),
        ensures
            final(self).wf(),
            final(self)@ == old(self)@.report(operation.remote, status),
            match outcome {
                Ok(is_handshake) => result == Ok::<Step<'a>, E>(
                    operation.following(status, is_handshake),
                ),
                Err(e) => result == Err::<Step<'a>, E>(e),
            },
    {
        let result = match outcome {
            Ok(is_handshake) => Ok(operation.follow(&status, is_handshake)),
            Err(e) => Err(e),
        };
        self.report(operation.remote, status);
        result
    }

    /// Takes note of the status of `remote`'s engine.
    fn report(&mut self, remote: SocketAddr, status: Status<S>)
        requires
            old(self).wf(),
        ensures
            final(self).wf(),
            final(self)@ == old(self)@.report(remote, status),
    {
        if let Some(conn) = self.connections.get_mut(&remote) {
            conn.status = status;
        }
        proof {
            self.connections.lemma_keys();
        }
    }

    /// Queue the packets that the engine had ready, which ends the operation. `status` is the
    /// engine's status now that they are taken.
    ///
    /// Where there is no association with the peer by now, nothing happens.
    pub fn transmit(
        &mut self,
        transmission: Transmission,
        status: Status<S>,
        outgoing: VecDeque<BytesMut>,
    )
        requires
            old(self).wf(),
        ensures
            final(self).wf(),
            final(self)@ == old(self)@.conclude(
                transmission.now,
                transmission.remote,
                transmission.ecn,
                status,
                outgoing@,
            ),
            !old(self)@.knows(transmission.remote) ==> final(self)@ == old(self)@,
    {
        if self.connections.contains_key(&transmission.remote) {
            self.report(transmission.remote, status);
            self.enqueue(transmission.now, transmission.remote, transmission.ecn, outgoing);
        }
    }

    /// Queues application data for `remote`.
    ///
    /// # Errors
    ///
    /// Fails if there is no association with `remote`. That its handshake has not completed is
    /// for the engine to say when it is called.
    pub fn write<'a>(&self, now: Instant, remote: SocketAddr, data: &'a [u8]) -> (result: Result<
        Step<'a>,
        Error,
    >)
        requires
            self.wf(),
        ensures
            result == self@.writing(now, remote, data),
    {
        if let Some(conn) = self.connections.get(&remote) {
            let operation = Operation {
                now,
                remote,
                ecn: None,
                completed_before: conn.is_handshake_completed(),
                phase: Phase::Writing,
            };
            Ok(Step::Call { operation, call: Call::Write(data) })
        } else {
            Err(Error::InvalidRemoteAddress(remote))
        }
    }

    /// Advances `remote`'s association to `now`, driving handshake retransmissions.
    ///
    /// Nothing is to be done unless a timer is armed and has run out. One that has is disarmed
    /// here, and is to be disarmed in the engine.
    ///
    /// # Errors
    ///
    /// Fails if there is no association with `remote`. That the handshake has exhausted its
    /// retransmissions is for the engine to say when it is called.
    pub fn handle_timeout<'a>(&mut self, remote: SocketAddr, now: Instant) -> (result: Result<
        Option<Step<'a>>,
        Error,
    >)
        requires
            old(self).wf(),
        ensures
            final(self).wf(),
            final(self)@ == (if old(self)@.is_due(remote, now) {
                old(self)@.disarm(remote)
            } else {
                old(self)@
            }),
            result == (if !old(self)@.knows(remote) {
                Err(Error::InvalidRemoteAddress(remote))
            } else if !old(self)@.is_due(remote, now) {
                Ok(None)
            } else {
                Ok(
                    Some(
                        Step::Call {
                            operation: Operation {
                                now,
                                remote,
                                ecn: None,
                                completed_before: old(
                                    self,
                                )@.connections[remote].status.handshake_completed,
                                phase: Phase::ClearingTimer,
                            },
                            call: Call::ClearRetransmitTimer,
                        },
                    ),
                )
            }),
    {
        if let Some(conn) = self.connections.get_mut(&remote) {
            let due = match conn.status.current_retransmit_timer {
                Some(deadline) => now.nanos >= deadline.nanos,
                None => false,
            };
            if due {
                conn.status.current_retransmit_timer = None;
                let operation = Operation {
                    now,
                    remote,
                    ecn: None,
                    completed_before: conn.is_handshake_completed(),
                    phase: Phase::ClearingTimer,
                };
                Ok(Some(Step::Call { operation, call: Call::ClearRetransmitTimer }))
            } else {
                Ok(None)
            }
        } else {
            Err(Error::InvalidRemoteAddress(remote))
        }
    }

    /// When `remote`'s association next needs [`Endpoint::handle_timeout`].
    pub fn poll_timeout(&self, remote: &SocketAddr) -> (deadline: Option<Instant>)
        requires
            self.wf(),
        ensures
            deadline == self@.timer(*remote),
            self@.knows(*remote) ==> deadline
                == self@.connections[*remote].status.current_retransmit_timer,
    {
        if let Some(conn) = self.connections.get(remote) {
            conn.status.current_retransmit_timer
        } else {
            None
        }
    }
}

} // verus!
