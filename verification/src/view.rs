//! The endpoint as a mathematical value, and the changes that its methods make to it.
use crate::conn::{DTLSConn, NewConn, Status};
use crate::operation::{Call, Dial, Operation, Phase, Step};
use crate::transport::{
    EcnCodepoint, Error, Instant, SocketAddr, TransportContext, TransportMessage,
    TransportProtocol,
};
use bytes::BytesMut;
use std::sync::Arc;
use vstd::prelude::*;

verus! {

/// An endpoint.
#[verifier::ext_equal]
pub struct EndpointView<C, H, S> {
    pub local_addr: SocketAddr,
    pub transport_protocol: TransportProtocol,
    /// The messages to be sent, the next one first.
    pub transmits: Seq<TransportMessage<BytesMut>>,
    /// The remote addresses with an association, the oldest association first.
    pub keys: Seq<SocketAddr>,
    pub connections: Map<SocketAddr, DTLSConn<C, S>>,
    pub server_config: Option<Arc<H>>,
}

impl<C, H, S> EndpointView<C, H, S> {
    /// Each association is listed once, and each queued message says that it comes from this
    /// endpoint.
    pub open spec fn wf(self) -> bool {
        &&& self.keys.no_duplicates()
        &&& forall|k: SocketAddr| self.connections.dom().contains(k) <==> self.keys.contains(k)
        &&& forall|i: int|
            0 <= i < self.transmits.len() ==> self.sent_from_here(#[trigger] self.transmits[i])
    }

    /// Whether `message` names this endpoint as its origin.
    pub open spec fn sent_from_here(self, message: TransportMessage<BytesMut>) -> bool {
        &&& message.transport.local_addr == self.local_addr
        &&& message.transport.transport_protocol == self.transport_protocol
    }

    /// Whether there is an association with `remote`.
    pub open spec fn knows(self, remote: SocketAddr) -> bool {
        self.connections.dom().contains(remote)
    }

    /// An endpoint without associations.
    pub open spec fn fresh(
        local_addr: SocketAddr,
        transport_protocol: TransportProtocol,
        server_config: Option<Arc<H>>,
    ) -> Self {
        EndpointView {
            local_addr,
            transport_protocol,
            transmits: Seq::empty(),
            keys: Seq::empty(),
            connections: Map::empty(),
            server_config,
        }
    }

    /// The message that carries `payload` to `remote`.
    pub open spec fn message(
        self,
        now: Instant,
        remote: SocketAddr,
        ecn: Option<EcnCodepoint>,
        payload: BytesMut,
    ) -> TransportMessage<BytesMut> {
        TransportMessage {
            now,
            transport: TransportContext {
                local_addr: self.local_addr,
                peer_addr: remote,
                transport_protocol: self.transport_protocol,
                ecn,
            },
            message: payload,
        }
    }

    /// The messages that carry `payloads` to `remote`.
    pub open spec fn messages(
        self,
        now: Instant,
        remote: SocketAddr,
        ecn: Option<EcnCodepoint>,
        payloads: Seq<BytesMut>,
    ) -> Seq<TransportMessage<BytesMut>> {
        payloads.map_values(|p: BytesMut| self.message(now, remote, ecn, p))
    }

    /// `payloads` join the end of the queue, addressed to `remote`.
    pub open spec fn enqueue(
        self,
        now: Instant,
        remote: SocketAddr,
        ecn: Option<EcnCodepoint>,
        payloads: Seq<BytesMut>,
    ) -> Self {
        EndpointView {
            transmits: self.transmits + self.messages(now, remote, ecn, payloads),
            ..self
        }
    }

    /// The next message leaves the queue.
    pub open spec fn poll(self) -> Self {
        EndpointView {
            transmits: if self.transmits.len() > 0 {
                self.transmits.drop_first()
            } else {
                self.transmits
            },
            ..self
        }
    }

    /// New peers are served with `server_config`.
    pub open spec fn serve(self, server_config: Option<Arc<H>>) -> Self {
        EndpointView { server_config, ..self }
    }

    /// The association `conn` with `remote` is added, unless there is one already.
    pub open spec fn associate(self, remote: SocketAddr, conn: DTLSConn<C, S>) -> Self {
        if self.knows(remote) {
            self
        } else {
            EndpointView {
                keys: self.keys.push(remote),
                connections: self.connections.insert(remote, conn),
                ..self
            }
        }
    }

    /// The association with `remote`, if there is one, becomes `conn`.
    pub open spec fn replace(self, remote: SocketAddr, conn: DTLSConn<C, S>) -> Self {
        if self.knows(remote) {
            EndpointView { connections: self.connections.insert(remote, conn), ..self }
        } else {
            self
        }
    }

    /// The engine of `remote` is now `engine`.
    pub open spec fn with_engine(self, remote: SocketAddr, engine: C) -> Self {
        self.replace(remote, DTLSConn { engine, ..self.connections[remote] })
    }

    /// The engine of `remote` reported `status`.
    pub open spec fn report(self, remote: SocketAddr, status: Status<S>) -> Self {
        self.replace(remote, DTLSConn { status, ..self.connections[remote] })
    }

    /// When the association with `remote` next needs attention.
    pub open spec fn timer(self, remote: SocketAddr) -> Option<Instant> {
        if self.knows(remote) {
            self.connections[remote].status.current_retransmit_timer
        } else {
            None
        }
    }

    /// Whether the retransmission timer of `remote` has run out by `now`.
    pub open spec fn is_due(self, remote: SocketAddr, now: Instant) -> bool {
        self.timer(remote) matches Some(deadline) && deadline.nanos <= now.nanos
    }

    /// The retransmission timer of `remote` is disarmed.
    pub open spec fn disarm(self, remote: SocketAddr) -> Self {
        self.report(
            remote,
            Status { current_retransmit_timer: None, ..self.connections[remote].status },
        )
    }

    /// The association with `remote` is forgotten.
    pub open spec fn forget(self, remote: SocketAddr) -> Self {
        EndpointView {
            keys: self.keys.remove_value(remote),
            connections: self.connections.remove(remote),
            ..self
        }
    }

    /// An operation on the association with `remote` ends: its engine reported `status`, and
    /// `payloads` join the queue. Where there is no association, nothing happens.
    pub open spec fn conclude(
        self,
        now: Instant,
        remote: SocketAddr,
        ecn: Option<EcnCodepoint>,
        status: Status<S>,
        payloads: Seq<BytesMut>,
    ) -> Self {
        if self.knows(remote) {
            self.report(remote, status).enqueue(now, remote, ecn, payloads)
        } else {
            self
        }
    }

    /// The association with `remote` is forgotten, and `payloads`, the last from it, join the
    /// queue. Where there is no association, nothing happens.
    pub open spec fn dismiss(
        self,
        now: Instant,
        remote: SocketAddr,
        payloads: Seq<BytesMut>,
    ) -> Self {
        if self.knows(remote) {
            self.enqueue(now, remote, None, payloads).forget(remote)
        } else {
            self
        }
    }

    /// What it takes to connect to `remote` at `now`: nothing where there is an association, else a
    /// client engine whose handshake is begun. Port 0 cannot be connected to.
    pub open spec fn dialing<'a>(
        self,
        now: Instant,
        remote: SocketAddr,
        client_config: Arc<H>,
        initial_state: Option<S>,
    ) -> Result<Option<(NewConn<H, S>, Dial, Call<'a>)>, Error> {
        if remote.spec_port() == 0 {
            Err(Error::InvalidRemoteAddress(remote))
        } else if self.knows(remote) {
            Ok(None)
        } else {
            Ok(
                Some(
                    (
                        NewConn { config: client_config, is_client: true, initial_state },
                        Dial { now, remote },
                        Call::Handshake(now),
                    ),
                ),
            )
        }
    }

    /// The first step of writing `data` to `remote` at `now`: the engine is asked to, if there is
    /// an association.
    pub open spec fn writing<'a>(self, now: Instant, remote: SocketAddr, data: &'a [u8]) -> Result<
        Step<'a>,
        Error,
    > {
        if self.knows(remote) {
            Ok(
                Step::Call {
                    operation: Operation {
                        now,
                        remote,
                        ecn: None,
                        completed_before: self.connections[remote].status.handshake_completed,
                        phase: Phase::Writing,
                    },
                    call: Call::Write(data),
                },
            )
        } else {
            Err(Error::InvalidRemoteAddress(remote))
        }
    }

    /// What a datagram from `remote` takes before it can be read: nothing where there is an
    /// association, else an engine with the server's configuration.
    pub open spec fn admission(self, remote: SocketAddr) -> Result<Option<NewConn<H, S>>, Error> {
        if self.knows(remote) {
            Ok(None)
        } else {
            match self.server_config {
                Some(config) => Ok(
                    Some(NewConn { config, is_client: false, initial_state: None }),
                ),
                None => Err(Error::NoServerConfig),
            }
        }
    }
}

} // verus!
