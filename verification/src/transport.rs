//! Addresses, instants and the messages that the endpoint hands to its transport.
use vstd::prelude::*;

verus! {

/// An IPv4 socket address. `ip` holds the four octets, the first one most significant.
#[derive(Clone, Copy, PartialEq, Eq, Structural, Debug)]
pub struct SocketAddrV4 {
    pub ip: u32,
    pub port: u16,
}

/// An IPv6 socket address. `ip` holds the eight segments, the first one most significant.
#[derive(Clone, Copy, PartialEq, Eq, Structural, Debug)]
pub struct SocketAddrV6 {
    pub ip: u128,
    pub port: u16,
    pub flowinfo: u32,
    pub scope_id: u32,
}

/// A socket address. Two addresses are the same when all their parts are.
#[derive(Clone, Copy, PartialEq, Eq, Structural, Debug)]
pub enum SocketAddr {
    V4(SocketAddrV4),
    V6(SocketAddrV6),
}

impl SocketAddr {
    /// The port of the address.
    pub open spec fn spec_port(self) -> u16 {
        match self {
            SocketAddr::V4(a) => a.port,
            SocketAddr::V6(a) => a.port,
        }
    }

    /// The port of the address.
    pub fn port(&self) -> (port: u16)
        ensures
            port == self.spec_port(),
    {
        match self {
            SocketAddr::V4(a) => a.port,
            SocketAddr::V6(a) => a.port,
        }
    }
}

/// A point on the caller's monotonic clock: nanoseconds since (or, if negative, before) an origin
/// that the caller picks once.
#[derive(Clone, Copy, PartialEq, Eq, Structural, Debug)]
pub struct Instant {
    pub nanos: i128,
}

/// The protocol that carries the datagrams.
#[derive(Clone, Copy, PartialEq, Eq, Structural, Debug)]
pub enum TransportProtocol {
    UDP,
    TCP,
}

/// An explicit congestion notification codepoint of an IP header.
#[derive(Clone, Copy, PartialEq, Eq, Structural, Debug)]
pub enum EcnCodepoint {
    Ect0,
    Ect1,
    Ce,
}

/// Where a message comes from and goes to.
#[derive(Clone, Copy, PartialEq, Eq, Debug)]
pub struct TransportContext {
    pub local_addr: SocketAddr,
    pub peer_addr: SocketAddr,
    pub transport_protocol: TransportProtocol,
    pub ecn: Option<EcnCodepoint>,
}

/// A message with the instant and the addresses that go with it.
pub struct TransportMessage<T> {
    pub now: Instant,
    pub transport: TransportContext,
    pub message: T,
}

/// Why the endpoint refuses an operation.
///
/// A failing engine is not among these: its own error is handed back unchanged.
#[derive(Clone, Copy, PartialEq, Eq, Structural, Debug)]
pub enum Error {
    /// The address cannot be connected to, or there is no association with it.
    InvalidRemoteAddress(SocketAddr),
    /// A datagram came from a stranger and the endpoint is not set up to serve.
    NoServerConfig,
}

} // verus!
