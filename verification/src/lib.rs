//! A Sans-I/O DTLS endpoint.
//!
//! An [`Endpoint`] multiplexes several DTLS associations by remote address. It owns no sockets,
//! reads no clock and does no cryptography: the caller hands it datagrams and instants, carries
//! out the calls that it asks for on the association engines, and polls it for the datagrams to
//! send.
//!
//! An operation that needs an engine is a short dialogue. It starts with one of the methods named
//! after what the application wants ([`Endpoint::read`], [`Endpoint::write`], ...), which answers
//! with a [`Step`]; the caller performs the [`Call`] in it and reports the outcome to
//! [`Endpoint::advance`], until the step is to hand over decrypted data or outgoing packets.
mod conn;
mod endpoint;
pub mod laws;
pub mod operation;
mod payload;
mod table;
mod transport;
pub mod view;

pub use conn::{DTLSConn, NewConn, Status};
pub use endpoint::Endpoint;
pub use operation::{
    Accepting, Call, Delivery, Dial, EndpointEvent, Operation, Phase, ReadStart, Step, Stopping,
    Transmission,
};
pub use transport::{
    EcnCodepoint, Error, Instant, SocketAddr, SocketAddrV4, SocketAddrV6, TransportContext,
    TransportMessage, TransportProtocol,
};
