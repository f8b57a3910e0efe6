//! What the endpoint knows of an association.
use crate::transport::Instant;
use std::sync::Arc;
use vstd::prelude::*;

verus! {

/// The plain facts about an engine that the endpoint goes by. The caller reports them after each
/// call into the engine, and again when the engine's packets have been taken.
pub struct Status<S> {
    /// The connection state, from which keying material can be exported.
    pub state: S,
    /// Whether the handshake has finished.
    pub handshake_completed: bool,
    /// Whether the datagram that was read last carried a handshake record.
    pub received_handshake_in_last_datagram: bool,
    /// When the current flight has to be sent again, if that is scheduled.
    pub current_retransmit_timer: Option<Instant>,
}

/// An association: the engine that does its cryptography, and its status as last reported.
pub struct DTLSConn<C, S> {
    pub engine: C,
    pub status: Status<S>,
}

impl<C, S> DTLSConn<C, S> {
    /// The connection state as last reported.
    pub fn connection_state(&self) -> (state: &S)
        ensures
            *state == self.status.state,
    {
        &self.status.state
    }

    /// Whether the handshake had finished when the status was last reported.
    pub fn is_handshake_completed(&self) -> (completed: bool)
        ensures
            completed == self.status.handshake_completed,
    {
        self.status.handshake_completed
    }
}

/// What to create an engine with.
pub struct NewConn<H, S> {
    pub config: Arc<H>,
    pub is_client: bool,
    pub initial_state: Option<S>,
}

} // verus!
