//! What each method does, said of every call of it: of the arguments, of what came back, and of the
//! endpoint before and after.
use crate::conn::{DTLSConn, NewConn, Status};
use crate::endpoint::Endpoint;
use crate::operation::{
    Accepting, Call, Delivery, Dial, EndpointEvent, Operation, ReadStart, Step, Stopping,
    Transmission,
};
use crate::transport::{
    EcnCodepoint, Error, Instant, SocketAddr, TransportContext, TransportMessage,
    TransportProtocol,
};
use crate::view::EndpointView;
use bytes::BytesMut;
use std::collections::VecDeque;
use std::sync::Arc;
use vstd::prelude::*;

verus! {

/// The port of an address is the one written in it, whatever its kind.
pub proof fn law_port(addr: SocketAddr, port: u16)
    requires
        call_ensures(SocketAddr::port, (&addr,), port),
    ensures
        addr matches SocketAddr::V4(a) ==> port == a.port,
        addr matches SocketAddr::V6(a) ==> port == a.port,
{
}

/// A new endpoint has no associations and nothing to send, and is set up as it was asked to be.
pub proof fn law_new<C, H, S>(
    local_addr: SocketAddr,
    protocol: TransportProtocol,
    server_config: Option<Arc<H>>,
    e: Endpoint<C, H, S>,
)
    requires
        call_ensures(Endpoint::<C, H, S>::new, (local_addr, protocol, server_config), e),
    ensures
        e.wf(),
        e@.local_addr == local_addr,
        e@.transport_protocol == protocol,
        e@.server_config == server_config,
        e@.transmits.len() == 0,
        e@.keys.len() == 0,
        forall|k: SocketAddr| !(#[trigger] e@.connections.dom().contains(k)),
{
}

/// Replacing the server configuration replaces it and nothing else.
pub proof fn law_set_server_config<C, H, S>(
    e: &mut Endpoint<C, H, S>,
    server_config: Option<Arc<H>>,
)
    requires
        call_ensures(Endpoint::<C, H, S>::set_server_config, (e, server_config), ()),
    ensures
        final(e).wf(),
        final(e)@ == (EndpointView { server_config, ..old(e)@ }),
{
}

/// Polling takes the message at the head of the queue, and moves each other one up by one place;
/// it gives nothing if and only if nothing is queued.
pub proof fn law_poll_transmit<C, H, S>(
    e: &mut Endpoint<C, H, S>,
    message: Option<TransportMessage<BytesMut>>,
)
    requires
        call_ensures(Endpoint::<C, H, S>::poll_transmit, (e,), message),
    ensures
        final(e).wf(),
        message is None <==> old(e)@.transmits.len() == 0,
        message matches Some(m) ==> {
            &&& m == old(e)@.transmits[0]
            &&& final(e)@.transmits.len() == old(e)@.transmits.len() - 1
            &&& forall|i: int|
                0 <= i < final(e)@.transmits.len() ==> #[trigger] final(e)@.transmits[i] == old(
                    e,
                )@.transmits[i + 1]
        },
        message is None ==> final(e)@.transmits.len() == 0,
        final(e)@ == (EndpointView { transmits: final(e)@.transmits, ..old(e)@ }),
{
}

/// The addresses that are listed are those of the associations, each of them once.
pub proof fn law_get_connections_keys<C, H, S>(e: Endpoint<C, H, S>, keys: Vec<SocketAddr>)
    requires
        e.wf(),
        call_ensures(Endpoint::<C, H, S>::get_connections_keys, (&e,), keys),
    ensures
        keys@ == e@.keys,
        forall|i: int, j: int| 0 <= i < j < keys@.len() ==> keys@[i] != keys@[j],
        forall|k: SocketAddr| #[trigger] e@.connections.dom().contains(k) <==> keys@.contains(k),
{
    e.lemma_wf();
}

/// The state that is given is the one that was reported last for the very peer asked for, and there
/// is one if and only if there is an association with that peer.
pub proof fn law_get_connection_state<C, H, S>(
    e: Endpoint<C, H, S>,
    remote: SocketAddr,
    state: Option<&S>,
)
    requires
        call_ensures(Endpoint::<C, H, S>::get_connection_state, (&e, remote), state),
    ensures
        state is Some <==> e@.connections.dom().contains(remote),
        state matches Some(s) ==> *s == e@.connections[remote].status.state,
{
}

/// An association tells what was reported of it last.
pub proof fn law_conn<C, S>(conn: DTLSConn<C, S>, state: &S, completed: bool)
    requires
        call_ensures(DTLSConn::<C, S>::connection_state, (&conn,), state),
        call_ensures(DTLSConn::<C, S>::is_handshake_completed, (&conn,), completed),
    ensures
        *state == conn.status.state,
        completed == conn.status.handshake_completed,
{
}

/// The engine that is lent out is that of the peer asked for; what becomes of it is all that
/// changes. There is one if and only if there is an association with that peer.
pub proof fn law_engine_mut<C, H, S>(
    e: &mut Endpoint<C, H, S>,
    remote: SocketAddr,
    engine: Option<&mut C>,
)
    requires
        call_ensures(Endpoint::<C, H, S>::engine_mut, (e, &remote), engine),
    ensures
        final(e).wf(),
        engine is Some <==> old(e)@.connections.dom().contains(remote),
        engine matches Some(lent) ==> {
            &&& *lent == old(e)@.connections[remote].engine
            &&& final(e)@ == (EndpointView {
                connections: old(e)@.connections.insert(
                    remote,
                    DTLSConn {
                        engine: *final(lent),
                        status: old(e)@.connections[remote].status,
                    },
                ),
                ..old(e)@
            })
        },
        engine is None ==> final(e)@ == old(e)@,
{
}

/// Connecting is refused for port 0 and for no other reason. Where there is no association with
/// `remote`, whatever other associations there are, a client engine is asked for, with the
/// configuration and the state that were given, and its handshake is to begin at `now`. Where there
/// is one nothing is asked for.
pub proof fn law_connect<'a, C, H, S>(
    e: Endpoint<C, H, S>,
    now: Instant,
    remote: SocketAddr,
    client_config: Arc<H>,
    initial_state: Option<S>,
    result: Result<Option<(NewConn<H, S>, Dial, Call<'a>)>, Error>,
)
    requires
        call_ensures(
            Endpoint::<C, H, S>::connect,
            (&e, now, remote, client_config, initial_state),
            result,
        ),
    ensures
        result is Err <==> match remote {
            SocketAddr::V4(a) => a.port == 0,
            SocketAddr::V6(a) => a.port == 0,
        },
        result matches Err(error) ==> error == Error::InvalidRemoteAddress(remote),
        result matches Ok(None) ==> e@.connections.dom().contains(remote),
        result matches Ok(Some((new, dial, call))) ==> {
            &&& !e@.connections.dom().contains(remote)
            &&& new.is_client
            &&& new.config == client_config
            &&& new.initial_state == initial_state
            &&& dial.now == now
            &&& dial.remote == remote
            &&& call == Call::<'a>::Handshake(now)
        },
{
}

/// A handshake that began adds the association, the youngest, as its engine reported it, and queues
/// one message for each packet of the engine, in order. One that did not begin, or with a peer that
/// there is an association with, leaves the endpoint as it was. The engine's error is handed on.
pub proof fn law_connected<C, H, S, E>(
    e: &mut Endpoint<C, H, S>,
    dial: Dial,
    engine: C,
    status: Status<S>,
    handshake: Result<VecDeque<BytesMut>, E>,
    result: Result<(), E>,
)
    requires
        call_ensures(
            Endpoint::<C, H, S>::connected::<E>,
            (e, dial, engine, status, handshake),
            result,
        ),
    ensures
        final(e).wf(),
        handshake is Ok ==> result is Ok,
        handshake matches Err(error) ==> result matches Err(given) && given == error,
        handshake is Err || old(e)@.connections.dom().contains(dial.remote) ==> final(e)@ == old(
            e,
        )@,
        handshake matches Ok(outgoing) ==> !old(e)@.connections.dom().contains(dial.remote) ==> {
            &&& final(e)@ == (EndpointView {
                keys: old(e)@.keys.push(dial.remote),
                connections: old(e)@.connections.insert(dial.remote, DTLSConn { engine, status }),
                transmits: final(e)@.transmits,
                ..old(e)@
            })
            &&& final(e)@.transmits.len() == old(e)@.transmits.len() + outgoing@.len()
            &&& forall|i: int|
                0 <= i < old(e)@.transmits.len() ==> #[trigger] final(e)@.transmits[i] == old(
                    e,
                )@.transmits[i]
            &&& forall|i: int|
                0 <= i < outgoing@.len() ==> final(e)@.transmits[old(e)@.transmits.len() + i] == (
                TransportMessage {
                    now: dial.now,
                    transport: TransportContext {
                        local_addr: old(e)@.local_addr,
                        peer_addr: dial.remote,
                        transport_protocol: old(e)@.transport_protocol,
                        ecn: None,
                    },
                    message: #[trigger] outgoing@[i],
                })
        },
{
}

/// Stopping asks for the engine of `remote` to be closed if and only if there is an association with
/// it.
pub proof fn law_stop<'a, C, H, S>(
    e: Endpoint<C, H, S>,
    now: Instant,
    remote: SocketAddr,
    result: Option<(Stopping, Call<'a>)>,
)
    requires
        call_ensures(Endpoint::<C, H, S>::stop, (&e, now, remote), result),
    ensures
        result is Some <==> e@.connections.dom().contains(remote),
        result matches Some((stopping, call)) ==> {
            &&& stopping.now == now
            &&& stopping.remote == remote
            &&& call is Close
        },
{
}

/// What is stopped is gone, and is handed back with its engine as it is and its last status; one
/// message is queued for each packet that the engine had, in order. The other associations stay as
/// and where they were. Without an association nothing happens, and nothing is handed back.
pub proof fn law_stopped<C, H, S>(
    e: &mut Endpoint<C, H, S>,
    stopping: Stopping,
    status: Status<S>,
    outgoing: VecDeque<BytesMut>,
    conn: Option<DTLSConn<C, S>>,
)
    requires
        old(e).wf(),
        call_ensures(Endpoint::<C, H, S>::stopped, (e, stopping, status, outgoing), conn),
    ensures
        final(e).wf(),
        conn is Some <==> old(e)@.connections.dom().contains(stopping.remote),
        conn is None ==> final(e)@ == old(e)@,
        conn matches Some(c) ==> {
            &&& c.engine == old(e)@.connections[stopping.remote].engine
            &&& c.status == status
            &&& final(e)@ == (EndpointView {
                keys: final(e)@.keys,
                connections: old(e)@.connections.remove(stopping.remote),
                transmits: final(e)@.transmits,
                ..old(e)@
            })
            &&& forall|i: int|
                0 <= i < old(e)@.keys.len() && #[trigger] old(e)@.keys[i] == stopping.remote
                    ==> final(e)@.keys == old(e)@.keys.take(i) + old(e)@.keys.skip(i + 1)
            &&& final(e)@.transmits.len() == old(e)@.transmits.len() + outgoing@.len()
            &&& forall|i: int|
                0 <= i < old(e)@.transmits.len() ==> #[trigger] final(e)@.transmits[i] == old(
                    e,
                )@.transmits[i]
            &&& forall|i: int|
                0 <= i < outgoing@.len() ==> final(e)@.transmits[old(e)@.transmits.len() + i] == (
                TransportMessage {
                    now: stopping.now,
                    transport: TransportContext {
                        local_addr: old(e)@.local_addr,
                        peer_addr: stopping.remote,
                        transport_protocol: old(e)@.transport_protocol,
                        ecn: None,
                    },
                    message: #[trigger] outgoing@[i],
                })
        },
{
    old(e).lemma_wf();
    let keys = old(e)@.keys;
    let remote = stopping.remote;
    keys.index_of_first_ensures(remote);
    assert forall|i: int| 0 <= i < keys.len() && #[trigger] keys[i] == remote implies keys.remove_value(
        remote,
    ) == keys.take(i) + keys.skip(i + 1) by {
        assert(keys.contains(remote));
        assert(keys.index_of_first(remote) == Some(i));
        assert(keys.remove(i) =~= keys.take(i) + keys.skip(i + 1));
    }
}

/// Closing names an association as long as there is one: the oldest, to be closed at `now`.
pub proof fn law_close_names<'a, C, H, S>(
    e: Endpoint<C, H, S>,
    now: Instant,
    result: Option<(Stopping, Call<'a>)>,
)
    requires
        e.wf(),
        call_ensures(Endpoint::<C, H, S>::close, (&e, now), result),
    ensures
        result is None <==> (forall|k: SocketAddr| !(#[trigger] e@.connections.dom().contains(k))),
        result matches Some((stopping, call)) ==> {
            &&& e@.connections.dom().contains(stopping.remote)
            &&& stopping.remote == e@.keys[0]
            &&& stopping.now == now
            &&& call is Close
        },
{
    e.lemma_wf();
    if e@.keys.len() > 0 {
        assert(e@.keys.contains(e@.keys[0]));
    } else {
        assert forall|k: SocketAddr| !(#[trigger] e@.connections.dom().contains(k)) by {
            assert(!e@.keys.contains(k));
        }
    }
}

/// A datagram is refused if and only if its sender is unknown and no server configuration is there.
/// A known peer's engine is to read it. For a stranger a server engine is asked for, with the
/// server's configuration and no state, and the datagram is kept with all that came with it.
pub proof fn law_read<'a, C, H, S>(
    e: Endpoint<C, H, S>,
    now: Instant,
    remote: SocketAddr,
    ecn: Option<EcnCodepoint>,
    data: BytesMut,
    result: Result<ReadStart<'a, H, S>, Error>,
)
    requires
        call_ensures(Endpoint::<C, H, S>::read, (&e, now, remote, ecn, data), result),
    ensures
        result is Err <==> !e@.connections.dom().contains(remote) && e@.server_config is None,
        result matches Err(error) ==> error is NoServerConfig,
        result matches Ok(ReadStart::Known(step)) ==> {
            &&& e@.connections.dom().contains(remote)
            &&& step matches Step::Call { operation, call } && {
                &&& call == Call::<'a>::Read(data)
                &&& operation.now == now
                &&& operation.remote == remote
                &&& operation.ecn == ecn
                &&& operation.completed_before
                    == e@.connections[remote].status.handshake_completed
            }
        },
        result matches Ok(ReadStart::Stranger(new, accepting)) ==> {
            &&& !e@.connections.dom().contains(remote)
            &&& Some(new.config) == e@.server_config
            &&& !new.is_client
            &&& new.initial_state is None
            &&& accepting == (Accepting { now, remote, ecn, data })
        },
{
}

/// An engine for a stranger makes a new association, the youngest; one that is there already is kept
/// as it is. The datagram is then read as one from a known peer is.
pub proof fn law_accept<'a, C, H, S>(
    e: &mut Endpoint<C, H, S>,
    accepting: Accepting,
    engine: C,
    status: Status<S>,
    step: Step<'a>,
    after: Endpoint<C, H, S>,
    reread: Result<ReadStart<'a, H, S>, Error>,
)
    requires
        call_ensures(Endpoint::<C, H, S>::accept, (e, accepting, engine, status), step),
        after == *final(e),
        call_ensures(
            Endpoint::<C, H, S>::read,
            (&after, accepting.now, accepting.remote, accepting.ecn, accepting.data),
            reread,
        ),
    ensures
        final(e).wf(),
        old(e)@.connections.dom().contains(accepting.remote) ==> final(e)@ == old(e)@,
        !old(e)@.connections.dom().contains(accepting.remote) ==> final(e)@ == (EndpointView {
            keys: old(e)@.keys.push(accepting.remote),
            connections: old(e)@.connections.insert(accepting.remote, DTLSConn { engine, status }),
            ..old(e)@
        }),
        step matches Step::Call { call, .. } && call == Call::<'a>::Read(accepting.data),
        reread matches Ok(ReadStart::Known(again)) && again == step,
{
}

/// Reporting how a call went records the engine's status with its association and changes nothing
/// else. An error is handed on; a success is answered with a step, for the same peer and with the
/// same stamp and mark. At the end of a read the handshake is newly complete if and only if it was
/// not complete before the operation and is now.
pub proof fn law_advance<'a, C, H, S, E>(
    e: &mut Endpoint<C, H, S>,
    operation: Operation,
    status: Status<S>,
    outcome: Result<bool, E>,
    result: Result<Step<'a>, E>,
)
    requires
        call_ensures(Endpoint::<C, H, S>::advance::<E>, (e, operation, status, outcome), result),
    ensures
        final(e).wf(),
        outcome is Ok ==> result is Ok,
        outcome matches Err(error) ==> result matches Err(given) && given == error,
        result matches Ok(Step::Call { operation: next, .. }) ==> {
            &&& next.now == operation.now
            &&& next.remote == operation.remote
            &&& next.ecn == operation.ecn
            &&& next.completed_before == operation.completed_before
        },
        result matches Ok(Step::Deliver(delivery)) ==> {
            &&& delivery.now == operation.now
            &&& delivery.remote == operation.remote
            &&& delivery.ecn == operation.ecn
            &&& delivery.newly_completed == (!operation.completed_before
                && status.handshake_completed)
        },
        result matches Ok(Step::Transmit(transmission)) ==> {
            &&& transmission.now == operation.now
            &&& transmission.remote == operation.remote
            &&& transmission.ecn == operation.ecn
        },
        old(e)@.connections.dom().contains(operation.remote) ==> final(e)@ == (EndpointView {
            connections: old(e)@.connections.insert(
                operation.remote,
                DTLSConn { engine: old(e)@.connections[operation.remote].engine, status },
            ),
            ..old(e)@
        }),
        !old(e)@.connections.dom().contains(operation.remote) ==> final(e)@ == old(e)@,
{
}

/// What follows a call is what the endpoint answers when the call is reported to it.
pub proof fn law_follow<'a, C, H, S, E>(
    e: &mut Endpoint<C, H, S>,
    operation: Operation,
    status: Status<S>,
    is_handshake: bool,
    step: Step<'a>,
    result: Result<Step<'a>, E>,
)
    requires
        call_ensures(Operation::follow::<S>, (operation, &status, is_handshake), step),
        call_ensures(
            Endpoint::<C, H, S>::advance::<E>,
            (e, operation, status, Ok::<bool, E>(is_handshake)),
            result,
        ),
    ensures
        result matches Ok(given) && given == step,
{
}

/// Transmitting records the engine's status and queues exactly one message for each packet: the
/// i-th new message carries the i-th packet, to the peer of the operation, stamped and marked as the
/// operation is. What was queued before stays in front. Without an association nothing happens.
pub proof fn law_transmit<C, H, S>(
    e: &mut Endpoint<C, H, S>,
    transmission: Transmission,
    status: Status<S>,
    outgoing: VecDeque<BytesMut>,
)
    requires
        call_ensures(Endpoint::<C, H, S>::transmit, (e, transmission, status, outgoing), ()),
    ensures
        final(e).wf(),
        !old(e)@.connections.dom().contains(transmission.remote) ==> final(e)@ == old(e)@,
        old(e)@.connections.dom().contains(transmission.remote) ==> {
            &&& final(e)@ == (EndpointView {
                connections: old(e)@.connections.insert(
                    transmission.remote,
                    DTLSConn { engine: old(e)@.connections[transmission.remote].engine, status },
                ),
                transmits: final(e)@.transmits,
                ..old(e)@
            })
            &&& final(e)@.transmits.len() == old(e)@.transmits.len() + outgoing@.len()
            &&& forall|i: int|
                0 <= i < old(e)@.transmits.len() ==> #[trigger] final(e)@.transmits[i] == old(
                    e,
                )@.transmits[i]
            &&& forall|i: int|
                0 <= i < outgoing@.len() ==> final(e)@.transmits[old(e)@.transmits.len() + i] == (
                TransportMessage {
                    now: transmission.now,
                    transport: TransportContext {
                        local_addr: old(e)@.local_addr,
                        peer_addr: transmission.remote,
                        transport_protocol: old(e)@.transport_protocol,
                        ecn: transmission.ecn,
                    },
                    message: #[trigger] outgoing@[i],
                })
        },
{
}

/// Delivering gives one event for each piece of data, in order, and before them the completion of
/// the handshake if that is newly complete, and no other. The packets are next, for the same peer
/// and with the same stamp and mark.
pub proof fn law_deliver(
    delivery: Delivery,
    data: VecDeque<BytesMut>,
    events: Vec<EndpointEvent>,
    transmission: Transmission,
)
    requires
        call_ensures(Delivery::deliver, (delivery, data), (events, transmission)),
    ensures
        delivery.newly_completed ==> {
            &&& events@.len() == data@.len() + 1
            &&& events@[0] is HandshakeComplete
            &&& forall|i: int|
                0 <= i < data@.len() ==> events@[i + 1] == EndpointEvent::ApplicationData(
                    #[trigger] data@[i],
                )
        },
        !delivery.newly_completed ==> {
            &&& events@.len() == data@.len()
            &&& forall|i: int|
                0 <= i < data@.len() ==> events@[i] == EndpointEvent::ApplicationData(
                    #[trigger] data@[i],
                )
        },
        transmission.now == delivery.now,
        transmission.remote == delivery.remote,
        transmission.ecn == delivery.ecn,
{
}

/// The timer that is given is the one that the engine of `remote` reported last.
pub proof fn law_poll_timeout<C, H, S>(
    e: Endpoint<C, H, S>,
    remote: SocketAddr,
    deadline: Option<Instant>,
)
    requires
        call_ensures(Endpoint::<C, H, S>::poll_timeout, (&e, &remote), deadline),
    ensures
        e@.connections.dom().contains(remote) ==> deadline
            == e@.connections[remote].status.current_retransmit_timer,
        !e@.connections.dom().contains(remote) ==> deadline is None,
{
}

/// A timeout is dealt with if and only if the timer that the engine of `remote` reported last has
/// run out by `now`: it is taken, so that it is dealt with once, and is to be disarmed in the engine
/// too. Otherwise nothing changes. Only a stranger's timeout is refused.
pub proof fn law_handle_timeout<'a, C, H, S>(
    e: &mut Endpoint<C, H, S>,
    remote: SocketAddr,
    now: Instant,
    result: Result<Option<Step<'a>>, Error>,
)
    requires
        call_ensures(Endpoint::<C, H, S>::handle_timeout, (e, remote, now), result),
    ensures
        final(e).wf(),
        result is Err <==> !old(e)@.connections.dom().contains(remote),
        result matches Err(error) ==> error == Error::InvalidRemoteAddress(remote),
        old(e)@.connections.dom().contains(remote) ==> {
            let conn = old(e)@.connections[remote];
            result matches Ok(answer) && {
                &&& answer is Some <==> (conn.status.current_retransmit_timer matches Some(deadline)
                    && deadline.nanos <= now.nanos)
                &&& answer matches Some(step) ==> {
                    &&& step matches Step::Call { operation, call } && {
                        &&& call is ClearRetransmitTimer
                        &&& operation.now == now
                        &&& operation.remote == remote
                        &&& operation.ecn is None
                    }
                    &&& final(e)@ == (EndpointView {
                        connections: old(e)@.connections.insert(
                            remote,
                            DTLSConn {
                                engine: conn.engine,
                                status: Status { current_retransmit_timer: None, ..conn.status },
                            },
                        ),
                        ..old(e)@
                    })
                }
            }
        },
        !(result matches Ok(Some(_))) ==> final(e)@ == old(e)@,
{
}

/// Writing asks the engine of `remote` to, if and only if there is an association with it.
pub proof fn law_write<'a, C, H, S>(
    e: Endpoint<C, H, S>,
    now: Instant,
    remote: SocketAddr,
    data: &'a [u8],
    result: Result<Step<'a>, Error>,
)
    requires
        call_ensures(Endpoint::<C, H, S>::write, (&e, now, remote, data), result),
    ensures
        result is Err <==> !e@.connections.dom().contains(remote),
        result matches Err(error) ==> error == Error::InvalidRemoteAddress(remote),
        result matches Ok(step) ==> step matches Step::Call { operation, call } && {
            &&& call == Call::Write(data)
            &&& operation.now == now
            &&& operation.remote == remote
            &&& operation.ecn is None
        },
{
}

} // verus!
