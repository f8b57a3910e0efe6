//! How the operations go from their first call to their end, said of the calls of the methods that
//! make them up.
//!
//! Between these the endpoint may have become any other: an operation goes by what it began with,
//! and by what its engine reports.
use crate::conn::Status;
use crate::endpoint::Endpoint;
use crate::operation::{
    Accepting, Call, Delivery, Dial, EndpointEvent, Operation, ReadStart, Step, Stopping,
    Transmission,
};
use crate::transport::{EcnCodepoint, Error, Instant, SocketAddr, TransportMessage};
use bytes::BytesMut;
use std::collections::VecDeque;
use std::sync::Arc;
use vstd::prelude::*;

verus! {

/// Whether `e`, told that the call of `step` succeeded with `answer` and left the engine with
/// `status`, may answer with `next`. A step that is no call needs no answer.
pub open spec fn advances<'a, C, H, S, E>(
    e: &mut Endpoint<C, H, S>,
    step: Step<'a>,
    status: Status<S>,
    answer: bool,
    next: Step<'a>,
) -> bool {
    match step {
        Step::Call { operation, .. } => call_ensures(
            Endpoint::<C, H, S>::advance::<E>,
            (e, operation, status, Ok::<bool, E>(answer)),
            Ok::<Step<'a>, E>(next),
        ),
        _ => true,
    }
}

/// A write is one call of the engine, whatever that reports: the data is written, and then the
/// packets are to be queued, for the peer that was written to.
pub proof fn law_write_is_one_call<'a, C, H, S, E>(
    e: Endpoint<C, H, S>,
    now: Instant,
    remote: SocketAddr,
    data: &'a [u8],
    step: Step<'a>,
    f: &mut Endpoint<C, H, S>,
    status: Status<S>,
    answer: bool,
    next: Step<'a>,
)
    requires
        call_ensures(
            Endpoint::<C, H, S>::write,
            (&e, now, remote, data),
            Ok::<Step<'a>, Error>(step),
        ),
        advances::<C, H, S, E>(f, step, status, answer, next),
    ensures
        step matches Step::Call { call, .. } && call == Call::Write(data),
        next matches Step::Transmit(t) && t == (Transmission { now, remote, ecn: None }),
{
}

/// A timer that has run out is disarmed in the engine; the flight is then sent again unless the
/// handshake is complete; and then the packets are to be queued for the peer.
pub proof fn law_timeout_resends<'a, C, H, S, E>(
    e: &mut Endpoint<C, H, S>,
    remote: SocketAddr,
    now: Instant,
    step: Step<'a>,
    f: &mut Endpoint<C, H, S>,
    disarmed: Status<S>,
    next: Step<'a>,
    g: &mut Endpoint<C, H, S>,
    resent: Status<S>,
    end: Step<'a>,
    answers: (bool, bool),
)
    requires
        call_ensures(
            Endpoint::<C, H, S>::handle_timeout,
            (e, remote, now),
            Ok::<Option<Step<'a>>, Error>(Some(step)),
        ),
        advances::<C, H, S, E>(f, step, disarmed, answers.0, next),
        advances::<C, H, S, E>(g, next, resent, answers.1, end),
    ensures
        step matches Step::Call { call, .. } && call is ClearRetransmitTimer,
        disarmed.handshake_completed ==> next == Step::<'a>::Transmit(
            Transmission { now, remote, ecn: None },
        ),
        !disarmed.handshake_completed ==> {
            &&& next matches Step::Call { call, .. } && call == Call::<'a>::HandshakeTimeout(now)
            &&& end == Step::<'a>::Transmit(Transmission { now, remote, ecn: None })
        },
{
}

/// The reading of a datagram from a known peer, from `read` to its end, with the engine's status
/// after each call in `statuses` and the endpoint's answers in `steps`.
pub open spec fn reads<'a, C, H, S, E>(
    e: Endpoint<C, H, S>,
    now: Instant,
    remote: SocketAddr,
    ecn: Option<EcnCodepoint>,
    data: BytesMut,
    through: (
        &mut Endpoint<C, H, S>,
        &mut Endpoint<C, H, S>,
        &mut Endpoint<C, H, S>,
        &mut Endpoint<C, H, S>,
    ),
    statuses: Seq<Status<S>>,
    answers: Seq<bool>,
    steps: Seq<Step<'a>>,
) -> bool {
    &&& statuses.len() == 4
    &&& answers.len() == 4
    &&& steps.len() == 5
    &&& call_ensures(
        Endpoint::<C, H, S>::read,
        (&e, now, remote, ecn, data),
        Ok::<ReadStart<'a, H, S>, Error>(ReadStart::Known(steps[0])),
    )
    &&& advances::<C, H, S, E>(through.0, steps[0], statuses[0], answers[0], steps[1])
    &&& advances::<C, H, S, E>(through.1, steps[1], statuses[1], answers[1], steps[2])
    &&& advances::<C, H, S, E>(through.2, steps[2], statuses[2], answers[2], steps[3])
    &&& advances::<C, H, S, E>(through.3, steps[3], statuses[3], answers[3], steps[4])
}

/// How a datagram is read, whatever the engine reports, whoever sent it and however it is marked.
///
/// It is read first. If the handshake is complete then and the datagram carried no handshake record
/// that is all; if it carried one, its trace is cleared and the last flight is sent again. If the
/// handshake is not complete it runs, packets put aside are taken in, and it runs once more if these
/// brought a handshake record and it is still not complete. In the end the data is to be delivered,
/// and the completion of the handshake is announced if and only if the association was not complete
/// before the read and is complete after its last call.
pub proof fn law_read_from_start_to_end<'a, C, H, S, E>(
    e: Endpoint<C, H, S>,
    now: Instant,
    remote: SocketAddr,
    ecn: Option<EcnCodepoint>,
    data: BytesMut,
    through: (
        &mut Endpoint<C, H, S>,
        &mut Endpoint<C, H, S>,
        &mut Endpoint<C, H, S>,
        &mut Endpoint<C, H, S>,
    ),
    statuses: Seq<Status<S>>,
    answers: Seq<bool>,
    steps: Seq<Step<'a>>,
)
    requires
        reads::<C, H, S, E>(
            e,
            now,
            remote,
            ecn,
            data,
            through,
            statuses,
            answers,
            steps,
        ),
    ensures
        steps[0] matches Step::Call { call, .. } && call == Call::<'a>::Read(data),
        ({
            let first = statuses[0];
            let again = answers[2] && !statuses[2].handshake_completed;
            let (count, last): (int, Status<S>) = if first.handshake_completed {
                if first.received_handshake_in_last_datagram {
                    (3, statuses[2])
                } else {
                    (1, first)
                }
            } else if again {
                (4, statuses[3])
            } else {
                (3, statuses[2])
            };
            &&& steps[count] matches Step::Deliver(d) && {
                &&& d.now == now
                &&& d.remote == remote
                &&& d.ecn == ecn
                &&& d.newly_completed == (!e@.connections[remote].status.handshake_completed
                    && last.handshake_completed)
            }
            &&& first.handshake_completed && first.received_handshake_in_last_datagram ==> {
                &&& steps[1] matches Step::Call { call, .. } && call is ClearHandshakeRx
                &&& steps[2] matches Step::Call { call, .. } && call
                    == Call::<'a>::HandshakeTimeout(now)
            }
            &&& !first.handshake_completed ==> {
                &&& steps[1] matches Step::Call { call, .. } && call == Call::<'a>::Handshake(now)
                &&& steps[2] matches Step::Call { call, .. } && call is HandleIncomingQueuedPackets
                &&& again ==> (steps[3] matches Step::Call { call, .. } && call
                    == Call::<'a>::Handshake(now))
            }
        }),
{
}

/// A read tells the application of the completion of the handshake, in its first event and in no
/// other, if and only if the association was not complete before the read and is complete after its
/// last call, which left the engine with `last`; the other events are the data, in order.
pub proof fn law_read_events<'a, C, H, S, E>(
    e: &mut Endpoint<C, H, S>,
    operation: Operation,
    last: Status<S>,
    answer: bool,
    delivery: Delivery,
    decrypted: VecDeque<BytesMut>,
    events: Vec<EndpointEvent>,
    transmission: Transmission,
)
    requires
        call_ensures(
            Endpoint::<C, H, S>::advance::<E>,
            (e, operation, last, Ok::<bool, E>(answer)),
            Ok::<Step<'a>, E>(Step::Deliver(delivery)),
        ),
        call_ensures(Delivery::deliver, (delivery, decrypted), (events, transmission)),
    ensures
        ({
            let announced = !operation.completed_before && last.handshake_completed;
            let lead: int = if announced { 1 } else { 0 };
            &&& events@.len() == lead + decrypted@.len()
            &&& announced ==> events@[0] is HandshakeComplete
            &&& forall|i: int|
                0 <= i < decrypted@.len() ==> events@[lead + i] == EndpointEvent::ApplicationData(
                    #[trigger] decrypted@[i],
                )
        }),
        transmission == (Transmission {
            now: operation.now,
            remote: operation.remote,
            ecn: operation.ecn,
        }),
{
}

/// What an engine reported last is what its timer goes by, at any instant: it can be polled, and it
/// is dealt with from its deadline on, once.
pub proof fn law_reported_timer<'a, C, H, S, E>(
    e: &mut Endpoint<C, H, S>,
    operation: Operation,
    status: Status<S>,
    outcome: Result<bool, E>,
    reported: Result<Step<'a>, E>,
    f: &mut Endpoint<C, H, S>,
    polled: Option<Instant>,
    now: Instant,
    handled: Result<Option<Step<'a>>, Error>,
    g: &mut Endpoint<C, H, S>,
    later: Instant,
    handled_again: Result<Option<Step<'a>>, Error>,
)
    requires
        old(e)@.connections.dom().contains(operation.remote),
        call_ensures(Endpoint::<C, H, S>::advance::<E>, (e, operation, status, outcome), reported),
        *old(f) == *final(e),
        call_ensures(Endpoint::<C, H, S>::poll_timeout, (&*old(f), &operation.remote), polled),
        call_ensures(
            Endpoint::<C, H, S>::handle_timeout,
            (f, operation.remote, now),
            handled,
        ),
        *old(g) == *final(f),
        call_ensures(
            Endpoint::<C, H, S>::handle_timeout,
            (g, operation.remote, later),
            handled_again,
        ),
    ensures
        polled == status.current_retransmit_timer,
        handled matches Ok(Some(_)) <==> (polled matches Some(deadline) && deadline.nanos
            <= now.nanos),
        handled is Ok,
        handled matches Ok(Some(_)) ==> handled_again matches Ok(None),
{
}

/// What is queued for transmission is handed out: with an empty queue before, the first poll after a
/// transmission gives the first packet, or nothing if there was none.
pub proof fn law_transmitted_is_polled<C, H, S>(
    e: &mut Endpoint<C, H, S>,
    transmission: Transmission,
    status: Status<S>,
    outgoing: VecDeque<BytesMut>,
    f: &mut Endpoint<C, H, S>,
    message: Option<TransportMessage<BytesMut>>,
)
    requires
        old(e)@.connections.dom().contains(transmission.remote),
        old(e)@.transmits.len() == 0,
        call_ensures(Endpoint::<C, H, S>::transmit, (e, transmission, status, outgoing), ()),
        *old(f) == *final(e),
        call_ensures(Endpoint::<C, H, S>::poll_transmit, (f,), message),
    ensures
        message is Some <==> outgoing@.len() > 0,
        message matches Some(m) ==> {
            &&& m.message == outgoing@[0]
            &&& m.now == transmission.now
            &&& m.transport.peer_addr == transmission.remote
            &&& m.transport.ecn == transmission.ecn
        },
        outgoing@.len() > 0 ==> final(f)@.transmits.len() == outgoing@.len() - 1,
{
}

/// Any call on a well-formed endpoint is accepted, whatever the arguments.
pub proof fn law_calls_are_accepted<'a, C, H, S, E>(
    e: Endpoint<C, H, S>,
    m: &mut Endpoint<C, H, S>,
    now: Instant,
    remote: SocketAddr,
    ecn: Option<EcnCodepoint>,
    payload: BytesMut,
    data: &'a [u8],
    config: Arc<H>,
    state: Option<S>,
    dial: Dial,
    handshake: Result<VecDeque<BytesMut>, E>,
    stopping: Stopping,
    accepting: Accepting,
    engine: C,
    status: Status<S>,
    operation: Operation,
    outcome: Result<bool, E>,
    transmission: Transmission,
    outgoing: VecDeque<BytesMut>,
    delivery: Delivery,
)
    requires
        e.wf(),
        old(m).wf(),
    ensures
        call_requires(Endpoint::<C, H, S>::get_connections_keys, (&e,)),
        call_requires(Endpoint::<C, H, S>::get_connection_state, (&e, remote)),
        call_requires(Endpoint::<C, H, S>::connect, (&e, now, remote, config, state)),
        call_requires(Endpoint::<C, H, S>::stop, (&e, now, remote)),
        call_requires(Endpoint::<C, H, S>::close, (&e, now)),
        call_requires(Endpoint::<C, H, S>::read, (&e, now, remote, ecn, payload)),
        call_requires(Endpoint::<C, H, S>::write, (&e, now, remote, data)),
        call_requires(Endpoint::<C, H, S>::poll_timeout, (&e, &remote)),
        call_requires(Endpoint::<C, H, S>::set_server_config, (m, Some(config))),
        call_requires(Endpoint::<C, H, S>::poll_transmit, (m,)),
        call_requires(Endpoint::<C, H, S>::engine_mut, (m, &remote)),
        call_requires(
            Endpoint::<C, H, S>::connected::<E>,
            (m, dial, engine, status, handshake),
        ),
        call_requires(Endpoint::<C, H, S>::stopped, (m, stopping, status, outgoing)),
        call_requires(Endpoint::<C, H, S>::accept, (m, accepting, engine, status)),
        call_requires(Endpoint::<C, H, S>::advance::<E>, (m, operation, status, outcome)),
        call_requires(Endpoint::<C, H, S>::transmit, (m, transmission, status, outgoing)),
        call_requires(Endpoint::<C, H, S>::handle_timeout, (m, remote, now)),
        call_requires(Operation::follow::<S>, (operation, &status, true)),
        call_requires(Delivery::deliver, (delivery, outgoing)),
{
}

} // verus!
