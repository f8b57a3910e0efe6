//! What the application is told, and how often.
use crate::conn::Status;
use crate::laws::history::{forgets, law_known_stays_known, lemma_keeps, Change};
use crate::operation::{events_of, Call, EndpointEvent, Operation, Step};
use crate::transport::{Instant, SocketAddr};
use crate::view::EndpointView;
use bytes::BytesMut;
use vstd::prelude::*;

verus! {

/// The events of a read: the completion of the handshake, if it happened, is the first and is
/// there once; the rest is the data, in order.
pub proof fn law_events(newly_completed: bool, data: Seq<BytesMut>)
    ensures
        ({
            let events = events_of(newly_completed, data);
            let lead: int = if newly_completed { 1 } else { 0 };
            &&& events.len() == lead + data.len()
            &&& forall|i: int|
                0 <= i < events.len() ==> ((#[trigger] events[i] is HandshakeComplete)
                    <==> newly_completed && i == 0)
            &&& forall|i: int|
                0 <= i < data.len() ==> events[lead + i] == EndpointEvent::ApplicationData(
                    #[trigger] data[i],
                )
        }),
{
}

/// A completion that is announced is a fact: the association had not been established before the
/// read, and is recorded as established from then on.
pub proof fn law_announced_completion_is_recorded<'a, C, H, S>(
    v: EndpointView<C, H, S>,
    operation: Operation,
    status: Status<S>,
    is_handshake: bool,
)
    requires
        v.knows(operation.remote),
        operation.following::<'a, S>(status, is_handshake) matches Step::Deliver(d)
            && d.newly_completed,
    ensures
        !operation.completed_before,
        v.report(operation.remote, status).connections[operation.remote].status.handshake_completed,
{
}

/// Whether `change` keeps the association with `remote` established.
pub open spec fn keeps_established<C, H, S>(
    change: Change<C, H, S>,
    remote: SocketAddr,
) -> bool {
    match change {
        Change::Report(r, status) => r == remote ==> status.handshake_completed,
        Change::Forget(r) => r != remote,
        _ => true,
    }
}

/// From an announced completion on, whatever happens short of stopping it, the association is
/// there: its state can be had, and writing data to the peer asks its engine to. It is established
/// as long as its engine reports it so.
pub proof fn law_announced_completion_lasts<'a, C, H, S>(
    v: EndpointView<C, H, S>,
    operation: Operation,
    status: Status<S>,
    is_handshake: bool,
    changes: Seq<Change<C, H, S>>,
    now: Instant,
    data: &'a [u8],
)
    requires
        v.knows(operation.remote),
        operation.following::<'a, S>(status, is_handshake) matches Step::Deliver(d)
            && d.newly_completed,
        forall|i: int|
            0 <= i < changes.len() ==> !forgets(#[trigger] changes[i], operation.remote),
    ensures
        ({
            let w = v.report(operation.remote, status).after(changes);
            &&& w.knows(operation.remote)
            &&& w.writing(now, operation.remote, data) matches Ok(
                Step::Call { operation: o, call },
            ) && o.remote == operation.remote && call == Call::Write(data)
            &&& (forall|i: int|
                0 <= i < changes.len() ==> keeps_established(
                    #[trigger] changes[i],
                    operation.remote,
                )) ==> w.connections[operation.remote].status.handshake_completed
        }),
{
    let u = v.report(operation.remote, status);
    law_known_stays_known(u, changes, operation.remote);
    if forall|i: int|
        0 <= i < changes.len() ==> keeps_established(#[trigger] changes[i], operation.remote) {
        lemma_stays_established(u, changes, operation.remote);
    }
}

/// The completion of a handshake is announced once: after an association is established, and as
/// long as it stays so, a read that finds it completed announces nothing.
pub proof fn law_completion_is_announced_once<'a, C, H, S>(
    v: EndpointView<C, H, S>,
    changes: Seq<Change<C, H, S>>,
    operation: Operation,
    completed: bool,
)
    requires
        v.knows(operation.remote),
        v.connections[operation.remote].status.handshake_completed,
        forall|i: int|
            0 <= i < changes.len() ==> keeps_established(#[trigger] changes[i], operation.remote),
        operation.completed_before == v.after(
            changes,
        ).connections[operation.remote].status.handshake_completed,
    ensures
        v.after(changes).knows(operation.remote),
        operation.delivering::<'a>(completed) matches Step::Deliver(d) && !d.newly_completed,
{
    lemma_stays_established(v, changes, operation.remote);
}

proof fn lemma_stays_established<C, H, S>(
    v: EndpointView<C, H, S>,
    changes: Seq<Change<C, H, S>>,
    remote: SocketAddr,
)
    requires
        v.knows(remote),
        v.connections[remote].status.handshake_completed,
        forall|i: int| 0 <= i < changes.len() ==> keeps_established(#[trigger] changes[i], remote),
    ensures
        v.after(changes).knows(remote),
        v.after(changes).connections[remote].status.handshake_completed,
{
    lemma_keeps(
        v,
        changes,
        |change: Change<C, H, S>| keeps_established(change, remote),
        |w: EndpointView<C, H, S>|
            w.knows(remote) && w.connections[remote].status.handshake_completed,
    );
}

} // verus!
