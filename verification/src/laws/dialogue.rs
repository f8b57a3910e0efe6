//! How an operation goes, whatever the engine answers.
use crate::conn::{DTLSConn, Status};
use crate::endpoint::Endpoint;
use crate::laws::history::Change;
use crate::operation::{Call, Operation, Phase, Step, Transmission};
use crate::transport::{EcnCodepoint, Error, Instant, SocketAddr};
use crate::view::EndpointView;
use bytes::BytesMut;
use vstd::prelude::*;

verus! {

/// What comes of a call that succeeds.
pub struct Reply<S> {
    pub status: Status<S>,
    pub is_handshake: bool,
}

/// What is to be done when the call of `step` got `reply`.
pub open spec fn replied<'a, S>(step: Step<'a>, reply: Reply<S>) -> Step<'a> {
    match step {
        Step::Call { operation, .. } => operation.following(reply.status, reply.is_handshake),
        _ => step,
    }
}

/// Where a dialogue stands that began with `step` and got `replies`.
pub open spec fn conversed<'a, S>(step: Step<'a>, replies: Seq<Reply<S>>) -> Step<'a>
    decreases replies.len(),
{
    if replies.len() == 0 {
        step
    } else {
        conversed(replied(step, replies[0]), replies.drop_first())
    }
}

/// The calls of a dialogue that begins with `step` and gets `replies`.
pub open spec fn calls<'a, S>(step: Step<'a>, replies: Seq<Reply<S>>) -> Seq<Call<'a>>
    decreases replies.len(),
{
    match step {
        Step::Call { call, .. } => if replies.len() == 0 {
            seq![call]
        } else {
            seq![call] + calls(replied(step, replies[0]), replies.drop_first())
        },
        _ => Seq::empty(),
    }
}

/// How many calls a dialogue that stands at `step` can still have.
pub open spec fn calls_left(step: Step<'_>) -> nat {
    match step {
        Step::Call { operation, .. } => match operation.phase {
            Phase::Ingesting => 4,
            Phase::Handshaking => 3,
            Phase::HandlingQueued | Phase::ClearingHandshakeRx | Phase::ClearingTimer => 2,
            Phase::HandshakingAgain | Phase::Resending | Phase::Writing | Phase::TimingOut => 1,
        },
        _ => 0,
    }
}

/// Every dialogue ends: a reply leaves fewer calls, and none has more than four.
pub proof fn law_dialogue_ends<'a, S>(step: Step<'a>, replies: Seq<Reply<S>>)
    requires
        replies.len() >= calls_left(step),
    ensures
        calls_left(step) <= 4,
        !(conversed(step, replies) is Call),
        calls(step, replies).len() <= calls_left(step),
    decreases replies.len(),
{
    if replies.len() > 0 {
        if step is Call {
            assert(calls_left(replied(step, replies[0])) < calls_left(step));
        }
        law_dialogue_ends(replied(step, replies[0]), replies.drop_first());
    }
}

/// The peer that a step concerns, and the instant and the mark that its packets get.
pub open spec fn context(step: Step<'_>) -> (Instant, SocketAddr, Option<EcnCodepoint>) {
    match step {
        Step::Call { operation, .. } => (operation.now, operation.remote, operation.ecn),
        Step::Deliver(delivery) => (delivery.now, delivery.remote, delivery.ecn),
        Step::Transmit(transmission) => (
            transmission.now,
            transmission.remote,
            transmission.ecn,
        ),
    }
}

/// A dialogue keeps to one peer: the packets that come of it go to the peer that it began with,
/// and are stamped and marked as it began.
pub proof fn law_dialogue_keeps_context<'a, S>(step: Step<'a>, replies: Seq<Reply<S>>)
    ensures
        context(conversed(step, replies)) == context(step),
        conversed(step, replies) matches Step::Deliver(delivery) ==> context(
            Step::Transmit(delivery.transmission()),
        ) == context(step),
    decreases replies.len(),
{
    if replies.len() > 0 {
        law_dialogue_keeps_context(replied(step, replies[0]), replies.drop_first());
    }
}

/// How a datagram is read, whatever the engine answers.
///
/// On an established association it is read and that is all, unless it carried a handshake
/// record: the peer then repeats its last flight, and gets ours again, after the trace of the
/// record has been cleared. Otherwise the handshake runs, packets that were put aside are taken
/// in, and the handshake runs once more if these brought a handshake record and it is not done.
/// The completion of the handshake is announced if and only if it was not complete before and is
/// complete in the end.
pub proof fn law_read_dialogue<'a, S>(operation: Operation, data: BytesMut, replies: Seq<Reply<S>>)
    requires
        operation.phase == Phase::Ingesting,
        replies.len() >= 4,
    ensures
        ({
            let start: Step<'a> = Step::Call { operation, call: Call::Read(data) };
            let now = operation.now;
            let first = replies[0].status;
            let queued = replies[2];
            let (sequence, last): (Seq<Call<'a>>, Status<S>) = if first.handshake_completed
                && !first.received_handshake_in_last_datagram {
                (seq![Call::Read(data)], first)
            } else if first.handshake_completed {
                (
                    seq![Call::Read(data), Call::ClearHandshakeRx, Call::HandshakeTimeout(now)],
                    replies[2].status,
                )
            } else if queued.is_handshake && !queued.status.handshake_completed {
                (
                    seq![
                        Call::Read(data),
                        Call::Handshake(now),
                        Call::HandleIncomingQueuedPackets,
                        Call::Handshake(now),
                    ],
                    replies[3].status,
                )
            } else {
                (
                    seq![
                        Call::Read(data),
                        Call::Handshake(now),
                        Call::HandleIncomingQueuedPackets,
                    ],
                    queued.status,
                )
            };
            &&& calls(start, replies) == sequence
            &&& conversed(start, replies) matches Step::Deliver(d) && {
                &&& d.now == now
                &&& d.remote == operation.remote
                &&& d.ecn == operation.ecn
                &&& d.newly_completed == (!operation.completed_before && last.handshake_completed)
            }
        }),
{
    let start: Step<'a> = Step::Call { operation, call: Call::Read(data) };
    lemma_unfold(start, replies);
    let s1 = replied(start, replies[0]);
    let r1 = replies.drop_first();
    lemma_unfold(s1, r1);
    let s2 = replied(s1, r1[0]);
    let r2 = r1.drop_first();
    lemma_unfold(s2, r2);
    let s3 = replied(s2, r2[0]);
    let r3 = r2.drop_first();
    lemma_unfold(s3, r3);
    let s4 = replied(s3, r3[0]);
    let r4 = r3.drop_first();
    assert(r1[0] == replies[1] && r2[0] == replies[2] && r3[0] == replies[3]);
    if !(s1 is Call) {
        lemma_over(s1, r1);
    }
    if !(s2 is Call) {
        lemma_over(s2, r2);
    }
    if !(s3 is Call) {
        lemma_over(s3, r3);
    }
    lemma_over(s4, r4);
    let first = replies[0].status;
    let queued = replies[2];
    if first.handshake_completed && !first.received_handshake_in_last_datagram {
        assert(calls(start, replies) =~= seq![Call::Read(data)]);
    } else if first.handshake_completed {
        assert(calls(start, replies) =~= seq![
            Call::Read(data),
            Call::ClearHandshakeRx,
            Call::HandshakeTimeout(operation.now),
        ]);
    } else if queued.is_handshake && !queued.status.handshake_completed {
        assert(calls(start, replies) =~= seq![
            Call::Read(data),
            Call::Handshake(operation.now),
            Call::HandleIncomingQueuedPackets,
            Call::Handshake(operation.now),
        ]);
    } else {
        assert(calls(start, replies) =~= seq![
            Call::Read(data),
            Call::Handshake(operation.now),
            Call::HandleIncomingQueuedPackets,
        ]);
    }
}

proof fn lemma_unfold<'a, S>(step: Step<'a>, replies: Seq<Reply<S>>)
    requires
        replies.len() > 0,
    ensures
        conversed(step, replies) == conversed(replied(step, replies[0]), replies.drop_first()),
        step matches Step::Call { call, .. } ==> calls(step, replies) == seq![call] + calls(
            replied(step, replies[0]),
            replies.drop_first(),
        ),
{
}

/// A dialogue that is over stays over.
proof fn lemma_over<'a, S>(step: Step<'a>, replies: Seq<Reply<S>>)
    requires
        !(step is Call),
    ensures
        conversed(step, replies) == step,
        calls(step, replies) == Seq::<Call<'a>>::empty(),
    decreases replies.len(),
{
    if replies.len() > 0 {
        lemma_over(step, replies.drop_first());
    }
}

/// How a retransmission timer that has run out is dealt with: it is disarmed, and the current
/// flight is sent again unless the handshake is complete.
pub proof fn law_timeout_dialogue<'a, S>(operation: Operation, replies: Seq<Reply<S>>)
    requires
        operation.phase == Phase::ClearingTimer,
        replies.len() >= 2,
    ensures
        ({
            let start: Step<'a> = Step::Call { operation, call: Call::ClearRetransmitTimer };
            &&& calls(start, replies) == if replies[0].status.handshake_completed {
                seq![Call::ClearRetransmitTimer]
            } else {
                seq![Call::ClearRetransmitTimer, Call::HandshakeTimeout(operation.now)]
            }
            &&& conversed(start, replies) == Step::<'a>::Transmit(
                Transmission { now: operation.now, remote: operation.remote, ecn: operation.ecn },
            )
        }),
{
    let start: Step<'a> = Step::Call { operation, call: Call::ClearRetransmitTimer };
    lemma_unfold(start, replies);
    let s1 = replied(start, replies[0]);
    let r1 = replies.drop_first();
    if s1 is Call {
        lemma_unfold(s1, r1);
        lemma_over(replied(s1, r1[0]), r1.drop_first());
        assert(calls(start, replies) =~= seq![
            Call::ClearRetransmitTimer,
            Call::HandshakeTimeout(operation.now),
        ]);
    } else {
        lemma_over(s1, r1);
        assert(calls(start, replies) =~= seq![Call::ClearRetransmitTimer]);
    }
}

/// How data is written, whatever the engine answers and whatever other associations there are: the
/// engine is asked to write it and gets no other call, and the packets then go to the peer, unmarked.
pub proof fn law_write_dialogue<'a, C, H, S>(
    e: Endpoint<C, H, S>,
    now: Instant,
    remote: SocketAddr,
    data: &'a [u8],
    step: Step<'a>,
    replies: Seq<Reply<S>>,
)
    requires
        call_ensures(
            Endpoint::<C, H, S>::write,
            (&e, now, remote, data),
            Ok::<Step<'a>, Error>(step),
        ),
    ensures
        calls(step, replies) == seq![Call::Write(data)],
        replies.len() > 0 ==> conversed(step, replies) == Step::<'a>::Transmit(
            Transmission { now, remote, ecn: None },
        ),
{
    if replies.len() > 0 {
        lemma_unfold(step, replies);
        lemma_over(replied(step, replies[0]), replies.drop_first());
    }
    assert(calls(step, replies) =~= seq![Call::Write(data)]);
}

/// Application data for an established association provokes no flight: it is read, and no other
/// call is made, whatever trace earlier handshake records have left in the engine.
pub proof fn law_application_data_provokes_no_flight<'a, S>(
    operation: Operation,
    data: BytesMut,
    replies: Seq<Reply<S>>,
)
    requires
        operation.phase == Phase::Ingesting,
        replies.len() > 0,
        replies[0].status.handshake_completed,
        !replies[0].status.received_handshake_in_last_datagram,
    ensures
        calls(Step::Call { operation, call: Call::Read(data) }, replies) == seq![
            Call::<'a>::Read(data),
        ],
{
    let start: Step<'a> = Step::Call { operation, call: Call::Read(data) };
    lemma_unfold(start, replies);
    lemma_over(replied(start, replies[0]), replies.drop_first());
    assert(calls(start, replies) =~= seq![Call::Read(data)]);
}

/// The changes that calls on the engine of `remote` make: each changes the engine, and its status
/// is reported.
pub open spec fn exchanges<C, H, S>(remote: SocketAddr, conns: Seq<DTLSConn<C, S>>) -> Seq<
    Change<C, H, S>,
>
    decreases conns.len(),
{
    if conns.len() == 0 {
        Seq::empty()
    } else {
        exchanges::<C, H, S>(remote, conns.drop_last()).push(
            Change::Engine(remote, conns.last().engine),
        ).push(Change::Report(remote, conns.last().status))
    }
}

/// What an operation on a known peer leaves, when its calls have left the engine as `conns` says
/// one after the other. Cut short by the error of the last call, it leaves the association as
/// reported then, and nothing else changed. Brought to its end, with the association at `conn` when
/// data and packets have been taken from the engine, it leaves that, and nothing else changed but
/// that `outgoing` has joined the queue.
pub proof fn law_operation_effect<C, H, S>(
    v: EndpointView<C, H, S>,
    remote: SocketAddr,
    conns: Seq<DTLSConn<C, S>>,
    conn: DTLSConn<C, S>,
    now: Instant,
    ecn: Option<EcnCodepoint>,
    outgoing: Seq<BytesMut>,
)
    requires
        v.knows(remote),
    ensures
        conns.len() > 0 ==> v.after(exchanges(remote, conns)) == v.replace(remote, conns.last()),
        v.after(exchanges(remote, conns)).with_engine(remote, conn.engine).conclude(
            now,
            remote,
            ecn,
            conn.status,
            outgoing,
        ) == (EndpointView {
            connections: v.connections.insert(remote, conn),
            transmits: v.transmits + v.messages(now, remote, ecn, outgoing),
            ..v
        }),
{
    if conns.len() > 0 {
        lemma_exchanges(v, remote, conns);
    }
    let w = v.after(exchanges(remote, conns)).with_engine(remote, conn.engine);
    let reported = w.report(remote, conn.status);
    assert(reported.connections =~= v.connections.insert(remote, conn));
    assert(reported.messages(now, remote, ecn, outgoing) =~= v.messages(
        now,
        remote,
        ecn,
        outgoing,
    ));
}

/// What a stranger's datagram leaves, where an engine is created for it: as in
/// [`law_operation_effect`], but with an association that is new, and the youngest. It is there
/// also where the reading was cut short.
pub proof fn law_stranger_effect<C, H, S>(
    v: EndpointView<C, H, S>,
    remote: SocketAddr,
    created: DTLSConn<C, S>,
    conns: Seq<DTLSConn<C, S>>,
    conn: DTLSConn<C, S>,
    now: Instant,
    ecn: Option<EcnCodepoint>,
    outgoing: Seq<BytesMut>,
)
    requires
        !v.knows(remote),
    ensures
        conns.len() > 0 ==> v.associate(remote, created).after(exchanges(remote, conns))
            == v.associate(remote, conns.last()),
        v.associate(remote, created).after(exchanges(remote, conns)).with_engine(
            remote,
            conn.engine,
        ).conclude(now, remote, ecn, conn.status, outgoing) == (EndpointView {
            keys: v.keys.push(remote),
            connections: v.connections.insert(remote, conn),
            transmits: v.transmits + v.messages(now, remote, ecn, outgoing),
            ..v
        }),
{
    let u = v.associate(remote, created);
    law_operation_effect(u, remote, conns, conn, now, ecn, outgoing);
    assert(u.messages(now, remote, ecn, outgoing) =~= v.messages(now, remote, ecn, outgoing));
    assert(u.connections.insert(remote, conn) =~= v.connections.insert(remote, conn));
    if conns.len() > 0 {
        assert(u.connections.insert(remote, conns.last()) =~= v.connections.insert(
            remote,
            conns.last(),
        ));
    }
}

/// The reports of all calls but the last leave no trace.
proof fn lemma_exchanges<C, H, S>(
    v: EndpointView<C, H, S>,
    remote: SocketAddr,
    conns: Seq<DTLSConn<C, S>>,
)
    requires
        v.knows(remote),
        conns.len() > 0,
    ensures
        v.after(exchanges(remote, conns)) == v.replace(remote, conns.last()),
    decreases conns.len(),
{
    let earlier = exchanges::<C, H, S>(remote, conns.drop_last());
    let engine = Change::<C, H, S>::Engine(remote, conns.last().engine);
    let report = Change::<C, H, S>::Report(remote, conns.last().status);
    let w = v.after(earlier);
    if conns.len() > 1 {
        lemma_exchanges(v, remote, conns.drop_last());
    }
    assert(w.knows(remote));
    assert(earlier.push(engine).push(report).drop_last() =~= earlier.push(engine));
    assert(earlier.push(engine).drop_last() =~= earlier);
    assert(v.after(earlier.push(engine)) == w.apply(engine));
    assert(v.after(exchanges(remote, conns)) == w.apply(engine).apply(report));
    assert(w.apply(engine).apply(report).connections =~= v.connections.insert(remote, conns.last()));
    assert(w.apply(engine).apply(report) =~= v.replace(remote, conns.last()));
}

} // verus!
