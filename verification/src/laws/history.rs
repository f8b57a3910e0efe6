//! What holds of an endpoint whatever happens to it.
use crate::conn::{DTLSConn, Status};
use crate::transport::{
    EcnCodepoint, Instant, SocketAddr, TransportContext, TransportMessage,
};
use crate::view::EndpointView;
use bytes::BytesMut;
use std::sync::Arc;
use vstd::prelude::*;

verus! {

/// A change to an endpoint. Each method that changes the endpoint makes one of these, or two.
pub enum Change<C, H, S> {
    /// `set_server_config`.
    Serve(Option<Arc<H>>),
    /// `poll_transmit`.
    Poll,
    /// `connected` and `accept`.
    Associate(SocketAddr, DTLSConn<C, S>),
    /// A call on the engine that `engine_mut` lends out.
    Engine(SocketAddr, C),
    /// `advance` and `transmit`.
    Report(SocketAddr, Status<S>),
    /// `handle_timeout`.
    Disarm(SocketAddr),
    /// `connected`, `transmit` and `stopped`.
    Enqueue(Instant, SocketAddr, Option<EcnCodepoint>, Seq<BytesMut>),
    /// `stopped`.
    Forget(SocketAddr),
}

impl<C, H, S> EndpointView<C, H, S> {
    /// The endpoint after `change`.
    pub open spec fn apply(self, change: Change<C, H, S>) -> Self {
        match change {
            Change::Serve(config) => self.serve(config),
            Change::Poll => self.poll(),
            Change::Associate(remote, conn) => self.associate(remote, conn),
            Change::Engine(remote, engine) => self.with_engine(remote, engine),
            Change::Report(remote, status) => self.report(remote, status),
            Change::Disarm(remote) => self.disarm(remote),
            Change::Enqueue(now, remote, ecn, payloads) => self.enqueue(
                now,
                remote,
                ecn,
                payloads,
            ),
            Change::Forget(remote) => self.forget(remote),
        }
    }

    /// The endpoint after all of `changes`, made in order.
    pub open spec fn after(self, changes: Seq<Change<C, H, S>>) -> Self
        decreases changes.len(),
    {
        if changes.len() == 0 {
            self
        } else {
            self.after(changes.drop_last()).apply(changes.last())
        }
    }

    /// The messages that enter the queue in the course of `changes`.
    pub open spec fn entered(self, changes: Seq<Change<C, H, S>>) -> Seq<TransportMessage<BytesMut>>
        decreases changes.len(),
    {
        if changes.len() == 0 {
            Seq::empty()
        } else {
            let before = self.entered(changes.drop_last());
            match changes.last() {
                Change::Enqueue(now, remote, ecn, payloads) => before + self.messages(
                    now,
                    remote,
                    ecn,
                    payloads,
                ),
                _ => before,
            }
        }
    }

    /// The messages that are polled in the course of `changes`.
    pub open spec fn polled(self, changes: Seq<Change<C, H, S>>) -> Seq<TransportMessage<BytesMut>>
        decreases changes.len(),
    {
        if changes.len() == 0 {
            Seq::empty()
        } else {
            let before = self.polled(changes.drop_last());
            let queue = self.after(changes.drop_last()).transmits;
            match changes.last() {
                Change::Poll if queue.len() > 0 => before.push(queue[0]),
                _ => before,
            }
        }
    }
}

/// The peer whose association a change concerns.
pub open spec fn concerns<C, H, S>(change: Change<C, H, S>, remote: SocketAddr) -> bool {
    match change {
        Change::Associate(r, _) => r == remote,
        Change::Engine(r, _) => r == remote,
        Change::Report(r, _) => r == remote,
        Change::Disarm(r) => r == remote,
        Change::Forget(r) => r == remote,
        _ => false,
    }
}

/// A change keeps the endpoint well-formed, and its address and protocol as they are.
pub proof fn law_change_keeps_invariant<C, H, S>(
    v: EndpointView<C, H, S>,
    change: Change<C, H, S>,
)
    requires
        v.wf(),
    ensures
        v.apply(change).wf(),
        v.apply(change).local_addr == v.local_addr,
        v.apply(change).transport_protocol == v.transport_protocol,
{
    let w = v.apply(change);
    match change {
        Change::Enqueue(now, remote, ecn, payloads) => {
            assert forall|i: int| 0 <= i < w.transmits.len() implies w.sent_from_here(
                #[trigger] w.transmits[i],
            ) by {
                if i < v.transmits.len() {
                    assert(v.sent_from_here(v.transmits[i]));
                }
            }
        },
        Change::Poll => {
            assert forall|i: int| 0 <= i < w.transmits.len() implies w.sent_from_here(
                #[trigger] w.transmits[i],
            ) by {
                if v.transmits.len() > 0 {
                    assert(v.sent_from_here(v.transmits[i + 1]));
                }
            }
        },
        Change::Associate(remote, conn) => {
            if !v.knows(remote) {
                assert(w.keys =~= v.keys.push(remote));
                assert forall|k: SocketAddr|
                    w.connections.dom().contains(k) <==> w.keys.contains(k) by {
                    if v.keys.contains(k) {
                        let i = choose|i: int| 0 <= i < v.keys.len() && v.keys[i] == k;
                        assert(w.keys[i] == k);
                    }
                    assert(w.keys[v.keys.len() as int] == remote);
                    if w.keys.contains(k) && k != remote {
                        let i = choose|i: int| 0 <= i < w.keys.len() && w.keys[i] == k;
                        assert(v.keys[i] == k);
                    }
                }
                assert(!v.keys.contains(remote));
            }
        },
        Change::Forget(remote) => {
            lemma_remove_value(v.keys, remote);
        },
        _ => {},
    }
    if !(change is Enqueue) && !(change is Poll) {
        assert(w.transmits == v.transmits);
        assert forall|i: int| 0 <= i < w.transmits.len() implies w.sent_from_here(
            #[trigger] w.transmits[i],
        ) by {
            assert(v.sent_from_here(v.transmits[i]));
        }
    }
}

/// Taking a value out of a sequence without duplicates leaves the other values, in order.
pub(crate) proof fn lemma_remove_value(keys: Seq<SocketAddr>, key: SocketAddr)
    requires
        keys.no_duplicates(),
    ensures
        keys.remove_value(key).no_duplicates(),
        forall|k: SocketAddr| #[trigger]
            keys.remove_value(key).contains(k) <==> keys.contains(k) && k != key,
        keys.len() > 0 ==> keys.remove_value(keys[0]) == keys.drop_first(),
{
    keys.index_of_first_ensures(key);
    if keys.contains(key) {
        let i = keys.index_of_first(key).unwrap();
        let rest = keys.remove(i);
        assert forall|k: SocketAddr| #[trigger] rest.contains(k) <==> keys.contains(k) && k != key by {
            if keys.contains(k) && k != key {
                let j = choose|j: int| 0 <= j < keys.len() && keys[j] == k;
                assert(rest[if j < i { j } else { j - 1 }] == k);
            }
            if rest.contains(k) {
                let j = choose|j: int| 0 <= j < rest.len() && rest[j] == k;
                assert(keys[if j < i { j } else { j + 1 }] == k);
            }
        }
    }
    if keys.len() > 0 {
        keys.index_of_first_ensures(keys[0]);
        assert(keys.contains(keys[0]));
        assert(keys.index_of_first(keys[0]) == Some(0int));
        assert(keys.remove(0) =~= keys.drop_first());
    }
}

/// Whatever happens to an endpoint, each of its associations is listed once, and each message in
/// its queue names the endpoint as its origin.
pub proof fn law_invariant<C, H, S>(v: EndpointView<C, H, S>, changes: Seq<Change<C, H, S>>)
    requires
        v.wf(),
    ensures
        v.after(changes).wf(),
        v.after(changes).local_addr == v.local_addr,
        v.after(changes).transport_protocol == v.transport_protocol,
    decreases changes.len(),
{
    if changes.len() > 0 {
        law_invariant(v, changes.drop_last());
        law_change_keeps_invariant(v.after(changes.drop_last()), changes.last());
    }
}

/// The queue gains exactly one message per payload: the i-th new one carries the i-th payload, and
/// says where it comes from and goes to, when it was made and how it is marked. What was queued stays
/// in front, and nothing else changes.
pub proof fn law_enqueue<C, H, S>(
    v: EndpointView<C, H, S>,
    now: Instant,
    remote: SocketAddr,
    ecn: Option<EcnCodepoint>,
    payloads: Seq<BytesMut>,
)
    ensures
        ({
            let w = v.enqueue(now, remote, ecn, payloads);
            &&& w == (EndpointView { transmits: w.transmits, ..v })
            &&& w.transmits.len() == v.transmits.len() + payloads.len()
            &&& forall|i: int|
                0 <= i < v.transmits.len() ==> #[trigger] w.transmits[i] == v.transmits[i]
            &&& forall|i: int|
                0 <= i < payloads.len() ==> w.transmits[v.transmits.len() + i] == (
                TransportMessage {
                    now,
                    transport: TransportContext {
                        local_addr: v.local_addr,
                        peer_addr: remote,
                        transport_protocol: v.transport_protocol,
                        ecn,
                    },
                    message: #[trigger] payloads[i],
                })
        }),
{
}

/// The queue is first in, first out and loses nothing: what was in it, followed by what entered
/// it, is what was polled, followed by what is in it.
pub proof fn law_transmit_queue<C, H, S>(v: EndpointView<C, H, S>, changes: Seq<Change<C, H, S>>)
    ensures
        v.transmits + v.entered(changes) == v.polled(changes) + v.after(changes).transmits,
    decreases changes.len(),
{
    if changes.len() > 0 {
        let earlier = changes.drop_last();
        law_transmit_queue(v, earlier);
        lemma_address_is_fixed(v, earlier);
        let mid = v.after(earlier);
        match changes.last() {
            Change::Enqueue(now, remote, ecn, payloads) => {
                assert(mid.messages(now, remote, ecn, payloads) =~= v.messages(
                    now,
                    remote,
                    ecn,
                    payloads,
                ));
                let new = v.messages(now, remote, ecn, payloads);
                assert(v.transmits + v.entered(changes) =~= (v.transmits + v.entered(earlier))
                    + new);
                assert(v.polled(changes) + (mid.transmits + new) =~= (v.polled(changes)
                    + mid.transmits) + new);
            },
            Change::Poll => {
                if mid.transmits.len() > 0 {
                    assert(v.polled(earlier) + mid.transmits =~= v.polled(earlier).push(
                        mid.transmits[0],
                    ) + mid.transmits.drop_first());
                }
            },
            _ => {},
        }
    } else {
        assert(v.transmits + v.entered(changes) =~= v.polled(changes) + v.after(changes).transmits);
    }
}

proof fn lemma_address_is_fixed<C, H, S>(
    v: EndpointView<C, H, S>,
    changes: Seq<Change<C, H, S>>,
)
    ensures
        v.after(changes).local_addr == v.local_addr,
        v.after(changes).transport_protocol == v.transport_protocol,
    decreases changes.len(),
{
    if changes.len() > 0 {
        lemma_address_is_fixed(v, changes.drop_last());
    }
}

/// What holds of all changes holds of those before the last, and of the last.
pub(crate) proof fn lemma_but_last<C, H, S>(
    changes: Seq<Change<C, H, S>>,
    admits: spec_fn(Change<C, H, S>) -> bool,
)
    requires
        changes.len() > 0,
        forall|i: int| 0 <= i < changes.len() ==> admits(#[trigger] changes[i]),
    ensures
        forall|i: int|
            0 <= i < changes.drop_last().len() ==> admits(#[trigger] changes.drop_last()[i]),
        admits(changes.last()),
{
    let earlier = changes.drop_last();
    assert forall|i: int| 0 <= i < earlier.len() implies admits(#[trigger] earlier[i]) by {
        assert(earlier[i] == changes[i]);
    }
    assert(admits(changes[changes.len() - 1]));
}

/// Induction over histories: what the changes of a kind keep, a history of such changes keeps.
pub(crate) proof fn lemma_keeps<C, H, S>(
    v: EndpointView<C, H, S>,
    changes: Seq<Change<C, H, S>>,
    admits: spec_fn(Change<C, H, S>) -> bool,
    holds: spec_fn(EndpointView<C, H, S>) -> bool,
)
    requires
        holds(v),
        forall|i: int| 0 <= i < changes.len() ==> admits(#[trigger] changes[i]),
        forall|w: EndpointView<C, H, S>, change: Change<C, H, S>|
            holds(w) && admits(change) ==> holds(#[trigger] w.apply(change)),
    ensures
        holds(v.after(changes)),
    decreases changes.len(),
{
    if changes.len() > 0 {
        lemma_but_last(changes, admits);
        lemma_keeps(v, changes.drop_last(), admits, holds);
    }
}

/// Associations do not disturb one another: what concerns other peers leaves the association with
/// `remote`, or its absence, as it was.
pub proof fn law_isolation<C, H, S>(
    v: EndpointView<C, H, S>,
    changes: Seq<Change<C, H, S>>,
    remote: SocketAddr,
)
    requires
        forall|i: int| 0 <= i < changes.len() ==> !concerns(#[trigger] changes[i], remote),
    ensures
        v.after(changes).knows(remote) == v.knows(remote),
        v.knows(remote) ==> v.after(changes).connections[remote] == v.connections[remote],
{
    lemma_keeps(
        v,
        changes,
        |change: Change<C, H, S>| !concerns(change, remote),
        |w: EndpointView<C, H, S>|
            w.knows(remote) == v.knows(remote) && (v.knows(remote) ==> w.connections[remote]
                == v.connections[remote]),
    );
}

/// Whether `change` forgets the association with `remote`.
pub open spec fn forgets<C, H, S>(change: Change<C, H, S>, remote: SocketAddr) -> bool {
    change matches Change::Forget(r) && r == remote
}

/// A known peer stays known through every history that does not forget it.
pub proof fn law_known_stays_known<C, H, S>(
    v: EndpointView<C, H, S>,
    changes: Seq<Change<C, H, S>>,
    remote: SocketAddr,
)
    requires
        v.knows(remote),
        forall|i: int| 0 <= i < changes.len() ==> !forgets(#[trigger] changes[i], remote),
    ensures
        v.after(changes).knows(remote),
{
    lemma_keeps(
        v,
        changes,
        |change: Change<C, H, S>| !forgets(change, remote),
        |w: EndpointView<C, H, S>| w.knows(remote),
    );
}

/// Whether `change` adds an association with `remote`.
pub open spec fn associates<C, H, S>(change: Change<C, H, S>, remote: SocketAddr) -> bool {
    change matches Change::Associate(r, _) && r == remote
}

/// An unknown peer stays unknown through every history that does not associate with it.
pub proof fn law_unknown_stays_unknown<C, H, S>(
    v: EndpointView<C, H, S>,
    changes: Seq<Change<C, H, S>>,
    remote: SocketAddr,
)
    requires
        !v.knows(remote),
        forall|i: int| 0 <= i < changes.len() ==> !associates(#[trigger] changes[i], remote),
    ensures
        !v.after(changes).knows(remote),
{
    lemma_keeps(
        v,
        changes,
        |change: Change<C, H, S>| !associates(change, remote),
        |w: EndpointView<C, H, S>| !w.knows(remote),
    );
}

} // verus!
