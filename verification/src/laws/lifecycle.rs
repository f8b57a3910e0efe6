//! How associations come, live and go.
use crate::conn::{DTLSConn, NewConn};
use crate::laws::history::{
    associates, forgets, law_change_keeps_invariant, law_known_stays_known,
    law_unknown_stays_unknown, lemma_but_last, lemma_keeps, lemma_remove_value, Change,
};
use crate::operation::{Call, Dial};
use crate::transport::{Error, Instant, SocketAddr, TransportMessage};
use crate::view::EndpointView;
use bytes::BytesMut;
use std::sync::Arc;
use vstd::prelude::*;

verus! {

/// A connection that was made can be found: it is known, is the youngest, and carries what it was
/// made with; until it is stopped, whatever happens, connecting to the same peer again asks for
/// nothing.
pub proof fn law_connected_is_known<'a, C, H, S>(
    v: EndpointView<C, H, S>,
    now: Instant,
    remote: SocketAddr,
    conn: DTLSConn<C, S>,
    outgoing: Seq<BytesMut>,
    changes: Seq<Change<C, H, S>>,
    later: Instant,
    config: Arc<H>,
    initial_state: Option<S>,
)
    requires
        v.wf(),
        !v.knows(remote),
        remote.spec_port() != 0,
        forall|i: int| 0 <= i < changes.len() ==> !forgets(#[trigger] changes[i], remote),
    ensures
        ({
            let w = v.enqueue(now, remote, None, outgoing).associate(remote, conn);
            &&& w.wf()
            &&& w.knows(remote)
            &&& w.connections[remote] == conn
            &&& w.keys == v.keys.push(remote)
            &&& w.after(changes).dialing(later, remote, config, initial_state) == Ok::<
                Option<(NewConn<H, S>, Dial, Call<'a>)>,
                Error,
            >(None)
        }),
{
    let enqueue = Change::<C, H, S>::Enqueue(now, remote, None, outgoing);
    law_change_keeps_invariant(v, enqueue);
    law_change_keeps_invariant(v.apply(enqueue), Change::<C, H, S>::Associate(remote, conn));
    law_known_stays_known(v.apply(enqueue).associate(remote, conn), changes, remote);
}

/// Stopping undoes connecting, except that what was queued stays queued: first what the beginning
/// of the handshake yielded, then what closing did.
pub proof fn law_stop_undoes_connect<C, H, S>(
    v: EndpointView<C, H, S>,
    remote: SocketAddr,
    conn: DTLSConn<C, S>,
    connected_at: Instant,
    hello: Seq<BytesMut>,
    stopped_at: Instant,
    goodbye: Seq<BytesMut>,
)
    requires
        v.wf(),
        !v.knows(remote),
    ensures
        v.enqueue(connected_at, remote, None, hello).associate(remote, conn).dismiss(
            stopped_at,
            remote,
            goodbye,
        ) == (EndpointView {
            transmits: v.transmits + v.messages(connected_at, remote, None, hello) + v.messages(
                stopped_at,
                remote,
                None,
                goodbye,
            ),
            ..v
        }),
{
    let c = v.enqueue(connected_at, remote, None, hello).associate(remote, conn);
    assert(c.messages(stopped_at, remote, None, goodbye) =~= v.messages(
        stopped_at,
        remote,
        None,
        goodbye,
    ));
    let keys = v.keys.push(remote);
    assert(!v.keys.contains(remote));
    keys.index_of_first_ensures(remote);
    assert(keys[v.keys.len() as int] == remote);
    assert(keys.contains(remote));
    assert(keys.index_of_first(remote) == Some(v.keys.len() as int));
    assert(keys.remove_value(remote) =~= v.keys);
    assert(v.connections.insert(remote, conn).remove(remote) =~= v.connections);
}

/// After an association has been stopped the others stand as they did, in the same order, and there
/// is none with that peer, nor a timer for it, until one is made anew.
pub proof fn law_stopped_is_unknown<C, H, S>(
    v: EndpointView<C, H, S>,
    now: Instant,
    remote: SocketAddr,
    goodbye: Seq<BytesMut>,
    changes: Seq<Change<C, H, S>>,
)
    requires
        v.wf(),
        forall|i: int| 0 <= i < changes.len() ==> !associates(#[trigger] changes[i], remote),
    ensures
        ({
            let w = v.dismiss(now, remote, goodbye);
            &&& w.wf()
            &&& forall|k: SocketAddr|
                k != remote ==> (#[trigger] w.knows(k) == v.knows(k)) && (v.knows(k)
                    ==> w.connections[k] == v.connections[k])
            &&& w.keys == v.keys.remove_value(remote)
            &&& !w.after(changes).knows(remote)
            &&& w.after(changes).timer(remote) is None
        }),
{
    let enqueue = Change::<C, H, S>::Enqueue(now, remote, None, goodbye);
    law_change_keeps_invariant(v, enqueue);
    law_change_keeps_invariant(v.apply(enqueue), Change::<C, H, S>::Forget(remote));
    v.keys.index_of_first_ensures(remote);
    law_unknown_stays_unknown(v.dismiss(now, remote, goodbye), changes, remote);
}

/// The endpoint after its associations have been stopped one by one, as `close` names them;
/// `goodbyes` holds what each engine had ready, in that order.
pub open spec fn closed<C, H, S>(
    v: EndpointView<C, H, S>,
    now: Instant,
    goodbyes: Seq<Seq<BytesMut>>,
) -> EndpointView<C, H, S>
    decreases goodbyes.len(),
{
    if v.keys.len() == 0 || goodbyes.len() == 0 {
        v
    } else {
        closed(
            v.dismiss(now, v.keys[0], goodbyes[0]),
            now,
            goodbyes.drop_first(),
        )
    }
}

/// The messages that carry `goodbyes` to the peers `keys`.
pub open spec fn farewells<C, H, S>(
    v: EndpointView<C, H, S>,
    now: Instant,
    keys: Seq<SocketAddr>,
    goodbyes: Seq<Seq<BytesMut>>,
) -> Seq<TransportMessage<BytesMut>>
    decreases keys.len(),
{
    if keys.len() == 0 || goodbyes.len() == 0 {
        Seq::empty()
    } else {
        v.messages(now, keys[0], None, goodbyes[0]) + farewells(
            v,
            now,
            keys.drop_first(),
            goodbyes.drop_first(),
        )
    }
}

/// Closing ends: when each association has been stopped none is left, and the queue has gained
/// what each of their engines had ready, addressed to its peer and stamped with `now`, in the order
/// of the keys. Nothing else has changed.
pub proof fn law_close<C, H, S>(
    v: EndpointView<C, H, S>,
    now: Instant,
    goodbyes: Seq<Seq<BytesMut>>,
)
    requires
        v.wf(),
        goodbyes.len() == v.keys.len(),
    ensures
        closed(v, now, goodbyes) == (EndpointView {
            transmits: v.transmits + farewells(v, now, v.keys, goodbyes),
            keys: Seq::empty(),
            connections: Map::empty(),
            ..v
        }),
    decreases goodbyes.len(),
{
    if v.keys.len() == 0 {
        assert(v.keys =~= Seq::<SocketAddr>::empty());
        assert forall|k: SocketAddr| !v.connections.dom().contains(k) by {
            assert(!v.keys.contains(k));
        }
        assert(v.connections =~= Map::<SocketAddr, DTLSConn<C, S>>::empty());
        assert(v.transmits + farewells(v, now, v.keys, goodbyes) =~= v.transmits);
    } else {
        let remote = v.keys[0];
        let w = v.dismiss(now, remote, goodbyes[0]);
        assert(v.keys.contains(remote));
        law_stopped_is_unknown(v, now, remote, goodbyes[0], Seq::empty());
        lemma_remove_value(v.keys, remote);
        assert(w.keys == v.keys.drop_first());
        law_close(w, now, goodbyes.drop_first());
        lemma_farewells(v, w, now, w.keys, goodbyes.drop_first());
        assert(v.transmits + farewells(v, now, v.keys, goodbyes) =~= w.transmits + farewells(
            v,
            now,
            w.keys,
            goodbyes.drop_first(),
        ));
    }
}

/// Farewells depend on the endpoint's address and protocol only.
proof fn lemma_farewells<C, H, S>(
    v: EndpointView<C, H, S>,
    w: EndpointView<C, H, S>,
    now: Instant,
    keys: Seq<SocketAddr>,
    goodbyes: Seq<Seq<BytesMut>>,
)
    requires
        v.local_addr == w.local_addr,
        v.transport_protocol == w.transport_protocol,
    ensures
        farewells(v, now, keys, goodbyes) == farewells(w, now, keys, goodbyes),
    decreases keys.len(),
{
    if keys.len() > 0 && goodbyes.len() > 0 {
        lemma_farewells(v, w, now, keys.drop_first(), goodbyes.drop_first());
        assert(v.messages(now, keys[0], None, goodbyes[0]) =~= w.messages(
            now,
            keys[0],
            None,
            goodbyes[0],
        ));
    }
}

/// The server configuration matters to strangers only: until it is replaced again, whatever
/// happens, an endpoint with a new one differs in nothing else from what it would be with the old
/// one. Known peers are read as they would be, and an engine for a stranger is created with the
/// new configuration, or refused for want of one.
pub proof fn law_server_config_affects_strangers_only<C, H, S>(
    v: EndpointView<C, H, S>,
    config: Option<Arc<H>>,
    changes: Seq<Change<C, H, S>>,
    remote: SocketAddr,
)
    requires
        forall|i: int| 0 <= i < changes.len() ==> !(#[trigger] changes[i] is Serve),
    ensures
        ({
            let u = v.after(changes);
            let w = v.serve(config).after(changes);
            &&& w == u.serve(config)
            &&& u.knows(remote) ==> w.admission(remote) == u.admission(remote)
            &&& !u.knows(remote) ==> w.admission(remote) == match config {
                Some(c) => Ok(
                    Some(NewConn::<H, S> { config: c, is_client: false, initial_state: None }),
                ),
                None => Err(Error::NoServerConfig),
            }
        }),
    decreases changes.len(),
{
    if changes.len() > 0 {
        lemma_but_last(changes, |change: Change<C, H, S>| !(change is Serve));
        let earlier = changes.drop_last();
        law_server_config_affects_strangers_only(v, config, earlier, remote);
        let u = v.after(earlier);
        if let Change::Enqueue(now, to, ecn, payloads) = changes.last() {
            assert(u.serve(config).messages(now, to, ecn, payloads) =~= u.messages(
                now,
                to,
                ecn,
                payloads,
            ));
        }
        assert(u.serve(config).apply(changes.last()) =~= u.apply(changes.last()).serve(config));
    }
}

/// Whether `change` may arm the retransmission timer of `remote`.
pub open spec fn may_arm<C, H, S>(change: Change<C, H, S>, remote: SocketAddr) -> bool {
    match change {
        Change::Report(r, _) => r == remote,
        Change::Associate(r, _) => r == remote,
        _ => false,
    }
}

/// A retransmission timer fires once: not before its deadline, at the deadline, and, once it has
/// been disarmed, at no instant until its engine reports another.
pub proof fn law_timer_fires_once<C, H, S>(
    v: EndpointView<C, H, S>,
    remote: SocketAddr,
    deadline: Instant,
    changes: Seq<Change<C, H, S>>,
    now: Instant,
)
    requires
        v.connections.dom().contains(remote),
        v.connections[remote].status.current_retransmit_timer == Some(deadline),
        forall|i: int| 0 <= i < changes.len() ==> !may_arm(#[trigger] changes[i], remote),
    ensures
        v.is_due(remote, now) <==> deadline.nanos <= now.nanos,
        v.is_due(remote, deadline),
        v.disarm(remote).after(changes).timer(remote) is None,
        !v.disarm(remote).after(changes).is_due(remote, now),
{
    lemma_stays_disarmed(v.disarm(remote), changes, remote);
}

proof fn lemma_stays_disarmed<C, H, S>(
    v: EndpointView<C, H, S>,
    changes: Seq<Change<C, H, S>>,
    remote: SocketAddr,
)
    requires
        v.timer(remote) is None,
        forall|i: int| 0 <= i < changes.len() ==> !may_arm(#[trigger] changes[i], remote),
    ensures
        v.after(changes).timer(remote) is None,
{
    lemma_keeps(
        v,
        changes,
        |change: Change<C, H, S>| !may_arm(change, remote),
        |w: EndpointView<C, H, S>| w.timer(remote) is None,
    );
}

} // verus!
