//! What holds of the pool of tunnels and of the loop that drives a tunnel.

use vstd::prelude::*;

use crate::common::identity::SpiffeParts;
use crate::net::SocketAddress;
use crate::proxy::mux::driver;
use crate::proxy::mux::driver::{DriverEvent, TunnelDriver};
use crate::proxy::mux::pool;
use crate::proxy::mux::pool::{Pool, TunnelState};

verus! {

/// The tunnel that is picked has fewer streams than the cap, no more than any other below the cap,
/// and fewer than those before it. Where none is picked, all are at the cap.
pub proof fn law_pick_is_least_loaded(tunnels: Seq<TunnelState>, cap: nat)
    ensures
        match pool::least_loaded(tunnels, cap) {
            Some(i) => {
                &&& 0 <= i < tunnels.len()
                &&& tunnels[i].live < cap
                &&& forall|j: int|
                    0 <= j < tunnels.len() && (#[trigger] tunnels[j]).live < cap ==> {
                        &&& tunnels[i].live <= tunnels[j].live
                        &&& j < i ==> tunnels[i].live < tunnels[j].live
                    }
            },
            None => forall|j: int| 0 <= j < tunnels.len() ==> (#[trigger] tunnels[j]).live >= cap,
        },
    decreases tunnels.len(),
{
    if tunnels.len() > 0 {
        let before = tunnels.drop_last();
        law_pick_is_least_loaded(before, cap);
        assert forall|j: int| 0 <= j < before.len() implies #[trigger] tunnels[j] == before[j] by {}
    }
}

/// Eviction takes out the tunnels of one id, and keeps every other in its order.
pub proof fn law_eviction_is_exact(tunnels: Seq<TunnelState>, id: u64)
    ensures
        pool::without(tunnels, id) == tunnels.filter(|t: TunnelState| t.id != id),
    decreases tunnels.len(),
{
    reveal(Seq::filter);
    if tunnels.len() > 0 {
        law_eviction_is_exact(tunnels.drop_last(), id);
    }
}

/// A tunnel that is left after an eviction was there before, and is another one.
pub proof fn lemma_without_member(tunnels: Seq<TunnelState>, id: u64, i: int)
    requires
        0 <= i < pool::without(tunnels, id).len(),
    ensures
        pool::without(tunnels, id)[i].id != id,
        exists|j: int| 0 <= j < tunnels.len() && tunnels[j] == pool::without(tunnels, id)[i],
    decreases tunnels.len(),
{
    if tunnels.len() > 0 {
        let before = tunnels.drop_last();
        let kept = pool::without(before, id);
        if tunnels.last().id != id && i == kept.len() {
            assert(tunnels[tunnels.len() - 1] == pool::without(tunnels, id)[i]);
        } else {
            lemma_without_member(before, id, i);
            let j = choose|j: int| 0 <= j < before.len() && before[j] == kept[i];
            assert(tunnels[j] == kept[i]);
        }
    }
}

/// Every id in the pool was given out, and to one tunnel only.
pub open spec fn ids_in_order(p: Pool) -> bool {
    &&& forall|peer: SocketAddress, i: int|
        0 <= i < p.tunnels(peer).len() ==> (#[trigger] p.tunnels(peer)[i]).id < p.next_id
    &&& forall|a: SocketAddress, i: int, b: SocketAddress, j: int|
        0 <= i < p.tunnels(a).len() && 0 <= j < p.tunnels(b).len() && (#[trigger] p.tunnels(
            a,
        )[i]).id == (#[trigger] p.tunnels(b)[j]).id ==> a == b && i == j
}

/// A new tunnel gets an id that no other has.
pub proof fn law_registration_keeps_ids_apart(
    p: Pool,
    peer: SocketAddress,
    identity: SpiffeParts,
)
    requires
        ids_in_order(p),
        p.next_id < u64::MAX,
    ensures
        ids_in_order(p.registered(peer, identity)),
        p.registered(peer, identity).tunnels(peer).len() == p.tunnels(peer).len() + 1,
{
    let after = p.registered(peer, identity);
    assert(after.tunnels(peer) == p.tunnels(peer).push(
        TunnelState { id: p.next_id, live: 0, peer: identity },
    ));
    assert forall|other: SocketAddress, i: int|
        0 <= i < after.tunnels(other).len() implies (#[trigger] after.tunnels(other)[i]).id
        < after.next_id by {
        if other != peer {
            assert(after.tunnels(other) == p.tunnels(other));
            assert(p.tunnels(other)[i].id < p.next_id);
        } else if i < p.tunnels(peer).len() {
            assert(p.tunnels(peer)[i].id < p.next_id);
        }
    }
    assert forall|a: SocketAddress, i: int, b: SocketAddress, j: int|
        0 <= i < after.tunnels(a).len() && 0 <= j < after.tunnels(b).len() && (
        #[trigger] after.tunnels(a)[i]).id == (#[trigger] after.tunnels(b)[j]).id implies a == b
        && i == j by {
        let i_old = i < p.tunnels(a).len();
        let j_old = j < p.tunnels(b).len();
        if a != peer {
            assert(after.tunnels(a) == p.tunnels(a));
        }
        if b != peer {
            assert(after.tunnels(b) == p.tunnels(b));
        }
        if i_old {
            assert(after.tunnels(a)[i] == p.tunnels(a)[i]);
        }
        if j_old {
            assert(after.tunnels(b)[j] == p.tunnels(b)[j]);
        }
    }
}

/// Opening a stream and closing it leaves the pool as it was.
pub proof fn law_streams_open_and_close(p: Pool, peer: SocketAddress, id: u64)
    ensures
        p.streams_changed(peer, id, true).streams_changed(peer, id, false) == p,
{
    let opened = p.streams_changed(peer, id, true);
    let closed = opened.streams_changed(peer, id, false);
    if p.peers.contains_key(peer) {
        assert(opened.tunnels(peer) == pool::recounted(p.tunnels(peer), id, true));
        assert(pool::recounted(opened.tunnels(peer), id, false) =~= p.tunnels(peer));
        assert(closed.peers =~= p.peers);
    }
}

/// A tunnel that is registered and evicted leaves the other tunnels to its peer as they were.
pub proof fn law_eviction_undoes_registration(
    p: Pool,
    peer: SocketAddress,
    identity: SpiffeParts,
)
    requires
        ids_in_order(p),
    ensures
        p.registered(peer, identity).evicted(peer, p.next_id).tunnels(peer) == p.tunnels(peer),
{
    let tunnels = p.tunnels(peer);
    let new = TunnelState { id: p.next_id, live: 0, peer: identity };
    let longer = tunnels.push(new);
    assert(p.registered(peer, identity).tunnels(peer) == longer);
    assert(longer.drop_last() =~= tunnels);
    assert forall|i: int| 0 <= i < tunnels.len() implies (#[trigger] tunnels[i]).id != p.next_id by {
        assert(p.tunnels(peer)[i].id < p.next_id);
    }
    lemma_without_absent(tunnels, p.next_id);
}

proof fn lemma_without_absent(tunnels: Seq<TunnelState>, id: u64)
    requires
        forall|i: int| 0 <= i < tunnels.len() ==> (#[trigger] tunnels[i]).id != id,
    ensures
        pool::without(tunnels, id) == tunnels,
    decreases tunnels.len(),
{
    if tunnels.len() > 0 {
        let before = tunnels.drop_last();
        assert forall|i: int| 0 <= i < before.len() implies (#[trigger] before[i]).id != id by {
            assert(before[i] == tunnels[i]);
        }
        lemma_without_absent(before, id);
        assert(tunnels.last() == tunnels[tunnels.len() - 1]);
        assert(before.push(tunnels.last()) =~= tunnels);
    } else {
        assert(tunnels =~= Seq::empty());
    }
}

/// The state of the loop after a run of events.
pub open spec fn driver_run(d: TunnelDriver, events: Seq<DriverEvent>) -> TunnelDriver
    decreases events.len(),
{
    if events.len() == 0 {
        d
    } else {
        driver_run(driver::driver_step(d, events[0]), events.skip(1))
    }
}

/// The loop takes a request from the queue only when it has none at hand, and asks the session for
/// a stream only for a request at hand.
pub open spec fn one_at_a_time(d: TunnelDriver) -> bool {
    &&& d.action is PollQueue ==> !d.pending && !d.queue_closed
    &&& d.action is ExamineRequest || d.action is PollOutbound ==> d.pending
}

/// Whatever happens, at most one request is at hand.
pub proof fn law_one_request_at_a_time(d: TunnelDriver, events: Seq<DriverEvent>)
    requires
        one_at_a_time(d),
    ensures
        one_at_a_time(driver_run(d, events)),
    decreases events.len(),
{
    if events.len() > 0 {
        law_one_request_at_a_time(driver::driver_step(d, events[0]), events.skip(1));
    }
}

/// A request at hand is never lost: it stays until it is answered, or its requester gives up.
pub proof fn law_requests_are_not_lost(d: TunnelDriver, event: DriverEvent)
    requires
        one_at_a_time(d),
        d.pending,
    ensures
        driver::driver_step(d, event).pending || event is Answered || event is RequestAbandoned,
{
}

/// The loop goes to sleep only after it has polled the session, which moves the data of every
/// stream, and had nothing come in.
pub proof fn law_session_is_polled_before_sleep(d: TunnelDriver, event: DriverEvent)
    requires
        !(d.action is Yield),
        driver::driver_step(d, event).action is Yield,
    ensures
        d.action is PollInbound,
        event is InboundPending,
{
}

/// The end of the session ends the loop, and nothing else does.
pub proof fn law_loop_ends_with_the_session(d: TunnelDriver, event: DriverEvent)
    requires
        !(d.action is Finish),
    ensures
        driver::driver_step(d, event).action is Finish <==> d.action is PollInbound
            && event is SessionEnded,
{
}

} // verus!
