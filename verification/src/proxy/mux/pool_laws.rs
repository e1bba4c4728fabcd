//! What each operation on the pool of tunnels, and each step of the loop that drives a tunnel,
//! answers and changes.

use vstd::prelude::*;

use crate::common::identity::SpiffeId;
use crate::net::SocketAddress;
use crate::proxy::mux::driver::{DriverAction, DriverEvent, TunnelDriver};
use crate::proxy::mux::laws;
use crate::proxy::mux::pool::{MuxPool, Tunnel, TunnelState};
use crate::proxy::outbound_laws;

verus! {

/// A new pool lists no tunnel.
pub proof fn law_pools_begin_without_tunnels(pool: MuxPool, peer: SocketAddress)
    requires
        call_ensures(MuxPool::new, (), pool),
    ensures
        pool.well_formed(),
        !pool@.peers.contains_key(peer),
        pool@.next_id == 0,
{
}

/// Whether a tunnel has the fewest streams among some, and fewer than those before it.
pub open spec fn is_first_least(tunnels: Seq<TunnelState>, i: int) -> bool {
    &&& 0 <= i < tunnels.len()
    &&& forall|j: int| 0 <= j < tunnels.len() ==> tunnels[i].live <= (#[trigger] tunnels[j]).live
    &&& forall|j: int| 0 <= j < i ==> tunnels[i].live < (#[trigger] tunnels[j]).live
}

/// Whether there is room on a tunnel: it carries fewer than 200 streams.
pub open spec fn has_room(tunnels: Seq<TunnelState>, i: int) -> bool {
    0 <= i < tunnels.len() && tunnels[i].live < 200
}

/// The first tunnel with the fewest streams is picked if there is room on it; otherwise there is
/// room on none.
pub proof fn law_tunnels_with_room_are_picked(
    pool: MuxPool,
    peer: SocketAddress,
    picked: Option<Tunnel>,
)
    requires
        pool.well_formed(),
        call_ensures(MuxPool::pick_under_cap, (&pool, &peer), picked),
    ensures
        picked is Some <==> exists|i: int| #[trigger]
            has_room(outbound_laws::listed(pool@, peer), i),
        picked matches Some(tunnel) ==> exists|i: int|
            {
                &&& #[trigger] is_first_least(outbound_laws::listed(pool@, peer), i)
                &&& tunnel@ == outbound_laws::listed(pool@, peer)[i]
            },
{
    let tunnels = outbound_laws::listed(pool@, peer);
    assert(tunnels == pool@.tunnels(peer));
    laws::law_pick_is_least_loaded(tunnels, 200);
    match crate::proxy::mux::pool::least_loaded(tunnels, 200) {
        Some(i) => {
            assert(has_room(tunnels, i));
            assert(is_first_least(tunnels, i)) by {
                assert forall|j: int| 0 <= j < tunnels.len() implies tunnels[i].live <= (
                #[trigger] tunnels[j]).live by {}
                assert forall|j: int| 0 <= j < i implies tunnels[i].live < (
                #[trigger] tunnels[j]).live by {}
            }
        },
        None => {},
    }
}

/// The first tunnel with the fewest streams is picked, if there is a tunnel at all.
pub proof fn law_tunnels_are_picked(pool: MuxPool, peer: SocketAddress, picked: Option<Tunnel>)
    requires
        pool.well_formed(),
        call_ensures(MuxPool::pick_any, (&pool, &peer), picked),
    ensures
        picked is Some <==> outbound_laws::listed(pool@, peer).len() > 0,
        picked matches Some(tunnel) ==> exists|i: int|
            {
                &&& #[trigger] is_first_least(outbound_laws::listed(pool@, peer), i)
                &&& tunnel@ == outbound_laws::listed(pool@, peer)[i]
            },
{
    let tunnels = outbound_laws::listed(pool@, peer);
    let all = usize::MAX as nat + 1;
    assert(tunnels == pool@.tunnels(peer));
    laws::law_pick_is_least_loaded(tunnels, all);
    match crate::proxy::mux::pool::least_loaded(tunnels, all) {
        Some(i) => {
            assert(is_first_least(tunnels, i)) by {
                assert forall|j: int| 0 <= j < tunnels.len() implies tunnels[i].live <= (
                #[trigger] tunnels[j]).live by {
                    assert(tunnels[j].live < all);
                }
                assert forall|j: int| 0 <= j < i implies tunnels[i].live < (
                #[trigger] tunnels[j]).live by {
                    assert(tunnels[j].live < all);
                }
            }
        },
        None => {
            if tunnels.len() > 0 {
                assert(tunnels[0].live < all);
            }
        },
    }
}

/// Another tunnel to a peer may be opened while there are fewer than 16.
pub proof fn law_tunnels_are_opened_up_to_sixteen(
    pool: MuxPool,
    peer: SocketAddress,
    grows: bool,
)
    requires
        pool.well_formed(),
        call_ensures(MuxPool::can_grow, (&pool, &peer), grows),
    ensures
        grows <==> outbound_laws::listed(pool@, peer).len() < 16,
{
    assert(outbound_laws::listed(pool@, peer) == pool@.tunnels(peer));
}

/// A registered tunnel is listed behind the others to its peer, under the next id, with the
/// identity that the peer proved and without streams. The tunnels to other peers stay.
pub proof fn law_tunnels_are_registered(
    pool: &mut MuxPool,
    peer: SocketAddress,
    identity: SpiffeId,
    id: u64,
)
    requires
        old(pool).well_formed(),
        call_ensures(MuxPool::register, (pool, &peer, identity), id),
    ensures
        final(pool).well_formed(),
        id == old(pool)@.next_id,
        id < u64::MAX ==> final(pool)@.next_id == id + 1,
        final(pool)@.peers.contains_key(peer),
        final(pool)@.peers[peer].drop_last() == outbound_laws::listed(old(pool)@, peer),
        final(pool)@.peers[peer].len() == outbound_laws::listed(old(pool)@, peer).len() + 1,
        final(pool)@.peers[peer].last().id == id,
        final(pool)@.peers[peer].last().live == 0,
        final(pool)@.peers[peer].last().peer == identity@,
        outbound_laws::same_elsewhere(old(pool)@, final(pool)@, peer),
{
    let before = outbound_laws::listed(old(pool)@, peer);
    assert(before == old(pool)@.tunnels(peer));
    let new = TunnelState { id, live: 0, peer: identity@ };
    assert(before.push(new).drop_last() =~= before);
}

/// An evicted tunnel is gone; every other stays.
pub proof fn law_tunnels_are_evicted(pool: &mut MuxPool, peer: SocketAddress, id: u64)
    requires
        old(pool).well_formed(),
        call_ensures(MuxPool::evict, (pool, &peer, id), ()),
    ensures
        final(pool).well_formed(),
        outbound_laws::tunnel_gone(old(pool)@, final(pool)@, peer, id),
{
    outbound_laws::lemma_evicted(old(pool)@, peer, id);
}

/// A stream is counted on its tunnel when it is opened, and no more when it has ended; nothing
/// else changes.
pub proof fn law_streams_are_counted_on_their_tunnel(
    pool: &mut MuxPool,
    peer: SocketAddress,
    id: u64,
    opened: bool,
)
    requires
        old(pool).well_formed(),
        call_ensures(MuxPool::count_stream, (pool, &peer, id, opened), ()),
    ensures
        final(pool).well_formed(),
        outbound_laws::streams_differ_by_one(old(pool)@, final(pool)@, peer, id, opened),
{
    outbound_laws::lemma_recounted(old(pool)@, peer, id, opened);
}

/// A loop begins asleep, without a request.
pub proof fn law_loops_begin_asleep(driver: TunnelDriver)
    requires
        call_ensures(TunnelDriver::new, (), driver),
    ensures
        !driver.pending,
        !driver.queue_closed,
        driver.action is Yield,
{
}

/// Whether an event answers an action.
pub open spec fn answers(action: DriverAction, event: DriverEvent) -> bool {
    match event {
        DriverEvent::Woken => action is Yield,
        DriverEvent::Request | DriverEvent::QueueClosed
        | DriverEvent::QueueEmpty => action is PollQueue,
        DriverEvent::RequestAbandoned | DriverEvent::RequestAlive => action is ExamineRequest,
        DriverEvent::Answered | DriverEvent::OutboundPending => action is PollOutbound,
        DriverEvent::UnexpectedStream | DriverEvent::SessionEnded
        | DriverEvent::InboundPending => action is PollInbound,
    }
}

/// Whether the loop goes on to serve requests: the request at hand first, then the queue while it
/// is open, and then the session.
pub open spec fn serves(driver: TunnelDriver) -> bool {
    &&& driver.action is ExamineRequest <==> driver.pending
    &&& driver.action is PollQueue <==> !driver.pending && !driver.queue_closed
    &&& driver.action is PollInbound <==> !driver.pending && driver.queue_closed
}

/// What each event makes of the loop.
pub proof fn law_loops_go_on(driver: &mut TunnelDriver, event: DriverEvent, action: DriverAction)
    requires
        call_ensures(TunnelDriver::step, (driver, event), action),
    ensures
        action == final(driver).action,
        !answers(old(driver).action, event) || event is UnexpectedStream ==> *final(driver)
            == *old(driver),
        answers(old(driver).action, event) ==> {
            &&& final(driver).queue_closed == (old(driver).queue_closed || event is QueueClosed)
            &&& event is Woken ==> serves(*final(driver)) && final(driver).pending
                == old(driver).pending
            &&& event is Request ==> serves(*final(driver)) && final(driver).pending
            &&& event is QueueClosed || event is RequestAbandoned || event is Answered ==> serves(
                *final(driver),
            ) && !final(driver).pending
            &&& event is QueueEmpty || event is OutboundPending ==> action is PollInbound
                && final(driver).pending == old(driver).pending
            &&& event is RequestAlive ==> action is PollOutbound && final(driver).pending
                == old(driver).pending
            &&& event is SessionEnded ==> action is Finish && final(driver).pending
                == old(driver).pending
            &&& event is InboundPending ==> action is Yield && final(driver).pending
                == old(driver).pending
        },
{
}

} // verus!
