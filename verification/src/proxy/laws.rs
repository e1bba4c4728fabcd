//! What holds of the connections of both proxies from start to end.

use vstd::prelude::*;

use crate::common::identity::SpiffeParts;
use crate::metrics;
use crate::metrics::InterlinkMetrics;
use crate::net::SocketAddress;
use crate::policy::{Decision, Policies};
use crate::proxy::mux;
use crate::proxy::mux::laws as mux_laws;
use crate::proxy::mux::pool;
use crate::proxy::mux::pool::Pool;
use crate::proxy::outbound;
use crate::proxy::outbound::{OutboundAction, OutboundEvent, OutboundState, Router};
use crate::proxy::tcp;
use crate::proxy::tcp::{InboundAction, InboundEvent, InboundState, PeerSession};

verus! {

/// The states of an inbound connection whose peer may talk to us.
pub open spec fn inbound_authorized(state: InboundState) -> bool {
    state is Detecting || state is Forwarding || state is Relaying || state is Tunnel
}

/// An inbound connection is read from, forwarded or served only once its peer has proved an
/// identity that the policies allow.
pub proof fn law_inbound_fails_closed(
    local: SpiffeParts,
    policies: Policies,
    state: InboundState,
    event: InboundEvent,
)
    ensures
        ({
            let (next, action) = tcp::inbound_step(local, policies, state, event);
            &&& inbound_authorized(next) && !inbound_authorized(state) ==> {
                &&& event matches InboundEvent::Connected { session: Ok(session), .. }
                &&& policies.decide(session.identity@, local) == Decision::Allow
            }
            &&& action is ReadFirstBytes || action is Forward || action is Relay
                || action is ServeTunnel ==> inbound_authorized(next)
        }),
{
}

/// A peer that the policies deny is disconnected, and the denial is counted.
pub proof fn law_inbound_denial_closes(
    local: SpiffeParts,
    policies: Policies,
    state: InboundState,
    event: InboundEvent,
    m: InterlinkMetrics,
)
    requires
        state is Connecting,
        event matches InboundEvent::Connected { session: Ok(session), upstream_connected: true, .. }
            && policies.decide(session.identity@, local) != Decision::Allow,
    ensures
        tcp::inbound_step(local, policies, state, event) == (
            InboundState::Done,
            InboundAction::Close,
        ),
        tcp::inbound_metrics(local, policies, state, event, m).policy_denied_total
            == m.policy_denied_total.wrapping_add(1),
{
}

/// The bytes that were read to detect the protocol reach the upstream as they came, whatever the
/// protocol.
pub proof fn law_first_bytes_are_forwarded(
    local: SpiffeParts,
    policies: Policies,
    upstream: SocketAddress,
    bytes: Vec<u8>,
)
    requires
        bytes@.len() > 0,
    ensures
        ({
            let (next, action) = tcp::inbound_step(
                local,
                policies,
                InboundState::Detecting { upstream },
                InboundEvent::FirstBytes(Some(bytes)),
            );
            &&& next == InboundState::Forwarding { upstream }
            &&& action matches InboundAction::Forward { bytes: forwarded, .. } && forwarded == bytes
        }),
{
}

/// An inbound connection of an allowed peer becomes a tunnel if and only if the handshake agreed
/// on one: peers that do not know tunnels are served all the same.
pub proof fn law_inbound_speaks_what_was_negotiated(
    local: SpiffeParts,
    policies: Policies,
    upstream: SocketAddress,
    session: PeerSession,
    handshake_nanos: u64,
)
    requires
        policies.decide(session.identity@, local) == Decision::Allow,
    ensures
        ({
            let (next, action) = tcp::inbound_step(
                local,
                policies,
                InboundState::Connecting { upstream },
                InboundEvent::Connected {
                    session: Ok(session),
                    handshake_nanos,
                    upstream_connected: true,
                },
            );
            if mux::mux_negotiated(session.alpn) {
                next is Tunnel && action is ServeTunnel
            } else {
                next is Detecting && action is ReadFirstBytes
            }
        }),
{
}

/// What a run of events makes of an inbound connection and of the metrics. The policies may be
/// others at every event.
pub open spec fn inbound_run(
    local: SpiffeParts,
    state: InboundState,
    events: Seq<(InboundEvent, Policies)>,
    m: InterlinkMetrics,
) -> (InboundState, InterlinkMetrics)
    decreases events.len(),
{
    if events.len() == 0 {
        (state, m)
    } else {
        let (event, policies) = events[0];
        inbound_run(
            local,
            tcp::inbound_step(local, policies, state, event).0,
            events.skip(1),
            tcp::inbound_metrics(local, policies, state, event, m),
        )
    }
}

/// Whatever happens to an inbound connection, it holds one active slot from its start until it is
/// done, and none afterwards.
pub proof fn law_inbound_holds_one_slot(
    local: SpiffeParts,
    events: Seq<(InboundEvent, Policies)>,
    m: InterlinkMetrics,
)
    ensures
        ({
            let (state, after) = inbound_run(
                local,
                InboundState::Resolving,
                events,
                metrics::after_start(m),
            );
            after.connections_active == if state is Done {
                m.connections_active
            } else {
                m.connections_active.wrapping_add(1)
            }
        }),
{
    lemma_inbound_slot(local, InboundState::Resolving, events, metrics::after_start(m), m);
}

proof fn lemma_inbound_slot(
    local: SpiffeParts,
    state: InboundState,
    events: Seq<(InboundEvent, Policies)>,
    m: InterlinkMetrics,
    before: InterlinkMetrics,
)
    requires
        m.connections_active == if state is Done {
            before.connections_active
        } else {
            before.connections_active.wrapping_add(1)
        },
    ensures
        ({
            let (last, after) = inbound_run(local, state, events, m);
            after.connections_active == if last is Done {
                before.connections_active
            } else {
                before.connections_active.wrapping_add(1)
            }
        }),
    decreases events.len(),
{
    if events.len() > 0 {
        let (event, policies) = events[0];
        lemma_inbound_slot(
            local,
            tcp::inbound_step(local, policies, state, event).0,
            events.skip(1),
            tcp::inbound_metrics(local, policies, state, event, m),
            before,
        );
    }
}

/// A connection that is done stays done, and leaves the metrics alone.
pub proof fn law_inbound_done_is_final(
    local: SpiffeParts,
    events: Seq<(InboundEvent, Policies)>,
    m: InterlinkMetrics,
)
    ensures
        inbound_run(local, InboundState::Done, events, m) == (InboundState::Done, m),
    decreases events.len(),
{
    if events.len() > 0 {
        law_inbound_done_is_final(local, events.skip(1), m);
    }
}

/// A tunnel of the pool to a peer that the policies allow us to talk to.
pub open spec fn allowed_tunnel(
    router: Router,
    pool: Pool,
    upstream: SocketAddress,
    id: u64,
    i: int,
) -> bool {
    &&& 0 <= i < pool.tunnels(upstream).len()
    &&& pool.tunnels(upstream)[i].id == id
    &&& router.policies.decide(router.local, pool.tunnels(upstream)[i].peer) == Decision::Allow
}

/// An outbound connection is opened only where the policies allow us to talk to the identity that
/// its peer has proved: in the handshake that just ended, or in that of the tunnel. It is relayed
/// over a stream only once that was opened.
pub proof fn law_outbound_fails_closed(
    router: Router,
    state: OutboundState,
    event: OutboundEvent,
    pool: Pool,
    m: InterlinkMetrics,
)
    ensures
        ({
            let next = router.step(state, event, pool, m);
            &&& next.action is StartTunnel || next.action is RelayDirect ==> {
                &&& event matches OutboundEvent::Connected { session: Ok(session), .. }
                &&& router.policies.decide(router.local, session.identity@) == Decision::Allow
            }
            &&& next.action matches OutboundAction::Open { upstream, tunnel } ==> exists|i: int|
                #[trigger] allowed_tunnel(router, pool, upstream, tunnel, i)
            &&& next.action is RelayStream ==> state is Opening && event
                == OutboundEvent::StreamOpened(true)
        }),
{
    let next = router.step(state, event, pool, m);
    if let OutboundAction::Open { upstream, tunnel } = next.action {
        let at_hand = match (state, event) {
            (OutboundState::Opening { upstream, tunnel, .. }, _) => pool.evicted(upstream, tunnel),
            _ => pool,
        };
        let tunnels = at_hand.tunnels(upstream);
        mux_laws::law_pick_is_least_loaded(tunnels, pool::STREAMS_PER_TUNNEL as nat);
        mux_laws::law_pick_is_least_loaded(tunnels, usize::MAX as nat + 1);
        let under_cap = pool::least_loaded(tunnels, pool::STREAMS_PER_TUNNEL as nat);
        let any = pool::least_loaded(tunnels, usize::MAX as nat + 1);
        let i = if under_cap is Some {
            under_cap->0
        } else {
            any->0
        };
        assert(tunnels[i].id == tunnel);
        if let OutboundState::Opening { upstream: up, tunnel: dead, .. } = state {
            if pool.peers.contains_key(up) {
                mux_laws::lemma_without_member(pool.tunnels(up), dead, i);
                let j = choose|j: int|
                    0 <= j < pool.tunnels(up).len() && pool.tunnels(up)[j] == tunnels[i];
                assert(allowed_tunnel(router, pool, upstream, tunnel, j));
            }
        } else {
            assert(allowed_tunnel(router, pool, upstream, tunnel, i));
        }
    }
}

/// An outbound connection to an allowed peer becomes a tunnel if and only if the handshake agreed
/// on one, whatever our own setting says.
pub proof fn law_outbound_speaks_what_was_negotiated(
    router: Router,
    upstream: SocketAddress,
    locked: bool,
    session: PeerSession,
    handshake_nanos: u64,
    pool: Pool,
    m: InterlinkMetrics,
)
    requires
        router.policies.decide(router.local, session.identity@) == Decision::Allow,
    ensures
        ({
            let next = router.step(
                OutboundState::Connecting { upstream, locked },
                OutboundEvent::Connected { session: Ok(session), handshake_nanos },
                pool,
                m,
            );
            if mux::mux_negotiated(session.alpn) {
                next.action is StartTunnel
            } else {
                next.action is RelayDirect && next.pool == pool
            }
        }),
{
}

/// A connection to a peer with a tunnel that is not full costs no handshake: it is opened as a
/// stream, or closed where the policies deny the peer.
pub proof fn law_spare_tunnel_saves_the_handshake(
    router: Router,
    upstream: SocketAddress,
    pool: Pool,
    m: InterlinkMetrics,
)
    requires
        router.mux,
        pool.pick(upstream, pool::STREAMS_PER_TUNNEL as nat) is Some,
    ensures
        ({
            let next = router.step(
                OutboundState::Resolving,
                OutboundEvent::Resolved(Ok(upstream)),
                pool,
                m,
            );
            &&& next.action is Open || next.action is Close
            &&& next.metrics.handshakes_total == m.handshakes_total
        }),
{
}

/// A tunnel is opened on purpose only below the limit of tunnels per peer, and by whoever holds
/// the right to open one.
pub proof fn law_pool_grows_within_its_limit(
    router: Router,
    state: OutboundState,
    event: OutboundEvent,
    pool: Pool,
    m: InterlinkMetrics,
)
    requires
        router.mux,
    ensures
        router.step(state, event, pool, m).action matches OutboundAction::Connect(upstream) ==> {
            &&& pool.can_grow(upstream)
            &&& state is Locking
            &&& event is Locked
        },
{
}

/// The number of an attempt.
pub open spec fn attempt_of(state: OutboundState) -> Option<u8> {
    match state {
        OutboundState::Locking { attempt, .. } => Some(attempt),
        OutboundState::Opening { attempt, fresh: false, .. } => Some(attempt),
        _ => None,
    }
}

/// A dead tunnel costs an attempt, and attempts run out: a connection is not routed for ever.
pub proof fn law_attempts_run_out(
    router: Router,
    upstream: SocketAddress,
    tunnel: u64,
    attempt: u8,
    locked: bool,
    pool: Pool,
    m: InterlinkMetrics,
)
    requires
        attempt < outbound::ROUTE_ATTEMPTS,
    ensures
        ({
            let state = OutboundState::Opening { upstream, tunnel, attempt, fresh: false, locked };
            let next = router.step(state, OutboundEvent::StreamOpened(false), pool, m).state;
            if attempt + 1 == outbound::ROUTE_ATTEMPTS {
                next is Done
            } else {
                next is Done || next is Connecting || attempt_of(next) == Some((attempt + 1) as u8)
            }
        }),
{
}

/// What a run of events makes of an outbound connection and of the metrics. The pool may be
/// another at every event: other connections change it too.
pub open spec fn outbound_run(
    router: Router,
    state: OutboundState,
    events: Seq<(OutboundEvent, Pool)>,
    m: InterlinkMetrics,
) -> (OutboundState, InterlinkMetrics)
    decreases events.len(),
{
    if events.len() == 0 {
        (state, m)
    } else {
        let (event, pool) = events[0];
        let next = router.step(state, event, pool, m);
        outbound_run(router, next.state, events.skip(1), next.metrics)
    }
}

/// Whatever happens to an outbound connection, it holds one active slot from its start until it is
/// done, and none afterwards.
pub proof fn law_outbound_holds_one_slot(
    router: Router,
    events: Seq<(OutboundEvent, Pool)>,
    m: InterlinkMetrics,
)
    ensures
        ({
            let (state, after) = outbound_run(
                router,
                OutboundState::Resolving,
                events,
                metrics::after_start(m),
            );
            after.connections_active == if state is Done {
                m.connections_active
            } else {
                m.connections_active.wrapping_add(1)
            }
        }),
{
    lemma_outbound_slot(router, OutboundState::Resolving, events, metrics::after_start(m), m);
}

proof fn lemma_outbound_slot(
    router: Router,
    state: OutboundState,
    events: Seq<(OutboundEvent, Pool)>,
    m: InterlinkMetrics,
    before: InterlinkMetrics,
)
    requires
        m.connections_active == if state is Done {
            before.connections_active
        } else {
            before.connections_active.wrapping_add(1)
        },
    ensures
        ({
            let (last, after) = outbound_run(router, state, events, m);
            after.connections_active == if last is Done {
                before.connections_active
            } else {
                before.connections_active.wrapping_add(1)
            }
        }),
    decreases events.len(),
{
    if events.len() > 0 {
        let (event, pool) = events[0];
        let next = router.step(state, event, pool, m);
        lemma_outbound_slot(router, next.state, events.skip(1), next.metrics, before);
    }
}

} // verus!
