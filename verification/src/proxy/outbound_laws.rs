//! What the outbound proxy answers to each event, for every connection.

use vstd::prelude::*;
use vstd::utf8::encode_utf8;

use crate::common::error::InterlinkError;
use crate::metrics::InterlinkMetrics;
use crate::net::SocketAddress;
use crate::policy::{Decision, PolicyEngine};
use crate::proxy::config::ProxyConfig;
use crate::proxy::inbound_laws;
use crate::proxy::mux::laws as mux_laws;
use crate::proxy::mux::pool;
use crate::proxy::mux::pool::{MuxPool, Pool, Tunnel, TunnelState};
use crate::proxy::outbound::{OutboundAction, OutboundEvent, OutboundProxy, OutboundState};
use crate::proxy::tcp::PeerSession;
use crate::proxy::UpstreamTarget;

verus! {

/// The tunnels that a pool lists for a peer.
pub open spec fn listed(pool: Pool, peer: SocketAddress) -> Seq<TunnelState> {
    if pool.peers.contains_key(peer) {
        pool.peers[peer]
    } else {
        Seq::empty()
    }
}

/// Two pools list the same tunnels for every peer but one.
pub open spec fn same_elsewhere(before: Pool, after: Pool, peer: SocketAddress) -> bool {
    forall|other: SocketAddress|
        other != peer ==> {
            &&& #[trigger] after.peers.contains_key(other) == before.peers.contains_key(other)
            &&& before.peers.contains_key(other) ==> after.peers[other] == before.peers[other]
        }
}

/// A tunnel to a peer carries one stream more, or one fewer. Nothing else in the pool changes.
pub open spec fn streams_differ_by_one(
    before: Pool,
    after: Pool,
    peer: SocketAddress,
    id: u64,
    more: bool,
) -> bool {
    &&& after.next_id == before.next_id
    &&& same_elsewhere(before, after, peer)
    &&& listed(after, peer).len() == listed(before, peer).len()
    &&& forall|i: int|
        0 <= i < listed(before, peer).len() ==> {
            let was = listed(before, peer)[i];
            &&& (#[trigger] listed(after, peer)[i]).id == was.id
            &&& listed(after, peer)[i].peer == was.peer
            &&& listed(after, peer)[i].live == if was.id != id {
                was.live
            } else if more {
                was.live.wrapping_add(1)
            } else {
                was.live.wrapping_sub(1)
            }
        }
}

/// A tunnel to a peer is gone. The others are there, in their order, and nothing else changes.
pub open spec fn tunnel_gone(before: Pool, after: Pool, peer: SocketAddress, id: u64) -> bool {
    &&& after.next_id == before.next_id
    &&& same_elsewhere(before, after, peer)
    &&& listed(after, peer) == listed(before, peer).filter(|t: TunnelState| t.id != id)
}

/// A connection goes on as a stream over a tunnel, if the policy allows the peer of the tunnel:
/// the stream is opened on that tunnel, to the upstream of the connection, and counted on it.
/// Otherwise it has failed, and the tunnel is as it was.
pub open spec fn streams_by_decision(
    upstream: SocketAddress,
    tunnel: u64,
    attempt: int,
    decision: Decision,
    before: Pool,
    after: Pool,
    m: InterlinkMetrics,
    m_after: InterlinkMetrics,
    next: (OutboundState, OutboundAction),
) -> bool {
    if decision == Decision::Allow {
        &&& next.0 == (OutboundState::Opening {
            upstream,
            tunnel,
            attempt: attempt as u8,
            fresh: false,
            locked: false,
        })
        &&& next.1 == (OutboundAction::Open { upstream, tunnel })
        &&& streams_differ_by_one(before, after, upstream, tunnel, true)
        &&& m_after == inbound_laws::one_decision(m, true)
    } else {
        &&& next == (OutboundState::Done, OutboundAction::Close)
        &&& after == before
        &&& inbound_laws::one_failed(inbound_laws::one_decision(m, false), m_after)
    }
}

/// A stream that is counted on a tunnel changes the count of that tunnel alone.
pub proof fn lemma_recounted(before: Pool, peer: SocketAddress, id: u64, more: bool)
    ensures
        streams_differ_by_one(before, before.streams_changed(peer, id, more), peer, id, more),
{
    let after = before.streams_changed(peer, id, more);
    assert(listed(after, peer) =~= pool::recounted(listed(before, peer), id, more));
}

/// An eviction takes out one tunnel.
pub proof fn lemma_evicted(before: Pool, peer: SocketAddress, id: u64)
    ensures
        tunnel_gone(before, before.evicted(peer, id), peer, id),
{
    mux_laws::law_eviction_is_exact(listed(before, peer), id);
    if !before.peers.contains_key(peer) {
        assert(listed(before, peer) =~= Seq::empty());
    }
}

/// An outbound connection begins with its upstream being resolved, and takes an active slot.
pub proof fn law_outbound_begins(
    proxy: OutboundProxy,
    m: &mut InterlinkMetrics,
    state: OutboundState,
)
    requires
        call_ensures(OutboundProxy::begin, (&proxy, m), state),
    ensures
        state == OutboundState::Resolving,
        *final(m) == (InterlinkMetrics {
            connections_active: old(m).connections_active.wrapping_add(1),
            ..*old(m)
        }),
{
}

/// Without an address an outbound connection has failed. Without tunnels it is connected to the
/// address by itself.
pub proof fn law_outbound_without_tunnels(
    proxy: OutboundProxy,
    policy: PolicyEngine,
    resolved: Result<SocketAddress, InterlinkError>,
    tunnels: &mut MuxPool,
    m: &mut InterlinkMetrics,
    next: (OutboundState, OutboundAction),
)
    requires
        call_ensures(
            OutboundProxy::handle_connection,
            (
                &proxy,
                OutboundState::Resolving,
                OutboundEvent::Resolved(resolved),
                &policy,
                tunnels,
                m,
            ),
            next,
        ),
        resolved is Err || !proxy.mux_enabled,
    ensures
        final(tunnels)@ == old(tunnels)@,
        match resolved {
            Ok(upstream) => {
                &&& next.0 == (OutboundState::Connecting { upstream, locked: false })
                &&& next.1 == OutboundAction::Connect(upstream)
                &&& *final(m) == *old(m)
            },
            Err(_) => {
                &&& next == (OutboundState::Done, OutboundAction::Close)
                &&& inbound_laws::one_failed(*old(m), *final(m))
            },
        },
{
}

/// With a tunnel to its upstream that is not full, a resolved connection is opened as a stream on
/// the tunnel that the pool picks, if and only if the policy allows us to talk to the peer of the
/// tunnel. Without such a tunnel the right to open one is asked for.
pub proof fn law_outbound_shares_tunnels(
    proxy: OutboundProxy,
    policy: PolicyEngine,
    upstream: SocketAddress,
    picked: Option<Tunnel>,
    decision: Decision,
    tunnels: &mut MuxPool,
    m: &mut InterlinkMetrics,
    next: (OutboundState, OutboundAction),
)
    requires
        proxy.mux_enabled,
        call_ensures(MuxPool::pick_under_cap, (&*old(tunnels), &upstream), picked),
        picked matches Some(tunnel) ==> call_ensures(
            PolicyEngine::evaluate,
            (&policy, &proxy.local_id, &tunnel.peer_identity),
            decision,
        ),
        call_ensures(
            OutboundProxy::handle_connection,
            (
                &proxy,
                OutboundState::Resolving,
                OutboundEvent::Resolved(Ok(upstream)),
                &policy,
                tunnels,
                m,
            ),
            next,
        ),
    ensures
        match picked {
            Some(tunnel) => streams_by_decision(
                upstream,
                tunnel.id,
                0,
                decision,
                old(tunnels)@,
                final(tunnels)@,
                *old(m),
                *final(m),
                next,
            ),
            None => {
                &&& next.0 == (OutboundState::Locking { upstream, attempt: 0 })
                &&& next.1 == OutboundAction::Lock(upstream)
                &&& final(tunnels)@ == old(tunnels)@
                &&& *final(m) == *old(m)
            },
        },
{
    if let Some(tunnel) = picked {
        lemma_recounted(old(tunnels)@, upstream, tunnel.id, true);
    }
}

/// With the right to open a tunnel, a tunnel that is free by now is used all the same. Without one
/// a new one is opened while there are fewer than 16 to the peer, and else the least loaded is
/// used. Who uses a tunnel is decided by policy.
pub proof fn law_outbound_opens_tunnels_within_the_limit(
    proxy: OutboundProxy,
    policy: PolicyEngine,
    upstream: SocketAddress,
    attempt: u8,
    free: Option<Tunnel>,
    any: Option<Tunnel>,
    decision: Decision,
    tunnels: &mut MuxPool,
    m: &mut InterlinkMetrics,
    next: (OutboundState, OutboundAction),
)
    requires
        call_ensures(MuxPool::pick_under_cap, (&*old(tunnels), &upstream), free),
        call_ensures(MuxPool::pick_any, (&*old(tunnels), &upstream), any),
        free matches Some(tunnel) ==> call_ensures(
            PolicyEngine::evaluate,
            (&policy, &proxy.local_id, &tunnel.peer_identity),
            decision,
        ),
        free is None ==> (any matches Some(tunnel) ==> call_ensures(
            PolicyEngine::evaluate,
            (&policy, &proxy.local_id, &tunnel.peer_identity),
            decision,
        )),
        call_ensures(
            OutboundProxy::handle_connection,
            (
                &proxy,
                OutboundState::Locking { upstream, attempt },
                OutboundEvent::Locked,
                &policy,
                tunnels,
                m,
            ),
            next,
        ),
    ensures
        free matches Some(tunnel) ==> streams_by_decision(
            upstream,
            tunnel.id,
            attempt as int,
            decision,
            old(tunnels)@,
            final(tunnels)@,
            *old(m),
            *final(m),
            next,
        ),
        free is None && listed(old(tunnels)@, upstream).len() < 16 ==> {
            &&& next.0 == (OutboundState::Connecting { upstream, locked: true })
            &&& next.1 == OutboundAction::Connect(upstream)
            &&& final(tunnels)@ == old(tunnels)@
            &&& *final(m) == *old(m)
        },
        free is None && listed(old(tunnels)@, upstream).len() >= 16 ==> {
            &&& any matches Some(tunnel)
            &&& streams_by_decision(
                upstream,
                tunnel.id,
                attempt as int,
                decision,
                old(tunnels)@,
                final(tunnels)@,
                *old(m),
                *final(m),
                next,
            )
        },
{
    if let Some(tunnel) = free {
        lemma_recounted(old(tunnels)@, upstream, tunnel.id, true);
    }
    if let Some(tunnel) = any {
        lemma_recounted(old(tunnels)@, upstream, tunnel.id, true);
    }
    let list = listed(old(tunnels)@, upstream);
    mux_laws::law_pick_is_least_loaded(list, usize::MAX as nat + 1);
    if list.len() >= 16 {
        assert(list[0].live < usize::MAX as nat + 1);
    }
}

/// An established connection goes on if and only if the policy allows us to talk to the identity
/// that the peer proved. It becomes a tunnel to the same upstream if the handshake agreed on one,
/// which the pool lists under an id of its own, with this connection as its first stream. Else it
/// is relayed by itself.
pub proof fn law_outbound_admits_whom_the_policy_allows(
    proxy: OutboundProxy,
    policy: PolicyEngine,
    upstream: SocketAddress,
    locked: bool,
    session: PeerSession,
    handshake_nanos: u64,
    decision: Decision,
    tunnels: &mut MuxPool,
    m: &mut InterlinkMetrics,
    next: (OutboundState, OutboundAction),
)
    requires
        call_ensures(
            PolicyEngine::evaluate,
            (&policy, &proxy.local_id, &session.identity),
            decision,
        ),
        call_ensures(
            OutboundProxy::handle_connection,
            (
                &proxy,
                OutboundState::Connecting { upstream, locked },
                OutboundEvent::Connected { session: Ok(session), handshake_nanos },
                &policy,
                tunnels,
                m,
            ),
            next,
        ),
    ensures
        ({
            let before = old(tunnels)@;
            let after = final(tunnels)@;
            let shaken = inbound_laws::one_handshake(*old(m), handshake_nanos);
            if decision != Decision::Allow {
                &&& next == (OutboundState::Done, OutboundAction::Close)
                &&& after == before
                &&& inbound_laws::one_failed(inbound_laws::one_decision(shaken, false), *final(m))
            } else if session.alpn matches Some(protocol) && protocol@ == encode_utf8(
                "il/mux/1"@,
            ) {
                let id = before.next_id;
                let allowed = inbound_laws::one_decision(shaken, true);
                &&& next.0 == (OutboundState::Opening {
                    upstream,
                    tunnel: id,
                    attempt: 0,
                    fresh: true,
                    locked,
                })
                &&& next.1 == (OutboundAction::StartTunnel { upstream, tunnel: id })
                &&& after.next_id == id.wrapping_add(1)
                &&& same_elsewhere(before, after, upstream)
                &&& after.peers.contains_key(upstream)
                &&& listed(after, upstream).len() == listed(before, upstream).len() + 1
                &&& listed(after, upstream).last() == (TunnelState {
                    id,
                    live: 1,
                    peer: session.identity@,
                })
                &&& forall|i: int|
                    0 <= i < listed(before, upstream).len() && listed(before, upstream)[i].id != id
                        ==> #[trigger] listed(after, upstream)[i] == listed(before, upstream)[i]
                &&& *final(m) == (InterlinkMetrics {
                    mux_tunnels_opened_total: allowed.mux_tunnels_opened_total.wrapping_add(1),
                    ..allowed
                })
            } else {
                &&& next.0 == (OutboundState::RelayingDirect { upstream })
                &&& next.1 == OutboundAction::RelayDirect
                &&& after == before
                &&& *final(m) == inbound_laws::one_decision(shaken, true)
            }
        }),
{
    let before = old(tunnels)@;
    let registered = before.registered(upstream, session.identity@);
    let list = listed(before, upstream).push(
        TunnelState { id: before.next_id, live: 0, peer: session.identity@ },
    );
    assert(listed(registered, upstream) =~= list);
    assert(listed(registered.streams_changed(upstream, before.next_id, true), upstream)
        =~= pool::recounted(list, before.next_id, true));
}

/// Without a handshake an outbound connection has failed.
pub proof fn law_outbound_needs_a_handshake(
    proxy: OutboundProxy,
    policy: PolicyEngine,
    upstream: SocketAddress,
    locked: bool,
    error: InterlinkError,
    handshake_nanos: u64,
    tunnels: &mut MuxPool,
    m: &mut InterlinkMetrics,
    next: (OutboundState, OutboundAction),
)
    requires
        call_ensures(
            OutboundProxy::handle_connection,
            (
                &proxy,
                OutboundState::Connecting { upstream, locked },
                OutboundEvent::Connected { session: Err(error), handshake_nanos },
                &policy,
                tunnels,
                m,
            ),
            next,
        ),
    ensures
        next == (OutboundState::Done, OutboundAction::Close),
        final(tunnels)@ == old(tunnels)@,
        inbound_laws::one_failed(
            InterlinkMetrics {
                handshakes_total: old(m).handshakes_total.wrapping_add(1),
                ..*old(m)
            },
            *final(m),
        ),
{
}

/// A stream that was opened is relayed, over the tunnel that it was opened on.
pub proof fn law_outbound_relays_opened_streams(
    proxy: OutboundProxy,
    policy: PolicyEngine,
    upstream: SocketAddress,
    tunnel: u64,
    attempt: u8,
    fresh: bool,
    locked: bool,
    tunnels: &mut MuxPool,
    m: &mut InterlinkMetrics,
    next: (OutboundState, OutboundAction),
)
    requires
        call_ensures(
            OutboundProxy::handle_connection,
            (
                &proxy,
                OutboundState::Opening { upstream, tunnel, attempt, fresh, locked },
                OutboundEvent::StreamOpened(true),
                &policy,
                tunnels,
                m,
            ),
            next,
        ),
    ensures
        next.0 == (OutboundState::RelayingStream { upstream, tunnel }),
        next.1 == OutboundAction::RelayStream,
        final(tunnels)@ == old(tunnels)@,
        *final(m) == (InterlinkMetrics {
            mux_streams_total: old(m).mux_streams_total.wrapping_add(1),
            ..*old(m)
        }),
{
}

/// A dead tunnel is taken out of the pool. A connection that had just opened it has failed, and so
/// has one at its fourth attempt; any other is routed anew, to the same upstream, with the tunnels
/// that are left.
pub proof fn law_outbound_survives_dead_tunnels(
    proxy: OutboundProxy,
    policy: PolicyEngine,
    upstream: SocketAddress,
    dead: u64,
    attempt: u8,
    fresh: bool,
    locked: bool,
    left: MuxPool,
    picked: Option<Tunnel>,
    decision: Decision,
    tunnels: &mut MuxPool,
    m: &mut InterlinkMetrics,
    next: (OutboundState, OutboundAction),
)
    requires
        attempt < 4,
        tunnel_gone(old(tunnels)@, left@, upstream, dead),
        left@.peers.contains_key(upstream) == old(tunnels)@.peers.contains_key(upstream),
        call_ensures(MuxPool::pick_under_cap, (&left, &upstream), picked),
        picked matches Some(tunnel) ==> call_ensures(
            PolicyEngine::evaluate,
            (&policy, &proxy.local_id, &tunnel.peer_identity),
            decision,
        ),
        call_ensures(
            OutboundProxy::handle_connection,
            (
                &proxy,
                OutboundState::Opening { upstream, tunnel: dead, attempt, fresh, locked },
                OutboundEvent::StreamOpened(false),
                &policy,
                tunnels,
                m,
            ),
            next,
        ),
    ensures
        if fresh || attempt + 1 >= 4 {
            &&& next == (OutboundState::Done, OutboundAction::Close)
            &&& final(tunnels)@ == left@
            &&& inbound_laws::one_failed(*old(m), *final(m))
        } else if !proxy.mux_enabled {
            &&& next.0 == (OutboundState::Connecting { upstream, locked: false })
            &&& next.1 == OutboundAction::Connect(upstream)
            &&& final(tunnels)@ == left@
            &&& *final(m) == *old(m)
        } else {
            match picked {
                Some(tunnel) => streams_by_decision(
                    upstream,
                    tunnel.id,
                    attempt + 1,
                    decision,
                    left@,
                    final(tunnels)@,
                    *old(m),
                    *final(m),
                    next,
                ),
                None => {
                    &&& next.0 == (OutboundState::Locking {
                        upstream,
                        attempt: (attempt + 1) as u8,
                    })
                    &&& next.1 == OutboundAction::Lock(upstream)
                    &&& final(tunnels)@ == left@
                    &&& *final(m) == *old(m)
                },
            }
        },
{
    let before = old(tunnels)@;
    lemma_evicted(before, upstream, dead);
    let evicted = before.evicted(upstream, dead);
    assert(evicted.peers =~= left@.peers) by {
        assert forall|p: SocketAddress| #[trigger]
            evicted.peers.contains_key(p) == left@.peers.contains_key(p) && (
        evicted.peers.contains_key(p) ==> evicted.peers[p] == left@.peers[p]) by {
            if p == upstream {
                assert(listed(evicted, p) == listed(left@, p));
            } else {
                assert(left@.peers.contains_key(p) == before.peers.contains_key(p));
            }
        }
    }
    assert(evicted == left@);
    if let Some(tunnel) = picked {
        lemma_recounted(left@, upstream, tunnel.id, true);
    }
}

/// An outbound connection ends with its relay, and what was relayed is counted. A stream leaves its
/// tunnel.
pub proof fn law_outbound_ends_with_its_relay(
    proxy: OutboundProxy,
    policy: PolicyEngine,
    state: OutboundState,
    bytes: Option<(u64, u64)>,
    nanos: u64,
    tunnels: &mut MuxPool,
    m: &mut InterlinkMetrics,
    next: (OutboundState, OutboundAction),
)
    requires
        state is RelayingStream || state is RelayingDirect,
        call_ensures(
            OutboundProxy::handle_connection,
            (&proxy, state, OutboundEvent::Relayed { bytes, nanos }, &policy, tunnels, m),
            next,
        ),
    ensures
        next == (OutboundState::Done, OutboundAction::Close),
        match bytes {
            Some((up, down)) => inbound_laws::one_relayed(*old(m), *final(m), up, down, nanos),
            None => inbound_laws::one_failed(*old(m), *final(m)),
        },
        match state {
            OutboundState::RelayingStream { upstream, tunnel } => streams_differ_by_one(
                old(tunnels)@,
                final(tunnels)@,
                upstream,
                tunnel,
                false,
            ),
            _ => final(tunnels)@ == old(tunnels)@,
        },
{
    if let OutboundState::RelayingStream { upstream, tunnel } = state {
        lemma_recounted(old(tunnels)@, upstream, tunnel, false);
    }
}

/// An event that does not answer what was asked for changes nothing.
pub proof fn law_outbound_ignores_what_it_did_not_ask_for(
    proxy: OutboundProxy,
    policy: PolicyEngine,
    state: OutboundState,
    event: OutboundEvent,
    tunnels: &mut MuxPool,
    m: &mut InterlinkMetrics,
    next: (OutboundState, OutboundAction),
)
    requires
        !(state is Resolving && event is Resolved),
        !(state is Locking && event is Locked),
        !(state is Connecting && event is Connected),
        !(state is Opening && event is StreamOpened),
        !(state is RelayingStream && event is Relayed),
        !(state is RelayingDirect && event is Relayed),
        call_ensures(
            OutboundProxy::handle_connection,
            (&proxy, state, event, &policy, tunnels, m),
            next,
        ),
    ensures
        next == (state, OutboundAction::Ignore),
        final(tunnels)@ == old(tunnels)@,
        *final(m) == *old(m),
{
}

/// The upstream of an outbound connection, once it has one.
pub open spec fn upstream_of(state: OutboundState) -> Option<SocketAddress> {
    match state {
        OutboundState::Resolving | OutboundState::Done => None,
        OutboundState::Locking { upstream, .. } => Some(upstream),
        OutboundState::Connecting { upstream, .. } => Some(upstream),
        OutboundState::Opening { upstream, .. } => Some(upstream),
        OutboundState::RelayingStream { upstream, .. } => Some(upstream),
        OutboundState::RelayingDirect { upstream } => Some(upstream),
    }
}

/// Whatever happens, an outbound connection keeps its upstream to the end, and locks, connects to
/// and opens streams to no other.
pub proof fn law_outbound_keeps_its_upstream(
    proxy: OutboundProxy,
    policy: PolicyEngine,
    state: OutboundState,
    event: OutboundEvent,
    tunnels: &mut MuxPool,
    m: &mut InterlinkMetrics,
    next: (OutboundState, OutboundAction),
)
    requires
        call_ensures(
            OutboundProxy::handle_connection,
            (&proxy, state, event, &policy, tunnels, m),
            next,
        ),
    ensures
        upstream_of(state) is Some && !(next.0 is Done) ==> upstream_of(next.0) == upstream_of(
            state,
        ),
        state is Resolving && upstream_of(next.0) is Some ==> event == OutboundEvent::Resolved(
            Ok(upstream_of(next.0)->0),
        ),
        next.1 matches OutboundAction::Lock(to) ==> upstream_of(next.0) == Some(to),
        next.1 matches OutboundAction::Connect(to) ==> upstream_of(next.0) == Some(to),
        (next.1 matches OutboundAction::Open { upstream, tunnel } ==> {
            &&& upstream_of(next.0) == Some(upstream)
            &&& next.0 is Opening
            &&& next.0->Opening_tunnel == tunnel
        }),
        (next.1 matches OutboundAction::StartTunnel { upstream, tunnel } ==> {
            &&& upstream_of(next.0) == Some(upstream)
            &&& next.0 is Opening
            &&& next.0->Opening_tunnel == tunnel
        }),
{
}

/// The right to open a tunnel is held from when it was granted for a handshake until the stream on
/// the new tunnel is open, and at no other time.
pub proof fn law_outbound_holds_the_lock_while_it_opens_a_tunnel(
    state: OutboundState,
    held: bool,
)
    requires
        call_ensures(OutboundState::holds_lock, (&state,), held),
    ensures
        held <==> {
            ||| state is Connecting && state->Connecting_locked
            ||| state is Opening && state->Opening_locked
        },
{
}

/// An outbound connection goes where it was meant for, unless that is our own port. Else it goes
/// to the configured upstream.
pub proof fn law_outbound_upstream(
    proxy: OutboundProxy,
    original_dst: Option<SocketAddress>,
    target: Option<UpstreamTarget>,
)
    requires
        call_ensures(OutboundProxy::upstream_for, (&proxy, original_dst), target),
    ensures
        original_dst matches Some(address) ==> address.port != proxy.listen_port ==> target == Some(
            UpstreamTarget::Socket(address),
        ),
        (original_dst is None || original_dst->0.port == proxy.listen_port) ==> target
            == proxy.default_upstream,
{
}

/// An outbound proxy listens where it is told, or on port 4140, uses tunnels if its configuration
/// says so, and serves as many connections as that says, or 1024.
pub proof fn law_outbound_proxy_is_as_configured(
    config: ProxyConfig,
    upstream_socket: Option<SocketAddress>,
    port: u16,
    has_discovery: bool,
    proxy: OutboundProxy,
)
    requires
        call_ensures(
            OutboundProxy::new_with_discovery,
            (config, upstream_socket, port, has_discovery),
            proxy,
        ) || port == 4140 && !has_discovery && call_ensures(
            OutboundProxy::new,
            (config, upstream_socket),
            proxy,
        ) || !has_discovery && call_ensures(
            OutboundProxy::new_with_port,
            (config, upstream_socket, port),
            proxy,
        ),
    ensures
        proxy.listen_port == port,
        proxy.has_discovery == has_discovery,
        proxy.mux_enabled == config.mux,
        config.max_connections matches Some(limit) ==> proxy.max_connections == limit,
        config.max_connections is None ==> proxy.max_connections == 1024,
{
}

/// A proxy with service discovery differs in nothing else.
pub proof fn law_outbound_discovery_is_all_that_is_added(
    proxy: OutboundProxy,
    made: OutboundProxy,
)
    requires
        call_ensures(OutboundProxy::with_discovery, (proxy,), made),
    ensures
        made.has_discovery,
        made == (OutboundProxy { has_discovery: true, ..proxy }),
{
}

} // verus!
