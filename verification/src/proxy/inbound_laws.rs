//! What the inbound proxy answers to each event, for every connection.

use vstd::prelude::*;
use vstd::utf8::encode_utf8;

use crate::common::error::InterlinkError;
use crate::common::identity::SpiffeId;
use crate::metrics::{Durations, InterlinkMetrics};
use crate::net::SocketAddress;
use crate::policy::{Decision, PolicyEngine};
use crate::protocol::{DetectedProtocol, ProtocolDetector};
use crate::proxy::config::ProxyConfig;
use crate::proxy::tcp;
use crate::proxy::tcp::{
    InboundAction, InboundEvent, InboundState, PeerSession, StreamEvent, StreamState, TcpProxy,
};
use crate::proxy::UpstreamTarget;

verus! {

/// The metrics count one more connection, which failed, and one fewer that is active. Everything
/// else is as it was.
pub open spec fn one_failed(before: InterlinkMetrics, after: InterlinkMetrics) -> bool {
    after == (InterlinkMetrics {
        connections_total: before.connections_total.wrapping_add(1),
        connection_errors_total: before.connection_errors_total.wrapping_add(1),
        connections_active: before.connections_active.wrapping_sub(1),
        ..before
    })
}

/// The metrics count one more connection, its bytes in both directions and its duration, and one
/// fewer that is active. Everything else is as it was.
pub open spec fn one_relayed(
    before: InterlinkMetrics,
    after: InterlinkMetrics,
    up: u64,
    down: u64,
    nanos: u64,
) -> bool {
    after == (InterlinkMetrics {
        connections_total: before.connections_total.wrapping_add(1),
        bytes_total: before.bytes_total.wrapping_add(up).wrapping_add(down),
        connections_active: before.connections_active.wrapping_sub(1),
        connection_duration: Durations {
            count: before.connection_duration.count.wrapping_add(1),
            total_nanos: before.connection_duration.total_nanos.wrapping_add(nanos as u128),
        },
        ..before
    })
}

/// The metrics with one more handshake that took so long.
pub open spec fn one_handshake(before: InterlinkMetrics, nanos: u64) -> InterlinkMetrics {
    InterlinkMetrics {
        handshakes_total: before.handshakes_total.wrapping_add(1),
        handshake_duration: Durations {
            count: before.handshake_duration.count.wrapping_add(1),
            total_nanos: before.handshake_duration.total_nanos.wrapping_add(nanos as u128),
        },
        ..before
    }
}

/// The metrics with one more connection that was allowed, or denied.
pub open spec fn one_decision(before: InterlinkMetrics, allowed: bool) -> InterlinkMetrics {
    if allowed {
        InterlinkMetrics {
            policy_allowed_total: before.policy_allowed_total.wrapping_add(1),
            ..before
        }
    } else {
        InterlinkMetrics {
            policy_denied_total: before.policy_denied_total.wrapping_add(1),
            ..before
        }
    }
}

/// An inbound connection begins with its upstream being resolved, and takes an active slot.
pub proof fn law_inbound_begins(proxy: TcpProxy, m: &mut InterlinkMetrics, state: InboundState)
    requires
        call_ensures(TcpProxy::begin, (&proxy, m), state),
    ensures
        state == InboundState::Resolving,
        *final(m) == (InterlinkMetrics {
            connections_active: old(m).connections_active.wrapping_add(1),
            ..*old(m)
        }),
{
}

/// An inbound connection is connected to the address that was resolved for it. Where none was, it
/// has failed.
pub proof fn law_inbound_connects_where_it_was_resolved(
    proxy: TcpProxy,
    policy: PolicyEngine,
    resolved: Result<SocketAddress, InterlinkError>,
    m: &mut InterlinkMetrics,
    next: (InboundState, InboundAction),
)
    requires
        call_ensures(
            TcpProxy::handle_connection,
            (&proxy, InboundState::Resolving, InboundEvent::Resolved(resolved), &policy, m),
            next,
        ),
    ensures
        match resolved {
            Ok(upstream) => {
                &&& next.0 == InboundState::Connecting { upstream }
                &&& next.1 == InboundAction::Connect(upstream)
                &&& *final(m) == *old(m)
            },
            Err(_) => {
                &&& next == (InboundState::Done, InboundAction::Close)
                &&& one_failed(*old(m), *final(m))
            },
        },
{
}

/// An inbound connection goes on if and only if its upstream was reached and the policy lets its
/// peer talk to us; the policy is asked about the identity that the peer proved. It goes on as a
/// tunnel if the handshake agreed on one, and else by its first bytes, and to the same upstream.
pub proof fn law_inbound_admits_whom_the_policy_allows(
    proxy: TcpProxy,
    policy: PolicyEngine,
    upstream: SocketAddress,
    session: PeerSession,
    handshake_nanos: u64,
    upstream_connected: bool,
    decision: Decision,
    m: &mut InterlinkMetrics,
    next: (InboundState, InboundAction),
)
    requires
        call_ensures(
            PolicyEngine::evaluate,
            (&policy, &session.identity, &proxy.local_id),
            decision,
        ),
        call_ensures(
            TcpProxy::handle_connection,
            (
                &proxy,
                InboundState::Connecting { upstream },
                InboundEvent::Connected {
                    session: Ok(session),
                    handshake_nanos,
                    upstream_connected,
                },
                &policy,
                m,
            ),
            next,
        ),
    ensures
        if upstream_connected && decision == Decision::Allow {
            if session.alpn matches Some(protocol) && protocol@ == encode_utf8("il/mux/1"@) {
                &&& next.0 == InboundState::Tunnel { upstream, peer: session.identity }
                &&& next.1 == InboundAction::ServeTunnel { upstream, peer: session.identity }
            } else {
                &&& next.0 == InboundState::Detecting { upstream }
                &&& next.1 == InboundAction::ReadFirstBytes
            }
        } else {
            next == (InboundState::Done, InboundAction::Close)
        },
        !upstream_connected ==> one_failed(one_handshake(*old(m), handshake_nanos), *final(m)),
        upstream_connected && decision == Decision::Allow ==> *final(m) == one_decision(
            one_handshake(*old(m), handshake_nanos),
            true,
        ),
        upstream_connected && decision != Decision::Allow ==> one_failed(
            one_decision(one_handshake(*old(m), handshake_nanos), false),
            *final(m),
        ),
{
}

/// Without a handshake an inbound connection has failed.
pub proof fn law_inbound_needs_a_handshake(
    proxy: TcpProxy,
    policy: PolicyEngine,
    upstream: SocketAddress,
    error: InterlinkError,
    handshake_nanos: u64,
    upstream_connected: bool,
    m: &mut InterlinkMetrics,
    next: (InboundState, InboundAction),
)
    requires
        call_ensures(
            TcpProxy::handle_connection,
            (
                &proxy,
                InboundState::Connecting { upstream },
                InboundEvent::Connected {
                    session: Err(error),
                    handshake_nanos,
                    upstream_connected,
                },
                &policy,
                m,
            ),
            next,
        ),
    ensures
        next == (InboundState::Done, InboundAction::Close),
        one_failed(
            InterlinkMetrics {
                handshakes_total: old(m).handshakes_total.wrapping_add(1),
                ..*old(m)
            },
            *final(m),
        ),
{
}

/// The first bytes are forwarded as they came, to the upstream that was connected to, with the
/// protocol that is detected in them. A peer that sends none has failed.
pub proof fn law_inbound_forwards_what_was_read(
    proxy: TcpProxy,
    policy: PolicyEngine,
    upstream: SocketAddress,
    bytes: Vec<u8>,
    same: &[u8],
    detected: DetectedProtocol,
    m: &mut InterlinkMetrics,
    next: (InboundState, InboundAction),
)
    requires
        same@ == bytes@,
        call_ensures(ProtocolDetector::detect, (same,), detected),
        call_ensures(
            TcpProxy::handle_connection,
            (
                &proxy,
                InboundState::Detecting { upstream },
                InboundEvent::FirstBytes(Some(bytes)),
                &policy,
                m,
            ),
            next,
        ),
    ensures
        bytes@.len() == 0 ==> next == (InboundState::Done, InboundAction::Close) && one_failed(
            *old(m),
            *final(m),
        ),
        bytes@.len() > 0 ==> {
            &&& next.0 == InboundState::Forwarding { upstream }
            &&& next.1 == InboundAction::Forward { bytes, protocol: detected }
            &&& *final(m) == *old(m)
        },
{
}

/// Once its first bytes are written, an inbound connection is relayed with the same upstream.
/// Where they could not be read or written, it has failed.
pub proof fn law_inbound_relays_after_the_first_bytes(
    proxy: TcpProxy,
    policy: PolicyEngine,
    upstream: SocketAddress,
    written: bool,
    m: &mut InterlinkMetrics,
    next: (InboundState, InboundAction),
)
    requires
        call_ensures(
            TcpProxy::handle_connection,
            (
                &proxy,
                InboundState::Forwarding { upstream },
                InboundEvent::Forwarded(written),
                &policy,
                m,
            ),
            next,
        ) || !written && call_ensures(
            TcpProxy::handle_connection,
            (
                &proxy,
                InboundState::Detecting { upstream },
                InboundEvent::FirstBytes(None),
                &policy,
                m,
            ),
            next,
        ),
    ensures
        written ==> next == (InboundState::Relaying { upstream }, InboundAction::Relay)
            && *final(m) == *old(m),
        !written ==> next == (InboundState::Done, InboundAction::Close) && one_failed(
            *old(m),
            *final(m),
        ),
{
}

/// An inbound connection ends with its relay, and what was relayed is counted.
pub proof fn law_inbound_ends_with_its_relay(
    proxy: TcpProxy,
    policy: PolicyEngine,
    upstream: SocketAddress,
    bytes: Option<(u64, u64)>,
    nanos: u64,
    m: &mut InterlinkMetrics,
    next: (InboundState, InboundAction),
)
    requires
        call_ensures(
            TcpProxy::handle_connection,
            (
                &proxy,
                InboundState::Relaying { upstream },
                InboundEvent::Relayed { bytes, nanos },
                &policy,
                m,
            ),
            next,
        ),
    ensures
        next == (InboundState::Done, InboundAction::Close),
        match bytes {
            Some((up, down)) => one_relayed(*old(m), *final(m), up, down, nanos),
            None => one_failed(*old(m), *final(m)),
        },
{
}

/// An inbound tunnel ends when it is closed. It gives its active slot back and counts as no
/// connection: its streams do.
pub proof fn law_inbound_tunnel_is_transport(
    proxy: TcpProxy,
    policy: PolicyEngine,
    upstream: SocketAddress,
    peer: SpiffeId,
    m: &mut InterlinkMetrics,
    next: (InboundState, InboundAction),
)
    requires
        call_ensures(
            TcpProxy::handle_connection,
            (
                &proxy,
                InboundState::Tunnel { upstream, peer },
                InboundEvent::TunnelClosed,
                &policy,
                m,
            ),
            next,
        ),
    ensures
        next == (InboundState::Done, InboundAction::Close),
        *final(m) == (InterlinkMetrics {
            connections_active: old(m).connections_active.wrapping_sub(1),
            ..*old(m)
        }),
{
}

/// An event that does not answer what was asked for changes nothing.
pub proof fn law_inbound_ignores_what_it_did_not_ask_for(
    proxy: TcpProxy,
    policy: PolicyEngine,
    state: InboundState,
    event: InboundEvent,
    m: &mut InterlinkMetrics,
    next: (InboundState, InboundAction),
)
    requires
        !(state is Resolving && event is Resolved),
        !(state is Connecting && event is Connected),
        !(state is Detecting && event is FirstBytes),
        !(state is Forwarding && event is Forwarded),
        !(state is Relaying && event is Relayed),
        !(state is Tunnel && event is TunnelClosed),
        call_ensures(TcpProxy::handle_connection, (&proxy, state, event, &policy, m), next),
    ensures
        next == (state, InboundAction::Ignore),
        *final(m) == *old(m),
{
}

/// The upstream of an inbound connection, once it has one.
pub open spec fn upstream_of(state: InboundState) -> Option<SocketAddress> {
    match state {
        InboundState::Resolving | InboundState::Done => None,
        InboundState::Connecting { upstream } => Some(upstream),
        InboundState::Detecting { upstream } => Some(upstream),
        InboundState::Forwarding { upstream } => Some(upstream),
        InboundState::Relaying { upstream } => Some(upstream),
        InboundState::Tunnel { upstream, .. } => Some(upstream),
    }
}

/// Whatever happens, an inbound connection keeps its upstream to the end, and connects to no
/// other.
pub proof fn law_inbound_keeps_its_upstream(
    proxy: TcpProxy,
    policy: PolicyEngine,
    state: InboundState,
    event: InboundEvent,
    m: &mut InterlinkMetrics,
    next: (InboundState, InboundAction),
)
    requires
        call_ensures(TcpProxy::handle_connection, (&proxy, state, event, &policy, m), next),
    ensures
        upstream_of(state) is Some && !(next.0 is Done) ==> upstream_of(next.0) == upstream_of(
            state,
        ),
        state is Resolving && upstream_of(next.0) is Some ==> event == InboundEvent::Resolved(
            Ok(upstream_of(next.0)->0),
        ),
        next.1 matches InboundAction::Connect(upstream) ==> upstream_of(next.0) == Some(upstream),
        (next.1 matches InboundAction::ServeTunnel { upstream, peer } ==> next.0
            == (InboundState::Tunnel { upstream, peer }) && upstream_of(state) == Some(upstream)),
        next.0 is Done <==> next.1 is Close || state is Done && next.1 is Ignore,
{
}

/// Every stream of an inbound tunnel is authorized for itself: it is connected if and only if the
/// policy allows the peer of the tunnel. It counts as a connection.
pub proof fn law_inbound_streams_are_authorized(
    proxy: TcpProxy,
    policy: PolicyEngine,
    peer: SpiffeId,
    decision: Decision,
    m: &mut InterlinkMetrics,
    state: StreamState,
)
    requires
        call_ensures(PolicyEngine::evaluate, (&policy, &peer, &proxy.local_id), decision),
        call_ensures(TcpProxy::accept_stream, (&proxy, &peer, &policy, m), state),
    ensures
        state == if decision == Decision::Allow {
            StreamState::Connecting
        } else {
            StreamState::Done
        },
        ({
            let begun = InterlinkMetrics {
                mux_streams_total: old(m).mux_streams_total.wrapping_add(1),
                connections_active: old(m).connections_active.wrapping_add(1),
                ..*old(m)
            };
            if decision == Decision::Allow {
                *final(m) == one_decision(begun, true)
            } else {
                one_failed(one_decision(begun, false), *final(m))
            }
        }),
{
}

/// A stream is relayed once its upstream is connected, and ends with its relay. One whose upstream
/// can not be connected has failed.
pub proof fn law_inbound_streams_are_relayed(
    state: StreamState,
    event: StreamEvent,
    m: &mut InterlinkMetrics,
    next: StreamState,
)
    requires
        call_ensures(tcp::relay_stream_to_upstream, (state, event, m), next),
    ensures
        state is Connecting && event == StreamEvent::Connected(true) ==> next
            == StreamState::Relaying && *final(m) == *old(m),
        state is Connecting && event == StreamEvent::Connected(false) ==> next
            == StreamState::Done && one_failed(*old(m), *final(m)),
        state is Relaying ==> (event matches StreamEvent::Relayed { bytes, nanos } ==> {
            &&& next == StreamState::Done
            &&& match bytes {
                Some((up, down)) => one_relayed(*old(m), *final(m), up, down, nanos),
                None => one_failed(*old(m), *final(m)),
            }
        }),
        !(state is Connecting && event is Connected) && !(state is Relaying && event is Relayed)
            ==> next == state && *final(m) == *old(m),
{
}

/// An inbound connection goes to the configured upstream, whatever it was meant for. Without one
/// it goes where it was meant for, unless that is our own port.
pub proof fn law_inbound_upstream(
    proxy: TcpProxy,
    original_dst: Option<SocketAddress>,
    target: Option<UpstreamTarget>,
)
    requires
        call_ensures(TcpProxy::upstream_for, (&proxy, original_dst), target),
    ensures
        proxy.default_upstream is Some ==> target == proxy.default_upstream,
        proxy.default_upstream is None ==> match original_dst {
            Some(address) => if address.port == proxy.listen_port {
                target is None
            } else {
                target == Some(UpstreamTarget::Socket(address))
            },
            None => target is None,
        },
{
}

/// An inbound proxy listens where it is told, or on port 4143, and serves as many connections as
/// its configuration says, or 1024.
pub proof fn law_inbound_proxy_is_as_configured(
    config: ProxyConfig,
    upstream_socket: Option<SocketAddress>,
    port: u16,
    has_discovery: bool,
    proxy: TcpProxy,
)
    requires
        call_ensures(
            TcpProxy::new_with_discovery,
            (config, upstream_socket, port, has_discovery),
            proxy,
        ) || port == 4143 && !has_discovery && call_ensures(
            TcpProxy::new,
            (config, upstream_socket),
            proxy,
        ) || !has_discovery && call_ensures(
            TcpProxy::new_with_port,
            (config, upstream_socket, port),
            proxy,
        ),
    ensures
        proxy.listen_port == port,
        proxy.has_discovery == has_discovery,
        config.max_connections matches Some(limit) ==> proxy.max_connections == limit,
        config.max_connections is None ==> proxy.max_connections == 1024,
{
}

/// A proxy with service discovery differs in nothing else.
pub proof fn law_inbound_discovery_is_all_that_is_added(proxy: TcpProxy, made: TcpProxy)
    requires
        call_ensures(TcpProxy::with_discovery, (proxy,), made),
    ensures
        made.has_discovery,
        made == (TcpProxy { has_discovery: true, ..proxy }),
{
}

} // verus!
