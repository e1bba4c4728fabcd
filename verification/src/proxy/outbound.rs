//! The outbound proxy: plaintext from the local application, mTLS into the mesh.

use vstd::prelude::*;

use crate::common::constants::ports;
use crate::common::error::InterlinkError;
use crate::common::identity::{SpiffeId, SpiffeParts};
use crate::metrics;
use crate::metrics::InterlinkMetrics;
use crate::net::SocketAddress;
use crate::policy::{Decision, Policies, PolicyEngine};
use crate::proxy;
use crate::proxy::config::ProxyConfig;
use crate::proxy::mux;
use crate::proxy::mux::pool;
use crate::proxy::mux::pool::{MuxPool, Pool, Tunnel, TunnelState};
use crate::proxy::tcp;
use crate::proxy::tcp::PeerSession;
use crate::proxy::UpstreamTarget;

verus! {

/// How often a connection is routed anew because the tunnel that it was given was dead.
pub const ROUTE_ATTEMPTS: u8 = 4;

/// The outbound proxy.
#[derive(Debug)]
pub struct OutboundProxy {
    pub default_upstream: Option<UpstreamTarget>,
    pub max_connections: usize,
    pub mux_enabled: bool,
    pub listen_port: u16,
    pub has_discovery: bool,
    pub local_id: SpiffeId,
}

/// How far an outbound connection has come.
#[derive(Debug, Clone, Copy, PartialEq, Eq, Structural)]
pub enum OutboundState {
    /// The upstream is being resolved.
    Resolving,
    /// No tunnel is free: the right to open one to this peer is awaited.
    Locking { upstream: SocketAddress, attempt: u8 },
    /// The mTLS handshake is under way; `locked` while it holds that right.
    Connecting { upstream: SocketAddress, locked: bool },
    /// A stream is being opened on a tunnel; `fresh` on one that was just established.
    Opening { upstream: SocketAddress, tunnel: u64, attempt: u8, fresh: bool, locked: bool },
    /// Bytes are relayed over a stream.
    RelayingStream { upstream: SocketAddress, tunnel: u64 },
    /// Bytes are relayed over a connection of its own.
    RelayingDirect { upstream: SocketAddress },
    /// The connection has ended.
    Done,
}

/// What happens to an outbound connection.
#[derive(Debug)]
pub enum OutboundEvent {
    /// The upstream was resolved, or not.
    Resolved(Result<SocketAddress, InterlinkError>),
    /// The right to open a tunnel was granted.
    Locked,
    /// The handshake came to an end.
    Connected { session: Result<PeerSession, InterlinkError>, handshake_nanos: u64 },
    /// The stream was opened, or the tunnel is dead.
    StreamOpened(bool),
    /// The relay ended after this many bytes up and down; None where it failed.
    Relayed { bytes: Option<(u64, u64)>, nanos: u64 },
}

/// What is to be done for an outbound connection.
#[derive(Debug, Clone, Copy, PartialEq, Eq, Structural)]
pub enum OutboundAction {
    /// Wait for the right to open a tunnel to this peer.
    Lock(SocketAddress),
    /// Do the mTLS handshake.
    Connect(SocketAddress),
    /// Open a stream on a tunnel of the pool.
    Open { upstream: SocketAddress, tunnel: u64 },
    /// Drive the established connection as this tunnel, and open a stream on it.
    StartTunnel { upstream: SocketAddress, tunnel: u64 },
    /// Relay over the stream.
    RelayStream,
    /// Relay over the established connection.
    RelayDirect,
    /// Close what is open.
    Close,
    /// Nothing: the event does not belong to the state.
    Ignore,
}

/// Where an outbound connection goes on, and what it leaves behind.
pub struct OutboundNext {
    pub state: OutboundState,
    pub action: OutboundAction,
    pub pool: Pool,
    pub metrics: InterlinkMetrics,
}

/// What routes a connection: the proxy's own identity, the policies, and whether tunnels are used.
pub struct Router {
    pub local: SpiffeParts,
    pub policies: Policies,
    pub mux: bool,
}

/// A connection that failed.
pub open spec fn failed(pool: Pool, m: InterlinkMetrics) -> OutboundNext {
    OutboundNext {
        state: OutboundState::Done,
        action: OutboundAction::Close,
        pool,
        metrics: metrics::after_failure(m),
    }
}

impl Router {
    /// A stream over a tunnel is authorized as a connection of its own would be; then it is
    /// opened.
    pub open spec fn over_tunnel(
        self,
        upstream: SocketAddress,
        tunnel: TunnelState,
        attempt: u8,
        pool: Pool,
        m: InterlinkMetrics,
    ) -> OutboundNext {
        let decision = self.policies.decide(self.local, tunnel.peer);
        let decided = metrics::after_policy(m, decision);
        if decision != Decision::Allow {
            failed(pool, decided)
        } else {
            OutboundNext {
                state: OutboundState::Opening {
                    upstream,
                    tunnel: tunnel.id,
                    attempt,
                    fresh: false,
                    locked: false,
                },
                action: OutboundAction::Open { upstream, tunnel: tunnel.id },
                pool: pool.streams_changed(upstream, tunnel.id, true),
                metrics: decided,
            }
        }
    }

    /// The first step of an attempt: a tunnel that is not full, or else the right to open one.
    /// Without tunnels, a connection of its own.
    pub open spec fn route(
        self,
        upstream: SocketAddress,
        attempt: u8,
        pool: Pool,
        m: InterlinkMetrics,
    ) -> OutboundNext {
        if attempt >= ROUTE_ATTEMPTS {
            failed(pool, m)
        } else if !self.mux {
            OutboundNext {
                state: OutboundState::Connecting { upstream, locked: false },
                action: OutboundAction::Connect(upstream),
                pool,
                metrics: m,
            }
        } else {
            match pool.pick(upstream, pool::STREAMS_PER_TUNNEL as nat) {
                Some(tunnel) => self.over_tunnel(upstream, tunnel, attempt, pool, m),
                None => OutboundNext {
                    state: OutboundState::Locking { upstream, attempt },
                    action: OutboundAction::Lock(upstream),
                    pool,
                    metrics: m,
                },
            }
        }
    }

    /// With the right to open a tunnel: a tunnel that became free meanwhile, a new one, or, at the
    /// limit, the least loaded.
    pub open spec fn route_locked(
        self,
        upstream: SocketAddress,
        attempt: u8,
        pool: Pool,
        m: InterlinkMetrics,
    ) -> OutboundNext {
        match pool.pick(upstream, pool::STREAMS_PER_TUNNEL as nat) {
            Some(tunnel) => self.over_tunnel(upstream, tunnel, attempt, pool, m),
            None => if pool.can_grow(upstream) {
                OutboundNext {
                    state: OutboundState::Connecting { upstream, locked: true },
                    action: OutboundAction::Connect(upstream),
                    pool,
                    metrics: m,
                }
            } else {
                match pool.pick(upstream, usize::MAX as nat + 1) {
                    Some(tunnel) => self.over_tunnel(upstream, tunnel, attempt, pool, m),
                    None => self.route(upstream, (attempt + 1) as u8, pool, m),
                }
            },
        }
    }

    /// An established connection: the peer is authorized; then the connection becomes a tunnel if
    /// the handshake agreed on one, whatever our own setting says.
    pub open spec fn established(
        self,
        upstream: SocketAddress,
        locked: bool,
        session: PeerSession,
        handshake_nanos: u64,
        pool: Pool,
        m: InterlinkMetrics,
    ) -> OutboundNext {
        let decision = self.policies.decide(self.local, session.identity@);
        let decided = metrics::after_policy(
            metrics::after_handshake(m, handshake_nanos),
            decision,
        );
        if decision != Decision::Allow {
            failed(pool, decided)
        } else if mux::mux_negotiated(session.alpn) {
            OutboundNext {
                state: OutboundState::Opening {
                    upstream,
                    tunnel: pool.next_id,
                    attempt: 0,
                    fresh: true,
                    locked,
                },
                action: OutboundAction::StartTunnel { upstream, tunnel: pool.next_id },
                pool: pool.registered(upstream, session.identity@).streams_changed(
                    upstream,
                    pool.next_id,
                    true,
                ),
                metrics: metrics::after_tunnel_opened(decided),
            }
        } else {
            OutboundNext {
                state: OutboundState::RelayingDirect { upstream },
                action: OutboundAction::RelayDirect,
                pool,
                metrics: decided,
            }
        }
    }

    /// Where an outbound connection goes on after an event.
    pub open spec fn step(
        self,
        state: OutboundState,
        event: OutboundEvent,
        pool: Pool,
        m: InterlinkMetrics,
    ) -> OutboundNext {
        match (state, event) {
            (OutboundState::Resolving, OutboundEvent::Resolved(result)) => match result {
                Ok(upstream) => self.route(upstream, 0, pool, m),
                Err(_) => failed(pool, m),
            },
            (
                OutboundState::Locking { upstream, attempt },
                OutboundEvent::Locked,
            ) => self.route_locked(upstream, attempt, pool, m),
            (
                OutboundState::Connecting { upstream, locked },
                OutboundEvent::Connected { session, handshake_nanos },
            ) => match session {
                Ok(session) => self.established(
                    upstream,
                    locked,
                    session,
                    handshake_nanos,
                    pool,
                    m,
                ),
                Err(_) => failed(pool, metrics::after_handshake_error(m)),
            },
            (
                OutboundState::Opening { upstream, tunnel, attempt, fresh, locked },
                OutboundEvent::StreamOpened(opened),
            ) => if opened {
                OutboundNext {
                    state: OutboundState::RelayingStream { upstream, tunnel },
                    action: OutboundAction::RelayStream,
                    pool,
                    metrics: metrics::after_mux_stream(m),
                }
            } else if fresh {
                failed(pool.evicted(upstream, tunnel), m)
            } else {
                self.route(upstream, (attempt + 1) as u8, pool.evicted(upstream, tunnel), m)
            },
            (
                OutboundState::RelayingStream { upstream, tunnel },
                OutboundEvent::Relayed { bytes, nanos },
            ) => OutboundNext {
                state: OutboundState::Done,
                action: OutboundAction::Close,
                pool: pool.streams_changed(upstream, tunnel, false),
                metrics: proxy::after_relay(m, bytes, nanos),
            },
            (
                OutboundState::RelayingDirect { upstream },
                OutboundEvent::Relayed { bytes, nanos },
            ) => OutboundNext {
                state: OutboundState::Done,
                action: OutboundAction::Close,
                pool,
                metrics: proxy::after_relay(m, bytes, nanos),
            },
            (state, _) => OutboundNext { state, action: OutboundAction::Ignore, pool, metrics: m },
        }
    }
}

impl OutboundState {
    /// Whether the attempts that were made are within the limit.
    pub open spec fn attempts_in_range(self) -> bool {
        match self {
            OutboundState::Locking { attempt, .. } => attempt < ROUTE_ATTEMPTS,
            OutboundState::Opening { attempt, .. } => attempt < ROUTE_ATTEMPTS,
            _ => true,
        }
    }

    /// Whether the connection holds the right to open a tunnel.
    pub fn holds_lock(&self) -> (held: bool)
        ensures
            held == match *self {
                OutboundState::Connecting { locked, .. } => locked,
                OutboundState::Opening { locked, .. } => locked,
                _ => false,
            },
    {
        match self {
            OutboundState::Connecting { locked, .. } => *locked,
            OutboundState::Opening { locked, .. } => *locked,
            _ => false,
        }
    }
}

impl OutboundProxy {
    /// The proxy on its default port, without service discovery. `upstream_socket` is the socket
    /// address that the configured upstream reads as, if it reads as one.
    pub fn new(config: ProxyConfig, upstream_socket: Option<SocketAddress>) -> (made: Self)
        requires
            tcp::has_identity(config),
        ensures
            made.configured_by(config, upstream_socket, ports::OUTBOUND_PROXY, false),
    {
        OutboundProxy::new_with_discovery(config, upstream_socket, ports::OUTBOUND_PROXY, false)
    }

    /// The proxy on a port.
    pub fn new_with_port(
        config: ProxyConfig,
        upstream_socket: Option<SocketAddress>,
        port: u16,
    ) -> (made: Self)
        requires
            tcp::has_identity(config),
        ensures
            made.configured_by(config, upstream_socket, port, false),
    {
        OutboundProxy::new_with_discovery(config, upstream_socket, port, false)
    }

    /// The proxy on a port, with service discovery or without.
    pub fn new_with_discovery(
        config: ProxyConfig,
        upstream_socket: Option<SocketAddress>,
        port: u16,
        has_discovery: bool,
    ) -> (made: Self)
        requires
            tcp::has_identity(config),
        ensures
            made.configured_by(config, upstream_socket, port, has_discovery),
    {
        let local_id: SpiffeId = proxy::local_identity(
            &config.identity,
            config.trust_domain.as_str(),
        );
        OutboundProxy {
            default_upstream: UpstreamTarget::from_config(config.default_upstream, upstream_socket),
            max_connections: match config.max_connections {
                Some(limit) => limit,
                None => 1024,
            },
            mux_enabled: config.mux,
            listen_port: port,
            has_discovery,
            local_id,
        }
    }

    /// The proxy with service discovery.
    pub fn with_discovery(self) -> (made: Self)
        ensures
            made == (OutboundProxy { has_discovery: true, ..self }),
    {
        OutboundProxy { has_discovery: true, ..self }
    }

    /// What a proxy takes from its configuration.
    pub open spec fn configured_by(
        self,
        config: ProxyConfig,
        upstream_socket: Option<SocketAddress>,
        port: u16,
        has_discovery: bool,
    ) -> bool {
        &&& proxy::configured_upstream(
            self.default_upstream,
            config.default_upstream,
            upstream_socket,
        )
        &&& self.max_connections == match config.max_connections {
            Some(limit) => limit,
            None => 1024,
        }
        &&& self.mux_enabled == config.mux
        &&& self.listen_port == port
        &&& self.has_discovery == has_discovery
        &&& self.local_id@ == proxy::local_identity_of(config.identity, config.trust_domain@)
    }

    /// Where an accepted connection goes: to the destination that it had before it was redirected
    /// here, or else to the configured upstream.
    pub fn upstream_for(&self, original_dst: Option<SocketAddress>) -> (target: Option<
        UpstreamTarget,
    >)
        ensures
            target == match proxy::redirected_target(original_dst, self.listen_port) {
                Some(redirected) => Some(redirected),
                None => self.default_upstream,
            },
    {
        match proxy::redirected(original_dst, self.listen_port) {
            Some(redirected) => Some(redirected),
            None => match &self.default_upstream {
                Some(upstream) => Some(upstream.clone()),
                None => None,
            },
        }
    }

    /// What routes the connections of the proxy.
    pub open spec fn router(self, policies: Policies) -> Router {
        Router { local: self.local_id@, policies, mux: self.mux_enabled }
    }

    /// Begins to handle a connection.
    pub fn begin(&self, metrics: &mut InterlinkMetrics) -> (state: OutboundState)
        ensures
            state is Resolving,
            *final(metrics) == metrics::after_start(*old(metrics)),
    {
        metrics::record_connection_start(metrics);
        OutboundState::Resolving
    }

    /// Goes on with a connection after an event.
    pub fn handle_connection(
        &self,
        state: OutboundState,
        event: OutboundEvent,
        policy: &PolicyEngine,
        pool: &mut MuxPool,
        metrics: &mut InterlinkMetrics,
    ) -> (next: (OutboundState, OutboundAction))
        requires
            policy.well_formed(),
            old(pool).well_formed(),
            state.attempts_in_range(),
        ensures
            final(pool).well_formed(),
            next.0.attempts_in_range(),
            self.router(policy@).step(state, event, old(pool)@, *old(metrics)) == (OutboundNext {
                state: next.0,
                action: next.1,
                pool: final(pool)@,
                metrics: *final(metrics),
            }),
    {
        match (state, event) {
            (OutboundState::Resolving, OutboundEvent::Resolved(result)) => match result {
                Ok(upstream) => self.route(upstream, 0, policy, pool, metrics),
                Err(_) => fail(metrics),
            },
            (OutboundState::Locking { upstream, attempt }, OutboundEvent::Locked) => {
                self.route_locked(upstream, attempt, policy, pool, metrics)
            },
            (
                OutboundState::Connecting { upstream, locked },
                OutboundEvent::Connected { session, handshake_nanos },
            ) => match session {
                Ok(session) => {
                    metrics::record_handshake(metrics, handshake_nanos);
                    self.establish(upstream, locked, session, policy, pool, metrics)
                },
                Err(_) => {
                    metrics::record_handshake_error(metrics);
                    fail(metrics)
                },
            },
            (
                OutboundState::Opening { upstream, tunnel, attempt, fresh, .. },
                OutboundEvent::StreamOpened(opened),
            ) => {
                if opened {
                    metrics::record_mux_stream(metrics);
                    return (
                        OutboundState::RelayingStream { upstream, tunnel },
                        OutboundAction::RelayStream,
                    );
                }
                pool.evict(&upstream, tunnel);
                if fresh {
                    fail(metrics)
                } else {
                    self.route(upstream, attempt + 1, policy, pool, metrics)
                }
            },
            (
                OutboundState::RelayingStream { upstream, tunnel },
                OutboundEvent::Relayed { bytes, nanos },
            ) => {
                pool.count_stream(&upstream, tunnel, false);
                relayed(bytes, nanos, metrics)
            },
            (
                OutboundState::RelayingDirect { .. },
                OutboundEvent::Relayed { bytes, nanos },
            ) => relayed(bytes, nanos, metrics),
            (state, _) => (state, OutboundAction::Ignore),
        }
    }

    /// Decides how a connection reaches its upstream.
    fn route(
        &self,
        upstream: SocketAddress,
        attempt: u8,
        policy: &PolicyEngine,
        pool: &mut MuxPool,
        metrics: &mut InterlinkMetrics,
    ) -> (next: (OutboundState, OutboundAction))
        requires
            policy.well_formed(),
            old(pool).well_formed(),
        ensures
            final(pool).well_formed(),
            next.0.attempts_in_range(),
            self.router(policy@).route(upstream, attempt, old(pool)@, *old(metrics)) == (
            OutboundNext {
                state: next.0,
                action: next.1,
                pool: final(pool)@,
                metrics: *final(metrics),
            }),
    {
        if attempt >= ROUTE_ATTEMPTS {
            return fail(metrics);
        }
        if !self.mux_enabled {
            return (
                OutboundState::Connecting { upstream, locked: false },
                OutboundAction::Connect(upstream),
            );
        }
        match pool.pick_under_cap(&upstream) {
            Some(tunnel) => self.try_tunnel_stream(
                upstream,
                tunnel,
                attempt,
                policy,
                pool,
                metrics,
            ),
            None => (
                OutboundState::Locking { upstream, attempt },
                OutboundAction::Lock(upstream),
            ),
        }
    }

    /// Goes on routing with the right to open a tunnel.
    fn route_locked(
        &self,
        upstream: SocketAddress,
        attempt: u8,
        policy: &PolicyEngine,
        pool: &mut MuxPool,
        metrics: &mut InterlinkMetrics,
    ) -> (next: (OutboundState, OutboundAction))
        requires
            policy.well_formed(),
            old(pool).well_formed(),
            attempt < ROUTE_ATTEMPTS,
        ensures
            final(pool).well_formed(),
            next.0.attempts_in_range(),
            self.router(policy@).route_locked(upstream, attempt, old(pool)@, *old(metrics)) == (
            OutboundNext {
                state: next.0,
                action: next.1,
                pool: final(pool)@,
                metrics: *final(metrics),
            }),
    {
        if let Some(tunnel) = pool.pick_under_cap(&upstream) {
            return self.try_tunnel_stream(upstream, tunnel, attempt, policy, pool, metrics);
        }
        if pool.can_grow(&upstream) {
            return (
                OutboundState::Connecting { upstream, locked: true },
                OutboundAction::Connect(upstream),
            );
        }
        match pool.pick_any(&upstream) {
            Some(tunnel) => self.try_tunnel_stream(
                upstream,
                tunnel,
                attempt,
                policy,
                pool,
                metrics,
            ),
            None => self.route(upstream, attempt + 1, policy, pool, metrics),
        }
    }

    /// Authorizes a stream over a tunnel, and opens it.
    fn try_tunnel_stream(
        &self,
        upstream: SocketAddress,
        tunnel: Tunnel,
        attempt: u8,
        policy: &PolicyEngine,
        pool: &mut MuxPool,
        metrics: &mut InterlinkMetrics,
    ) -> (next: (OutboundState, OutboundAction))
        requires
            policy.well_formed(),
            old(pool).well_formed(),
            attempt < ROUTE_ATTEMPTS,
        ensures
            final(pool).well_formed(),
            next.0.attempts_in_range(),
            self.router(policy@).over_tunnel(
                upstream,
                tunnel@,
                attempt,
                old(pool)@,
                *old(metrics),
            ) == (OutboundNext {
                state: next.0,
                action: next.1,
                pool: final(pool)@,
                metrics: *final(metrics),
            }),
    {
        let decision: Decision = policy.evaluate(&self.local_id, &tunnel.peer_identity);
        metrics::record_policy(metrics, &decision);
        match decision {
            Decision::Deny(_) => fail(metrics),
            Decision::Allow => {
                pool.count_stream(&upstream, tunnel.id, true);
                (
                    OutboundState::Opening {
                        upstream,
                        tunnel: tunnel.id,
                        attempt,
                        fresh: false,
                        locked: false,
                    },
                    OutboundAction::Open { upstream, tunnel: tunnel.id },
                )
            },
        }
    }

    /// Authorizes the peer of an established connection, and makes a tunnel of the connection if
    /// the handshake agreed on one.
    fn establish(
        &self,
        upstream: SocketAddress,
        locked: bool,
        session: PeerSession,
        policy: &PolicyEngine,
        pool: &mut MuxPool,
        metrics: &mut InterlinkMetrics,
    ) -> (next: (OutboundState, OutboundAction))
        requires
            policy.well_formed(),
            old(pool).well_formed(),
        ensures
            final(pool).well_formed(),
            next.0.attempts_in_range(),
            forall|before: InterlinkMetrics, nanos: u64|
                *old(metrics) == #[trigger] metrics::after_handshake(before, nanos)
                    ==> self.router(policy@).established(
                    upstream,
                    locked,
                    session,
                    nanos,
                    old(pool)@,
                    before,
                ) == (OutboundNext {
                    state: next.0,
                    action: next.1,
                    pool: final(pool)@,
                    metrics: *final(metrics),
                }),
    {
        let decision: Decision = policy.evaluate(&self.local_id, &session.identity);
        metrics::record_policy(metrics, &decision);
        match decision {
            Decision::Deny(_) => fail(metrics),
            Decision::Allow => {
                if mux::is_mux(&session.alpn) {
                    let tunnel: u64 = pool.register(&upstream, session.identity);
                    metrics::record_mux_tunnel_opened(metrics);
                    pool.count_stream(&upstream, tunnel, true);
                    (
                        OutboundState::Opening { upstream, tunnel, attempt: 0, fresh: true, locked },
                        OutboundAction::StartTunnel { upstream, tunnel },
                    )
                } else {
                    (
                        OutboundState::RelayingDirect { upstream },
                        OutboundAction::RelayDirect,
                    )
                }
            },
        }
    }
}

/// Ends a connection that failed.
fn fail(metrics: &mut InterlinkMetrics) -> (next: (OutboundState, OutboundAction))
    ensures
        next == (OutboundState::Done, OutboundAction::Close),
        *final(metrics) == metrics::after_failure(*old(metrics)),
{
    metrics::record_connection_failed(metrics);
    (OutboundState::Done, OutboundAction::Close)
}

/// Ends a connection that was relayed.
fn relayed(bytes: Option<(u64, u64)>, nanos: u64, metrics: &mut InterlinkMetrics) -> (next: (
    OutboundState,
    OutboundAction,
))
    ensures
        next == (OutboundState::Done, OutboundAction::Close),
        *final(metrics) == proxy::after_relay(*old(metrics), bytes, nanos),
{
    let outcome: Result<(u64, u64), ()> = match bytes {
        Some(bytes) => Ok(bytes),
        None => Err(()),
    };
    let _ = proxy::record_relay_result(metrics, outcome, nanos);
    (OutboundState::Done, OutboundAction::Close)
}

} // verus!
