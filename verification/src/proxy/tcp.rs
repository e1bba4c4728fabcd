//! The inbound proxy: mTLS from the mesh, plaintext to the local service.

use vstd::prelude::*;

use crate::common::constants::ports;
use crate::common::error::InterlinkError;
use crate::common::identity;
use crate::common::identity::{SpiffeId, SpiffeParts};
use crate::metrics;
use crate::metrics::InterlinkMetrics;
use crate::net::SocketAddress;
use crate::policy::{Decision, Policies, PolicyEngine};
use crate::protocol;
use crate::protocol::{DetectedProtocol, ProtocolDetector};
use crate::proxy;
use crate::proxy::config::ProxyConfig;
use crate::proxy::mux;
use crate::proxy::UpstreamTarget;

verus! {

/// The inbound proxy.
#[derive(Debug)]
pub struct TcpProxy {
    pub default_upstream: Option<UpstreamTarget>,
    pub max_connections: usize,
    pub listen_port: u16,
    pub has_discovery: bool,
    pub local_id: SpiffeId,
}

/// What a peer proved and agreed on in its handshake.
#[derive(Debug)]
pub struct PeerSession {
    pub identity: SpiffeId,
    /// The negotiated ALPN protocol.
    pub alpn: Option<Vec<u8>>,
}

/// How far an inbound connection has come.
#[derive(Debug)]
pub enum InboundState {
    /// The upstream is being resolved.
    Resolving,
    /// The mTLS handshake and the connect to the upstream are under way.
    Connecting { upstream: SocketAddress },
    /// The peer may talk to us; its first bytes are awaited.
    Detecting { upstream: SocketAddress },
    /// The first bytes are being written to the upstream.
    Forwarding { upstream: SocketAddress },
    /// Bytes are relayed in both directions.
    Relaying { upstream: SocketAddress },
    /// The connection is a tunnel, whose streams are served.
    Tunnel { upstream: SocketAddress, peer: SpiffeId },
    /// The connection has ended.
    Done,
}

/// What happens to an inbound connection.
#[derive(Debug)]
pub enum InboundEvent {
    /// The upstream was resolved, or not.
    Resolved(Result<SocketAddress, InterlinkError>),
    /// The handshake and the connect came to an end.
    Connected {
        session: Result<PeerSession, InterlinkError>,
        handshake_nanos: u64,
        upstream_connected: bool,
    },
    /// The peer sent its first bytes; none at all where it closed the connection. None where the
    /// read failed.
    FirstBytes(Option<Vec<u8>>),
    /// The first bytes were written, or not.
    Forwarded(bool),
    /// The relay ended after this many bytes up and down; None where it failed.
    Relayed { bytes: Option<(u64, u64)>, nanos: u64 },
    /// The tunnel was closed.
    TunnelClosed,
}

/// What is to be done for an inbound connection.
#[derive(Debug)]
pub enum InboundAction {
    /// Do the mTLS handshake, and connect to the upstream meanwhile.
    Connect(SocketAddress),
    /// Read the first bytes.
    ReadFirstBytes,
    /// Write these bytes, the first of this protocol, to the upstream.
    Forward { bytes: Vec<u8>, protocol: DetectedProtocol },
    /// Relay in both directions.
    Relay,
    /// Close the connection to the upstream, and serve the streams of the tunnel.
    ServeTunnel { upstream: SocketAddress, peer: SpiffeId },
    /// Close what is open.
    Close,
    /// Nothing: the event does not belong to the state.
    Ignore,
}

/// The next state of an inbound connection of the proxy `local`, and what is to be done.
pub open spec fn inbound_step(
    local: SpiffeParts,
    policies: Policies,
    state: InboundState,
    event: InboundEvent,
) -> (InboundState, InboundAction) {
    match (state, event) {
        (InboundState::Resolving, InboundEvent::Resolved(Ok(upstream))) => (
            InboundState::Connecting { upstream },
            InboundAction::Connect(upstream),
        ),
        (
            InboundState::Connecting { upstream },
            InboundEvent::Connected { session: Ok(session), upstream_connected: true, .. },
        ) => if policies.decide(session.identity@, local) != Decision::Allow {
            (InboundState::Done, InboundAction::Close)
        } else if mux::mux_negotiated(session.alpn) {
            (
                InboundState::Tunnel { upstream, peer: session.identity },
                InboundAction::ServeTunnel { upstream, peer: session.identity },
            )
        } else {
            (InboundState::Detecting { upstream }, InboundAction::ReadFirstBytes)
        },
        (
            InboundState::Detecting { upstream },
            InboundEvent::FirstBytes(Some(bytes)),
        ) => if bytes@.len() == 0 {
            (InboundState::Done, InboundAction::Close)
        } else {
            (
                InboundState::Forwarding { upstream },
                InboundAction::Forward { bytes, protocol: protocol::protocol_of(bytes@) },
            )
        },
        (InboundState::Forwarding { upstream }, InboundEvent::Forwarded(true)) => (
            InboundState::Relaying { upstream },
            InboundAction::Relay,
        ),
        (InboundState::Resolving, InboundEvent::Resolved(Err(_)))
        | (InboundState::Connecting { .. }, InboundEvent::Connected { .. })
        | (InboundState::Detecting { .. }, InboundEvent::FirstBytes(None))
        | (InboundState::Forwarding { .. }, InboundEvent::Forwarded(false))
        | (InboundState::Relaying { .. }, InboundEvent::Relayed { .. })
        | (InboundState::Tunnel { .. }, InboundEvent::TunnelClosed) => (
            InboundState::Done,
            InboundAction::Close,
        ),
        (state, _) => (state, InboundAction::Ignore),
    }
}

/// The metrics after an event.
pub open spec fn inbound_metrics(
    local: SpiffeParts,
    policies: Policies,
    state: InboundState,
    event: InboundEvent,
    m: InterlinkMetrics,
) -> InterlinkMetrics {
    match (state, event) {
        (
            InboundState::Connecting { .. },
            InboundEvent::Connected { session, handshake_nanos, upstream_connected },
        ) => match session {
            Err(_) => metrics::after_failure(metrics::after_handshake_error(m)),
            Ok(session) => {
                let shaken = metrics::after_handshake(m, handshake_nanos);
                let decision = policies.decide(session.identity@, local);
                if !upstream_connected {
                    metrics::after_failure(shaken)
                } else if decision != Decision::Allow {
                    metrics::after_failure(metrics::after_policy(shaken, decision))
                } else {
                    metrics::after_policy(shaken, decision)
                }
            },
        },
        (InboundState::Detecting { .. }, InboundEvent::FirstBytes(Some(bytes))) => if bytes@.len()
            == 0 {
            metrics::after_failure(m)
        } else {
            m
        },
        (InboundState::Relaying { .. }, InboundEvent::Relayed { bytes, nanos }) => {
            proxy::after_relay(m, bytes, nanos)
        },
        (InboundState::Tunnel { .. }, InboundEvent::TunnelClosed) => metrics::after_tunnel_closed(
            m,
        ),
        (InboundState::Resolving, InboundEvent::Resolved(Err(_)))
        | (InboundState::Detecting { .. }, InboundEvent::FirstBytes(None))
        | (InboundState::Forwarding { .. }, InboundEvent::Forwarded(false)) => {
            metrics::after_failure(m)
        },
        _ => m,
    }
}

impl TcpProxy {
    /// The proxy on its default port, without service discovery. `upstream_socket` is the socket
    /// address that the configured upstream reads as, if it reads as one.
    pub fn new(config: ProxyConfig, upstream_socket: Option<SocketAddress>) -> (made: Self)
        requires
            has_identity(config),
        ensures
            made.configured_by(config, upstream_socket, ports::INBOUND_PROXY, false),
    {
        TcpProxy::new_with_discovery(config, upstream_socket, ports::INBOUND_PROXY, false)
    }

    /// The proxy on a port.
    pub fn new_with_port(
        config: ProxyConfig,
        upstream_socket: Option<SocketAddress>,
        port: u16,
    ) -> (made: Self)
        requires
            has_identity(config),
        ensures
            made.configured_by(config, upstream_socket, port, false),
    {
        TcpProxy::new_with_discovery(config, upstream_socket, port, false)
    }

    /// The proxy on a port, with service discovery or without.
    pub fn new_with_discovery(
        config: ProxyConfig,
        upstream_socket: Option<SocketAddress>,
        port: u16,
        has_discovery: bool,
    ) -> (made: Self)
        requires
            has_identity(config),
        ensures
            made.configured_by(config, upstream_socket, port, has_discovery),
    {
        let local_id: SpiffeId = proxy::local_identity(
            &config.identity,
            config.trust_domain.as_str(),
        );
        TcpProxy {
            default_upstream: UpstreamTarget::from_config(config.default_upstream, upstream_socket),
            max_connections: match config.max_connections {
                Some(limit) => limit,
                None => 1024,
            },
            listen_port: port,
            has_discovery,
            local_id,
        }
    }

    /// The proxy with service discovery.
    pub fn with_discovery(self) -> (made: Self)
        ensures
            made == (TcpProxy { has_discovery: true, ..self }),
    {
        TcpProxy { has_discovery: true, ..self }
    }

    /// What a proxy takes from its configuration.
    pub open spec fn configured_by(
        self,
        config: ProxyConfig,
        upstream_socket: Option<SocketAddress>,
        port: u16,
        has_discovery: bool,
    ) -> bool {
        &&& proxy::configured_upstream(
            self.default_upstream,
            config.default_upstream,
            upstream_socket,
        )
        &&& self.max_connections == match config.max_connections {
            Some(limit) => limit,
            None => 1024,
        }
        &&& self.listen_port == port
        &&& self.has_discovery == has_discovery
        &&& self.local_id@ == proxy::local_identity_of(config.identity, config.trust_domain@)
    }

    /// Where an accepted connection goes: to the configured upstream, or else to the destination
    /// that it had before it was redirected here. A destination on our own port means that it was
    /// not redirected.
    pub fn upstream_for(&self, original_dst: Option<SocketAddress>) -> (target: Option<
        UpstreamTarget,
    >)
        ensures
            target == match self.default_upstream {
                Some(upstream) => Some(upstream),
                None => proxy::redirected_target(original_dst, self.listen_port),
            },
    {
        match &self.default_upstream {
            Some(upstream) => Some(upstream.clone()),
            None => proxy::redirected(original_dst, self.listen_port),
        }
    }

    /// Begins to handle a connection.
    pub fn begin(&self, metrics: &mut InterlinkMetrics) -> (state: InboundState)
        ensures
            state is Resolving,
            *final(metrics) == metrics::after_start(*old(metrics)),
    {
        metrics::record_connection_start(metrics);
        InboundState::Resolving
    }

    /// Goes on with a connection after an event.
    pub fn handle_connection(
        &self,
        state: InboundState,
        event: InboundEvent,
        policy: &PolicyEngine,
        metrics: &mut InterlinkMetrics,
    ) -> (next: (InboundState, InboundAction))
        requires
            policy.well_formed(),
        ensures
            next == inbound_step(self.local_id@, policy@, state, event),
            *final(metrics) == inbound_metrics(
                self.local_id@,
                policy@,
                state,
                event,
                *old(metrics),
            ),
    {
        match (state, event) {
            (InboundState::Resolving, InboundEvent::Resolved(result)) => match result {
                Ok(upstream) => (
                    InboundState::Connecting { upstream },
                    InboundAction::Connect(upstream),
                ),
                Err(_) => fail(metrics),
            },
            (
                InboundState::Connecting { upstream },
                InboundEvent::Connected { session, handshake_nanos, upstream_connected },
            ) => match session {
                Err(_) => {
                    metrics::record_handshake_error(metrics);
                    fail(metrics)
                },
                Ok(session) => {
                    metrics::record_handshake(metrics, handshake_nanos);
                    if !upstream_connected {
                        return fail(metrics);
                    }
                    let decision: Decision = policy.evaluate(&session.identity, &self.local_id);
                    metrics::record_policy(metrics, &decision);
                    match decision {
                        Decision::Deny(_) => fail(metrics),
                        Decision::Allow => if mux::is_mux(&session.alpn) {
                            (
                                InboundState::Tunnel { upstream, peer: session.identity.clone() },
                                InboundAction::ServeTunnel { upstream, peer: session.identity },
                            )
                        } else {
                            (InboundState::Detecting { upstream }, InboundAction::ReadFirstBytes)
                        },
                    }
                },
            },
            (InboundState::Detecting { upstream }, InboundEvent::FirstBytes(read)) => match read {
                None => fail(metrics),
                Some(bytes) => if bytes.len() == 0 {
                    fail(metrics)
                } else {
                    let protocol: DetectedProtocol = ProtocolDetector::detect(bytes.as_slice());
                    (
                        InboundState::Forwarding { upstream },
                        InboundAction::Forward { bytes, protocol },
                    )
                },
            },
            (InboundState::Forwarding { upstream }, InboundEvent::Forwarded(written)) => {
                if written {
                    (InboundState::Relaying { upstream }, InboundAction::Relay)
                } else {
                    fail(metrics)
                }
            },
            (InboundState::Relaying { .. }, InboundEvent::Relayed { bytes, nanos }) => {
                let outcome: Result<(u64, u64), ()> = match bytes {
                    Some(bytes) => Ok(bytes),
                    None => Err(()),
                };
                let _ = proxy::record_relay_result(metrics, outcome, nanos);
                (InboundState::Done, InboundAction::Close)
            },
            (InboundState::Tunnel { .. }, InboundEvent::TunnelClosed) => {
                metrics::record_tunnel_closed(metrics);
                (InboundState::Done, InboundAction::Close)
            },
            (state, _) => (state, InboundAction::Ignore),
        }
    }
}

/// How far a stream of an inbound tunnel has come.
#[derive(Debug, Clone, Copy, PartialEq, Eq, Structural)]
pub enum StreamState {
    /// The connect to the upstream is under way.
    Connecting,
    /// Bytes are relayed in both directions.
    Relaying,
    /// The stream has ended.
    Done,
}

/// What happens to a stream of an inbound tunnel.
#[derive(Debug, Clone, Copy, PartialEq, Eq)]
pub enum StreamEvent {
    /// The upstream was connected to, or not.
    Connected(bool),
    /// The relay ended after this many bytes up and down; None where it failed.
    Relayed { bytes: Option<(u64, u64)>, nanos: u64 },
}

/// The next state of a stream.
pub open spec fn stream_step(state: StreamState, event: StreamEvent) -> StreamState {
    match (state, event) {
        (StreamState::Connecting, StreamEvent::Connected(true)) => StreamState::Relaying,
        (StreamState::Connecting, StreamEvent::Connected(false)) => StreamState::Done,
        (StreamState::Relaying, StreamEvent::Relayed { .. }) => StreamState::Done,
        _ => state,
    }
}

/// The metrics after what happened to a stream.
pub open spec fn stream_metrics(
    state: StreamState,
    event: StreamEvent,
    m: InterlinkMetrics,
) -> InterlinkMetrics {
    match (state, event) {
        (StreamState::Connecting, StreamEvent::Connected(false)) => metrics::after_failure(m),
        (StreamState::Relaying, StreamEvent::Relayed { bytes, nanos }) => {
            proxy::after_relay(m, bytes, nanos)
        },
        _ => m,
    }
}

impl TcpProxy {
    /// Takes a stream that the peer of a tunnel opened. Every stream is authorized for itself and
    /// counted as a connection.
    pub fn accept_stream(
        &self,
        peer: &SpiffeId,
        policy: &PolicyEngine,
        metrics: &mut InterlinkMetrics,
    ) -> (state: StreamState)
        requires
            policy.well_formed(),
        ensures
            ({
                let decision = policy@.decide(peer@, self.local_id@);
                let started = metrics::after_policy(
                    metrics::after_start(metrics::after_mux_stream(*old(metrics))),
                    decision,
                );
                if decision == Decision::Allow {
                    state == StreamState::Connecting && *final(metrics) == started
                } else {
                    state == StreamState::Done && *final(metrics) == metrics::after_failure(
                        started,
                    )
                }
            }),
    {
        metrics::record_mux_stream(metrics);
        metrics::record_connection_start(metrics);
        let decision: Decision = policy.evaluate(peer, &self.local_id);
        metrics::record_policy(metrics, &decision);
        match decision {
            Decision::Allow => StreamState::Connecting,
            Decision::Deny(_) => {
                metrics::record_connection_failed(metrics);
                StreamState::Done
            },
        }
    }
}

/// Goes on with a stream of an inbound tunnel after an event.
pub fn relay_stream_to_upstream(
    state: StreamState,
    event: StreamEvent,
    metrics: &mut InterlinkMetrics,
) -> (next: StreamState)
    ensures
        next == stream_step(state, event),
        *final(metrics) == stream_metrics(state, event, *old(metrics)),
{
    match (state, event) {
        (StreamState::Connecting, StreamEvent::Connected(connected)) => {
            if connected {
                StreamState::Relaying
            } else {
                metrics::record_connection_failed(metrics);
                StreamState::Done
            }
        },
        (StreamState::Relaying, StreamEvent::Relayed { bytes, nanos }) => {
            let outcome: Result<(u64, u64), ()> = match bytes {
                Some(bytes) => Ok(bytes),
                None => Err(()),
            };
            let _ = proxy::record_relay_result(metrics, outcome, nanos);
            StreamState::Done
        },
        (state, _) => state,
    }
}

/// Ends a connection that failed.
fn fail(metrics: &mut InterlinkMetrics) -> (next: (InboundState, InboundAction))
    ensures
        next == (InboundState::Done, InboundAction::Close),
        *final(metrics) == metrics::after_failure(*old(metrics)),
{
    metrics::record_connection_failed(metrics);
    (InboundState::Done, InboundAction::Close)
}

/// Whether a configuration gives the proxy an identity.
pub open spec fn has_identity(config: ProxyConfig) -> bool {
    config.trust_domain@.len() > 0 || (config.identity matches Some(uri) && identity::identity_of(
        uri@,
    ) is Ok)
}

} // verus!
