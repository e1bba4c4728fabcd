use interlink::common::error::InterlinkError;
use interlink::common::identity::SpiffeId;
use interlink::metrics::InterlinkMetrics;
use interlink::net::{IpAddress, SocketAddress};
use interlink::policy::patterns;
use interlink::policy::PolicyEngine;
use interlink::proxy::config::ProxyConfig;
use interlink::proxy::mux::pool::{MAX_TUNNELS_PER_PEER, STREAMS_PER_TUNNEL};
use interlink::proxy::mux::MuxPool;
use interlink::proxy::outbound::{
    OutboundAction, OutboundEvent, OutboundProxy, OutboundState, ROUTE_ATTEMPTS,
};
use interlink::proxy::tcp::PeerSession;
use interlink::proxy::UpstreamTarget;

struct Mesh {
    proxy: OutboundProxy,
    policy: PolicyEngine,
    pool: MuxPool,
    metrics: InterlinkMetrics,
}

fn me() -> SpiffeId {
    SpiffeId::new("mesh.local", "default", "me")
}

fn peer() -> SocketAddress {
    SocketAddress::new(IpAddress::V4(0x0a00_0001), 4143)
}

fn mesh(mux: bool) -> Mesh {
    Mesh {
        proxy: OutboundProxy::new(
            ProxyConfig { identity: Some(me().to_uri()), mux, ..ProxyConfig::default() },
            None,
        ),
        policy: patterns::replica_policy(&me(), false),
        pool: MuxPool::new(),
        metrics: InterlinkMetrics::new(),
    }
}

impl Mesh {
    fn begin(&mut self) -> OutboundState {
        self.proxy.begin(&mut self.metrics)
    }

    fn step(&mut self, state: OutboundState, event: OutboundEvent) -> (OutboundState, OutboundAction) {
        self.proxy.handle_connection(
            state,
            event,
            &self.policy,
            &mut self.pool,
            &mut self.metrics,
        )
    }

    /// A connection that is being routed.
    fn routed(&mut self) -> (OutboundState, OutboundAction) {
        let state = self.begin();
        self.step(state, OutboundEvent::Resolved(Ok(peer())))
    }

    /// A connection whose first tunnel was just established.
    fn tunnel(&mut self) -> (OutboundState, u64) {
        let (state, action) = self.routed();
        assert_eq!(action, OutboundAction::Lock(peer()));
        let (state, action) = self.step(state, OutboundEvent::Locked);
        assert_eq!(action, OutboundAction::Connect(peer()));
        assert!(state.holds_lock());
        let (state, action) = self.step(state, connected(me(), Some(b"il/mux/1")));
        assert!(state.holds_lock());
        match action {
            OutboundAction::StartTunnel { upstream, tunnel } => {
                assert_eq!(upstream, peer());
                (state, tunnel)
            }
            other => panic!("{other:?}"),
        }
    }
}

fn connected(identity: SpiffeId, alpn: Option<&[u8]>) -> OutboundEvent {
    OutboundEvent::Connected {
        session: Ok(PeerSession { identity, alpn: alpn.map(|a| a.to_vec()) }),
        handshake_nanos: 7,
    }
}

#[test]
fn the_original_destination_comes_before_the_configured_upstream() {
    let config = ProxyConfig { default_upstream: Some("backend".into()), ..ProxyConfig::default() };
    let proxy = OutboundProxy::new(config.clone(), None);
    assert_eq!((proxy.listen_port, proxy.mux_enabled), (4140, true));
    let redirected = SocketAddress::new(IpAddress::V4(1), 80);
    let own = SocketAddress::new(IpAddress::V4(1), 4140);
    assert!(matches!(
        proxy.upstream_for(Some(redirected)),
        Some(UpstreamTarget::Socket(a)) if a == redirected
    ));
    assert!(matches!(proxy.upstream_for(Some(own)), Some(UpstreamTarget::Host { .. })));
    assert!(matches!(proxy.upstream_for(None), Some(UpstreamTarget::Host { .. })));
    assert!(mesh(true).proxy.upstream_for(None).is_none());
    assert!(!proxy.has_discovery && proxy.with_discovery().has_discovery);
    assert_eq!(OutboundProxy::new_with_port(config.clone(), None, 9).listen_port, 9);
    assert!(OutboundProxy::new_with_discovery(config, None, 9, true).has_discovery);
}

#[test]
fn many_connections_share_one_handshake() {
    let mut mesh = mesh(true);
    let (state, tunnel) = mesh.tunnel();
    let (state, action) = mesh.step(state, OutboundEvent::StreamOpened(true));
    assert_eq!(action, OutboundAction::RelayStream);
    assert!(!state.holds_lock());
    for _ in 0..9 {
        let (state, action) = mesh.routed();
        assert_eq!(action, OutboundAction::Open { upstream: peer(), tunnel });
        let (state, _) = mesh.step(state, OutboundEvent::StreamOpened(true));
        let relayed = OutboundEvent::Relayed { bytes: Some((1, 2)), nanos: 1 };
        assert_eq!(mesh.step(state, relayed), (OutboundState::Done, OutboundAction::Close));
    }
    assert_eq!(mesh.metrics.handshakes_total, 1);
    assert_eq!(mesh.metrics.mux_tunnels_opened_total, 1);
    assert_eq!(mesh.metrics.mux_streams_total, 10);
    assert_eq!(mesh.metrics.policy_allowed_total, 10);
    assert_eq!(mesh.metrics.connections_active, 1);
    assert_eq!(mesh.pool.pick_any(&peer()).unwrap().live, 1);
    let relayed = OutboundEvent::Relayed { bytes: None, nanos: 1 };
    assert_eq!(mesh.step(state, relayed), (OutboundState::Done, OutboundAction::Close));
    assert_eq!(mesh.pool.pick_any(&peer()).unwrap().live, 0);
    assert_eq!((mesh.metrics.connections_active, mesh.metrics.connection_errors_total), (0, 1));
}

#[test]
fn a_peer_without_tunnels_gets_a_connection_each() {
    let mut mesh = mesh(true);
    for _ in 0..2 {
        let (state, _) = mesh.routed();
        let (state, _) = mesh.step(state, OutboundEvent::Locked);
        let (state, action) = mesh.step(state, connected(me(), Some(b"h2")));
        assert_eq!(action, OutboundAction::RelayDirect);
        assert!(!state.holds_lock());
        let relayed = OutboundEvent::Relayed { bytes: Some((1, 1)), nanos: 1 };
        assert_eq!(mesh.step(state, relayed).0, OutboundState::Done);
    }
    assert_eq!((mesh.metrics.handshakes_total, mesh.metrics.mux_streams_total), (2, 0));
}

#[test]
fn without_tunnels_of_our_own_the_handshake_still_decides() {
    let mut mesh = mesh(false);
    let (state, action) = mesh.routed();
    assert_eq!(action, OutboundAction::Connect(peer()));
    assert!(!state.holds_lock());
    let (_, action) = mesh.step(state, connected(me(), None));
    assert_eq!(action, OutboundAction::RelayDirect);
    let (_, action) = mesh.step(state, connected(me(), Some(b"il/mux/1")));
    assert!(matches!(action, OutboundAction::StartTunnel { .. }));
}

#[test]
fn a_peer_that_the_policy_denies_is_not_talked_to() {
    let mut mesh = mesh(true);
    let (state, _) = mesh.routed();
    let (state, _) = mesh.step(state, OutboundEvent::Locked);
    let stranger = SpiffeId::new("mesh.local", "default", "stranger");
    let next = mesh.step(state, connected(stranger.clone(), Some(b"il/mux/1")));
    assert_eq!(next, (OutboundState::Done, OutboundAction::Close));
    assert!(mesh.pool.pick_any(&peer()).is_none());
    // Nor over a tunnel that is there.
    mesh.pool.register(&peer(), stranger);
    assert_eq!(mesh.routed(), (OutboundState::Done, OutboundAction::Close));
    assert_eq!((mesh.metrics.policy_denied_total, mesh.metrics.connection_errors_total), (2, 2));
    assert_eq!(mesh.metrics.connections_active, 0);
}

#[test]
fn a_failed_handshake_or_lookup_ends_the_connection() {
    let mut mesh = mesh(true);
    let error = || InterlinkError::DnsResolution("x".into());
    let state = mesh.begin();
    let next = mesh.step(state, OutboundEvent::Resolved(Err(error())));
    assert_eq!(next, (OutboundState::Done, OutboundAction::Close));
    let (state, _) = mesh.routed();
    let (state, _) = mesh.step(state, OutboundEvent::Locked);
    let failed = OutboundEvent::Connected { session: Err(error()), handshake_nanos: 1 };
    assert_eq!(mesh.step(state, failed), (OutboundState::Done, OutboundAction::Close));
    assert_eq!((mesh.metrics.handshakes_total, mesh.metrics.handshake_duration.count), (1, 0));
    assert_eq!((mesh.metrics.connection_errors_total, mesh.metrics.connections_active), (2, 0));
}

#[test]
fn a_dead_tunnel_is_evicted_and_the_connection_routed_anew() {
    let mut mesh = mesh(true);
    for _ in 0..ROUTE_ATTEMPTS + 1 {
        mesh.pool.register(&peer(), me());
    }
    let (mut state, mut action) = mesh.routed();
    let mut seen = Vec::new();
    while let OutboundAction::Open { tunnel, .. } = action {
        seen.push(tunnel);
        (state, action) = mesh.step(state, OutboundEvent::StreamOpened(false));
    }
    // Attempts run out before tunnels do.
    assert_eq!(seen, [0, 1, 2, 3]);
    assert_eq!((state, action), (OutboundState::Done, OutboundAction::Close));
    assert_eq!(mesh.pool.pick_any(&peer()).unwrap().id, 4);
    assert_eq!(mesh.metrics.connection_errors_total, 1);
}

#[test]
fn a_fresh_tunnel_that_is_dead_fails_the_connection() {
    let mut mesh = mesh(true);
    let (state, _) = mesh.tunnel();
    let next = mesh.step(state, OutboundEvent::StreamOpened(false));
    assert_eq!(next, (OutboundState::Done, OutboundAction::Close));
    assert!(mesh.pool.pick_any(&peer()).is_none());
}

#[test]
fn the_pool_grows_to_its_limit_and_no_further() {
    let mut mesh = mesh(true);
    for _ in 0..MAX_TUNNELS_PER_PEER {
        let id = mesh.pool.register(&peer(), me());
        for _ in 0..STREAMS_PER_TUNNEL {
            mesh.pool.count_stream(&peer(), id, true);
        }
    }
    mesh.pool.count_stream(&peer(), 0, true);
    let (state, action) = mesh.routed();
    assert_eq!(action, OutboundAction::Lock(peer()));
    // All are full: the least loaded is used all the same.
    let (_, action) = mesh.step(state, OutboundEvent::Locked);
    assert_eq!(action, OutboundAction::Open { upstream: peer(), tunnel: 1 });
    // A tunnel that became free while the right was awaited is used.
    mesh.pool.count_stream(&peer(), 7, false);
    let (next, action) = mesh.step(state, OutboundEvent::Locked);
    assert_eq!(action, OutboundAction::Open { upstream: peer(), tunnel: 7 });
    assert!(!next.holds_lock());
    // With room, another is opened.
    mesh.pool.evict(&peer(), 3);
    let (_, action) = mesh.step(state, OutboundEvent::Locked);
    assert_eq!(action, OutboundAction::Connect(peer()));
}

#[test]
fn an_outbound_event_out_of_turn_is_ignored() {
    let mut mesh = mesh(true);
    let state = OutboundState::RelayingDirect { upstream: peer() };
    assert_eq!(mesh.step(state, OutboundEvent::Locked), (state, OutboundAction::Ignore));
    assert_eq!(mesh.metrics, InterlinkMetrics::new());
}
