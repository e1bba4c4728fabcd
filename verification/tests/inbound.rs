use interlink::common::error::InterlinkError;
use interlink::common::identity::SpiffeId;
use interlink::metrics::InterlinkMetrics;
use interlink::net::{IpAddress, SocketAddress};
use interlink::policy::patterns;
use interlink::policy::PolicyEngine;
use interlink::protocol::DetectedProtocol;
use interlink::proxy::config::ProxyConfig;
use interlink::proxy::tcp::{
    relay_stream_to_upstream, InboundAction, InboundEvent, InboundState, PeerSession, StreamEvent,
    StreamState, TcpProxy,
};
use interlink::proxy::UpstreamTarget;

fn me() -> SpiffeId {
    SpiffeId::new("mesh.local", "default", "me")
}

fn stranger() -> SpiffeId {
    SpiffeId::new("mesh.local", "default", "stranger")
}

fn proxy() -> TcpProxy {
    TcpProxy::new(
        ProxyConfig { identity: Some(me().to_uri()), ..ProxyConfig::default() },
        None,
    )
}

fn policy() -> PolicyEngine {
    patterns::replica_policy(&me(), false)
}

fn upstream() -> SocketAddress {
    SocketAddress::new(IpAddress::V4(0x7f00_0001), 8080)
}

fn connected(identity: SpiffeId, alpn: Option<&[u8]>, upstream_connected: bool) -> InboundEvent {
    InboundEvent::Connected {
        session: Ok(PeerSession { identity, alpn: alpn.map(|a| a.to_vec()) }),
        handshake_nanos: 5,
        upstream_connected,
    }
}

#[test]
fn a_proxy_takes_its_settings_from_its_configuration() {
    let proxy = proxy();
    assert_eq!((proxy.listen_port, proxy.max_connections), (4143, 1024));
    assert_eq!(proxy.local_id, me());
    assert!(proxy.default_upstream.is_none() && !proxy.has_discovery);
    assert!(proxy.with_discovery().has_discovery);
    let config = ProxyConfig {
        trust_domain: "t".into(),
        identity: Some("not valid".into()),
        max_connections: Some(7),
        default_upstream: Some("backend:80".into()),
        ..ProxyConfig::default()
    };
    let proxy = TcpProxy::new_with_port(config.clone(), None, 99);
    assert_eq!((proxy.listen_port, proxy.max_connections), (99, 7));
    assert_eq!(proxy.local_id, SpiffeId::new("t", "default", "proxy"));
    assert!(matches!(proxy.default_upstream, Some(UpstreamTarget::Host { .. })));
    assert!(TcpProxy::new_with_discovery(config, None, 99, true).has_discovery);
}

#[test]
fn the_configured_upstream_comes_before_the_original_destination() {
    let redirected = SocketAddress::new(IpAddress::V4(1), 80);
    let own = SocketAddress::new(IpAddress::V4(1), 4143);
    let plain = proxy();
    assert!(plain.upstream_for(None).is_none());
    assert!(plain.upstream_for(Some(own)).is_none());
    match plain.upstream_for(Some(redirected)) {
        Some(UpstreamTarget::Socket(a)) => assert_eq!(a, redirected),
        other => panic!("{other:?}"),
    }
    let configured = TcpProxy::new(
        ProxyConfig { default_upstream: Some("backend".into()), ..ProxyConfig::default() },
        None,
    );
    assert!(matches!(
        configured.upstream_for(Some(redirected)),
        Some(UpstreamTarget::Host { .. })
    ));
}

#[test]
fn an_allowed_connection_is_forwarded_and_relayed() {
    let (proxy, policy, mut m) = (proxy(), policy(), InterlinkMetrics::new());
    let state = proxy.begin(&mut m);
    let (state, action) =
        proxy.handle_connection(state, InboundEvent::Resolved(Ok(upstream())), &policy, &mut m);
    assert!(matches!(action, InboundAction::Connect(a) if a == upstream()));
    let (state, action) =
        proxy.handle_connection(state, connected(me(), Some(b"h2"), true), &policy, &mut m);
    assert!(matches!(action, InboundAction::ReadFirstBytes));
    let first = b"GET / HTTP/1.1\r\n".to_vec();
    let (state, action) = proxy.handle_connection(
        state,
        InboundEvent::FirstBytes(Some(first.clone())),
        &policy,
        &mut m,
    );
    match action {
        InboundAction::Forward { bytes, protocol } => {
            assert_eq!(bytes, first);
            assert_eq!(protocol, DetectedProtocol::Http11);
        }
        other => panic!("{other:?}"),
    }
    let (state, action) =
        proxy.handle_connection(state, InboundEvent::Forwarded(true), &policy, &mut m);
    assert!(matches!(action, InboundAction::Relay));
    let (state, action) = proxy.handle_connection(
        state,
        InboundEvent::Relayed { bytes: Some((3, 4)), nanos: 9 },
        &policy,
        &mut m,
    );
    assert!(matches!((&state, action), (InboundState::Done, InboundAction::Close)));
    assert_eq!((m.connections_total, m.connection_errors_total, m.bytes_total), (1, 0, 7));
    assert_eq!((m.connections_active, m.policy_allowed_total, m.handshakes_total), (0, 1, 1));
    // Done is final.
    let before = m;
    let (state, action) =
        proxy.handle_connection(state, InboundEvent::TunnelClosed, &policy, &mut m);
    assert!(matches!((state, action), (InboundState::Done, InboundAction::Ignore)));
    assert_eq!(m, before);
}

#[test]
fn a_peer_that_the_policy_denies_is_disconnected() {
    let (proxy, policy, mut m) = (proxy(), policy(), InterlinkMetrics::new());
    for alpn in [None, Some(b"il/mux/1".as_slice())] {
        let state = InboundState::Connecting { upstream: upstream() };
        let (state, action) =
            proxy.handle_connection(state, connected(stranger(), alpn, true), &policy, &mut m);
        assert!(matches!((state, action), (InboundState::Done, InboundAction::Close)));
    }
    assert_eq!((m.policy_denied_total, m.connection_errors_total), (2, 2));
}

#[test]
fn every_failure_closes_the_connection() {
    let (proxy, policy) = (proxy(), policy());
    let error = || InterlinkError::DnsResolution("x".into());
    let failures: Vec<(InboundState, InboundEvent, u64)> = vec![
        (InboundState::Resolving, InboundEvent::Resolved(Err(error())), 0),
        (
            InboundState::Connecting { upstream: upstream() },
            InboundEvent::Connected {
                session: Err(error()),
                handshake_nanos: 1,
                upstream_connected: true,
            },
            1,
        ),
        (InboundState::Connecting { upstream: upstream() }, connected(me(), None, false), 1),
        (InboundState::Detecting { upstream: upstream() }, InboundEvent::FirstBytes(None), 0),
        (
            InboundState::Detecting { upstream: upstream() },
            InboundEvent::FirstBytes(Some(vec![])),
            0,
        ),
        (InboundState::Forwarding { upstream: upstream() }, InboundEvent::Forwarded(false), 0),
        (
            InboundState::Relaying { upstream: upstream() },
            InboundEvent::Relayed { bytes: None, nanos: 3 },
            0,
        ),
    ];
    for (state, event, handshakes) in failures {
        let mut m = InterlinkMetrics::new();
        proxy.begin(&mut m);
        let (state, action) = proxy.handle_connection(state, event, &policy, &mut m);
        assert!(matches!((state, action), (InboundState::Done, InboundAction::Close)));
        assert_eq!((m.connections_total, m.connection_errors_total), (1, 1));
        assert_eq!((m.connections_active, m.connection_duration.count), (0, 0));
        assert_eq!(m.handshakes_total, handshakes);
    }
}

#[test]
fn a_tunnel_holds_its_slot_and_its_streams_are_counted() {
    let (proxy, policy, mut m) = (proxy(), policy(), InterlinkMetrics::new());
    proxy.begin(&mut m);
    let (state, action) = proxy.handle_connection(
        InboundState::Connecting { upstream: upstream() },
        connected(me(), Some(b"il/mux/1"), true),
        &policy,
        &mut m,
    );
    match action {
        InboundAction::ServeTunnel { upstream: to, peer } => {
            assert_eq!((to, peer), (upstream(), me()));
        }
        other => panic!("{other:?}"),
    }

    let stream = proxy.accept_stream(&me(), &policy, &mut m);
    assert_eq!(stream, StreamState::Connecting);
    assert_eq!((m.connections_active, m.mux_streams_total), (2, 1));
    let stream = relay_stream_to_upstream(stream, StreamEvent::Connected(true), &mut m);
    assert_eq!(stream, StreamState::Relaying);
    let relayed = StreamEvent::Relayed { bytes: Some((1, 1)), nanos: 1 };
    let stream = relay_stream_to_upstream(stream, relayed, &mut m);
    assert_eq!(stream, StreamState::Done);
    assert_eq!(relay_stream_to_upstream(stream, relayed, &mut m), StreamState::Done);
    assert_eq!((m.connections_total, m.bytes_total), (1, 2));

    let stream = proxy.accept_stream(&me(), &policy, &mut m);
    let stream = relay_stream_to_upstream(stream, StreamEvent::Connected(false), &mut m);
    assert_eq!(stream, StreamState::Done);
    assert_eq!((m.connections_total, m.connection_errors_total), (2, 1));

    // A stream of a peer that is no longer allowed is refused.
    assert_eq!(proxy.accept_stream(&stranger(), &policy, &mut m), StreamState::Done);
    assert_eq!((m.connection_errors_total, m.policy_denied_total), (2, 1));

    let (state, _) = proxy.handle_connection(state, InboundEvent::TunnelClosed, &policy, &mut m);
    assert!(matches!(state, InboundState::Done));
    assert_eq!((m.connections_active, m.connections_total), (0, 3));
}

#[test]
fn an_event_out_of_turn_is_ignored() {
    let (proxy, policy, mut m) = (proxy(), policy(), InterlinkMetrics::new());
    let (state, action) = proxy.handle_connection(
        InboundState::Resolving,
        connected(me(), None, true),
        &policy,
        &mut m,
    );
    assert!(matches!((state, action), (InboundState::Resolving, InboundAction::Ignore)));
    assert_eq!(m, InterlinkMetrics::new());
}
