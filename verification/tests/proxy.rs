use interlink::common::error::InterlinkError;
use interlink::discovery::dns::ResolvedEndpoints;
use interlink::metrics::InterlinkMetrics;
use interlink::net::{IpAddress, SocketAddress};
use interlink::proxy::lifecycle::{
    acceptor_step, drain_deadline, drain_step, startup, wants_listeners, AcceptorAction,
    AcceptorEvent, ConnectionLimit, Drain, Startup,
};
use interlink::proxy::original_dst::{get_original_dst, RawV4, RawV6};
use interlink::proxy::pool::{ConnectionPool, IDLE_TIMEOUT, MAX_IDLE_PER_HOST};
use interlink::proxy::{
    copy_buf_size, finish_resolution, num_acceptors, redirected, resolve_upstream, Resolution,
    UpstreamTarget,
};

fn v4(a: u8, b: u8, c: u8, d: u8, port: u16) -> SocketAddress {
    SocketAddress::new(IpAddress::V4(u32::from_be_bytes([a, b, c, d])), port)
}

fn host(value: &str) -> (String, Option<u16>) {
    match UpstreamTarget::from_config(Some(value.into()), None) {
        Some(UpstreamTarget::Host { name, port }) => (name, port),
        other => panic!("{other:?}"),
    }
}

#[test]
fn a_configured_upstream_is_an_address_or_a_host() {
    assert!(UpstreamTarget::from_config(None, None).is_none());
    assert!(UpstreamTarget::from_config(Some(String::new()), None).is_none());
    let address = v4(127, 0, 0, 1, 80);
    match UpstreamTarget::from_config(Some("127.0.0.1:80".into()), Some(address)) {
        Some(UpstreamTarget::Socket(a)) => assert_eq!(a, address),
        other => panic!("{other:?}"),
    }
    assert_eq!(host("backend"), ("backend".into(), None));
    assert_eq!(host("backend:8080"), ("backend".into(), Some(8080)));
    assert_eq!(host("a:b:65535"), ("a:b".into(), Some(65535)));
    assert_eq!(host("backend:65536"), ("backend:65536".into(), None));
    assert_eq!(host("backend:"), ("backend:".into(), None));
    assert_eq!(host("backend:http"), ("backend:http".into(), None));
    assert_eq!(host(":80"), ("".into(), Some(80)));
    assert_eq!(host("backend:+80"), ("backend".into(), Some(80)));
}

#[test]
fn a_host_is_resolved_by_discovery_alone() {
    let socket = UpstreamTarget::Socket(v4(1, 2, 3, 4, 5));
    match resolve_upstream(&socket, false) {
        Resolution::Address(a) => assert_eq!(a, v4(1, 2, 3, 4, 5)),
        other => panic!("{other:?}"),
    }
    let backend = UpstreamTarget::Host { name: "backend".into(), port: Some(80) };
    match resolve_upstream(&backend, true) {
        Resolution::Lookup(name) => assert_eq!(name, "backend"),
        other => panic!("{other:?}"),
    }
    match resolve_upstream(&backend, false) {
        Resolution::Impossible(error) => assert_eq!(
            error.message(),
            "DNS resolution failed: cannot resolve hostname 'backend:80' without discovery"
        ),
        other => panic!("{other:?}"),
    }
}

#[test]
fn the_first_endpoint_is_used_with_the_configured_port() {
    let found = || {
        Ok(ResolvedEndpoints {
            addrs: vec![v4(10, 0, 0, 1, 0), v4(10, 0, 0, 2, 0)],
            spiffe_id: None,
        })
    };
    let with_port = UpstreamTarget::Host { name: "b".into(), port: Some(80) };
    let without = UpstreamTarget::Host { name: "b".into(), port: None };
    assert_eq!(finish_resolution(&with_port, found()).unwrap(), v4(10, 0, 0, 1, 80));
    assert_eq!(finish_resolution(&without, found()).unwrap(), v4(10, 0, 0, 1, 0));
    let none = Ok(ResolvedEndpoints { addrs: vec![], spiffe_id: None });
    assert_eq!(
        finish_resolution(&without, none).unwrap_err().message(),
        "DNS resolution failed: no endpoints for b"
    );
    let error = InterlinkError::DnsResolution("x".into());
    assert_eq!(finish_resolution(&without, Err(error.clone())).unwrap_err(), error);
    let socket = UpstreamTarget::Socket(v4(1, 1, 1, 1, 1));
    assert_eq!(finish_resolution(&socket, Err(error)).unwrap(), v4(1, 1, 1, 1, 1));
}

#[test]
fn a_destination_on_our_own_port_was_not_redirected() {
    assert!(redirected(None, 4143).is_none());
    assert!(redirected(Some(v4(10, 0, 0, 1, 4143)), 4143).is_none());
    match redirected(Some(v4(10, 0, 0, 1, 80)), 4143) {
        Some(UpstreamTarget::Socket(a)) => assert_eq!(a, v4(10, 0, 0, 1, 80)),
        other => panic!("{other:?}"),
    }
}

#[test]
fn settings_are_clamped_to_their_range() {
    assert_eq!(copy_buf_size(None), 65536);
    assert_eq!(copy_buf_size(Some("many")), 65536);
    assert_eq!(copy_buf_size(Some("1")), 4096);
    assert_eq!(copy_buf_size(Some("8192")), 8192);
    assert_eq!(copy_buf_size(Some("99999999")), 1 << 20);
    assert_eq!(num_acceptors(Some("0"), Some(8)), 1);
    assert_eq!(num_acceptors(Some("7"), Some(8)), 7);
    assert_eq!(num_acceptors(Some("17"), Some(8)), 16);
    assert_eq!(num_acceptors(Some("x"), Some(8)), 4);
    assert_eq!(num_acceptors(None, Some(1)), 1);
    assert_eq!(num_acceptors(None, Some(3)), 3);
    assert_eq!(num_acceptors(None, None), 2);
}

#[test]
fn the_original_destination_is_read_in_network_order() {
    let raw = RawV4 { port: [0x1f, 0x90], address: [10, 96, 0, 1] };
    assert_eq!(get_original_dst(Some(raw), None).unwrap(), v4(10, 96, 0, 1, 8080));
    let mut address = [0u8; 16];
    address[0] = 0xfe;
    address[15] = 1;
    let raw6 = RawV6 { port: [0, 80], address };
    let wanted = SocketAddress::new(IpAddress::V6(u128::from_be_bytes(address)), 80);
    assert_eq!(get_original_dst(None, Some(raw6)).unwrap(), wanted);
    assert_eq!(get_original_dst(Some(raw), Some(raw6)).unwrap(), v4(10, 96, 0, 1, 8080));
    assert_eq!(get_original_dst(None, None), None);
}

#[test]
fn a_proxy_starts_with_the_acceptors_that_bound() {
    assert!(!wants_listeners(0) && wants_listeners(1));
    assert_eq!(startup(0, &vec![true]), Startup::Disabled);
    assert_eq!(startup(80, &vec![]), Startup::NotStarted);
    assert_eq!(startup(80, &vec![false, false]), Startup::NotStarted);
    assert_eq!(startup(80, &vec![true, false, true]), Startup::Listening(2));
}

#[test]
fn an_acceptor_ends_with_a_shutdown_only() {
    assert_eq!(acceptor_step(AcceptorEvent::Accepted), AcceptorAction::Handle);
    assert_eq!(acceptor_step(AcceptorEvent::Failed), AcceptorAction::Listen);
    assert_eq!(acceptor_step(AcceptorEvent::Shutdown), AcceptorAction::Stop);
}

#[test]
fn connections_above_the_limit_are_rejected() {
    let mut m = InterlinkMetrics::new();
    let mut connections = ConnectionLimit::new(2);
    assert!(connections.enter(&mut m) && connections.enter(&mut m));
    assert!(!connections.enter(&mut m));
    assert_eq!((connections.active, m.saturation_rejections_total), (2, 1));
    connections.leave();
    assert!(connections.enter(&mut m));
    assert_eq!(m.saturation_rejections_total, 1);
    assert!(!ConnectionLimit::new(0).enter(&mut m));
}

#[test]
fn a_shutdown_waits_for_connections_within_its_grace() {
    let deadline = drain_deadline(1_000);
    assert_eq!(deadline, 31_000);
    assert_eq!(drain_step(0, 1_000, deadline), Drain::Complete);
    assert_eq!(drain_step(3, 30_999, deadline), Drain::Wait(100));
    assert_eq!(drain_step(3, 31_000, deadline), Drain::Expired(3));
    assert_eq!(drain_step(0, 31_000, deadline), Drain::Complete);
}

#[test]
fn an_idle_connection_is_reused_while_it_is_fresh() {
    let mut pool: ConnectionPool<u32> = ConnectionPool::new();
    assert_eq!(pool.checkout("a", 0), None);
    pool.checkin("a", 1, 0);
    pool.checkin("a", 2, 10);
    pool.checkin("b", 3, 10);
    // The one that became idle last comes first.
    assert_eq!(pool.checkout("a", 11), Some(2));
    assert_eq!(pool.checkout("a", IDLE_TIMEOUT), None);
    assert_eq!(pool.checkout("b", IDLE_TIMEOUT), Some(3));
    assert_eq!(pool.checkout("b", IDLE_TIMEOUT), None);
}

#[test]
fn no_more_than_a_few_connections_are_kept() {
    let mut pool: ConnectionPool<usize> = ConnectionPool::new();
    for i in 0..MAX_IDLE_PER_HOST + 3 {
        pool.checkin("a", i, 0);
    }
    let mut kept = 0;
    while pool.checkout("a", 1).is_some() {
        kept += 1;
    }
    assert_eq!(kept, MAX_IDLE_PER_HOST);
}
