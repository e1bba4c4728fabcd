use interlink::common::identity::SpiffeId;
use interlink::net::{IpAddress, SocketAddress};
use interlink::proxy::mux::driver::{DriverAction, DriverEvent};
use interlink::proxy::mux::pool::{MAX_TUNNELS_PER_PEER, STREAMS_PER_TUNNEL};
use interlink::proxy::mux::{is_mux, MuxPool, TunnelDriver, ALPN_MUX};

fn id() -> SpiffeId {
    SpiffeId::new("mesh.local", "default", "peer")
}

fn peer(last: u32) -> SocketAddress {
    SocketAddress::new(IpAddress::V4(last), 4143)
}

#[test]
fn tunnels_are_negotiated_by_name() {
    assert!(is_mux(&Some(ALPN_MUX.as_bytes().to_vec())));
    assert!(!is_mux(&Some(b"h2".to_vec())));
    assert!(!is_mux(&Some(b"il/mux/11".to_vec())));
    assert!(!is_mux(&None));
}

#[test]
fn the_least_loaded_tunnel_is_picked() {
    let mut pool = MuxPool::new();
    assert!(pool.pick_any(&peer(1)).is_none());
    let (a, b, c) = (
        pool.register(&peer(1), id()),
        pool.register(&peer(1), id()),
        pool.register(&peer(1), id()),
    );
    assert_eq!((a, b, c), (0, 1, 2));
    // The first of equals.
    assert_eq!(pool.pick_under_cap(&peer(1)).unwrap().id, a);
    pool.count_stream(&peer(1), a, true);
    pool.count_stream(&peer(1), b, true);
    assert_eq!(pool.pick_under_cap(&peer(1)).unwrap().id, c);
    pool.count_stream(&peer(1), c, true);
    pool.count_stream(&peer(1), c, true);
    assert_eq!(pool.pick_any(&peer(1)).unwrap().clone().id, a);
    pool.count_stream(&peer(1), b, false);
    assert_eq!(pool.pick_any(&peer(1)).unwrap().id, b);
    assert_eq!(pool.pick_any(&peer(1)).unwrap().peer_identity, id());
}

#[test]
fn a_full_tunnel_is_not_picked_under_the_cap() {
    let mut pool = MuxPool::new();
    let a = pool.register(&peer(1), id());
    for _ in 0..STREAMS_PER_TUNNEL {
        assert_eq!(pool.pick_under_cap(&peer(1)).unwrap().id, a);
        pool.count_stream(&peer(1), a, true);
    }
    assert!(pool.pick_under_cap(&peer(1)).is_none());
    assert_eq!(pool.pick_any(&peer(1)).unwrap().live, STREAMS_PER_TUNNEL);
}

#[test]
fn an_eviction_takes_one_tunnel_of_one_peer() {
    let mut pool = MuxPool::new();
    let a = pool.register(&peer(1), id());
    let b = pool.register(&peer(2), id());
    let c = pool.register(&peer(1), id());
    pool.evict(&peer(1), b);
    pool.evict(&peer(3), a);
    assert_eq!(pool.pick_any(&peer(1)).unwrap().id, a);
    pool.evict(&peer(1), a);
    assert_eq!(pool.pick_any(&peer(1)).unwrap().id, c);
    // The end of the old tunnel does not evict its replacement.
    pool.evict(&peer(1), a);
    assert_eq!(pool.pick_any(&peer(1)).unwrap().id, c);
    pool.evict(&peer(1), c);
    assert!(pool.pick_any(&peer(1)).is_none());
    assert_eq!(pool.pick_any(&peer(2)).unwrap().id, b);
    assert_eq!(pool.register(&peer(1), id()), 3);
}

#[test]
fn addresses_of_different_families_are_different_peers() {
    let mut pool = MuxPool::new();
    let four = SocketAddress::new(IpAddress::V4(1), 80);
    let six = SocketAddress::new(IpAddress::V6(1), 80);
    pool.register(&four, id());
    assert!(pool.pick_any(&six).is_none());
    let scoped = SocketAddress { scope_id: 2, ..six };
    pool.register(&scoped, id());
    assert!(pool.pick_any(&six).is_none());
    assert!(pool.pick_any(&scoped).is_some());
}

#[test]
fn a_peer_has_a_limited_number_of_tunnels() {
    let mut pool = MuxPool::new();
    for _ in 0..MAX_TUNNELS_PER_PEER {
        assert!(pool.can_grow(&peer(1)));
        pool.register(&peer(1), id());
    }
    assert!(!pool.can_grow(&peer(1)));
    assert!(pool.can_grow(&peer(2)));
}

#[test]
fn the_driver_serves_one_request_at_a_time() {
    let mut driver = TunnelDriver::new();
    assert_eq!(driver.step(DriverEvent::Woken), DriverAction::PollQueue);
    assert_eq!(driver.step(DriverEvent::Request), DriverAction::ExamineRequest);
    assert_eq!(driver.step(DriverEvent::RequestAlive), DriverAction::PollOutbound);
    // Without an answer the request stays at hand, and the session is polled.
    assert_eq!(driver.step(DriverEvent::OutboundPending), DriverAction::PollInbound);
    assert!(driver.pending);
    assert_eq!(driver.step(DriverEvent::UnexpectedStream), DriverAction::PollInbound);
    assert_eq!(driver.step(DriverEvent::InboundPending), DriverAction::Yield);
    assert_eq!(driver.step(DriverEvent::Woken), DriverAction::ExamineRequest);
    assert_eq!(driver.step(DriverEvent::RequestAlive), DriverAction::PollOutbound);
    assert_eq!(driver.step(DriverEvent::Answered), DriverAction::PollQueue);
    assert!(!driver.pending);
    // A requester that gave up gets no stream.
    assert_eq!(driver.step(DriverEvent::Request), DriverAction::ExamineRequest);
    assert_eq!(driver.step(DriverEvent::RequestAbandoned), DriverAction::PollQueue);
    assert_eq!(driver.step(DriverEvent::QueueEmpty), DriverAction::PollInbound);
    assert_eq!(driver.step(DriverEvent::InboundPending), DriverAction::Yield);
}

#[test]
fn the_driver_ends_with_its_session() {
    let mut driver = TunnelDriver::new();
    assert_eq!(driver.step(DriverEvent::Woken), DriverAction::PollQueue);
    // A closed queue is not polled again; the session goes on.
    assert_eq!(driver.step(DriverEvent::QueueClosed), DriverAction::PollInbound);
    assert_eq!(driver.step(DriverEvent::InboundPending), DriverAction::Yield);
    assert_eq!(driver.step(DriverEvent::Woken), DriverAction::PollInbound);
    assert_eq!(driver.step(DriverEvent::SessionEnded), DriverAction::Finish);
    assert_eq!(driver.step(DriverEvent::Woken), DriverAction::Finish);
    // An event out of turn changes nothing.
    let mut driver = TunnelDriver::new();
    assert_eq!(driver.step(DriverEvent::Answered), DriverAction::Yield);
}
