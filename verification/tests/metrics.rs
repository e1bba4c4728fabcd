use interlink::metrics;
use interlink::metrics::test_helpers as test_metrics;
use interlink::metrics::test_helpers::TestCounters;
use interlink::metrics::{Durations, InterlinkMetrics};
use interlink::policy::Decision;
use interlink::proxy::record_relay_result;

#[test]
fn test_metrics_counters() {
    let mut counters = TestCounters::new();
    test_metrics::reset(&mut counters);
    test_metrics::record_connection(&mut counters);
    test_metrics::record_bytes(&mut counters, 1024);
    test_metrics::record_policy(&mut counters, true);
    test_metrics::record_policy(&mut counters, false);

    assert_eq!(counters.connections, 1);
    assert_eq!(counters.bytes, 1024);
    assert_eq!(counters.allowed, 1);
    assert_eq!(counters.denied, 1);
}

#[test]
fn test_metrics_multiple_increments() {
    let mut counters = TestCounters::new();
    test_metrics::reset(&mut counters);
    for _ in 0..100 {
        test_metrics::record_connection(&mut counters);
    }
    assert_eq!(counters.connections, 100);
}

#[test]
fn test_metrics_reset() {
    let mut counters = TestCounters::new();
    test_metrics::reset(&mut counters);
    assert_eq!(counters.connections, 0);
    test_metrics::record_connection(&mut counters);
    assert_eq!(counters.connections, 1);
    test_metrics::reset(&mut counters);
    assert_eq!(counters.connections, 0);
}

#[test]
fn increments_count_for_themselves() {
    let mut counters = TestCounters::new();
    test_metrics::increment_connections(&mut counters);
    test_metrics::add_bytes(&mut counters, 5);
    test_metrics::increment_allowed(&mut counters);
    test_metrics::increment_denied(&mut counters);
    test_metrics::increment_handshake_errors(&mut counters);
    assert_eq!(
        counters,
        TestCounters { connections: 1, bytes: 5, allowed: 1, denied: 1, handshake_errors: 1 }
    );
    test_metrics::add_bytes(&mut counters, u64::MAX);
    assert_eq!(counters.bytes, 4);
}

#[test]
fn relay_metrics_distinguish_success_from_failure() {
    let mut m = InterlinkMetrics::new();

    metrics::record_connection_start(&mut m);
    assert_eq!(
        record_relay_result::<std::io::Error>(&mut m, Ok((7, 11)), 0).unwrap(),
        (7, 11)
    );

    metrics::record_connection_start(&mut m);
    let error = record_relay_result(
        &mut m,
        Err(std::io::Error::new(
            std::io::ErrorKind::ConnectionReset,
            "injected relay reset",
        )),
        0,
    )
    .unwrap_err();
    assert_eq!(error.kind(), std::io::ErrorKind::ConnectionReset);

    assert_eq!(m.connections_total, 2);
    assert_eq!(m.connection_errors_total, 1);
    assert_eq!(m.bytes_total, 18);
    assert_eq!(m.connection_duration.count, 1);
    assert_eq!(m.connections_active, 0);
}

#[test]
fn every_record_changes_its_own_counters() {
    let mut m = InterlinkMetrics::default();
    assert_eq!(m, InterlinkMetrics::new());
    metrics::record_handshake(&mut m, 30);
    metrics::record_handshake(&mut m, 12);
    metrics::record_handshake_error(&mut m);
    metrics::record_handshake_kind(&mut m, true);
    metrics::record_handshake_kind(&mut m, false);
    metrics::record_handshake_kind(&mut m, false);
    metrics::record_mux_tunnel_opened(&mut m);
    metrics::record_mux_stream(&mut m);
    metrics::record_saturation_rejection(&mut m);
    metrics::record_policy(&mut m, &Decision::Allow);
    metrics::record_policy(&mut m, &Decision::Deny("no"));
    metrics::record_connection_start(&mut m);
    metrics::record_connection_start(&mut m);
    metrics::record_tunnel_closed(&mut m);
    metrics::record_connection(&mut m, 1, 2, 9);
    metrics::record_connection_failed(&mut m);
    assert_eq!(
        m,
        InterlinkMetrics {
            connections_total: 2,
            connection_errors_total: 1,
            connections_active: -1,
            handshakes_total: 3,
            bytes_total: 3,
            connection_duration: Durations { count: 1, total_nanos: 9 },
            handshake_duration: Durations { count: 2, total_nanos: 42 },
            policy_allowed_total: 1,
            policy_denied_total: 1,
            saturation_rejections_total: 1,
            handshake_full_total: 2,
            handshake_resumed_total: 1,
            mux_tunnels_opened_total: 1,
            mux_streams_total: 1,
        }
    );
}
