//! What holds of the metrics taken together.

use vstd::prelude::*;

use crate::metrics;
use crate::metrics::test_helpers;
use crate::metrics::test_helpers::TestCounters;
use crate::metrics::{Durations, InterlinkMetrics};
use crate::policy::Decision;

verus! {

/// A connection gives its active slot back, however it ends: relayed, failed, or as the transport
/// of a tunnel.
pub proof fn law_active_slot_is_given_back(
    m: InterlinkMetrics,
    bytes_up: u64,
    bytes_down: u64,
    duration_nanos: u64,
)
    ensures
        metrics::after_connection(
            metrics::after_start(m),
            bytes_up,
            bytes_down,
            duration_nanos,
        ).connections_active == m.connections_active,
        metrics::after_failure(metrics::after_start(m)).connections_active == m.connections_active,
        metrics::after_tunnel_closed(metrics::after_start(m)) == m,
{
}

/// A failed connection is counted, and observes no duration and no bytes.
pub proof fn law_failure_observes_nothing(m: InterlinkMetrics)
    ensures
        metrics::after_failure(m).connections_total == m.connections_total.wrapping_add(1),
        metrics::after_failure(m).connection_errors_total == m.connection_errors_total.wrapping_add(
            1,
        ),
        metrics::after_failure(m).connection_duration == m.connection_duration,
        metrics::after_failure(m).bytes_total == m.bytes_total,
{
}

/// Whether a counter went up, past the end of its range to its start.
pub open spec fn went_up(before: u64, after: u64, by: u64) -> bool {
    after == before + by || after + 0x1_0000_0000_0000_0000 == before + by
}

/// Whether a gauge changed by some steps, past the end of its range to the other end.
pub open spec fn moved(before: i64, after: i64, by: int) -> bool {
    ||| after == before + by
    ||| after + 0x1_0000_0000_0000_0000 == before + by
    ||| after - 0x1_0000_0000_0000_0000 == before + by
}

/// Whether a histogram observed one duration.
pub open spec fn observed(before: Durations, after: Durations, nanos: u64) -> bool {
    &&& went_up(before.count, after.count, 1)
    &&& after.total_nanos == before.total_nanos + nanos || after.total_nanos
        + 0x1_0000_0000_0000_0000_0000_0000_0000_0000 == before.total_nanos + nanos
}

/// How much the counters of the proxy changed: each by as much as is given.
pub struct Change {
    pub connections_total: u64,
    pub connection_errors_total: u64,
    pub handshakes_total: u64,
    pub bytes_total: u64,
    pub policy_allowed_total: u64,
    pub policy_denied_total: u64,
    pub saturation_rejections_total: u64,
    pub handshake_full_total: u64,
    pub handshake_resumed_total: u64,
    pub mux_tunnels_opened_total: u64,
    pub mux_streams_total: u64,
    pub connections_active: int,
}

/// No change.
pub open spec fn unchanged() -> Change {
    Change {
        connections_total: 0,
        connection_errors_total: 0,
        handshakes_total: 0,
        bytes_total: 0,
        policy_allowed_total: 0,
        policy_denied_total: 0,
        saturation_rejections_total: 0,
        handshake_full_total: 0,
        handshake_resumed_total: 0,
        mux_tunnels_opened_total: 0,
        mux_streams_total: 0,
        connections_active: 0,
    }
}

/// Whether the counters changed by as much as is given.
pub open spec fn changed(before: InterlinkMetrics, after: InterlinkMetrics, by: Change) -> bool {
    &&& went_up(before.connections_total, after.connections_total, by.connections_total)
    &&& went_up(before.connection_errors_total, after.connection_errors_total, by.connection_errors_total)
    &&& went_up(before.handshakes_total, after.handshakes_total, by.handshakes_total)
    &&& went_up(before.bytes_total, after.bytes_total, by.bytes_total)
    &&& went_up(before.policy_allowed_total, after.policy_allowed_total, by.policy_allowed_total)
    &&& went_up(before.policy_denied_total, after.policy_denied_total, by.policy_denied_total)
    &&& went_up(before.saturation_rejections_total, after.saturation_rejections_total, by.saturation_rejections_total)
    &&& went_up(before.handshake_full_total, after.handshake_full_total, by.handshake_full_total)
    &&& went_up(before.handshake_resumed_total, after.handshake_resumed_total, by.handshake_resumed_total)
    &&& went_up(before.mux_tunnels_opened_total, after.mux_tunnels_opened_total, by.mux_tunnels_opened_total)
    &&& went_up(before.mux_streams_total, after.mux_streams_total, by.mux_streams_total)
    &&& moved(before.connections_active, after.connections_active, by.connections_active)
}

/// Whether no duration was observed.
pub open spec fn no_duration(before: InterlinkMetrics, after: InterlinkMetrics) -> bool {
    &&& after.connection_duration == before.connection_duration
    &&& after.handshake_duration == before.handshake_duration
}

/// A proxy that has done nothing has counted nothing.
pub proof fn law_counting_begins_at_zero(new: InterlinkMetrics, default: InterlinkMetrics)
    requires
        call_ensures(InterlinkMetrics::new, (), new),
        call_ensures(<InterlinkMetrics as Default>::default, (), default),
    ensures
        new == default,
        new.connections_total == 0,
        new.connection_errors_total == 0,
        new.handshakes_total == 0,
        new.bytes_total == 0,
        new.policy_allowed_total == 0,
        new.policy_denied_total == 0,
        new.saturation_rejections_total == 0,
        new.handshake_full_total == 0,
        new.handshake_resumed_total == 0,
        new.mux_tunnels_opened_total == 0,
        new.mux_streams_total == 0,
        new.connections_active == 0,
        new.connection_duration.count == 0,
        new.connection_duration.total_nanos == 0,
        new.handshake_duration.count == 0,
        new.handshake_duration.total_nanos == 0,
{
}

/// A relayed connection counts once, with its bytes of both directions and its duration, and is
/// active no more.
pub proof fn law_relayed_connections_are_counted(
    m: &mut InterlinkMetrics,
    up: u64,
    down: u64,
    nanos: u64,
)
    requires
        call_ensures(metrics::record_connection, (m, up, down, nanos), ()),
    ensures
        up + down <= u64::MAX ==> changed(
            *old(m),
            *final(m),
            (Change {
                connections_total: 1,
                bytes_total: (up + down) as u64,
                connections_active: -1,
                ..unchanged()
            }),
        ),
        observed(old(m).connection_duration, final(m).connection_duration, nanos),
        final(m).handshake_duration == old(m).handshake_duration,
        final(m).connections_total == old(m).connections_total.wrapping_add(1),
        final(m).connection_errors_total == old(m).connection_errors_total,
        final(m).bytes_total == old(m).bytes_total.wrapping_add(up).wrapping_add(down),
{
}

/// A failed connection counts once, as a failure too, and is active no more.
pub proof fn law_failed_connections_are_counted(m: &mut InterlinkMetrics)
    requires
        call_ensures(metrics::record_connection_failed, (m,), ()),
    ensures
        changed(
            *old(m),
            *final(m),
            (Change {
                connections_total: 1,
                connection_errors_total: 1,
                connections_active: -1,
                ..unchanged()
            }),
        ),
        no_duration(*old(m), *final(m)),
{
}

/// A connection that begins is active, and is not counted yet.
pub proof fn law_begun_connections_are_active(m: &mut InterlinkMetrics)
    requires
        call_ensures(metrics::record_connection_start, (m,), ()),
    ensures
        changed(*old(m), *final(m), (Change { connections_active: 1, ..unchanged() })),
        no_duration(*old(m), *final(m)),
{
}

/// A completed handshake counts once, with its duration.
pub proof fn law_handshakes_are_counted(m: &mut InterlinkMetrics, nanos: u64)
    requires
        call_ensures(metrics::record_handshake, (m, nanos), ()),
    ensures
        changed(*old(m), *final(m), (Change { handshakes_total: 1, ..unchanged() })),
        observed(old(m).handshake_duration, final(m).handshake_duration, nanos),
        final(m).connection_duration == old(m).connection_duration,
{
}

/// A failed handshake counts once, without a duration.
pub proof fn law_failed_handshakes_are_counted(m: &mut InterlinkMetrics)
    requires
        call_ensures(metrics::record_handshake_error, (m,), ()),
    ensures
        changed(*old(m), *final(m), (Change { handshakes_total: 1, ..unchanged() })),
        no_duration(*old(m), *final(m)),
{
}

/// A tunnel that ends is active no more, and counts as no connection.
pub proof fn law_ended_tunnels_are_not_counted(m: &mut InterlinkMetrics)
    requires
        call_ensures(metrics::record_tunnel_closed, (m,), ()),
    ensures
        changed(*old(m), *final(m), (Change { connections_active: -1, ..unchanged() })),
        no_duration(*old(m), *final(m)),
{
}

/// A tunnel that is opened counts once.
pub proof fn law_opened_tunnels_are_counted(m: &mut InterlinkMetrics)
    requires
        call_ensures(metrics::record_mux_tunnel_opened, (m,), ()),
    ensures
        changed(*old(m), *final(m), (Change { mux_tunnels_opened_total: 1, ..unchanged() })),
        no_duration(*old(m), *final(m)),
{
}

/// A stream of a tunnel counts once.
pub proof fn law_streams_are_counted(m: &mut InterlinkMetrics)
    requires
        call_ensures(metrics::record_mux_stream, (m,), ()),
    ensures
        changed(*old(m), *final(m), (Change { mux_streams_total: 1, ..unchanged() })),
        no_duration(*old(m), *final(m)),
{
}

/// A connection that is rejected at the limit counts as that.
pub proof fn law_rejections_are_counted(m: &mut InterlinkMetrics)
    requires
        call_ensures(metrics::record_saturation_rejection, (m,), ()),
    ensures
        changed(*old(m), *final(m), (Change { saturation_rejections_total: 1, ..unchanged() })),
        no_duration(*old(m), *final(m)),
{
}

/// A handshake counts as resumed or as full.
pub proof fn law_kinds_of_handshakes_are_counted(m: &mut InterlinkMetrics, resumed: bool)
    requires
        call_ensures(metrics::record_handshake_kind, (m, resumed), ()),
    ensures
        resumed ==> changed(
            *old(m),
            *final(m),
            (Change { handshake_resumed_total: 1, ..unchanged() }),
        ),
        !resumed ==> changed(
            *old(m),
            *final(m),
            (Change { handshake_full_total: 1, ..unchanged() }),
        ),
        no_duration(*old(m), *final(m)),
{
}

/// A decision counts as allowed or as denied.
pub proof fn law_decisions_are_counted(m: &mut InterlinkMetrics, decision: Decision)
    requires
        call_ensures(metrics::record_policy, (m, &decision), ()),
    ensures
        decision is Allow ==> changed(
            *old(m),
            *final(m),
            (Change { policy_allowed_total: 1, ..unchanged() }),
        ),
        decision is Deny ==> changed(
            *old(m),
            *final(m),
            (Change { policy_denied_total: 1, ..unchanged() }),
        ),
        no_duration(*old(m), *final(m)),
{
}

/// Whether each of a set of counters changed by as much as is given.
pub open spec fn counters_changed(
    before: TestCounters,
    after: TestCounters,
    connections: u64,
    bytes: u64,
    allowed: u64,
    denied: u64,
    handshake_errors: u64,
) -> bool {
    &&& went_up(before.connections, after.connections, connections)
    &&& went_up(before.bytes, after.bytes, bytes)
    &&& went_up(before.allowed, after.allowed, allowed)
    &&& went_up(before.denied, after.denied, denied)
    &&& went_up(before.handshake_errors, after.handshake_errors, handshake_errors)
}

/// Test counters begin at zero, and go back to it.
pub proof fn law_test_counters_are_reset(new: TestCounters, c: &mut TestCounters)
    requires
        call_ensures(TestCounters::new, (), new),
        call_ensures(test_helpers::reset, (c,), ()),
    ensures
        new.connections == 0 && new.bytes == 0 && new.allowed == 0 && new.denied == 0
            && new.handshake_errors == 0,
        *final(c) == new,
{
}

/// Both ways to count a connection count it, and nothing else.
pub proof fn law_test_connections_are_counted(c: &mut TestCounters)
    requires
        call_ensures(test_helpers::record_connection, (c,), ())
            || call_ensures(test_helpers::increment_connections, (c,), ()),
    ensures
        counters_changed(*old(c), *final(c), 1, 0, 0, 0, 0),
{
}

/// Both ways to count bytes count them, and nothing else.
pub proof fn law_test_bytes_are_counted(c: &mut TestCounters, n: u64)
    requires
        call_ensures(test_helpers::record_bytes, (c, n), ())
            || call_ensures(test_helpers::add_bytes, (c, n), ()),
    ensures
        counters_changed(*old(c), *final(c), 0, n, 0, 0, 0),
{
}

/// An allowed connection is counted, and nothing else.
pub proof fn law_test_allowances_are_counted(c: &mut TestCounters)
    requires
        call_ensures(test_helpers::increment_allowed, (c,), ()),
    ensures
        counters_changed(*old(c), *final(c), 0, 0, 1, 0, 0),
{
}

/// A denied connection is counted, and nothing else.
pub proof fn law_test_denials_are_counted(c: &mut TestCounters)
    requires
        call_ensures(test_helpers::increment_denied, (c,), ()),
    ensures
        counters_changed(*old(c), *final(c), 0, 0, 0, 1, 0),
{
}

/// A failed handshake is counted, and nothing else.
pub proof fn law_test_handshake_errors_are_counted(c: &mut TestCounters)
    requires
        call_ensures(test_helpers::increment_handshake_errors, (c,), ()),
    ensures
        counters_changed(*old(c), *final(c), 0, 0, 0, 0, 1),
{
}

/// A decision is counted as allowed or as denied.
pub proof fn law_test_decisions_are_counted(c: &mut TestCounters, allowed: bool)
    requires
        call_ensures(test_helpers::record_policy, (c, allowed), ()),
    ensures
        allowed ==> counters_changed(*old(c), *final(c), 0, 0, 1, 0, 0),
        !allowed ==> counters_changed(*old(c), *final(c), 0, 0, 0, 1, 0),
{
}

} // verus!
