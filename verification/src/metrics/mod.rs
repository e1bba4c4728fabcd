//! The counters that the proxy keeps about itself.
//!
//! Counters wrap around at the end of their range, as the exported ones do.

use vstd::prelude::*;

use crate::policy::Decision;

pub mod laws;
pub mod test_helpers;

verus! {

/// What a histogram of durations adds up to.
#[derive(Debug, Clone, Copy, PartialEq, Eq, Structural)]
pub struct Durations {
    /// How many durations were observed.
    pub count: u64,
    /// Their sum in nanoseconds.
    pub total_nanos: u128,
}

impl Durations {
    /// The histogram with one more duration.
    pub open spec fn with(self, nanos: u64) -> Durations {
        Durations {
            count: self.count.wrapping_add(1),
            total_nanos: self.total_nanos.wrapping_add(nanos as u128),
        }
    }

    fn observe(self, nanos: u64) -> (durations: Durations)
        ensures
            durations == self.with(nanos),
    {
        Durations {
            count: self.count.wrapping_add(1),
            total_nanos: self.total_nanos.wrapping_add(nanos as u128),
        }
    }
}

/// The metrics of the proxy.
#[derive(Debug, Clone, Copy, PartialEq, Eq, Structural)]
pub struct InterlinkMetrics {
    pub connections_total: u64,
    pub connection_errors_total: u64,
    pub connections_active: i64,
    pub handshakes_total: u64,
    pub bytes_total: u64,
    pub connection_duration: Durations,
    pub handshake_duration: Durations,
    pub policy_allowed_total: u64,
    pub policy_denied_total: u64,
    pub saturation_rejections_total: u64,
    pub handshake_full_total: u64,
    pub handshake_resumed_total: u64,
    pub mux_tunnels_opened_total: u64,
    pub mux_streams_total: u64,
}

/// Metrics of a proxy that has done nothing.
pub open spec fn no_metrics() -> InterlinkMetrics {
    InterlinkMetrics {
        connections_total: 0,
        connection_errors_total: 0,
        connections_active: 0,
        handshakes_total: 0,
        bytes_total: 0,
        connection_duration: Durations { count: 0, total_nanos: 0 },
        handshake_duration: Durations { count: 0, total_nanos: 0 },
        policy_allowed_total: 0,
        policy_denied_total: 0,
        saturation_rejections_total: 0,
        handshake_full_total: 0,
        handshake_resumed_total: 0,
        mux_tunnels_opened_total: 0,
        mux_streams_total: 0,
    }
}

impl InterlinkMetrics {
    pub fn new() -> (metrics: Self)
        ensures
            metrics == no_metrics(),
    {
        InterlinkMetrics {
            connections_total: 0,
            connection_errors_total: 0,
            connections_active: 0,
            handshakes_total: 0,
            bytes_total: 0,
            connection_duration: Durations { count: 0, total_nanos: 0 },
            handshake_duration: Durations { count: 0, total_nanos: 0 },
            policy_allowed_total: 0,
            policy_denied_total: 0,
            saturation_rejections_total: 0,
            handshake_full_total: 0,
            handshake_resumed_total: 0,
            mux_tunnels_opened_total: 0,
            mux_streams_total: 0,
        }
    }
}

impl Default for InterlinkMetrics {
    fn default() -> (metrics: Self)
        ensures
            metrics == no_metrics(),
    {
        InterlinkMetrics::new()
    }
}

/// The metrics after a relayed connection.
pub open spec fn after_connection(
    m: InterlinkMetrics,
    bytes_up: u64,
    bytes_down: u64,
    duration_nanos: u64,
) -> InterlinkMetrics {
    InterlinkMetrics {
        connection_duration: m.connection_duration.with(duration_nanos),
        connections_total: m.connections_total.wrapping_add(1),
        bytes_total: m.bytes_total.wrapping_add(bytes_up).wrapping_add(bytes_down),
        connections_active: m.connections_active.wrapping_sub(1),
        ..m
    }
}

/// Records a connection that was relayed to its end.
pub fn record_connection(
    metrics: &mut InterlinkMetrics,
    bytes_up: u64,
    bytes_down: u64,
    duration_nanos: u64,
)
    ensures
        *final(metrics) == after_connection(*old(metrics), bytes_up, bytes_down, duration_nanos),
{
    metrics.connection_duration = metrics.connection_duration.observe(duration_nanos);
    metrics.connections_total = metrics.connections_total.wrapping_add(1);
    metrics.bytes_total = metrics.bytes_total.wrapping_add(bytes_up).wrapping_add(bytes_down);
    metrics.connections_active = metrics.connections_active.wrapping_sub(1);
}

/// The metrics after a failed connection.
pub open spec fn after_failure(m: InterlinkMetrics) -> InterlinkMetrics {
    InterlinkMetrics {
        connections_total: m.connections_total.wrapping_add(1),
        connection_errors_total: m.connection_errors_total.wrapping_add(1),
        connections_active: m.connections_active.wrapping_sub(1),
        ..m
    }
}

/// Records a connection that failed. It observes no duration: a failure has none that means
/// anything.
pub fn record_connection_failed(metrics: &mut InterlinkMetrics)
    ensures
        *final(metrics) == after_failure(*old(metrics)),
{
    metrics.connections_total = metrics.connections_total.wrapping_add(1);
    metrics.connection_errors_total = metrics.connection_errors_total.wrapping_add(1);
    metrics.connections_active = metrics.connections_active.wrapping_sub(1);
}

/// The metrics after the start of a connection.
pub open spec fn after_start(m: InterlinkMetrics) -> InterlinkMetrics {
    InterlinkMetrics {
        connections_active: m.connections_active.wrapping_add(1),
        ..m
    }
}

/// Records the start of a connection.
pub fn record_connection_start(metrics: &mut InterlinkMetrics)
    ensures
        *final(metrics) == after_start(*old(metrics)),
{
    metrics.connections_active = metrics.connections_active.wrapping_add(1);
}

/// The metrics after a completed handshake.
pub open spec fn after_handshake(m: InterlinkMetrics, duration_nanos: u64) -> InterlinkMetrics {
    InterlinkMetrics {
        handshake_duration: m.handshake_duration.with(duration_nanos),
        handshakes_total: m.handshakes_total.wrapping_add(1),
        ..m
    }
}

/// Records a completed handshake.
pub fn record_handshake(metrics: &mut InterlinkMetrics, duration_nanos: u64)
    ensures
        *final(metrics) == after_handshake(*old(metrics), duration_nanos),
{
    metrics.handshake_duration = metrics.handshake_duration.observe(duration_nanos);
    metrics.handshakes_total = metrics.handshakes_total.wrapping_add(1);
}

/// The metrics after a failed handshake.
pub open spec fn after_handshake_error(m: InterlinkMetrics) -> InterlinkMetrics {
    InterlinkMetrics {
        handshakes_total: m.handshakes_total.wrapping_add(1),
        ..m
    }
}

/// Records a failed handshake.
pub fn record_handshake_error(metrics: &mut InterlinkMetrics)
    ensures
        *final(metrics) == after_handshake_error(*old(metrics)),
{
    metrics.handshakes_total = metrics.handshakes_total.wrapping_add(1);
}

/// The metrics after the end of a mux tunnel.
pub open spec fn after_tunnel_closed(m: InterlinkMetrics) -> InterlinkMetrics {
    InterlinkMetrics {
        connections_active: m.connections_active.wrapping_sub(1),
        ..m
    }
}

/// Releases the active slot of a mux tunnel. The tunnel is transport, not a connection: its
/// streams carry the accounting.
pub fn record_tunnel_closed(metrics: &mut InterlinkMetrics)
    ensures
        *final(metrics) == after_tunnel_closed(*old(metrics)),
{
    metrics.connections_active = metrics.connections_active.wrapping_sub(1);
}

/// The metrics after a mux tunnel was opened.
pub open spec fn after_tunnel_opened(m: InterlinkMetrics) -> InterlinkMetrics {
    InterlinkMetrics {
        mux_tunnels_opened_total: m.mux_tunnels_opened_total.wrapping_add(1),
        ..m
    }
}

/// Records a mux tunnel opened by this side.
pub fn record_mux_tunnel_opened(metrics: &mut InterlinkMetrics)
    ensures
        *final(metrics) == after_tunnel_opened(*old(metrics)),
{
    metrics.mux_tunnels_opened_total = metrics.mux_tunnels_opened_total.wrapping_add(1);
}

/// The metrics after a mux stream.
pub open spec fn after_mux_stream(m: InterlinkMetrics) -> InterlinkMetrics {
    InterlinkMetrics {
        mux_streams_total: m.mux_streams_total.wrapping_add(1),
        ..m
    }
}

/// Records a stream carried over a mux tunnel.
pub fn record_mux_stream(metrics: &mut InterlinkMetrics)
    ensures
        *final(metrics) == after_mux_stream(*old(metrics)),
{
    metrics.mux_streams_total = metrics.mux_streams_total.wrapping_add(1);
}

/// The metrics after a rejected connection.
pub open spec fn after_saturation_rejection(m: InterlinkMetrics) -> InterlinkMetrics {
    InterlinkMetrics {
        saturation_rejections_total: m.saturation_rejections_total.wrapping_add(1),
        ..m
    }
}

/// Records a connection rejected at the connection limit.
pub fn record_saturation_rejection(metrics: &mut InterlinkMetrics)
    ensures
        *final(metrics) == after_saturation_rejection(*old(metrics)),
{
    metrics.saturation_rejections_total = metrics.saturation_rejections_total.wrapping_add(1);
}

/// The metrics after a handshake of a kind.
pub open spec fn after_handshake_kind(m: InterlinkMetrics, resumed: bool) -> InterlinkMetrics {
    if resumed {
        InterlinkMetrics { handshake_resumed_total: m.handshake_resumed_total.wrapping_add(1), ..m }
    } else {
        InterlinkMetrics { handshake_full_total: m.handshake_full_total.wrapping_add(1), ..m }
    }
}

/// Records whether a handshake was a full one or resumed a session.
pub fn record_handshake_kind(metrics: &mut InterlinkMetrics, resumed: bool)
    ensures
        *final(metrics) == after_handshake_kind(*old(metrics), resumed),
{
    if resumed {
        metrics.handshake_resumed_total = metrics.handshake_resumed_total.wrapping_add(1);
    } else {
        metrics.handshake_full_total = metrics.handshake_full_total.wrapping_add(1);
    }
}

/// The metrics after a policy decision.
pub open spec fn after_policy(m: InterlinkMetrics, decision: Decision) -> InterlinkMetrics {
    match decision {
        Decision::Allow => InterlinkMetrics {
            policy_allowed_total: m.policy_allowed_total.wrapping_add(1),
            ..m
        },
        Decision::Deny(_) => InterlinkMetrics {
            policy_denied_total: m.policy_denied_total.wrapping_add(1),
            ..m
        },
    }
}

/// Records a policy decision.
pub fn record_policy(metrics: &mut InterlinkMetrics, decision: &Decision)
    ensures
        *final(metrics) == after_policy(*old(metrics), *decision),
{
    match decision {
        Decision::Allow => {
            metrics.policy_allowed_total = metrics.policy_allowed_total.wrapping_add(1);
        },
        Decision::Deny(_) => {
            metrics.policy_denied_total = metrics.policy_denied_total.wrapping_add(1);
        },
    }
}

} // verus!
