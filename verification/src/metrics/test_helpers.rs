//! Counters for checking what code records.

use vstd::prelude::*;

verus! {

/// A set of counters.
#[derive(Debug, Clone, Copy, PartialEq, Eq, Structural)]
pub struct TestCounters {
    pub connections: u64,
    pub bytes: u64,
    pub allowed: u64,
    pub denied: u64,
    pub handshake_errors: u64,
}

/// Counters that stand at zero.
pub open spec fn zero_counters() -> TestCounters {
    TestCounters { connections: 0, bytes: 0, allowed: 0, denied: 0, handshake_errors: 0 }
}

impl TestCounters {
    pub fn new() -> (counters: Self)
        ensures
            counters == zero_counters(),
    {
        TestCounters { connections: 0, bytes: 0, allowed: 0, denied: 0, handshake_errors: 0 }
    }
}

/// Counts a connection.
pub fn record_connection(counters: &mut TestCounters)
    ensures
        *final(counters) == (TestCounters {
            connections: old(counters).connections.wrapping_add(1),
            ..*old(counters)
        }),
{
    counters.connections = counters.connections.wrapping_add(1);
}

/// Counts bytes.
pub fn record_bytes(counters: &mut TestCounters, n: u64)
    ensures
        *final(counters) == (TestCounters {
            bytes: old(counters).bytes.wrapping_add(n),
            ..*old(counters)
        }),
{
    counters.bytes = counters.bytes.wrapping_add(n);
}

/// Counts a policy decision.
pub fn record_policy(counters: &mut TestCounters, was_allowed: bool)
    ensures
        *final(counters) == if was_allowed {
            TestCounters { allowed: old(counters).allowed.wrapping_add(1), ..*old(counters) }
        } else {
            TestCounters { denied: old(counters).denied.wrapping_add(1), ..*old(counters) }
        },
{
    if was_allowed {
        counters.allowed = counters.allowed.wrapping_add(1);
    } else {
        counters.denied = counters.denied.wrapping_add(1);
    }
}

/// Counts a connection.
pub fn increment_connections(counters: &mut TestCounters)
    ensures
        *final(counters) == (TestCounters {
            connections: old(counters).connections.wrapping_add(1),
            ..*old(counters)
        }),
{
    record_connection(counters);
}

/// Counts bytes.
pub fn add_bytes(counters: &mut TestCounters, n: u64)
    ensures
        *final(counters) == (TestCounters {
            bytes: old(counters).bytes.wrapping_add(n),
            ..*old(counters)
        }),
{
    record_bytes(counters, n);
}

/// Counts an allowed connection.
pub fn increment_allowed(counters: &mut TestCounters)
    ensures
        *final(counters) == (TestCounters {
            allowed: old(counters).allowed.wrapping_add(1),
            ..*old(counters)
        }),
{
    counters.allowed = counters.allowed.wrapping_add(1);
}

/// Counts a denied connection.
pub fn increment_denied(counters: &mut TestCounters)
    ensures
        *final(counters) == (TestCounters {
            denied: old(counters).denied.wrapping_add(1),
            ..*old(counters)
        }),
{
    counters.denied = counters.denied.wrapping_add(1);
}

/// Counts a failed handshake.
pub fn increment_handshake_errors(counters: &mut TestCounters)
    ensures
        *final(counters) == (TestCounters {
            handshake_errors: old(counters).handshake_errors.wrapping_add(1),
            ..*old(counters)
        }),
{
    counters.handshake_errors = counters.handshake_errors.wrapping_add(1);
}

/// Sets every counter to zero.
pub fn reset(counters: &mut TestCounters)
    ensures
        *final(counters) == zero_counters(),
{
    *counters = TestCounters::new();
}

} // verus!
