//! Default timeouts, in seconds.

use vstd::prelude::*;

verus! {

/// TLS 1.3 handshake timeout (RFC 8446 §4).
pub const TLS_HANDSHAKE: u64 = 10;

pub const TCP_IDLE: u64 = 300;

pub const DNS_RESOLVE: u64 = 5;

pub const SHUTDOWN_GRACE: u64 = 30;

} // verus!
