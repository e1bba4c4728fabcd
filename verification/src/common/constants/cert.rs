//! Certificate defaults, in seconds.

use vstd::prelude::*;

verus! {

pub const LEAF_TTL: i64 = 86_400;

pub const ROOT_CA_TTL: i64 = 31_536_000;

pub const CLOCK_SKEW_TOLERANCE: i64 = 3600;

} // verus!
