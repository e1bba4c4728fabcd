//! Default ports.

use vstd::prelude::*;

verus! {

pub const INBOUND_PROXY: u16 = 4143;

pub const OUTBOUND_PROXY: u16 = 4140;

pub const METRICS: u16 = 4190;

pub const IDENTITY_GRPC: u16 = 4191;

pub const ADMIN: u16 = 4192;

} // verus!
