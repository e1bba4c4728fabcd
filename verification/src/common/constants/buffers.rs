//! Buffer sizes, in bytes.

use vstd::prelude::*;

verus! {

pub const PROTOCOL_DETECT: usize = 32;

pub const SOCKET_READ: usize = 16_384;

pub const MAX_FRAME_SIZE: u32 = 16_777_215;

} // verus!
