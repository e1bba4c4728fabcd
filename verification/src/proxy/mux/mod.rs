//! Multiplexed mTLS tunnels between proxies.
//!
//! One mTLS connection per upstream peer carries many application connections as streams, so that
//! the handshake is paid once per peer. Both sides agree on it through ALPN; peers that do not
//! offer it get a connection each.
//!
//! | State of a peer | What is done | What follows |
//! |---|---|---|
//! | no tunnel | TLS connect; with mux negotiated, the tunnel is registered | a live tunnel, or a connection of its own |
//! | live tunnel | a stream is opened, without a handshake | a relay |
//! | dead tunnel | it is evicted, and the connection is routed anew | a fresh tunnel, or a connection of its own |

use vstd::prelude::*;
use vstd::utf8::encode_utf8;

use crate::bytes;

pub mod driver;
pub mod laws;
pub mod pool;
pub mod pool_laws;

pub use driver::TunnelDriver;
pub use pool::{MuxPool, Tunnel};

verus! {

/// The ALPN protocol of multiplexed tunnels.
pub const ALPN_MUX: &'static str = "il/mux/1";

/// Whether the negotiated ALPN protocol is the one of multiplexed tunnels.
pub open spec fn mux_negotiated(alpn: Option<Vec<u8>>) -> bool {
    alpn matches Some(protocol) && protocol@ == encode_utf8("il/mux/1"@)
}

/// Whether a handshake agreed on a tunnel.
pub fn is_mux(alpn: &Option<Vec<u8>>) -> (mux: bool)
    ensures
        mux == mux_negotiated(*alpn),
{
    match alpn {
        Some(protocol) => {
            assert(protocol@.subrange(0, protocol@.len() as int) =~= protocol@);
            bytes::spells(protocol.as_slice(), 0, protocol.len(), ALPN_MUX)
        },
        None => false,
    }
}

} // verus!
