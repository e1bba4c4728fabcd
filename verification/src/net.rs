//! Network addresses as plain values.

use vstd::prelude::*;

verus! {

/// An IP address, as the number that its bits write in network order.
#[derive(Debug, Clone, Copy, PartialEq, Eq, Hash, Structural)]
pub enum IpAddress {
    V4(u32),
    V6(u128),
}

/// An address to connect to. Flow information and scope belong to IPv6; they are 0 elsewhere.
#[derive(Debug, Clone, Copy, PartialEq, Eq, Hash, Structural)]
pub struct SocketAddress {
    pub ip: IpAddress,
    pub port: u16,
    pub flowinfo: u32,
    pub scope_id: u32,
}

impl SocketAddress {
    /// The address of a port on a host.
    pub fn new(ip: IpAddress, port: u16) -> (address: Self)
        ensures
            address == (SocketAddress { ip, port, flowinfo: 0, scope_id: 0 }),
    {
        SocketAddress { ip, port, flowinfo: 0, scope_id: 0 }
    }
}

} // verus!
