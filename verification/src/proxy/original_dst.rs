//! The destination that a connection had before the system redirected it.

use vstd::prelude::*;

use crate::net::{IpAddress, SocketAddress};

verus! {

/// The number that bytes in network order write.
pub open spec fn network_order(bytes: Seq<u8>) -> nat
    decreases bytes.len(),
{
    if bytes.len() == 0 {
        0
    } else {
        network_order(bytes.drop_last()) * 256 + bytes.last() as nat
    }
}

/// What the system reports of an IPv4 destination: port and address in network order.
#[derive(Debug, Clone, Copy)]
pub struct RawV4 {
    pub port: [u8; 2],
    pub address: [u8; 4],
}

/// What the system reports of an IPv6 destination: port and address in network order.
#[derive(Debug, Clone, Copy)]
pub struct RawV6 {
    pub port: [u8; 2],
    pub address: [u8; 16],
}

/// The destination, given what the system reports. IPv4 is asked first; None where the system
/// reports nothing.
pub open spec fn reported_destination(v4: Option<RawV4>, v6: Option<RawV6>) -> Option<
    SocketAddress,
> {
    match v4 {
        Some(raw) => Some(
            SocketAddress {
                ip: IpAddress::V4(network_order(raw.address@) as u32),
                port: network_order(raw.port@) as u16,
                flowinfo: 0,
                scope_id: 0,
            },
        ),
        None => match v6 {
            Some(raw) => Some(
                SocketAddress {
                    ip: IpAddress::V6(network_order(raw.address@) as u128),
                    port: network_order(raw.port@) as u16,
                    flowinfo: 0,
                    scope_id: 0,
                },
            ),
            None => None,
        },
    }
}

/// 256 to a power.
spec fn pow256(n: nat) -> nat
    decreases n,
{
    if n == 0 {
        1
    } else {
        256 * pow256((n - 1) as nat)
    }
}

proof fn lemma_pow256_grows(a: nat, b: nat)
    requires
        a <= b,
    ensures
        0 < pow256(a) <= pow256(b),
    decreases b,
{
    if a < b {
        lemma_pow256_grows(a, (b - 1) as nat);
    } else if a > 0 {
        lemma_pow256_grows((a - 1) as nat, (a - 1) as nat);
    }
}

/// The number that up to 16 bytes in network order write.
fn read_network_order(bytes: &[u8]) -> (n: u128)
    requires
        bytes@.len() <= 16,
    ensures
        n == network_order(bytes@),
        n < pow256(bytes@.len()),
{
    proof {
        reveal_with_fuel(pow256, 17);
        assert(pow256(16) == 0x1_0000_0000_0000_0000_0000_0000_0000_0000nat);
    }
    let mut n: u128 = 0;
    let mut i: usize = 0;
    assert(bytes@.take(0) =~= Seq::<u8>::empty());
    while i < bytes.len()
        invariant
            i <= bytes@.len() <= 16,
            pow256(16) == 0x1_0000_0000_0000_0000_0000_0000_0000_0000nat,
            n == network_order(bytes@.take(i as int)),
            n < pow256(i as nat),
        decreases bytes@.len() - i,
    {
        proof {
            assert(bytes@.take(i + 1).drop_last() =~= bytes@.take(i as int));
            assert(pow256((i + 1) as nat) == 256 * pow256(i as nat));
            lemma_pow256_grows((i + 1) as nat, 16);
        }
        n = n * 256 + bytes[i] as u128;
        i = i + 1;
    }
    assert(bytes@.take(bytes@.len() as int) =~= bytes@);
    n
}

/// The destination that a connection had before it was redirected, given what the system reports.
pub fn get_original_dst(v4: Option<RawV4>, v6: Option<RawV6>) -> (destination: Option<
    SocketAddress,
>)
    ensures
        destination == reported_destination(v4, v6),
{
    proof {
        reveal_with_fuel(pow256, 5);
    }
    if let Some(raw) = v4 {
        let address: u128 = read_network_order(raw.address.as_slice());
        let port: u128 = read_network_order(raw.port.as_slice());
        return Some(SocketAddress::new(IpAddress::V4(address as u32), port as u16));
    }
    if let Some(raw) = v6 {
        let address: u128 = read_network_order(raw.address.as_slice());
        let port: u128 = read_network_order(raw.port.as_slice());
        return Some(SocketAddress::new(IpAddress::V6(address), port as u16));
    }
    None
}

} // verus!
