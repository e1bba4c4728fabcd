//! The data plane: what both proxies decide by.

use vstd::prelude::*;

use crate::common::error::InterlinkError;
use crate::common::identity;
use crate::common::identity::{SpiffeId, SpiffeParts};
use crate::discovery::dns::ResolvedEndpoints;
use crate::metrics;
use crate::metrics::InterlinkMetrics;
use crate::net::SocketAddress;
use crate::number;
use crate::text;

pub mod config;
pub mod credential_laws;
pub mod handshake;
pub mod inbound_laws;
pub mod laws;
pub mod lifecycle;
pub mod mux;
pub mod original_dst;
pub mod outbound;
pub mod outbound_laws;
pub mod pool;
pub mod reload;
pub mod service_laws;
pub mod tcp;
pub mod verify;

verus! {

/// Where a connection goes: an address, or a host that is still to be resolved.
#[derive(Debug)]
pub enum UpstreamTarget {
    Socket(SocketAddress),
    Host { name: String, port: Option<u16> },
}

/// A target as a value.
pub enum Target {
    Socket(SocketAddress),
    Host { name: Seq<char>, port: Option<u16> },
}

impl View for UpstreamTarget {
    type V = Target;

    open spec fn view(&self) -> Target {
        match self {
            UpstreamTarget::Socket(address) => Target::Socket(*address),
            UpstreamTarget::Host { name, port } => Target::Host { name: name@, port: *port },
        }
    }
}

impl Clone for UpstreamTarget {
    fn clone(&self) -> (copy: Self)
        ensures
            copy == *self,
    {
        match self {
            UpstreamTarget::Socket(address) => UpstreamTarget::Socket(*address),
            UpstreamTarget::Host { name, port } => UpstreamTarget::Host {
                name: name.clone(),
                port: *port,
            },
        }
    }
}

/// A host, with the port behind its last `:` where that is a port number.
pub open spec fn host_target(value: Seq<char>) -> Target {
    let colon = text::last_of(value, ':');
    if colon < 0 {
        Target::Host { name: value, port: None }
    } else {
        match number::number_value(value.skip(colon + 1), 65535) {
            Ok(port) => Target::Host { name: value.take(colon), port: Some(port as u16) },
            Err(_) => Target::Host { name: value, port: None },
        }
    }
}

/// A target in text.
pub open spec fn host_text(name: Seq<char>, port: Option<u16>) -> Seq<char> {
    match port {
        Some(port) => name + ":"@ + number::decimal(port as nat),
        None => name,
    }
}

/// The target that a configuration value names: none where it is missing or empty, the socket
/// address that it reads as, or else a host.
pub open spec fn configured_upstream(
    target: Option<UpstreamTarget>,
    value: Option<String>,
    socket: Option<SocketAddress>,
) -> bool {
    match value {
        None => target is None,
        Some(text) => if text@.len() == 0 {
            target is None
        } else {
            target matches Some(t) && t@ == match socket {
                Some(address) => Target::Socket(address),
                None => host_target(text@),
            }
        },
    }
}

/// The destination of a redirected connection, unless it lies on our own port.
pub open spec fn redirected_target(
    original_dst: Option<SocketAddress>,
    listen_port: u16,
) -> Option<UpstreamTarget> {
    match original_dst {
        Some(address) => if address.port != listen_port {
            Some(UpstreamTarget::Socket(address))
        } else {
            None
        },
        None => None,
    }
}

/// The destination that a connection had before it was redirected here. Without a redirect the
/// system reports the address that was connected to, which lies on our own port: connecting to it
/// would be connecting to ourselves.
pub fn redirected(original_dst: Option<SocketAddress>, listen_port: u16) -> (target: Option<
    UpstreamTarget,
>)
    ensures
        target == redirected_target(original_dst, listen_port),
{
    match original_dst {
        Some(address) => if address.port != listen_port {
            Some(UpstreamTarget::Socket(address))
        } else {
            None
        },
        None => None,
    }
}

impl UpstreamTarget {
    /// The target that a configuration value names. `socket` is the socket address that the value
    /// reads as, if it reads as one.
    pub fn from_config(value: Option<String>, socket: Option<SocketAddress>) -> (target: Option<
        Self,
    >)
        ensures
            configured_upstream(target, value, socket),
    {
        let value: String = match value {
            None => {
                return None;
            },
            Some(value) => value,
        };
        if value.as_str().is_empty() {
            return None;
        }
        if let Some(address) = socket {
            return Some(UpstreamTarget::Socket(address));
        }
        let chars: Vec<char> = text::chars_of(value.as_str());
        if let Some(colon) = text::find_last(&chars, ':') {
            let port: String = text::string_of(&chars, colon + 1, chars.len());
            assert(chars@.subrange(colon + 1, chars@.len() as int) =~= chars@.skip(colon + 1));
            assert(chars@.subrange(0, colon as int) =~= chars@.take(colon as int));
            if let Ok(number) = number::parse_number(port.as_str(), 65535) {
                return Some(
                    UpstreamTarget::Host {
                        name: text::string_of(&chars, 0, colon),
                        port: Some(number as u16),
                    },
                );
            }
        }
        Some(UpstreamTarget::Host { name: value, port: None })
    }
}

/// A host and its port in text.
fn write_host(name: &str, port: Option<u16>) -> (s: String)
    ensures
        s@ == host_text(name@, port),
{
    match port {
        Some(port) => name.to_owned().concat(":").concat(
            number::write_decimal(port as u64).as_str(),
        ),
        None => name.to_owned(),
    }
}

/// How a target becomes an address.
#[derive(Debug)]
pub enum Resolution {
    /// It is one.
    Address(SocketAddress),
    /// The name has to be looked up.
    Lookup(String),
    /// It can not: there is no service discovery.
    Impossible(InterlinkError),
}

/// Begins to resolve a target, with service discovery or without.
pub fn resolve_upstream(target: &UpstreamTarget, has_discovery: bool) -> (resolution: Resolution)
    ensures
        match target@ {
            Target::Socket(address) => resolution == Resolution::Address(address),
            Target::Host { name, port } => if has_discovery {
                resolution matches Resolution::Lookup(n) && n@ == name
            } else {
                resolution matches Resolution::Impossible(InterlinkError::DnsResolution(m)) && m@
                    == "cannot resolve hostname '"@ + host_text(name, port)
                    + "' without discovery"@
            },
        },
{
    match target {
        UpstreamTarget::Socket(address) => Resolution::Address(*address),
        UpstreamTarget::Host { name, port } => if has_discovery {
            Resolution::Lookup(name.clone())
        } else {
            Resolution::Impossible(
                InterlinkError::DnsResolution(
                    "cannot resolve hostname '".to_owned().concat(
                        write_host(name.as_str(), *port).as_str(),
                    ).concat("' without discovery"),
                ),
            )
        },
    }
}

/// Ends the resolution of a target: the first address that was found, with the port that the
/// target names or else the port that was found.
pub fn finish_resolution(
    target: &UpstreamTarget,
    found: Result<ResolvedEndpoints, InterlinkError>,
) -> (result: Result<SocketAddress, InterlinkError>)
    ensures
        match target@ {
            Target::Socket(address) => result == Ok::<SocketAddress, InterlinkError>(address),
            Target::Host { name, port } => match found {
                Err(error) => result == Err::<SocketAddress, InterlinkError>(error),
                Ok(endpoints) => if endpoints@.addrs.len() == 0 {
                    result matches Err(InterlinkError::DnsResolution(m)) && m@
                        == "no endpoints for "@ + host_text(name, port)
                } else {
                    result == Ok::<SocketAddress, InterlinkError>(
                        SocketAddress {
                            ip: endpoints@.addrs[0].ip,
                            port: match port {
                                Some(port) => port,
                                None => endpoints@.addrs[0].port,
                            },
                            flowinfo: 0,
                            scope_id: 0,
                        },
                    )
                },
            },
        },
{
    match target {
        UpstreamTarget::Socket(address) => Ok(*address),
        UpstreamTarget::Host { name, port } => {
            let endpoints: ResolvedEndpoints = match found {
                Ok(endpoints) => endpoints,
                Err(error) => {
                    return Err(error);
                },
            };
            if endpoints.addrs.len() == 0 {
                return Err(
                    InterlinkError::DnsResolution(
                        "no endpoints for ".to_owned().concat(
                            write_host(name.as_str(), *port).as_str(),
                        ),
                    ),
                );
            }
            let first: SocketAddress = endpoints.addrs[0];
            let port: u16 = match port {
                Some(port) => *port,
                None => first.port,
            };
            Ok(SocketAddress::new(first.ip, port))
        },
    }
}

/// The buffer size of a relay where nothing sets it.
pub const DEFAULT_COPY_BUF_SIZE: usize = 65536;

/// The number that a setting writes, if it writes one that fits.
pub open spec fn setting_value(setting: Option<&str>) -> Option<nat> {
    match setting {
        Some(text) => match number::number_value(text@, usize::MAX as nat) {
            Ok(n) => Some(n),
            Err(_) => None,
        },
        None => None,
    }
}

fn read_setting(setting: Option<&str>) -> (value: Option<usize>)
    ensures
        match setting_value(setting) {
            Some(n) => value matches Some(v) && v == n,
            None => value is None,
        },
{
    match setting {
        Some(text) => match number::parse_number(text, usize::MAX as u64) {
            Ok(n) => Some(n as usize),
            Err(_) => None,
        },
        None => None,
    }
}

/// `n`, or the end of `low..=high` that is closest to it.
pub open spec fn clamped(n: nat, low: nat, high: nat) -> nat {
    if n < low {
        low
    } else if n > high {
        high
    } else {
        n
    }
}

/// The buffer size of a relay: the setting (4 KiB to 1 MiB), or 64 KiB.
pub fn copy_buf_size(setting: Option<&str>) -> (size: usize)
    ensures
        size == match setting_value(setting) {
            Some(n) => clamped(n, 4096, 1_048_576),
            None => DEFAULT_COPY_BUF_SIZE as nat,
        },
{
    let n: usize = match read_setting(setting) {
        Some(n) => n,
        None => DEFAULT_COPY_BUF_SIZE,
    };
    if n < 4096 {
        4096
    } else if n > 1_048_576 {
        1_048_576
    } else {
        n
    }
}

/// The number of acceptors per listener: the setting (1 to 16), or the number of cores, at most 4.
/// Two where the number of cores is unknown.
pub fn num_acceptors(setting: Option<&str>, cores: Option<usize>) -> (n: usize)
    ensures
        n == match setting_value(setting) {
            Some(n) => clamped(n, 1, 16),
            None => match cores {
                Some(cores) => clamped(cores as nat, 0, 4),
                None => 2,
            },
        },
{
    match read_setting(setting) {
        Some(n) => if n < 1 {
            1
        } else if n > 16 {
            16
        } else {
            n
        },
        None => match cores {
            Some(cores) => if cores > 4 {
                4
            } else {
                cores
            },
            None => 2,
        },
    }
}

/// The metrics after a relay: a failure leaves no duration behind.
pub open spec fn after_relay(
    m: InterlinkMetrics,
    outcome: Option<(u64, u64)>,
    nanos: u64,
) -> InterlinkMetrics {
    match outcome {
        Some((up, down)) => metrics::after_connection(m, up, down, nanos),
        None => metrics::after_failure(m),
    }
}

/// Records the outcome of a relay that took `nanos`, and hands it back.
pub fn record_relay_result<E>(
    metrics: &mut InterlinkMetrics,
    outcome: Result<(u64, u64), E>,
    nanos: u64,
) -> (same: Result<(u64, u64), E>)
    ensures
        same == outcome,
        *final(metrics) == after_relay(
            *old(metrics),
            match outcome {
                Ok(bytes) => Some(bytes),
                Err(_) => None,
            },
            nanos,
        ),
{
    match &outcome {
        Ok((up, down)) => metrics::record_connection(metrics, *up, *down, nanos),
        Err(_) => metrics::record_connection_failed(metrics),
    }
    outcome
}

/// The identity of the proxy itself: the configured one, or the service account `proxy` of the
/// namespace `default`.
pub open spec fn local_identity_of(
    configured: Option<String>,
    trust_domain: Seq<char>,
) -> SpiffeParts {
    match configured {
        Some(uri) => match identity::identity_of(uri@) {
            Ok(id) => id,
            Err(_) => SpiffeParts {
                trust_domain,
                namespace: "default"@,
                service_account: "proxy"@,
            },
        },
        None => SpiffeParts { trust_domain, namespace: "default"@, service_account: "proxy"@ },
    }
}

/// The identity that a proxy takes from its configuration.
pub fn local_identity(configured: &Option<String>, trust_domain: &str) -> (id: SpiffeId)
    requires
        trust_domain@.len() > 0 || (configured matches Some(uri) && identity::identity_of(
            uri@,
        ) is Ok),
    ensures
        id@ == local_identity_of(*configured, trust_domain@),
{
    if let Some(uri) = configured {
        if let Ok(id) = SpiffeId::from_uri(uri.as_str()) {
            return id;
        }
    }
    SpiffeId::new(trust_domain, "default", "proxy")
}

} // verus!
