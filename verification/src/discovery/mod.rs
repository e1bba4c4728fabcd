//! Service discovery: names to addresses (RFC 1034, RFC 1035).

pub mod dns;
pub mod laws;

pub use dns::ServiceDiscovery;
