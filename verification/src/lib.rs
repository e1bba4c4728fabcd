//! Verified core of the interlink service-mesh proxy.

pub mod admin;
pub mod bytes;
pub mod common;
pub mod discovery;
pub mod identity;
mod index;
pub mod metrics;
pub mod net;
pub mod number;
pub mod policy;
pub mod protocol;
pub mod proxy;
pub mod text;
pub mod x509;
