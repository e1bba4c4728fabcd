//! Defaults of the proxy.

pub mod buffers;
pub mod cert;
pub mod ports;
pub mod timeouts;
