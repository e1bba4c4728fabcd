//! Types that every part of the proxy shares.

pub mod config;
pub mod constants;
pub mod error;
pub mod glob;
pub mod identity;
pub mod laws;
pub mod reading_laws;
pub mod segment;
