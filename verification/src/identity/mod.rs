//! Where identities come from: the environment of a workload, and a certificate authority.

pub mod ca;
pub mod laws;
pub mod provider;

pub use ca::CertificateAuthority;
pub use provider::{KubernetesIdentityProvider, StaticIdentityProvider};
