//! What a proxy is configured with.

use vstd::prelude::*;

verus! {

/// Configuration of one proxy.
#[derive(Debug)]
pub struct ProxyConfig {
    pub trust_domain: String,
    pub identity: Option<String>,
    pub default_upstream: Option<String>,
    pub max_connections: Option<usize>,
    /// Multiplex proxy-to-proxy connections over shared mTLS tunnels. Negotiated through ALPN;
    /// peers without it get a connection each.
    pub mux: bool,
}

impl Clone for ProxyConfig {
    fn clone(&self) -> (copy: Self)
        ensures
            copy == *self,
    {
        ProxyConfig {
            trust_domain: self.trust_domain.clone(),
            identity: match &self.identity {
                Some(identity) => Some(identity.clone()),
                None => None,
            },
            default_upstream: match &self.default_upstream {
                Some(upstream) => Some(upstream.clone()),
                None => None,
            },
            max_connections: self.max_connections,
            mux: self.mux,
        }
    }
}

/// Whether tunnels are offered where the configuration says nothing.
pub fn default_mux_true() -> (mux: bool)
    ensures
        mux,
{
    true
}

impl Default for ProxyConfig {
    fn default() -> (config: Self)
        ensures
            config.trust_domain@ == "cluster.local"@,
            config.identity is None,
            config.default_upstream is None,
            config.max_connections == Some(1024usize),
            config.mux,
    {
        ProxyConfig {
            trust_domain: "cluster.local".to_owned(),
            identity: None,
            default_upstream: None,
            max_connections: Some(1024),
            mux: default_mux_true(),
        }
    }
}

} // verus!
