//! What both sides of a handshake offer, and whom it proves the peer to be.

use moka::sync::Cache;
use vstd::prelude::*;
use vstd::utf8::encode_utf8;

use crate::bytes;
use crate::common::error::{ErrorKind, Fault, InterlinkError};
use crate::common::identity::{SpiffeId, SpiffeParts};
use crate::proxy::mux;
use crate::x509;

verus! {

/// The texts as bytes.
pub open spec fn protocol_names(texts: Seq<Seq<char>>) -> Seq<Seq<u8>> {
    texts.map_values(|t: Seq<char>| encode_utf8(t))
}

/// Byte strings as values.
pub open spec fn byte_strings(list: Seq<Vec<u8>>) -> Seq<Seq<u8>> {
    list.map_values(|b: Vec<u8>| b@)
}

/// The ALPN protocols, the preferred first: tunnels, then HTTP/2 and HTTP/1.1. Peers that never
/// offer tunnels agree on one of the others.
pub fn alpn_protocols() -> (protocols: Vec<Vec<u8>>)
    ensures
        byte_strings(protocols@) == protocol_names(seq!["il/mux/1"@, "h2"@, "http/1.1"@]),
{
    let mut protocols: Vec<Vec<u8>> = Vec::new();
    protocols.push(mux::ALPN_MUX.as_bytes_vec());
    protocols.push("h2".as_bytes_vec());
    protocols.push("http/1.1".as_bytes_vec());
    assert(byte_strings(protocols@) =~= protocol_names(seq!["il/mux/1"@, "h2"@, "http/1.1"@]));
    protocols
}

/// The ALPN protocols without tunnels.
pub fn legacy_alpn_protocols() -> (protocols: Vec<Vec<u8>>)
    ensures
        byte_strings(protocols@) == protocol_names(seq!["h2"@, "http/1.1"@]),
{
    let mut protocols: Vec<Vec<u8>> = Vec::new();
    protocols.push("h2".as_bytes_vec());
    protocols.push("http/1.1".as_bytes_vec());
    assert(byte_strings(protocols@) =~= protocol_names(seq!["h2"@, "http/1.1"@]));
    protocols
}

/// `moka::sync::Cache`.
#[verifier::external_type_specification]
#[verifier::external_body]
#[verifier::reject_recursive_types(K)]
#[verifier::reject_recursive_types(V)]
#[verifier::reject_recursive_types(S)]
pub struct ExCache<K, V, S>(moka::sync::Cache<K, V, S>);

/// The identity that was stored last under each certificate. The cache may have dropped it since.
pub uninterp spec fn stored(cache: Cache<Vec<u8>, SpiffeId>) -> Map<Seq<u8>, SpiffeParts>;

/// `Cache::new` makes a cache without entries, for as many as it is told.
#[verifier::external_body]
fn cache_new(max_capacity: u64) -> (cache: Cache<Vec<u8>, SpiffeId>)
    ensures
        stored(cache) =~= Map::empty(),
{
    Cache::new(max_capacity)
}

/// `Cache::get` finds the value that was stored last under a key, or nothing: an entry may have
/// been dropped.
#[verifier::external_body]
fn cache_get(cache: &Cache<Vec<u8>, SpiffeId>, key: &[u8]) -> (id: Option<SpiffeId>)
    ensures
        id matches Some(i) ==> stored(*cache).contains_key(key@) && stored(*cache)[key@] == i@,
{
    cache.get(key)
}

/// `Cache::insert` stores a value under a key.
#[verifier::external_body]
fn cache_insert(cache: &mut Cache<Vec<u8>, SpiffeId>, key: Vec<u8>, id: SpiffeId)
    ensures
        stored(*final(cache)) == stored(*old(cache)).insert(key@, id@),
{
    cache.insert(key, id);
}

/// The number of identities that are remembered.
pub const IDENTITY_CACHE_CAPACITY: u64 = 1024;

/// Identities by certificate, so that a peer that comes back is not parsed again.
pub struct IdentityCache {
    cache: Cache<Vec<u8>, SpiffeId>,
}

/// The identity that a certificate chain proves.
pub open spec fn chain_identity(chain: Option<Seq<Seq<u8>>>) -> Result<SpiffeParts, Fault> {
    match chain {
        None => Err(Fault { kind: ErrorKind::Identity, message: "no peer certificate"@ }),
        Some(certs) => if certs.len() == 0 {
            Err(Fault { kind: ErrorKind::Identity, message: "empty certificate chain"@ })
        } else {
            x509::certificate_identity(certs[0])
        },
    }
}

impl IdentityCache {
    /// What is stored under a certificate is its identity.
    pub closed spec fn well_formed(&self) -> bool {
        forall|der: Seq<u8>| #[trigger]
            stored(self.cache).contains_key(der) ==> x509::certificate_identity(der) == Ok::<
                SpiffeParts,
                Fault,
            >(stored(self.cache)[der])
    }

    pub fn new() -> (cache: Self)
        ensures
            cache.well_formed(),
    {
        IdentityCache { cache: cache_new(IDENTITY_CACHE_CAPACITY) }
    }

    /// The identity of a peer, by the certificate chain that it presented: that of the leaf. What
    /// the cache holds or has dropped makes no difference.
    pub fn extract_identity(&mut self, chain: &Option<Vec<Vec<u8>>>) -> (result: Result<
        SpiffeId,
        InterlinkError,
    >)
        requires
            old(self).well_formed(),
        ensures
            final(self).well_formed(),
            match chain_identity(
                match *chain {
                    Some(certs) => Some(byte_strings(certs@)),
                    None => None,
                },
            ) {
                Ok(id) => result matches Ok(r) && r@ == id,
                Err(fault) => result matches Err(e) && e@ == fault,
            },
    {
        let certs: &Vec<Vec<u8>> = match chain {
            Some(certs) => certs,
            None => {
                return Err(InterlinkError::Identity("no peer certificate".to_owned()));
            },
        };
        if certs.len() == 0 {
            return Err(InterlinkError::Identity("empty certificate chain".to_owned()));
        }
        let leaf: &Vec<u8> = &certs[0];
        if let Some(id) = cache_get(&self.cache, leaf.as_slice()) {
            return Ok(id);
        }
        match x509::spiffe_id_from_cert_der(leaf.as_slice()) {
            Ok(id) => {
                cache_insert(&mut self.cache, bytes::copy_bytes(leaf.as_slice()), id.clone());
                Ok(id)
            },
            Err(error) => Err(error),
        }
    }
}

} // verus!
