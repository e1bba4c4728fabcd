//! Sources of the local identity.

use vstd::prelude::*;

use crate::common::error::{ErrorKind, Fault, InterlinkError};
use crate::common::identity;
use crate::common::identity::{IdentityProvider, SpiffeId, SpiffeParts, TrustDomain};
use crate::proxy::handshake;
use crate::text;

verus! {

/// Where Kubernetes mounts the token of the service account.
pub const K8S_SERVICE_ACCOUNT_TOKEN_PATH: &'static str =
    "/var/run/secrets/kubernetes.io/serviceaccount/token";

/// Where Kubernetes mounts the namespace.
pub const K8S_NAMESPACE_PATH: &'static str =
    "/var/run/secrets/kubernetes.io/serviceaccount/namespace";

/// What the surroundings of a workload tell of it; None for what is not there.
#[derive(Debug, Clone, Default)]
pub struct WorkloadSources {
    /// The variable `INTERLINK_IDENTITY`.
    pub identity: Option<String>,
    /// The file at `K8S_NAMESPACE_PATH`.
    pub namespace_file: Option<String>,
    /// The variable `KUBERNETES_NAMESPACE`.
    pub kubernetes_namespace: Option<String>,
    /// The variable `POD_NAMESPACE`.
    pub pod_namespace: Option<String>,
    /// The file at `K8S_SERVICE_ACCOUNT_TOKEN_PATH`.
    pub token_file: Option<String>,
    /// The variable `KUBERNETES_SERVICE_ACCOUNT_NAME`.
    pub service_account: Option<String>,
}

/// The bytes that a text writes in URL-safe base64 without padding.
pub uninterp spec fn base64url_bytes(encoded: Seq<char>) -> Option<Seq<u8>>;

/// `base64::Engine::decode` of the engine `URL_SAFE_NO_PAD`: the bytes that a text writes, if it
/// writes any; they depend on the text alone.
#[verifier::external_body]
fn decode_base64url(encoded: &str) -> (bytes: Option<Vec<u8>>)
    ensures
        match base64url_bytes(encoded@) {
            Some(decoded) => bytes matches Some(b) && b@ == decoded,
            None => bytes is None,
        },
{
    base64::Engine::decode(&base64::engine::general_purpose::URL_SAFE_NO_PAD, encoded).ok()
}

/// The string under a key of a JSON object.
pub uninterp spec fn json_string(json: Seq<u8>, key: Seq<char>) -> Option<Seq<char>>;

/// `serde_json::from_slice`, into a map from strings to values: the string under a key, if the
/// bytes are a JSON object that has one there. It depends on the bytes and the key alone.
#[verifier::external_body]
fn read_json_string(json: &[u8], key: &str) -> (value: Option<String>)
    ensures
        match json_string(json@, key@) {
            Some(s) => value matches Some(v) && v@ == s,
            None => value is None,
        },
{
    let object: std::collections::HashMap<String, serde_json::Value> = serde_json::from_slice(json).ok()?;
    object.get(key)?.as_str().map(|s| s.to_string())
}

/// The service account in the subject of a token, `system:serviceaccount:<namespace>:<account>`.
pub open spec fn subject_account(subject: Seq<char>) -> Option<Seq<char>> {
    let parts = text::pieces(subject, ':');
    if parts.len() == 4 && parts[0] == "system"@ && parts[1] == "serviceaccount"@ {
        Some(parts[3])
    } else {
        None
    }
}

/// The payload of a token: its second part.
pub open spec fn token_payload(token: Seq<char>) -> Option<Seq<char>> {
    let parts = text::pieces(token, '.');
    if parts.len() >= 2 {
        Some(parts[1])
    } else {
        None
    }
}

/// The service account that a token names.
pub open spec fn token_account(token: Seq<char>) -> Option<Seq<char>> {
    match token_payload(token) {
        None => None,
        Some(payload) => match base64url_bytes(payload) {
            None => None,
            Some(json) => match json_string(json, "sub"@) {
                None => None,
                Some(subject) => subject_account(subject),
            },
        },
    }
}

/// The namespace of a workload: that of the file, or else of the environment.
pub open spec fn namespace_of(sources: WorkloadSources) -> Option<Seq<char>> {
    if sources.namespace_file matches Some(file) && text::trimmed(file@).len() > 0 {
        Some(text::trimmed(sources.namespace_file->0@))
    } else if sources.kubernetes_namespace is Some {
        Some(sources.kubernetes_namespace->0@)
    } else if sources.pod_namespace is Some {
        Some(sources.pod_namespace->0@)
    } else {
        None
    }
}

/// The service account of a workload: that of the token, or else of the environment.
pub open spec fn service_account_of(sources: WorkloadSources) -> Option<Seq<char>> {
    if sources.token_file matches Some(token) && token_account(text::trimmed(token@)) is Some {
        token_account(text::trimmed(sources.token_file->0@))
    } else if sources.service_account is Some {
        Some(sources.service_account->0@)
    } else {
        None
    }
}

/// The identity of a workload: the configured one where it is valid, or else that of its namespace
/// and service account.
pub open spec fn workload_identity(trust_domain: Seq<char>, sources: WorkloadSources) -> Result<
    SpiffeParts,
    Fault,
> {
    if sources.identity matches Some(uri) && identity::identity_of(uri@) is Ok {
        Ok(identity::identity_of(sources.identity->0@)->Ok_0)
    } else {
        match namespace_of(sources) {
            None => Err(
                Fault {
                    kind: ErrorKind::Identity,
                    message: "could not determine Kubernetes namespace"@,
                },
            ),
            Some(namespace) => match service_account_of(sources) {
                None => Err(
                    Fault {
                        kind: ErrorKind::Identity,
                        message: "could not determine Kubernetes service account"@,
                    },
                ),
                Some(service_account) => match identity::missing_part(
                    trust_domain,
                    namespace,
                    service_account,
                ) {
                    Some(message) => Err(Fault { kind: ErrorKind::Identity, message }),
                    None => Ok(SpiffeParts { trust_domain, namespace, service_account }),
                },
            },
        }
    }
}

/// The identity of a workload in Kubernetes, from its service account token; the environment
/// stands in elsewhere.
#[derive(Debug)]
pub struct KubernetesIdentityProvider {
    trust_domain: TrustDomain,
    identity: SpiffeId,
}

impl KubernetesIdentityProvider {
    /// The identity that is provided.
    pub closed spec fn provided(&self) -> SpiffeParts {
        self.identity@
    }

    /// The trust domain, and its root certificates.
    pub closed spec fn domain(&self) -> (Seq<char>, Seq<Seq<u8>>) {
        (self.trust_domain.name@, handshake::byte_strings(self.trust_domain.ca_certs@))
    }

    pub fn new(trust_domain: &str, sources: WorkloadSources) -> (result: Result<
        Self,
        InterlinkError,
    >)
        ensures
            match workload_identity(trust_domain@, sources) {
                Ok(id) => {
                    &&& result matches Ok(provider)
                    &&& provider.provided() == id
                    &&& provider.domain() == (trust_domain@, Seq::<Seq<u8>>::empty())
                },
                Err(fault) => result matches Err(e) && e@ == fault,
            },
    {
        match KubernetesIdentityProvider::derive_identity(trust_domain, sources) {
            Ok(identity) => {
                let provider = KubernetesIdentityProvider {
                    trust_domain: TrustDomain::new(trust_domain),
                    identity,
                };
                assert(provider.domain().1 =~= Seq::<Seq<u8>>::empty());
                Ok(provider)
            },
            Err(error) => Err(error),
        }
    }

    /// Derives the identity:
    /// 1. the configured one, if it is valid;
    /// 2. the namespace of the namespace file, and the service account in the subject of the token;
    /// 3. for local development, the environment in place of either.
    fn derive_identity(trust_domain: &str, sources: WorkloadSources) -> (result: Result<
        SpiffeId,
        InterlinkError,
    >)
        ensures
            match workload_identity(trust_domain@, sources) {
                Ok(id) => result matches Ok(r) && r@ == id,
                Err(fault) => result matches Err(e) && e@ == fault,
            },
    {
        if let Some(uri) = &sources.identity {
            if let Ok(id) = SpiffeId::from_uri(uri.as_str()) {
                return Ok(id);
            }
        }
        let namespace: String = match read_namespace(&sources) {
            Some(namespace) => namespace,
            None => {
                return Err(
                    InterlinkError::Identity("could not determine Kubernetes namespace".to_owned()),
                );
            },
        };
        let service_account: String = match read_service_account(&sources) {
            Some(service_account) => service_account,
            None => {
                return Err(
                    InterlinkError::Identity(
                        "could not determine Kubernetes service account".to_owned(),
                    ),
                );
            },
        };
        SpiffeId::try_new(trust_domain, namespace.as_str(), service_account.as_str())
    }

    /// The service account that a token names.
    pub fn extract_service_account_from_token(token: &str) -> (account: Option<String>)
        ensures
            match token_account(token@) {
                Some(name) => account matches Some(a) && a@ == name,
                None => account is None,
            },
    {
        let parts: Vec<String> = text::split(token, '.');
        assert(parts@.len() == text::pieces(token@, '.').len());
        if parts.len() < 2 {
            return None;
        }
        assert(parts@[1]@ == text::pieces(token@, '.')[1]);
        let json: Vec<u8> = match decode_base64url(parts[1].as_str()) {
            Some(json) => json,
            None => {
                return None;
            },
        };
        match read_json_string(json.as_slice(), "sub") {
            Some(subject) => account_of_subject(subject.as_str()),
            None => None,
        }
    }
}

/// The service account in the subject of a token.
pub fn account_of_subject(subject: &str) -> (account: Option<String>)
    ensures
        match subject_account(subject@) {
            Some(name) => account matches Some(a) && a@ == name,
            None => account is None,
        },
{
    let parts: Vec<String> = text::split(subject, ':');
    let ghost wanted = text::pieces(subject@, ':');
    assert(parts@.len() == wanted.len());
    assert forall|i: int| 0 <= i < parts@.len() implies (#[trigger] parts@[i])@ == wanted[i] by {
        assert(text::strings(parts@)[i] == parts@[i]@);
    }
    if parts.len() == 4 && parts[0] == "system".to_owned() && parts[1]
        == "serviceaccount".to_owned() {
        Some(parts[3].clone())
    } else {
        None
    }
}

fn read_namespace(sources: &WorkloadSources) -> (namespace: Option<String>)
    ensures
        match namespace_of(*sources) {
            Some(name) => namespace matches Some(n) && n@ == name,
            None => namespace is None,
        },
{
    if let Some(file) = &sources.namespace_file {
        let trimmed: String = text::trim(file.as_str());
        if !trimmed.as_str().is_empty() {
            return Some(trimmed);
        }
    }
    if let Some(namespace) = &sources.kubernetes_namespace {
        return Some(namespace.clone());
    }
    match &sources.pod_namespace {
        Some(namespace) => Some(namespace.clone()),
        None => None,
    }
}

fn read_service_account(sources: &WorkloadSources) -> (account: Option<String>)
    ensures
        match service_account_of(*sources) {
            Some(name) => account matches Some(a) && a@ == name,
            None => account is None,
        },
{
    if let Some(file) = &sources.token_file {
        let token: String = text::trim(file.as_str());
        if let Some(account) = KubernetesIdentityProvider::extract_service_account_from_token(
            token.as_str(),
        ) {
            return Some(account);
        }
    }
    match &sources.service_account {
        Some(account) => Some(account.clone()),
        None => None,
    }
}

impl IdentityProvider for KubernetesIdentityProvider {
    fn get_identity(&self) -> (result: Result<SpiffeId, InterlinkError>)
        ensures
            result matches Ok(id) && id@ == self.provided(),
    {
        Ok(self.identity.clone())
    }

    fn get_trust_domain(&self) -> (domain: &TrustDomain)
        ensures
            domain.name@ == self.domain().0,
            handshake::byte_strings(domain.ca_certs@) == self.domain().1,
    {
        &self.trust_domain
    }
}

/// A fixed identity and trust domain, for deployments whose identity is configured.
#[derive(Debug, Clone)]
pub struct StaticIdentityProvider {
    identity: SpiffeId,
    trust_domain: TrustDomain,
}

impl StaticIdentityProvider {
    /// The identity that is provided.
    pub closed spec fn provided(&self) -> SpiffeParts {
        self.identity@
    }

    /// The trust domain.
    pub closed spec fn domain(&self) -> TrustDomain {
        self.trust_domain
    }

    pub fn new(identity: SpiffeId, trust_domain: TrustDomain) -> (provider: Self)
        ensures
            provider.provided() == identity@,
            provider.domain() == trust_domain,
    {
        StaticIdentityProvider { identity, trust_domain }
    }

    /// The identity, in a trust domain of its own name with these root certificates.
    pub fn with_ca_bundle(identity: SpiffeId, ca_bundle: Vec<Vec<u8>>) -> (provider: Self)
        ensures
            provider.provided() == identity@,
            provider.domain().name@ == identity@.trust_domain,
            provider.domain().ca_certs == ca_bundle,
    {
        let name: String = identity.trust_domain.clone();
        StaticIdentityProvider { identity, trust_domain: TrustDomain { name, ca_certs: ca_bundle } }
    }
}

impl IdentityProvider for StaticIdentityProvider {
    fn get_identity(&self) -> (result: Result<SpiffeId, InterlinkError>)
        ensures
            result matches Ok(id) && id@ == self.provided(),
    {
        Ok(self.identity.clone())
    }

    fn get_trust_domain(&self) -> (domain: &TrustDomain)
        ensures
            *domain == self.domain(),
    {
        &self.trust_domain
    }
}

} // verus!
