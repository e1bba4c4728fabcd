//! Verification of server certificates for outbound mTLS.
//!
//! A peer is dialed by an address that no workload certificate carries, so matching the name that
//! was dialed is not possible. The certificate path is validated in full (RFC 5280); in place of
//! the name, the SPIFFE ID in the certificate has to be of our trust domain.

use rustls::crypto::CryptoProvider;
use rustls::RootCertStore;
use vstd::prelude::*;

use crate::common::error::{ErrorKind, Fault, InterlinkError};
use crate::common::identity::{SpiffeId, SpiffeParts};
use crate::proxy::handshake;
use crate::x509;

verus! {

/// `rustls::RootCertStore`.
#[verifier::external_type_specification]
#[verifier::external_body]
pub struct ExRootCertStore(rustls::RootCertStore);

/// `rustls::Error`.
#[verifier::external_type_specification]
#[verifier::external_body]
pub struct ExTlsError(rustls::Error);

/// `rustls::crypto::CryptoProvider`.
#[verifier::external_type_specification]
#[verifier::external_body]
pub struct ExCryptoProvider(rustls::crypto::CryptoProvider);

/// The certificates whose trust anchors a store holds, in the order in which they were added.
pub uninterp spec fn anchored(store: RootCertStore) -> Seq<Seq<u8>>;

/// The text of the error where a DER certificate can not be a trust anchor.
pub uninterp spec fn anchor_fault(der: Seq<u8>) -> Option<Seq<char>>;

/// `RootCertStore::empty` makes a store without trust anchors.
#[verifier::external_body]
fn store_new() -> (store: RootCertStore)
    ensures
        anchored(store).len() == 0,
{
    RootCertStore::empty()
}

/// `RootCertStore::add` adds the trust anchor of a certificate behind the others; whether the
/// certificate can be one depends on its bytes alone. Where it can not, the store is unchanged.
#[verifier::external_body]
fn store_add(store: &mut RootCertStore, der: &[u8]) -> (added: Result<(), String>)
    ensures
        match anchor_fault(der@) {
            None => added is Ok && anchored(*final(store)) == anchored(*old(store)).push(der@),
            Some(message) => added matches Err(m) && m@ == message && anchored(*final(store))
                == anchored(*old(store)),
        },
{
    store.add(rustls::pki_types::CertificateDer::from(der)).map_err(|e| e.to_string())
}

/// `CryptoProvider::get_default` gives the crypto provider that is installed in the process, if one
/// is. Which it is depends on the process: nothing is stated of it.
#[verifier::external_body]
pub(crate) fn installed_provider() -> (provider: Option<CryptoProvider>)
{
    CryptoProvider::get_default().map(|p| (**p).clone())
}

/// `rustls::crypto::aws_lc_rs::default_provider` gives the crypto provider of `aws_lc_rs`. Nothing
/// is stated of it.
#[verifier::external_body]
pub(crate) fn aws_lc_provider() -> (provider: CryptoProvider)
{
    rustls::crypto::aws_lc_rs::default_provider()
}

/// The crypto provider of the process: the installed one, or else the fallback.
pub fn choose_provider(installed: Option<CryptoProvider>, fallback: CryptoProvider) -> (provider:
    CryptoProvider)
    ensures
        provider == match installed {
            Some(provider) => provider,
            None => fallback,
        },
{
    match installed {
        Some(provider) => provider,
        None => fallback,
    }
}

/// What is wrong with the path from a certificate over others to a trusted one, at a time in
/// seconds since 1970 and by the signature algorithms of a provider; nothing where it is valid.
pub uninterp spec fn path_fault(
    roots: Seq<Seq<u8>>,
    leaf: Seq<u8>,
    intermediates: Seq<Seq<u8>>,
    now: u64,
    provider: CryptoProvider,
) -> Option<rustls::Error>;

/// `rustls::client::verify_server_cert_signed_by_trust_anchor` validates the path from a
/// certificate to a trust anchor of the store. What it finds depends on its arguments alone.
#[verifier::external_body]
fn validate_path(
    store: &RootCertStore,
    leaf: &[u8],
    intermediates: &Vec<Vec<u8>>,
    now: u64,
    provider: &CryptoProvider,
) -> (valid: Result<(), rustls::Error>)
    ensures
        valid.err() == path_fault(
            anchored(*store),
            leaf@,
            handshake::byte_strings(intermediates@),
            now,
            *provider,
        ),
{
    let leaf = rustls::pki_types::CertificateDer::from(leaf);
    let chain: Vec<_> = intermediates.iter().map(|c| rustls::pki_types::CertificateDer::from(c.as_slice())).collect();
    let time = rustls::pki_types::UnixTime::since_unix_epoch(std::time::Duration::from_secs(now));
    let cert = rustls::server::ParsedCertificate::try_from(&leaf)?;
    let algorithms = provider.signature_verification_algorithms.all;
    rustls::client::verify_server_cert_signed_by_trust_anchor(&cert, store, &chain, time, algorithms)
}

/// What a `rustls::Error` says, as its `Display` gives it.
pub uninterp spec fn tls_error_text(error: rustls::Error) -> Seq<char>;

/// The `Display` of a `rustls::Error` says what went wrong; the text depends on the error alone.
#[verifier::external_body]
pub(crate) fn describe_tls_error(error: &rustls::Error) -> (text: String)
    ensures
        text@ == tls_error_text(*error),
{
    error.to_string()
}

/// The fault of the first certificate that can not be a trust anchor.
pub open spec fn first_anchor_fault(certs: Seq<Seq<u8>>) -> Option<Seq<char>>
    decreases certs.len(),
{
    if certs.len() == 0 {
        None
    } else {
        match anchor_fault(certs[0]) {
            Some(message) => Some(message),
            None => first_anchor_fault(certs.skip(1)),
        }
    }
}

/// Why a peer is not accepted.
#[derive(Debug)]
pub enum PeerRejection {
    /// Its certificate path is not valid.
    Path(rustls::Error),
    /// Its certificate proves no identity of our trust domain.
    Identity(String),
}

/// The judgement on a peer with a valid certificate path, given the identity that its certificate
/// proves: the identity, or why it is not accepted.
pub open spec fn judgement(
    identity: Result<SpiffeParts, Fault>,
    trust_domain: Seq<char>,
) -> Result<SpiffeParts, Seq<char>> {
    match identity {
        Err(fault) => Err("SPIFFE identity: Identity error: "@ + fault.message),
        Ok(id) => if id.trust_domain != trust_domain {
            Err(
                "peer trust domain '"@ + id.trust_domain + "' does not match ours '"@ + trust_domain
                    + "'"@,
            )
        } else {
            Ok(id)
        },
    }
}

/// A peer is accepted only with an identity that its certificate proves and that is of our trust
/// domain.
pub proof fn law_accepted_peers_are_of_our_trust_domain(
    identity: Result<SpiffeParts, Fault>,
    trust_domain: Seq<char>,
)
    ensures
        judgement(identity, trust_domain) matches Ok(id) ==> identity == Ok::<SpiffeParts, Fault>(
            id,
        ) && id.trust_domain == trust_domain,
        identity is Err ==> judgement(identity, trust_domain) is Err,
{
}

/// Judges a peer, given what was found of its certificate path: an invalid path is the end of it,
/// and a valid one needs an identity of our trust domain.
pub fn judge_peer(path: Result<(), rustls::Error>, leaf: &[u8], trust_domain: &str) -> (result:
    Result<SpiffeId, PeerRejection>)
    ensures
        match path {
            Err(error) => result == Err::<SpiffeId, PeerRejection>(PeerRejection::Path(error)),
            Ok(_) => match judgement(x509::certificate_identity(leaf@), trust_domain@) {
                Ok(id) => result matches Ok(r) && r@ == id,
                Err(message) => result matches Err(PeerRejection::Identity(m)) && m@ == message,
            },
        },
{
    if let Err(error) = path {
        return Err(PeerRejection::Path(error));
    }
    let id: SpiffeId = match x509::spiffe_id_from_cert_der(leaf) {
        Ok(id) => id,
        Err(error) => {
            let message: String = "SPIFFE identity: ".to_owned().concat(error.message().as_str());
            proof {
                reveal_strlit("SPIFFE identity: ");
                reveal_strlit("Identity error: ");
                reveal_strlit("SPIFFE identity: Identity error: ");
                assert("SPIFFE identity: "@ + "Identity error: "@
                    =~= "SPIFFE identity: Identity error: "@);
                assert(message@ =~= "SPIFFE identity: Identity error: "@ + error@.message);
            }
            return Err(PeerRejection::Identity(message));
        },
    };
    if id.trust_domain != trust_domain.to_owned() {
        return Err(
            PeerRejection::Identity(
                "peer trust domain '".to_owned().concat(id.trust_domain.as_str()).concat(
                    "' does not match ours '",
                ).concat(trust_domain).concat("'"),
            ),
        );
    }
    Ok(id)
}

/// A TLS fault.
pub open spec fn tls_fault(message: Seq<char>) -> Fault {
    Fault { kind: ErrorKind::Tls, message }
}

/// A rejection as a fault.
pub open spec fn rejection_fault(rejection: PeerRejection) -> Fault {
    tls_fault(
        match rejection {
            PeerRejection::Path(error) => tls_error_text(error),
            PeerRejection::Identity(why) => "unexpected error: "@ + why@,
        },
    )
}

impl PeerRejection {
    /// The rejection as an error of the library.
    pub fn into_error(self) -> (error: InterlinkError)
        ensures
            error@ == rejection_fault(self),
    {
        match self {
            PeerRejection::Path(error) => InterlinkError::Tls(describe_tls_error(&error)),
            PeerRejection::Identity(message) => InterlinkError::Tls(
                "unexpected error: ".to_owned().concat(message.as_str()),
            ),
        }
    }
}

/// Verifies the server side of outbound connections.
pub struct SpiffeServerVerifier {
    roots: RootCertStore,
    trust_domain: String,
    provider: CryptoProvider,
}

impl SpiffeServerVerifier {
    /// The certificates that are trusted.
    pub closed spec fn roots(&self) -> Seq<Seq<u8>> {
        anchored(self.roots)
    }

    /// Our trust domain.
    pub closed spec fn trust_domain(&self) -> Seq<char> {
        self.trust_domain@
    }

    /// The provider of the signature algorithms that paths are validated by.
    pub closed spec fn provider(&self) -> CryptoProvider {
        self.provider
    }

    /// A verifier that trusts these certificates, with the crypto provider of the process.
    pub fn new(roots: &Vec<Vec<u8>>, trust_domain: String) -> (result: Result<Self, InterlinkError>)
        ensures
            match first_anchor_fault(handshake::byte_strings(roots@)) {
                None => {
                    &&& result matches Ok(v)
                    &&& v.roots() == handshake::byte_strings(roots@)
                    &&& v.trust_domain() == trust_domain@
                },
                Some(message) => result matches Err(InterlinkError::Tls(m)) && m@ == message,
            },
    {
        let provider: CryptoProvider = choose_provider(installed_provider(), aws_lc_provider());
        SpiffeServerVerifier::with_provider(roots, trust_domain, provider)
    }

    /// A verifier that trusts these certificates. One that can not be a trust anchor is an error.
    pub fn with_provider(
        roots: &Vec<Vec<u8>>,
        trust_domain: String,
        provider: CryptoProvider,
    ) -> (result: Result<Self, InterlinkError>)
        ensures
            match first_anchor_fault(handshake::byte_strings(roots@)) {
                None => {
                    &&& result matches Ok(v)
                    &&& v.roots() == handshake::byte_strings(roots@)
                    &&& v.trust_domain() == trust_domain@
                    &&& v.provider() == provider
                },
                Some(message) => result matches Err(InterlinkError::Tls(m)) && m@ == message,
            },
    {
        let ghost all = handshake::byte_strings(roots@);
        let mut store: RootCertStore = store_new();
        let mut i: usize = 0;
        assert(all.skip(0) =~= all);
        while i < roots.len()
            invariant
                i <= roots@.len(),
                all == handshake::byte_strings(roots@),
                first_anchor_fault(all) == first_anchor_fault(all.skip(i as int)),
                anchored(store) =~= all.take(i as int),
            decreases roots@.len() - i,
        {
            assert(all.skip(i as int)[0] == roots@[i as int]@);
            assert(all.skip(i as int).skip(1) =~= all.skip(i + 1));
            if let Err(message) = store_add(&mut store, roots[i].as_slice()) {
                return Err(InterlinkError::Tls(message));
            }
            assert(all.take(i as int).push(all[i as int]) =~= all.take(i + 1));
            i = i + 1;
        }
        assert(all.take(i as int) =~= all);
        Ok(SpiffeServerVerifier { roots: store, trust_domain, provider })
    }

    /// Verifies the certificate of a server at a time in seconds since 1970: its path to a trusted
    /// certificate, and its identity. A server is accepted only with an identity of our trust
    /// domain.
    pub fn verify_server_cert(
        &self,
        end_entity: &[u8],
        intermediates: &Vec<Vec<u8>>,
        now: u64,
    ) -> (result: Result<SpiffeId, PeerRejection>)
        ensures
            match path_fault(
                self.roots(),
                end_entity@,
                handshake::byte_strings(intermediates@),
                now,
                self.provider(),
            ) {
                Some(error) => result == Err::<SpiffeId, PeerRejection>(PeerRejection::Path(error)),
                None => match judgement(
                    x509::certificate_identity(end_entity@),
                    self.trust_domain(),
                ) {
                    Ok(id) => result matches Ok(r) && r@ == id,
                    Err(message) => result matches Err(PeerRejection::Identity(m)) && m@ == message,
                },
            },
    {
        let path: Result<(), rustls::Error> = validate_path(
            &self.roots,
            end_entity,
            intermediates,
            now,
            &self.provider,
        );
        judge_peer(path, end_entity, self.trust_domain.as_str())
    }
}

} // verus!
