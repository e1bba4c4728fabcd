//! TLS credentials from files, checked before they are used.

use rustls::crypto::CryptoProvider;
use vstd::prelude::*;

use crate::bytes;
use crate::common::config::Config;
use crate::common::error::{ErrorKind, Fault, InterlinkError};
use crate::common::identity;
use crate::common::identity::{SpiffeId, SpiffeParts};
use crate::proxy::handshake;
use crate::proxy::verify;
use crate::proxy::verify::{PeerRejection, SpiffeServerVerifier};
use crate::text;
use crate::x509;

verus! {

/// Where the credentials lie.
#[derive(Clone, Debug, Eq, PartialEq)]
pub struct TlsCredentialPaths {
    ca_bundle: String,
    certificate: String,
    private_key: String,
}

/// The path of a file in a directory.
pub open spec fn joined(directory: Seq<char>, file: Seq<char>) -> Seq<char> {
    if directory.len() == 0 || directory.last() == '/' {
        directory + file
    } else {
        directory + "/"@ + file
    }
}

/// The configured path, or that of a file in the default directory.
pub open spec fn path_or(configured: Option<String>, directory: Seq<char>, file: Seq<char>) -> Seq<
    char,
> {
    match configured {
        Some(path) => path@,
        None => joined(directory, file),
    }
}

fn locate(configured: &Option<String>, directory: &str, file: &str) -> (path: String)
    ensures
        path@ == path_or(*configured, directory@, file@),
{
    match configured {
        Some(path) => path.clone(),
        None => {
            let chars: Vec<char> = text::chars_of(directory);
            if chars.len() == 0 || chars[chars.len() - 1] == '/' {
                directory.to_owned().concat(file)
            } else {
                directory.to_owned().concat("/").concat(file)
            }
        },
    }
}

impl TlsCredentialPaths {
    /// The path of the CA bundle.
    pub closed spec fn ca_bundle_path(&self) -> Seq<char> {
        self.ca_bundle@
    }

    /// The path of the certificate.
    pub closed spec fn certificate_path(&self) -> Seq<char> {
        self.certificate@
    }

    /// The path of the private key.
    pub closed spec fn private_key_path(&self) -> Seq<char> {
        self.private_key@
    }

    pub fn new(ca_bundle: &str, certificate: &str, private_key: &str) -> (paths: Self)
        ensures
            paths.ca_bundle_path() == ca_bundle@,
            paths.certificate_path() == certificate@,
            paths.private_key_path() == private_key@,
    {
        TlsCredentialPaths {
            ca_bundle: ca_bundle.to_owned(),
            certificate: certificate.to_owned(),
            private_key: private_key.to_owned(),
        }
    }

    /// The configured paths; for those that are not configured, files in the default directory.
    pub fn from_config(config: &Config, default_directory: &str) -> (paths: Self)
        ensures
            paths.ca_bundle_path() == path_or(
                config.ca_bundle_path,
                default_directory@,
                "ca.der"@,
            ),
            paths.certificate_path() == path_or(
                config.cert_path,
                default_directory@,
                "server.der"@,
            ),
            paths.private_key_path() == path_or(
                config.key_path,
                default_directory@,
                "server.key"@,
            ),
    {
        TlsCredentialPaths {
            ca_bundle: locate(&config.ca_bundle_path, default_directory, "ca.der"),
            certificate: locate(&config.cert_path, default_directory, "server.der"),
            private_key: locate(&config.key_path, default_directory, "server.key"),
        }
    }

    pub fn ca_bundle(&self) -> (path: &str)
        ensures
            path@ == self.ca_bundle_path(),
    {
        self.ca_bundle.as_str()
    }

    pub fn certificate(&self) -> (path: &str)
        ensures
            path@ == self.certificate_path(),
    {
        self.certificate.as_str()
    }

    pub fn private_key(&self) -> (path: &str)
        ensures
            path@ == self.private_key_path(),
    {
        self.private_key.as_str()
    }
}

/// The form of a private key.
#[derive(Debug, Clone, Copy, PartialEq, Eq, Structural)]
pub enum KeyFormat {
    Pkcs1,
    Pkcs8,
    Sec1,
}

/// A private key in DER.
#[derive(Debug)]
pub struct PrivateKey {
    pub format: KeyFormat,
    pub der: Vec<u8>,
}

/// A private key as a value.
pub struct Key {
    pub format: KeyFormat,
    pub der: Seq<u8>,
}

impl View for PrivateKey {
    type V = Key;

    open spec fn view(&self) -> Key {
        Key { format: self.format, der: self.der@ }
    }
}

/// What `rustls_pemfile` finds in PEM text: the certificates in order, or the text of the error.
pub uninterp spec fn pem_certificates(pem: Seq<u8>) -> Result<Seq<Seq<u8>>, Seq<char>>;

/// `rustls_pemfile::certs` finds the certificates in PEM text; what it finds depends on the bytes
/// alone.
#[verifier::external_body]
fn read_pem_certificates(pem: &[u8]) -> (read: Result<Vec<Vec<u8>>, String>)
    ensures
        match pem_certificates(pem@) {
            Ok(certs) => read matches Ok(r) && handshake::byte_strings(r@) == certs,
            Err(message) => read matches Err(m) && m@ == message,
        },
{
    let found: Result<Vec<_>, _> = rustls_pemfile::certs(&mut std::io::BufReader::new(pem)).collect();
    found.map(|certs| certs.iter().map(|c| c.to_vec()).collect()).map_err(|e| e.to_string())
}

/// What `rustls_pemfile` finds in PEM text: the first private key, if there is one, or the text of
/// the error.
pub uninterp spec fn pem_private_key(pem: Seq<u8>) -> Result<Option<Key>, Seq<char>>;

/// `rustls_pemfile::private_key` finds the first private key in PEM text; what it finds depends on
/// the bytes alone.
#[verifier::external_body]
fn read_pem_private_key(pem: &[u8]) -> (read: Result<Option<PrivateKey>, String>)
    ensures
        match pem_private_key(pem@) {
            Ok(Some(key)) => read matches Ok(Some(k)) && k@ == key,
            Ok(None) => read matches Ok(None),
            Err(message) => read matches Err(m) && m@ == message,
        },
{
    let key = rustls_pemfile::private_key(&mut std::io::BufReader::new(pem)).map_err(|e| e.to_string())?;
    Ok(key.map(|k| PrivateKey {
        format: match &k {
            rustls::pki_types::PrivateKeyDer::Pkcs1(_) => KeyFormat::Pkcs1,
            rustls::pki_types::PrivateKeyDer::Sec1(_) => KeyFormat::Sec1,
            _ => KeyFormat::Pkcs8,
        },
        der: k.secret_der().to_vec(),
    }))
}

/// Whether the bytes hold a PEM header anywhere.
pub open spec fn has_pem_header(file: Seq<u8>) -> bool {
    exists|k: int| #[trigger] bytes::text_at(file, "-----BEGIN "@, k)
}

/// An I/O fault.
pub open spec fn io_fault(message: Seq<char>) -> Fault {
    Fault { kind: ErrorKind::Io, message }
}

/// The certificates in a file, given what was found in it as PEM. A file without a PEM header is
/// one DER certificate.
pub open spec fn certificates_in(
    file: Seq<u8>,
    pem: Result<Seq<Seq<u8>>, Seq<char>>,
) -> Result<Seq<Seq<u8>>, Fault> {
    if !has_pem_header(file) {
        if file.len() == 0 {
            Err(io_fault("DER certificate file is empty"@))
        } else {
            Ok(seq![file])
        }
    } else {
        match pem {
            Err(message) => Err(io_fault(message)),
            Ok(certs) => if certs.len() == 0 {
                Err(io_fault("PEM file contains no certificates"@))
            } else {
                Ok(certs)
            },
        }
    }
}

/// The private key in a file, given what was found in it as PEM. A file without a PEM header is a
/// PKCS#8 key in DER.
pub open spec fn private_key_in(
    file: Seq<u8>,
    pem: Result<Option<Key>, Seq<char>>,
) -> Result<Key, Fault> {
    if !has_pem_header(file) {
        if file.len() == 0 {
            Err(io_fault("DER private-key file is empty"@))
        } else {
            Ok(Key { format: KeyFormat::Pkcs8, der: file })
        }
    } else {
        match pem {
            Err(message) => Err(io_fault(message)),
            Ok(Some(key)) => Ok(key),
            Ok(None) => Err(io_fault("PEM file contains no supported private key"@)),
        }
    }
}

/// Whether the bytes hold a PEM header.
pub fn contains_pem_header(file: &[u8]) -> (found: bool)
    ensures
        found == has_pem_header(file@),
{
    bytes::contain_text(file, "-----BEGIN ")
}

/// The certificates in a PEM file, given what was found in it.
pub fn certificates_of_pem(found: Result<Vec<Vec<u8>>, String>) -> (result: Result<
    Vec<Vec<u8>>,
    InterlinkError,
>)
    ensures
        match found {
            Err(message) => result matches Err(e) && e@ == io_fault(message@),
            Ok(certs) => if certs@.len() == 0 {
                result matches Err(e) && e@ == io_fault("PEM file contains no certificates"@)
            } else {
                result == Ok::<Vec<Vec<u8>>, InterlinkError>(certs)
            },
        },
{
    match found {
        Err(message) => Err(InterlinkError::Io(message)),
        Ok(certs) => if certs.len() == 0 {
            Err(InterlinkError::Io("PEM file contains no certificates".to_owned()))
        } else {
            Ok(certs)
        },
    }
}

/// Reads the certificates of a file, in PEM or DER.
pub fn parse_certificates(file: Vec<u8>) -> (result: Result<Vec<Vec<u8>>, InterlinkError>)
    ensures
        match certificates_in(file@, pem_certificates(file@)) {
            Ok(certs) => result matches Ok(r) && handshake::byte_strings(r@) == certs,
            Err(fault) => result matches Err(e) && e@ == fault,
        },
{
    if !contains_pem_header(file.as_slice()) {
        if file.len() == 0 {
            return Err(InterlinkError::Io("DER certificate file is empty".to_owned()));
        }
        let ghost whole = file@;
        let mut certs: Vec<Vec<u8>> = Vec::new();
        certs.push(file);
        assert(handshake::byte_strings(certs@) =~= seq![whole]);
        return Ok(certs);
    }
    certificates_of_pem(read_pem_certificates(file.as_slice()))
}

/// The private key in a PEM file, given what was found in it.
pub fn private_key_of_pem(found: Result<Option<PrivateKey>, String>) -> (result: Result<
    PrivateKey,
    InterlinkError,
>)
    ensures
        match found {
            Err(message) => result matches Err(e) && e@ == io_fault(message@),
            Ok(Some(key)) => result == Ok::<PrivateKey, InterlinkError>(key),
            Ok(None) => result matches Err(e) && e@ == io_fault(
                "PEM file contains no supported private key"@,
            ),
        },
{
    match found {
        Err(message) => Err(InterlinkError::Io(message)),
        Ok(Some(key)) => Ok(key),
        Ok(None) => Err(
            InterlinkError::Io("PEM file contains no supported private key".to_owned()),
        ),
    }
}

/// Reads the private key of a file, in PEM or DER.
pub fn parse_private_key(file: Vec<u8>) -> (result: Result<PrivateKey, InterlinkError>)
    ensures
        match private_key_in(file@, pem_private_key(file@)) {
            Ok(key) => result matches Ok(r) && r@ == key,
            Err(fault) => result matches Err(e) && e@ == fault,
        },
{
    if !contains_pem_header(file.as_slice()) {
        if file.len() == 0 {
            return Err(InterlinkError::Io("DER private-key file is empty".to_owned()));
        }
        return Ok(PrivateKey { format: KeyFormat::Pkcs8, der: file });
    }
    private_key_of_pem(read_pem_private_key(file.as_slice()))
}

/// What a proxy presents and trusts.
#[derive(Debug)]
pub struct Credentials {
    /// The trusted certificates.
    pub roots: Vec<Vec<u8>>,
    /// The leaf certificate.
    pub certificate: Vec<u8>,
    /// The certificates between the leaf and a trusted one.
    pub intermediates: Vec<Vec<u8>>,
    pub private_key: PrivateKey,
    /// The ALPN protocols on offer.
    pub alpn: Vec<Vec<u8>>,
}

/// Credentials as a value.
pub struct CredentialSet {
    pub roots: Seq<Seq<u8>>,
    pub certificate: Seq<u8>,
    pub intermediates: Seq<Seq<u8>>,
    pub private_key: Key,
    pub alpn: Seq<Seq<u8>>,
}

impl View for Credentials {
    type V = CredentialSet;

    open spec fn view(&self) -> CredentialSet {
        CredentialSet {
            roots: handshake::byte_strings(self.roots@),
            certificate: self.certificate@,
            intermediates: handshake::byte_strings(self.intermediates@),
            private_key: self.private_key@,
            alpn: handshake::byte_strings(self.alpn@),
        }
    }
}

/// A file that was read, or the error, as a value.
pub open spec fn file_value(file: Result<Vec<u8>, InterlinkError>) -> Result<Seq<u8>, Fault> {
    match file {
        Ok(content) => Ok(content@),
        Err(error) => Err(error@),
    }
}

/// The certificates of a file that was read.
pub open spec fn certificates_of(file: Result<Seq<u8>, Fault>) -> Result<Seq<Seq<u8>>, Fault> {
    match file {
        Ok(content) => certificates_in(content, pem_certificates(content)),
        Err(fault) => Err(fault),
    }
}

/// The private key of a file that was read.
pub open spec fn private_key_of(file: Result<Seq<u8>, Fault>) -> Result<Key, Fault> {
    match file {
        Ok(content) => private_key_in(content, pem_private_key(content)),
        Err(fault) => Err(fault),
    }
}

/// The credentials in three files, or the first fault: in the CA bundle, in the certificate, in
/// the key. The certificate has to be that of the expected identity.
pub open spec fn credentials_of(
    ca_bundle: Result<Seq<u8>, Fault>,
    certificate: Result<Seq<u8>, Fault>,
    private_key: Result<Seq<u8>, Fault>,
    expected: SpiffeParts,
    mux: bool,
) -> Result<CredentialSet, Fault> {
    match certificates_of(ca_bundle) {
        Err(fault) => Err(fault),
        Ok(roots) => match certificates_of(certificate) {
            Err(fault) => Err(fault),
            Ok(chain) => match private_key_of(private_key) {
                Err(fault) => Err(fault),
                Ok(key) => match matching_identity(
                    x509::certificate_identity(chain[0]),
                    expected,
                ) {
                    Some(fault) => Err(fault),
                    None => Ok(
                        CredentialSet {
                            roots,
                            certificate: chain[0],
                            intermediates: chain.skip(1),
                            private_key: key,
                            alpn: if mux {
                                handshake::protocol_names(seq!["il/mux/1"@, "h2"@, "http/1.1"@])
                            } else {
                                handshake::protocol_names(seq!["h2"@, "http/1.1"@])
                            },
                        },
                    ),
                },
            },
        },
    }
}

/// The fault where a certificate is not that of the expected identity.
pub open spec fn matching_identity(
    actual: Result<SpiffeParts, Fault>,
    expected: SpiffeParts,
) -> Option<Fault> {
    match actual {
        Err(fault) => Some(fault),
        Ok(id) => if id == expected {
            None
        } else {
            Some(
                Fault {
                    kind: ErrorKind::Identity,
                    message: "certificate identity '"@ + identity::identity_uri(id)
                        + "' does not match configured identity '"@ + identity::identity_uri(
                        expected,
                    ) + "'"@,
                },
            )
        },
    }
}

/// Reads credentials from the contents of three files.
pub fn read_credentials(
    ca_bundle: Result<Vec<u8>, InterlinkError>,
    certificate: Result<Vec<u8>, InterlinkError>,
    private_key: Result<Vec<u8>, InterlinkError>,
    expected_identity: &SpiffeId,
    mux_enabled: bool,
) -> (result: Result<Credentials, InterlinkError>)
    ensures
        match credentials_of(
            file_value(ca_bundle),
            file_value(certificate),
            file_value(private_key),
            expected_identity@,
            mux_enabled,
        ) {
            Ok(set) => result matches Ok(r) && r@ == set,
            Err(fault) => result matches Err(e) && e@ == fault,
        },
{
    let roots: Vec<Vec<u8>> = match ca_bundle {
        Err(error) => {
            return Err(error);
        },
        Ok(content) => match parse_certificates(content) {
            Ok(roots) => roots,
            Err(error) => {
                return Err(error);
            },
        },
    };
    let mut chain: Vec<Vec<u8>> = match certificate {
        Err(error) => {
            return Err(error);
        },
        Ok(content) => match parse_certificates(content) {
            Ok(chain) => chain,
            Err(error) => {
                return Err(error);
            },
        },
    };
    let key: PrivateKey = match private_key {
        Err(error) => {
            return Err(error);
        },
        Ok(content) => match parse_private_key(content) {
            Ok(key) => key,
            Err(error) => {
                return Err(error);
            },
        },
    };
    let ghost certs = handshake::byte_strings(chain@);
    assert(certs == certificates_of(file_value(certificate))->Ok_0);
    assert(certs.len() > 0);
    let leaf: Vec<u8> = chain.remove(0);
    assert(leaf@ == certs[0]);
    assert(handshake::byte_strings(chain@) =~= certs.skip(1));
    let actual: SpiffeId = match x509::spiffe_id_from_cert_der(leaf.as_slice()) {
        Ok(id) => id,
        Err(error) => {
            return Err(error);
        },
    };
    if !actual.same_as(expected_identity) {
        return Err(
            InterlinkError::Identity(
                "certificate identity '".to_owned().concat(actual.to_uri().as_str()).concat(
                    "' does not match configured identity '",
                ).concat(expected_identity.to_uri().as_str()).concat("'"),
            ),
        );
    }
    Ok(
        Credentials {
            roots,
            certificate: leaf,
            intermediates: chain,
            private_key: key,
            alpn: if mux_enabled {
                handshake::alpn_protocols()
            } else {
                handshake::legacy_alpn_protocols()
            },
        },
    )
}

/// Accepts credentials, given the verdict on their certificate and whether the key is its own.
pub fn accept_credentials(
    credentials: Credentials,
    verdict: Result<SpiffeId, PeerRejection>,
    key: Result<(), rustls::Error>,
) -> (result: Result<Credentials, InterlinkError>)
    ensures
        match (verdict, key) {
            (Err(rejection), _) => result matches Err(e) && e@ == verify::rejection_fault(
                rejection,
            ),
            (Ok(_), Err(error)) => result matches Err(e) && e@ == verify::tls_fault(
                verify::tls_error_text(error),
            ),
            (Ok(_), Ok(_)) => result == Ok::<Credentials, InterlinkError>(credentials),
        },
{
    match verdict {
        Err(rejection) => Err(rejection.into_error()),
        Ok(_) => match key {
            Err(error) => Err(InterlinkError::Tls(verify::describe_tls_error(&error))),
            Ok(()) => Ok(credentials),
        },
    }
}

/// What is wrong with a private key for a certificate, to a crypto provider.
pub uninterp spec fn key_fault(certificate: Seq<u8>, key: Key, provider: CryptoProvider) -> Option<
    rustls::Error,
>;

/// `rustls::sign::CertifiedKey::from_der` pairs a certificate with its private key; it fails where
/// the key can not be read or is that of another certificate. What it finds depends on its
/// arguments alone.
#[verifier::external_body]
fn pair_key(certificate: &[u8], key: &PrivateKey, provider: &CryptoProvider) -> (paired: Result<
    (),
    rustls::Error,
>)
    ensures
        paired.err() == key_fault(certificate@, key@, *provider),
{
    let der = key.der.clone();
    let key = match key.format {
        KeyFormat::Pkcs1 => rustls::pki_types::PrivateKeyDer::Pkcs1(der.into()),
        KeyFormat::Pkcs8 => rustls::pki_types::PrivateKeyDer::Pkcs8(der.into()),
        KeyFormat::Sec1 => rustls::pki_types::PrivateKeyDer::Sec1(der.into()),
    };
    let chain = vec![rustls::pki_types::CertificateDer::from(certificate.to_vec())];
    rustls::sign::CertifiedKey::from_der(chain, key, provider).map(|_| ())
}

/// Credentials that were read, unless one of the trusted certificates can not be a trust anchor,
/// the certificate path is not valid at a time, or the private key is not that of the certificate.
pub open spec fn validated(
    read: Result<CredentialSet, Fault>,
    now: u64,
    provider: CryptoProvider,
) -> Result<CredentialSet, Fault> {
    match read {
        Err(fault) => Err(fault),
        Ok(set) => match verify::first_anchor_fault(set.roots) {
            Some(message) => Err(verify::tls_fault(message)),
            None => match verify::path_fault(
                set.roots,
                set.certificate,
                set.intermediates,
                now,
                provider,
            ) {
                Some(error) => Err(verify::tls_fault(verify::tls_error_text(error))),
                None => match key_fault(set.certificate, set.private_key, provider) {
                    Some(error) => Err(verify::tls_fault(verify::tls_error_text(error))),
                    None => Ok(set),
                },
            },
        },
    }
}

/// Credentials that pass are those of the expected identity: the certificate proves it, is valid
/// against the CA bundle, and belongs to the private key.
pub proof fn law_validated_credentials_are_sound(
    ca_bundle: Result<Seq<u8>, Fault>,
    certificate: Result<Seq<u8>, Fault>,
    private_key: Result<Seq<u8>, Fault>,
    expected: SpiffeParts,
    mux: bool,
    now: u64,
    provider: CryptoProvider,
)
    ensures
        validated(
            credentials_of(ca_bundle, certificate, private_key, expected, mux),
            now,
            provider,
        ) matches Ok(set) ==> {
            &&& x509::certificate_identity(set.certificate) == Ok::<SpiffeParts, Fault>(expected)
            &&& verify::path_fault(
                set.roots,
                set.certificate,
                set.intermediates,
                now,
                provider,
            ) is None
            &&& key_fault(set.certificate, set.private_key, provider) is None
        },
{
}

/// Credentials or an error as a value.
pub open spec fn outcome(result: Result<Credentials, InterlinkError>) -> Result<
    CredentialSet,
    Fault,
> {
    match result {
        Ok(credentials) => Ok(credentials@),
        Err(error) => Err(error@),
    }
}

/// Builds the credentials of a proxy from the contents of three files: they are read, the
/// certificate has to be that of the expected identity, it has to be valid against the CA bundle
/// at a time in seconds since 1970, and the private key has to be its own.
pub fn build_generation(
    files: CredentialFiles,
    expected_identity: &SpiffeId,
    mux_enabled: bool,
    now: u64,
    provider: CryptoProvider,
) -> (result: Result<Credentials, InterlinkError>)
    ensures
        outcome(result) == validated(
            files.credentials(expected_identity@, mux_enabled),
            now,
            provider,
        ),
{
    let credentials: Credentials = match read_credentials(
        files.ca_bundle,
        files.certificate,
        files.private_key,
        expected_identity,
        mux_enabled,
    ) {
        Ok(credentials) => credentials,
        Err(error) => {
            return Err(error);
        },
    };
    let key: Result<(), rustls::Error> = pair_key(
        credentials.certificate.as_slice(),
        &credentials.private_key,
        &provider,
    );
    let verifier: SpiffeServerVerifier = match SpiffeServerVerifier::with_provider(
        &credentials.roots,
        expected_identity.trust_domain.clone(),
        provider,
    ) {
        Ok(verifier) => verifier,
        Err(error) => {
            return Err(error);
        },
    };
    let verdict: Result<SpiffeId, PeerRejection> = verifier.verify_server_cert(
        credentials.certificate.as_slice(),
        &credentials.intermediates,
        now,
    );
    accept_credentials(credentials, verdict, key)
}

/// What was read of the three files of `TlsCredentialPaths`.
#[derive(Debug)]
pub struct CredentialFiles {
    pub ca_bundle: Result<Vec<u8>, InterlinkError>,
    pub certificate: Result<Vec<u8>, InterlinkError>,
    pub private_key: Result<Vec<u8>, InterlinkError>,
}

impl CredentialFiles {
    /// The credentials in the files.
    pub open spec fn credentials(self, expected: SpiffeParts, mux: bool) -> Result<
        CredentialSet,
        Fault,
    > {
        credentials_of(
            file_value(self.ca_bundle),
            file_value(self.certificate),
            file_value(self.private_key),
            expected,
            mux,
        )
    }
}

/// The credentials in use, and what replaces them.
pub struct TlsCredentialReloader {
    paths: TlsCredentialPaths,
    expected_identity: SpiffeId,
    mux_enabled: bool,
    generation: Credentials,
}

impl TlsCredentialReloader {
    /// The credentials in use.
    pub closed spec fn in_use(&self) -> CredentialSet {
        self.generation@
    }

    /// The identity that every generation has to have.
    pub closed spec fn identity(&self) -> SpiffeParts {
        self.expected_identity@
    }

    /// Whether tunnels are offered.
    pub closed spec fn mux(&self) -> bool {
        self.mux_enabled
    }

    /// Takes the first credentials into use.
    pub fn load(
        paths: TlsCredentialPaths,
        files: CredentialFiles,
        expected_identity: SpiffeId,
        mux_enabled: bool,
        now: u64,
    ) -> (result: Result<Self, InterlinkError>)
        ensures
            result matches Ok(loaded) ==> {
                &&& loaded.located_at() == paths
                &&& loaded.identity() == expected_identity@
                &&& loaded.mux() == mux_enabled
            },
            exists|provider: CryptoProvider|
                (match result {
                    Ok(loaded) => Ok(loaded.in_use()),
                    Err(error) => Err(error@),
                }) == #[trigger] validated(
                    files.credentials(expected_identity@, mux_enabled),
                    now,
                    provider,
                ),
    {
        match build_generation(
            files,
            &expected_identity,
            mux_enabled,
            now,
            verify::choose_provider(verify::installed_provider(), verify::aws_lc_provider()),
        ) {
            Ok(generation) => Ok(
                TlsCredentialReloader { paths, expected_identity, mux_enabled, generation },
            ),
            Err(error) => Err(error),
        }
    }

    /// Replaces the credentials in use, as a whole or not at all.
    pub fn reload(&mut self, files: CredentialFiles, now: u64) -> (result: Result<
        (),
        InterlinkError,
    >)
        ensures
            final(self).located_at() == old(self).located_at(),
            final(self).identity() == old(self).identity(),
            final(self).mux() == old(self).mux(),
            exists|provider: CryptoProvider|
                match #[trigger] validated(
                    files.credentials(old(self).identity(), old(self).mux()),
                    now,
                    provider,
                ) {
                    Ok(set) => result is Ok && final(self).in_use() == set,
                    Err(fault) => result matches Err(e) && e@ == fault && final(self).in_use()
                        == old(self).in_use(),
                },
    {
        match self.load_generation(files, now) {
            Ok(generation) => {
                self.install(generation);
                Ok(())
            },
            Err(error) => Err(error),
        }
    }

    /// The credentials in the files, if they can replace those in use.
    pub fn load_generation(&self, files: CredentialFiles, now: u64) -> (result: Result<
        Credentials,
        InterlinkError,
    >)
        ensures
            exists|provider: CryptoProvider|
                outcome(result) == #[trigger] validated(
                    files.credentials(self.identity(), self.mux()),
                    now,
                    provider,
                ),
    {
        build_generation(
            files,
            &self.expected_identity,
            self.mux_enabled,
            now,
            verify::choose_provider(verify::installed_provider(), verify::aws_lc_provider()),
        )
    }

    /// Replaces the credentials in use.
    pub fn install(&mut self, generation: Credentials)
        ensures
            final(self).in_use() == generation@,
            final(self).located_at() == old(self).located_at(),
            final(self).identity() == old(self).identity(),
            final(self).mux() == old(self).mux(),
    {
        self.generation = generation;
    }

    /// Where the credentials lie.
    pub closed spec fn located_at(&self) -> TlsCredentialPaths {
        self.paths
    }

    /// Where the credentials lie.
    pub fn paths(&self) -> (paths: &TlsCredentialPaths)
        ensures
            *paths == self.located_at(),
    {
        &self.paths
    }

    /// The credentials in use.
    pub fn generation(&self) -> (credentials: &Credentials)
        ensures
            credentials@ == self.in_use(),
    {
        &self.generation
    }
}

} // verus!
