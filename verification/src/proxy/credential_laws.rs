//! What is read from credentials and certificates, and whom they make a peer.

use rustls::crypto::CryptoProvider;
use vstd::prelude::*;
use vstd::utf8::encode_utf8;

use crate::common::config::Config;
use crate::common::error::{ErrorKind, InterlinkError};
use crate::common::identity;
use crate::common::identity::{SpiffeId, SpiffeParts};
use crate::proxy::handshake;
use crate::proxy::handshake::IdentityCache;
use crate::proxy::reload;
use crate::proxy::reload::{
    CredentialFiles, Credentials, KeyFormat, PrivateKey, TlsCredentialPaths, TlsCredentialReloader,
};
use crate::proxy::verify;
use crate::proxy::verify::{PeerRejection, SpiffeServerVerifier};
use crate::x509;
use crate::x509::{AltName, CertExtension, Extension};

verus! {

/// Byte strings as values.
pub open spec fn plain(list: Seq<Vec<u8>>) -> Seq<Seq<u8>> {
    Seq::new(list.len(), |i: int| list[i]@)
}

/// Whether a file holds the opening of a PEM header at an index.
pub open spec fn pem_begins_at(file: Seq<u8>, k: int) -> bool {
    let begin = encode_utf8("-----BEGIN "@);
    0 <= k && k + begin.len() <= file.len() && file.subrange(k, k + begin.len()) == begin
}

/// Whether an error is an I/O error with a message.
pub open spec fn is_io(error: InterlinkError, message: Seq<char>) -> bool {
    error matches InterlinkError::Io(m) && m@ == message
}

proof fn lemma_plain(list: Seq<Vec<u8>>)
    ensures
        plain(list) == handshake::byte_strings(list),
{
    assert(plain(list) =~= handshake::byte_strings(list));
}

proof fn lemma_pem_header(file: Seq<u8>)
    ensures
        reload::has_pem_header(file) <==> exists|k: int| #[trigger] pem_begins_at(file, k),
{
    if reload::has_pem_header(file) {
        let k = choose|k: int| #[trigger] crate::bytes::text_at(file, "-----BEGIN "@, k);
        assert(pem_begins_at(file, k));
    }
    if exists|k: int| #[trigger] pem_begins_at(file, k) {
        let k = choose|k: int| #[trigger] pem_begins_at(file, k);
        assert(crate::bytes::text_at(file, "-----BEGIN "@, k));
    }
}

/// A file without a PEM header is one certificate, unless it is empty. One with a PEM header holds
/// all the certificates that are found in it, in their order, and at least one.
pub proof fn law_certificate_files_are_read_whole(
    file: Vec<u8>,
    result: Result<Vec<Vec<u8>>, InterlinkError>,
)
    requires
        call_ensures(reload::parse_certificates, (file,), result),
    ensures
        if !exists|k: int| #[trigger] pem_begins_at(file@, k) {
            if file@.len() == 0 {
                result matches Err(e) && is_io(e, "DER certificate file is empty"@)
            } else {
                result matches Ok(certs) && plain(certs@) == seq![file@]
            }
        } else {
            match reload::pem_certificates(file@) {
                Err(message) => result matches Err(e) && is_io(e, message),
                Ok(found) => if found.len() == 0 {
                    result matches Err(e) && is_io(e, "PEM file contains no certificates"@)
                } else {
                    result matches Ok(certs) && plain(certs@) == found
                },
            }
        },
{
    lemma_pem_header(file@);
    if let Ok(certs) = result {
        lemma_plain(certs@);
    }
}

/// A file without a PEM header is a PKCS#8 key, unless it is empty. Of one with a PEM header, the
/// first private key is taken, as it was found.
pub proof fn law_key_files_are_read_whole(file: Vec<u8>, result: Result<PrivateKey, InterlinkError>)
    requires
        call_ensures(reload::parse_private_key, (file,), result),
    ensures
        if !exists|k: int| #[trigger] pem_begins_at(file@, k) {
            if file@.len() == 0 {
                result matches Err(e) && is_io(e, "DER private-key file is empty"@)
            } else {
                result matches Ok(key) && key.der@ == file@ && key.format == KeyFormat::Pkcs8
            }
        } else {
            match reload::pem_private_key(file@) {
                Err(message) => result matches Err(e) && is_io(e, message),
                Ok(None) => result matches Err(e) && is_io(
                    e,
                    "PEM file contains no supported private key"@,
                ),
                Ok(Some(found)) => result matches Ok(key) && key.der@ == found.der && key.format
                    == found.format,
            }
        },
{
    lemma_pem_header(file@);
}

/// Whether a file holds a PEM header is whether one opens anywhere in it.
pub proof fn law_pem_headers_are_found(file: &[u8], found: bool)
    requires
        call_ensures(reload::contains_pem_header, (file,), found),
    ensures
        found <==> exists|k: int| #[trigger] pem_begins_at(file@, k),
{
    lemma_pem_header(file@);
}

/// What was found in a PEM file is taken as it is, if there is anything.
pub proof fn law_pem_findings_are_kept(
    certs: Result<Vec<Vec<u8>>, String>,
    certs_result: Result<Vec<Vec<u8>>, InterlinkError>,
    key: Result<Option<PrivateKey>, String>,
    key_result: Result<PrivateKey, InterlinkError>,
)
    requires
        call_ensures(reload::certificates_of_pem, (certs,), certs_result),
        call_ensures(reload::private_key_of_pem, (key,), key_result),
    ensures
        certs matches Ok(list) && list@.len() > 0 ==> certs_result == Ok::<
            Vec<Vec<u8>>,
            InterlinkError,
        >(certs->Ok_0),
        certs matches Ok(list) && list@.len() == 0 ==> certs_result is Err,
        certs matches Err(message) ==> certs_result matches Err(e) && is_io(e, message@),
        key matches Ok(Some(k)) ==> key_result == Ok::<PrivateKey, InterlinkError>(k),
        key matches Ok(None) ==> key_result is Err,
        key matches Err(message) ==> key_result matches Err(e) && is_io(e, message@),
{
}

/// Credentials are read if and only if the three files are and the leaf certificate, which is the
/// first of its file, proves the expected identity. Then every certificate of the CA bundle is
/// trusted, in order, and the certificates behind the leaf and the key are those of the files.
/// Otherwise the first fault is reported.
pub proof fn law_credentials_are_those_of_the_files(
    ca_bundle: Vec<u8>,
    certificate: Vec<u8>,
    private_key: Vec<u8>,
    expected: SpiffeId,
    mux: bool,
    roots: Result<Vec<Vec<u8>>, InterlinkError>,
    chain: Result<Vec<Vec<u8>>, InterlinkError>,
    key: Result<PrivateKey, InterlinkError>,
    leaf: &[u8],
    proved: Result<SpiffeId, InterlinkError>,
    result: Result<Credentials, InterlinkError>,
)
    requires
        call_ensures(reload::parse_certificates, (ca_bundle,), roots),
        call_ensures(reload::parse_certificates, (certificate,), chain),
        call_ensures(reload::parse_private_key, (private_key,), key),
        chain matches Ok(certs) ==> leaf@ == certs@[0]@,
        call_ensures(x509::spiffe_id_from_cert_der, (leaf,), proved),
        call_ensures(
            reload::read_credentials,
            (Ok(ca_bundle), Ok(certificate), Ok(private_key), &expected, mux),
            result,
        ),
    ensures
        result is Ok <==> {
            &&& roots is Ok
            &&& chain is Ok
            &&& key is Ok
            &&& proved matches Ok(id)
            &&& id@ == expected@
        },
        result matches Ok(credentials) ==> {
            &&& plain(credentials.roots@) == plain(roots->Ok_0@)
            &&& credentials.certificate@ == chain->Ok_0@[0]@
            &&& plain(credentials.intermediates@) == plain(chain->Ok_0@).skip(1)
            &&& credentials.private_key@ == key->Ok_0@
            &&& plain(credentials.alpn@) == if mux {
                seq![encode_utf8("il/mux/1"@), encode_utf8("h2"@), encode_utf8("http/1.1"@)]
            } else {
                seq![encode_utf8("h2"@), encode_utf8("http/1.1"@)]
            }
        },
        roots matches Err(e) ==> result matches Err(r) && r@ == e@,
        roots is Ok ==> (chain matches Err(e) ==> result matches Err(r) && r@ == e@),
        roots is Ok && chain is Ok ==> (key matches Err(e) ==> result matches Err(r) && r@ == e@),
        roots is Ok && chain is Ok && key is Ok ==> (proved matches Err(e) ==> result matches Err(
            r,
        ) && r@ == e@),
        roots is Ok && chain is Ok && key is Ok && proved is Ok && proved->Ok_0@ != expected@ ==> (
        result matches Err(InterlinkError::Identity(m)) && m@ == "certificate identity '"@
            + identity::identity_uri(proved->Ok_0@) + "' does not match configured identity '"@
            + identity::identity_uri(expected@) + "'"@),
{
    if let Ok(certs) = roots {
        lemma_plain(certs@);
    }
    if let Ok(certs) = chain {
        lemma_plain(certs@);
        assert(plain(certs@)[0] == certs@[0]@);
    }
    if let Ok(credentials) = result {
        lemma_plain(credentials.roots@);
        lemma_plain(credentials.intermediates@);
        lemma_plain(credentials.alpn@);
        assert(handshake::protocol_names(seq!["il/mux/1"@, "h2"@, "http/1.1"@]) =~= seq![
            encode_utf8("il/mux/1"@),
            encode_utf8("h2"@),
            encode_utf8("http/1.1"@),
        ]);
        assert(handshake::protocol_names(seq!["h2"@, "http/1.1"@]) =~= seq![
            encode_utf8("h2"@),
            encode_utf8("http/1.1"@),
        ]);
    }
}

/// A file that could not be read is the fault that is reported: that of the CA bundle first, then
/// that of the certificate, then that of the key.
pub proof fn law_unread_files_are_reported(
    files: CredentialFiles,
    expected: SpiffeId,
    mux: bool,
    result: Result<Credentials, InterlinkError>,
)
    requires
        call_ensures(
            reload::read_credentials,
            (files.ca_bundle, files.certificate, files.private_key, &expected, mux),
            result,
        ),
    ensures
        files.ca_bundle matches Err(e) ==> result matches Err(r) && r@ == e@,
        files.certificate is Err || files.private_key is Err ==> result is Err,
{
}

proof fn lemma_anchors(certs: Seq<Seq<u8>>)
    ensures
        verify::first_anchor_fault(certs) is None <==> forall|i: int|
            0 <= i < certs.len() ==> verify::anchor_fault(#[trigger] certs[i]) is None,
        verify::first_anchor_fault(certs) matches Some(message) ==> exists|i: int|
            {
                &&& 0 <= i < certs.len()
                &&& verify::anchor_fault(#[trigger] certs[i]) == Some(message)
                &&& forall|j: int|
                    0 <= j < i ==> verify::anchor_fault(#[trigger] certs[j]) is None
            },
    decreases certs.len(),
{
    if certs.len() > 0 {
        let rest = certs.skip(1);
        lemma_anchors(rest);
        assert forall|i: int| 0 <= i < rest.len() implies #[trigger] rest[i] == certs[i + 1] by {}
        if let Some(message) = verify::anchor_fault(certs[0]) {
            assert(verify::anchor_fault(certs[0]) == Some(message));
        } else if verify::first_anchor_fault(certs) is None {
            assert forall|i: int| 0 <= i < certs.len() implies verify::anchor_fault(
                #[trigger] certs[i],
            ) is None by {
                if i > 0 {
                    assert(rest[i - 1] == certs[i]);
                }
            }
        } else {
            let message = verify::first_anchor_fault(certs)->0;
            let k = choose|i: int|
                {
                    &&& 0 <= i < rest.len()
                    &&& verify::anchor_fault(#[trigger] rest[i]) == Some(message)
                    &&& forall|j: int|
                        0 <= j < i ==> verify::anchor_fault(#[trigger] rest[j]) is None
                };
            assert(certs[k + 1] == rest[k]);
            assert forall|j: int| 0 <= j < k + 1 implies verify::anchor_fault(
                #[trigger] certs[j],
            ) is None by {
                if j > 0 {
                    assert(rest[j - 1] == certs[j]);
                }
            }
        }
    }
}

/// Whether nothing speaks against credentials: all that they trust can be trusted, their path
/// against all of it is valid at a time, and the key is that of the certificate.
pub open spec fn faultless(
    credentials: Credentials,
    now: u64,
    provider: CryptoProvider,
) -> bool {
    &&& forall|i: int|
        0 <= i < credentials.roots@.len() ==> verify::anchor_fault(
            (#[trigger] credentials.roots@[i])@,
        ) is None
    &&& verify::path_fault(
        plain(credentials.roots@),
        credentials.certificate@,
        plain(credentials.intermediates@),
        now,
        provider,
    ) is None
    &&& reload::key_fault(credentials.certificate@, credentials.private_key@, provider) is None
}

proof fn lemma_roots(credentials: Credentials)
    ensures
        plain(credentials.roots@) == handshake::byte_strings(credentials.roots@),
        plain(credentials.intermediates@) == handshake::byte_strings(credentials.intermediates@),
        verify::first_anchor_fault(handshake::byte_strings(credentials.roots@)) is None
            <==> forall|i: int|
            0 <= i < credentials.roots@.len() ==> verify::anchor_fault(
                (#[trigger] credentials.roots@[i])@,
            ) is None,
{
    lemma_plain(credentials.roots@);
    lemma_plain(credentials.intermediates@);
    let roots = plain(credentials.roots@);
    lemma_anchors(roots);
    assert forall|i: int| 0 <= i < roots.len() implies #[trigger] roots[i]
        == credentials.roots@[i]@ by {}
    if verify::first_anchor_fault(roots) is None {
        assert forall|i: int| 0 <= i < credentials.roots@.len() implies verify::anchor_fault(
            (#[trigger] credentials.roots@[i])@,
        ) is None by {
            assert(verify::anchor_fault(roots[i]) is None);
        }
    }
}

/// Credentials that were read are accepted, as they were read, if and only if nothing speaks
/// against them.
pub proof fn law_faultless_credentials_are_accepted(
    files: CredentialFiles,
    expected: SpiffeId,
    mux: bool,
    now: u64,
    provider: CryptoProvider,
    read: Result<Credentials, InterlinkError>,
    result: Result<Credentials, InterlinkError>,
)
    requires
        call_ensures(
            reload::read_credentials,
            (files.ca_bundle, files.certificate, files.private_key, &expected, mux),
            read,
        ),
        call_ensures(reload::build_generation, (files, &expected, mux, now, provider), result),
    ensures
        result is Ok <==> (read matches Ok(credentials) && faultless(credentials, now, provider)),
        result matches Ok(credentials) ==> credentials@ == read->Ok_0@,
        read matches Err(e) ==> result matches Err(r) && r@ == e@,
        read is Ok ==> (result matches Err(r) ==> r@.kind == ErrorKind::Tls),
{
    if let Ok(credentials) = read {
        lemma_roots(credentials);
    }
}

/// A reload takes the credentials of the files into use as a whole, or leaves those in use alone.
/// Faultless ones are taken. What the credentials have to be and where they lie does not change.
pub proof fn law_reload_is_all_or_nothing(
    reloader: &mut TlsCredentialReloader,
    files: CredentialFiles,
    now: u64,
    expected: SpiffeId,
    read: Result<Credentials, InterlinkError>,
    result: Result<(), InterlinkError>,
)
    requires
        expected@ == old(reloader).identity(),
        call_ensures(
            reload::read_credentials,
            (
                files.ca_bundle,
                files.certificate,
                files.private_key,
                &expected,
                old(reloader).mux(),
            ),
            read,
        ),
        call_ensures(TlsCredentialReloader::reload, (reloader, files, now), result),
    ensures
        result is Ok ==> read is Ok && final(reloader).in_use() == read->Ok_0@,
        result is Err ==> final(reloader).in_use() == old(reloader).in_use(),
        read matches Err(e) ==> result matches Err(r) && r@ == e@,
        read matches Ok(credentials) && (forall|provider: CryptoProvider| #[trigger]
            faultless(credentials, now, provider)) ==> result is Ok,
        final(reloader).identity() == old(reloader).identity(),
        final(reloader).mux() == old(reloader).mux(),
        final(reloader).located_at() == old(reloader).located_at(),
{
    if let Ok(credentials) = read {
        lemma_roots(credentials);
        if forall|provider: CryptoProvider| #[trigger] faultless(credentials, now, provider) {
            assert forall|provider: CryptoProvider| #[trigger]
                reload::validated(
                    files.credentials(old(reloader).identity(), old(reloader).mux()),
                    now,
                    provider,
                ) is Ok by {
                assert(faultless(credentials, now, provider));
            }
        }
    }
}

/// The first credentials are those of the files, for the identity that was asked for.
pub proof fn law_load_takes_the_files(
    paths: TlsCredentialPaths,
    files: CredentialFiles,
    expected: SpiffeId,
    mux: bool,
    now: u64,
    read: Result<Credentials, InterlinkError>,
    result: Result<TlsCredentialReloader, InterlinkError>,
)
    requires
        call_ensures(
            reload::read_credentials,
            (files.ca_bundle, files.certificate, files.private_key, &expected, mux),
            read,
        ),
        call_ensures(TlsCredentialReloader::load, (paths, files, expected, mux, now), result),
    ensures
        result matches Ok(loaded) ==> {
            &&& read is Ok
            &&& loaded.in_use() == read->Ok_0@
            &&& loaded.identity() == expected@
            &&& loaded.mux() == mux
            &&& loaded.located_at() == paths
        },
        read matches Err(e) ==> result matches Err(r) && r@ == e@,
        read matches Ok(credentials) && (forall|provider: CryptoProvider| #[trigger]
            faultless(credentials, now, provider)) ==> result is Ok,
{
    if let Ok(credentials) = read {
        lemma_roots(credentials);
        if forall|provider: CryptoProvider| #[trigger] faultless(credentials, now, provider) {
            assert forall|provider: CryptoProvider| #[trigger]
                reload::validated(files.credentials(expected@, mux), now, provider) is Ok by {
                assert(faultless(credentials, now, provider));
            }
        }
    }
}

/// A generation is loaded as a reload would load it, and what is installed is in use.
pub proof fn law_generations_are_loaded_and_installed(
    reloader: &mut TlsCredentialReloader,
    files: CredentialFiles,
    now: u64,
    expected: SpiffeId,
    read: Result<Credentials, InterlinkError>,
    loaded: Result<Credentials, InterlinkError>,
    generation: Credentials,
)
    requires
        expected@ == old(reloader).identity(),
        call_ensures(
            reload::read_credentials,
            (
                files.ca_bundle,
                files.certificate,
                files.private_key,
                &expected,
                old(reloader).mux(),
            ),
            read,
        ),
        call_ensures(
            TlsCredentialReloader::load_generation,
            (&*old(reloader), files, now),
            loaded,
        ),
        call_ensures(TlsCredentialReloader::install, (reloader, generation), ()),
    ensures
        loaded matches Ok(credentials) ==> read is Ok && credentials@ == read->Ok_0@,
        read matches Err(e) ==> loaded matches Err(r) && r@ == e@,
        final(reloader).in_use() == generation@,
        final(reloader).identity() == old(reloader).identity(),
        final(reloader).mux() == old(reloader).mux(),
        final(reloader).located_at() == old(reloader).located_at(),
{
}

/// A configured path is taken as it is. For another, the file of that purpose in the default
/// directory is, with one `/` between.
pub proof fn law_credential_paths(
    config: Config,
    directory: &str,
    paths: TlsCredentialPaths,
)
    requires
        call_ensures(TlsCredentialPaths::from_config, (&config, directory), paths),
    ensures
        config.ca_bundle_path matches Some(path) ==> paths.ca_bundle_path() == path@,
        config.cert_path matches Some(path) ==> paths.certificate_path() == path@,
        config.key_path matches Some(path) ==> paths.private_key_path() == path@,
        directory@.len() > 0 && directory@.last() != '/' ==> {
            &&& config.ca_bundle_path is None ==> paths.ca_bundle_path() == directory@ + "/"@
                + "ca.der"@
            &&& config.cert_path is None ==> paths.certificate_path() == directory@ + "/"@
                + "server.der"@
            &&& config.key_path is None ==> paths.private_key_path() == directory@ + "/"@
                + "server.key"@
        },
        directory@.len() == 0 || directory@.last() == '/' ==> {
            &&& config.ca_bundle_path is None ==> paths.ca_bundle_path() == directory@ + "ca.der"@
            &&& config.cert_path is None ==> paths.certificate_path() == directory@
                + "server.der"@
            &&& config.key_path is None ==> paths.private_key_path() == directory@
                + "server.key"@
        },
{
}

/// A server is accepted if and only if its certificate path to one of the trusted certificates is
/// valid, at the time and by the provider of the verifier, and its certificate proves an identity
/// of our trust domain. It is accepted as that identity.
pub proof fn law_servers_are_accepted_by_path_and_trust_domain(
    verifier: SpiffeServerVerifier,
    end_entity: &[u8],
    intermediates: Vec<Vec<u8>>,
    now: u64,
    proved: Result<SpiffeId, InterlinkError>,
    result: Result<SpiffeId, PeerRejection>,
)
    requires
        call_ensures(x509::spiffe_id_from_cert_der, (end_entity,), proved),
        call_ensures(
            SpiffeServerVerifier::verify_server_cert,
            (&verifier, end_entity, &intermediates, now),
            result,
        ),
    ensures
        ({
            let fault = verify::path_fault(
                verifier.roots(),
                end_entity@,
                plain(intermediates@),
                now,
                verifier.provider(),
            );
            &&& result is Ok <==> fault is None && (proved matches Ok(id) && id@.trust_domain
                == verifier.trust_domain())
            &&& result matches Ok(id) ==> id@ == proved->Ok_0@
            &&& fault matches Some(error) ==> result == Err::<SpiffeId, PeerRejection>(
                PeerRejection::Path(error),
            )
            &&& fault is None ==> (result matches Err(rejection) ==> rejection is Identity)
        }),
{
    lemma_plain(intermediates@);
}

/// A verifier trusts all of the certificates that it was made for, in their order, for the trust
/// domain that it was made for. It is made if and only if each can be trusted.
pub proof fn law_verifiers_trust_what_they_were_made_for(
    roots: Vec<Vec<u8>>,
    trust_domain: String,
    provider: CryptoProvider,
    result: Result<SpiffeServerVerifier, InterlinkError>,
)
    requires
        call_ensures(
            SpiffeServerVerifier::with_provider,
            (&roots, trust_domain, provider),
            result,
        ),
    ensures
        result is Ok <==> forall|i: int|
            0 <= i < roots@.len() ==> verify::anchor_fault((#[trigger] roots@[i])@) is None,
        result matches Ok(verifier) ==> {
            &&& verifier.roots() == plain(roots@)
            &&& verifier.trust_domain() == trust_domain@
            &&& verifier.provider() == provider
        },
        result matches Err(error) ==> error is Tls,
{
    lemma_plain(roots@);
    let values = plain(roots@);
    lemma_anchors(values);
    assert forall|i: int| 0 <= i < values.len() implies #[trigger] values[i] == roots@[i]@ by {}
    if verify::first_anchor_fault(values) is None {
        assert forall|i: int| 0 <= i < roots@.len() implies verify::anchor_fault(
            (#[trigger] roots@[i])@,
        ) is None by {
            assert(verify::anchor_fault(values[i]) is None);
        }
    }
}

/// The same with the provider of the process.
pub proof fn law_new_verifiers_trust_what_they_were_made_for(
    roots: Vec<Vec<u8>>,
    trust_domain: String,
    result: Result<SpiffeServerVerifier, InterlinkError>,
)
    requires
        call_ensures(SpiffeServerVerifier::new, (&roots, trust_domain), result),
    ensures
        result is Ok <==> forall|i: int|
            0 <= i < roots@.len() ==> verify::anchor_fault((#[trigger] roots@[i])@) is None,
        result matches Ok(verifier) ==> {
            &&& verifier.roots() == plain(roots@)
            &&& verifier.trust_domain() == trust_domain@
        },
        result matches Err(error) ==> error is Tls,
{
    lemma_plain(roots@);
    let values = plain(roots@);
    lemma_anchors(values);
    assert forall|i: int| 0 <= i < values.len() implies #[trigger] values[i] == roots@[i]@ by {}
    if verify::first_anchor_fault(values) is None {
        assert forall|i: int| 0 <= i < roots@.len() implies verify::anchor_fault(
            (#[trigger] roots@[i])@,
        ) is None by {
            assert(verify::anchor_fault(values[i]) is None);
        }
    }
}

/// The installed crypto provider comes before the fallback.
pub proof fn law_installed_provider_comes_first(
    installed: Option<CryptoProvider>,
    fallback: CryptoProvider,
    provider: CryptoProvider,
)
    requires
        call_ensures(verify::choose_provider, (installed, fallback), provider),
    ensures
        installed matches Some(p) ==> provider == p,
        installed is None ==> provider == fallback,
{
}

/// Peers are offered tunnels first, then HTTP/2, then HTTP/1.1; without tunnels the last two.
pub proof fn law_offered_protocols(with_mux: Vec<Vec<u8>>, without: Vec<Vec<u8>>)
    requires
        call_ensures(handshake::alpn_protocols, (), with_mux),
        call_ensures(handshake::legacy_alpn_protocols, (), without),
    ensures
        plain(with_mux@) == seq![
            encode_utf8("il/mux/1"@),
            encode_utf8("h2"@),
            encode_utf8("http/1.1"@),
        ],
        plain(without@) == seq![encode_utf8("h2"@), encode_utf8("http/1.1"@)],
{
    lemma_plain(with_mux@);
    lemma_plain(without@);
    assert(handshake::protocol_names(seq!["il/mux/1"@, "h2"@, "http/1.1"@]) =~= seq![
        encode_utf8("il/mux/1"@),
        encode_utf8("h2"@),
        encode_utf8("http/1.1"@),
    ]);
    assert(handshake::protocol_names(seq!["h2"@, "http/1.1"@]) =~= seq![
        encode_utf8("h2"@),
        encode_utf8("http/1.1"@),
    ]);
}

/// The identity of a peer is that of the first certificate that it presented, remembered or not.
/// Without one it has none.
pub proof fn law_peers_are_whom_their_leaf_proves(
    cache: &mut IdentityCache,
    chain: Option<Vec<Vec<u8>>>,
    leaf: &[u8],
    proved: Result<SpiffeId, InterlinkError>,
    result: Result<SpiffeId, InterlinkError>,
)
    requires
        chain matches Some(certs) ==> certs@.len() > 0 ==> leaf@ == certs@[0]@,
        call_ensures(x509::spiffe_id_from_cert_der, (leaf,), proved),
        call_ensures(IdentityCache::extract_identity, (cache, &chain), result),
    ensures
        chain is None ==> (result matches Err(InterlinkError::Identity(m)) && m@
            == "no peer certificate"@),
        chain is Some && chain->0@.len() == 0 ==> (result matches Err(InterlinkError::Identity(m))
            && m@ == "empty certificate chain"@),
        (chain matches Some(certs) && certs@.len() > 0) ==> match proved {
            Ok(id) => result matches Ok(r) && r@ == id@,
            Err(error) => result matches Err(e) && e@ == error@,
        },
{
}

/// Whether a name of an extension is a URI that names an identity.
pub open spec fn names_identity(name: AltName) -> bool {
    name matches AltName::Uri(uri) && identity::identity_of(uri@) is Ok
}

/// The first SPIFFE URI in a subject alternative name is the identity of a certificate: no other
/// extension counts, no name of another form, and nothing behind it.
pub proof fn law_first_spiffe_uri_is_the_identity(
    list: Vec<CertExtension>,
    e: int,
    n: int,
    result: Result<SpiffeId, InterlinkError>,
)
    requires
        call_ensures(x509::spiffe_id_from_extensions, (Ok(list),), result),
        0 <= e < list@.len(),
        list@[e].oid@ == "2.5.29.17"@,
        list@[e].alt_names matches Some(names) && 0 <= n < names@.len() && names_identity(
            names@[n],
        ),
        forall|j: int| 0 <= j < n ==> !names_identity(#[trigger] list@[e].alt_names->0@[j]),
        forall|i: int|
            0 <= i < e && (#[trigger] list@[i]).oid@ == "2.5.29.17"@ ==> (
            list@[i].alt_names matches Some(names) ==> forall|j: int|
                0 <= j < names@.len() ==> !names_identity(#[trigger] names@[j])),
    ensures
        result matches Ok(id) && identity::identity_of(list@[e].alt_names->0@[n]->Uri_0@) == Ok::<
            SpiffeParts,
            Seq<char>,
        >(id@),
{
    let values = x509::extensions(list@);
    assert forall|i: int| 0 <= i < values.len() implies #[trigger] values[i] == list@[i]@ by {}
    assert forall|i: int| 0 <= i < e implies x509::extension_identity(
        #[trigger] values[i],
    ) is None by {
        assert(values[i] == list@[i]@);
        if list@[i].oid@ == "2.5.29.17"@ && list@[i].alt_names is Some {
            lemma_no_identity(list@[i].alt_names->0@);
        }
    }
    lemma_first_named(list@[e].alt_names->0@, n);
    assert(values[e] == list@[e]@);
    lemma_extension_at(values, e);
}

/// Without a SPIFFE URI in a subject alternative name there is no identity, and none where the
/// certificate could not be read.
pub proof fn law_no_spiffe_uri_is_no_identity(
    read: Result<Vec<CertExtension>, String>,
    result: Result<SpiffeId, InterlinkError>,
)
    requires
        call_ensures(x509::spiffe_id_from_extensions, (read,), result),
        read matches Ok(list) ==> forall|i: int|
            0 <= i < list@.len() && (#[trigger] list@[i]).oid@ == "2.5.29.17"@ ==> (
            list@[i].alt_names matches Some(names) ==> forall|j: int|
                0 <= j < names@.len() ==> !names_identity(#[trigger] names@[j])),
    ensures
        read is Ok ==> (result matches Err(InterlinkError::Identity(m)) && m@
            == "no SPIFFE URI in SAN extension"@),
        read matches Err(why) ==> result matches Err(InterlinkError::Identity(m)) && m@
            == "cert parse: "@ + why@,
{
    if let Ok(list) = read {
        let values = x509::extensions(list@);
        assert forall|i: int| 0 <= i < values.len() implies x509::extension_identity(
            #[trigger] values[i],
        ) is None by {
            assert(values[i] == list@[i]@);
            if list@[i].oid@ == "2.5.29.17"@ && list@[i].alt_names is Some {
                lemma_no_identity(list@[i].alt_names->0@);
            }
        }
        lemma_no_extension(values);
    }
}

/// The identity of a certificate is that of the extensions that are read from it.
pub proof fn law_certificates_are_read_for_their_identity(
    der: &[u8],
    read: Result<Vec<CertExtension>, String>,
    from_extensions: Result<SpiffeId, InterlinkError>,
    result: Result<SpiffeId, InterlinkError>,
)
    requires
        match x509::certificate_extensions(der@) {
            Ok(list) => read matches Ok(r) && x509::extensions(r@) == list,
            Err(why) => read matches Err(m) && m@ == why,
        },
        call_ensures(x509::spiffe_id_from_extensions, (read,), from_extensions),
        call_ensures(x509::spiffe_id_from_cert_der, (der,), result),
    ensures
        from_extensions matches Ok(id) ==> result matches Ok(r) && r@ == id@,
        from_extensions matches Err(error) ==> result matches Err(r) && r@ == error@,
{
    assert(x509::read_value(read) == x509::certificate_extensions(der@));
}

proof fn lemma_no_identity(names: Seq<AltName>)
    requires
        forall|j: int| 0 <= j < names.len() ==> !names_identity(#[trigger] names[j]),
    ensures
        x509::first_identity(names.map_values(|name: AltName| name@)) is None,
    decreases names.len(),
{
    let values = names.map_values(|name: AltName| name@);
    if names.len() > 0 {
        let rest = names.skip(1);
        assert forall|j: int| 0 <= j < rest.len() implies !names_identity(#[trigger] rest[j]) by {
            assert(rest[j] == names[j + 1]);
        }
        lemma_no_identity(rest);
        assert(values.skip(1) =~= rest.map_values(|name: AltName| name@));
        assert(!names_identity(names[0]));
        assert(values[0] == names[0]@);
    }
}

proof fn lemma_first_named(names: Seq<AltName>, n: int)
    requires
        0 <= n < names.len(),
        names_identity(names[n]),
        forall|j: int| 0 <= j < n ==> !names_identity(#[trigger] names[j]),
    ensures
        x509::first_identity(names.map_values(|name: AltName| name@)) matches Some(id)
            && identity::identity_of(names[n]->Uri_0@) == Ok::<SpiffeParts, Seq<char>>(id),
    decreases n,
{
    let values = names.map_values(|name: AltName| name@);
    assert(values[0] == names[0]@);
    if n > 0 {
        let rest = names.skip(1);
        assert forall|j: int| 0 <= j < n - 1 implies !names_identity(#[trigger] rest[j]) by {
            assert(rest[j] == names[j + 1]);
        }
        assert(rest[n - 1] == names[n]);
        lemma_first_named(rest, n - 1);
        assert(values.skip(1) =~= rest.map_values(|name: AltName| name@));
        assert(!names_identity(names[0]));
    }
}

proof fn lemma_no_extension(list: Seq<Extension>)
    requires
        forall|i: int|
            0 <= i < list.len() ==> x509::extension_identity(#[trigger] list[i]) is None,
    ensures
        x509::extensions_identity(list) is None,
    decreases list.len(),
{
    if list.len() > 0 {
        let rest = list.skip(1);
        assert forall|i: int| 0 <= i < rest.len() implies x509::extension_identity(
            #[trigger] rest[i],
        ) is None by {
            assert(rest[i] == list[i + 1]);
        }
        lemma_no_extension(rest);
        assert(x509::extension_identity(list[0]) is None);
    }
}

proof fn lemma_extension_at(list: Seq<Extension>, e: int)
    requires
        0 <= e < list.len(),
        x509::extension_identity(list[e]) is Some,
        forall|i: int| 0 <= i < e ==> x509::extension_identity(#[trigger] list[i]) is None,
    ensures
        x509::extensions_identity(list) == x509::extension_identity(list[e]),
    decreases e,
{
    if e > 0 {
        let rest = list.skip(1);
        assert forall|i: int| 0 <= i < e - 1 implies x509::extension_identity(
            #[trigger] rest[i],
        ) is None by {
            assert(rest[i] == list[i + 1]);
        }
        assert(rest[e - 1] == list[e]);
        lemma_extension_at(rest, e - 1);
        assert(x509::extension_identity(list[0]) is None);
    }
}

/// The paths that were given are handed out, each for its purpose.
pub proof fn law_paths_are_handed_out(
    ca_bundle: &str,
    certificate: &str,
    private_key: &str,
    paths: TlsCredentialPaths,
    of_ca_bundle: &str,
    of_certificate: &str,
    of_private_key: &str,
)
    requires
        call_ensures(TlsCredentialPaths::new, (ca_bundle, certificate, private_key), paths),
        call_ensures(TlsCredentialPaths::ca_bundle, (&paths,), of_ca_bundle),
        call_ensures(TlsCredentialPaths::certificate, (&paths,), of_certificate),
        call_ensures(TlsCredentialPaths::private_key, (&paths,), of_private_key),
    ensures
        of_ca_bundle@ == ca_bundle@,
        of_certificate@ == certificate@,
        of_private_key@ == private_key@,
{
}

/// What a loader uses is what was read, or what was installed since. Its paths are those that it
/// was given.
pub proof fn law_loaders_hand_out_what_they_use(
    paths: TlsCredentialPaths,
    files: CredentialFiles,
    expected: SpiffeId,
    mux: bool,
    now: u64,
    read: Result<Credentials, InterlinkError>,
    result: Result<TlsCredentialReloader, InterlinkError>,
    generation: &Credentials,
    of_loader: &TlsCredentialPaths,
)
    requires
        call_ensures(
            reload::read_credentials,
            (files.ca_bundle, files.certificate, files.private_key, &expected, mux),
            read,
        ),
        call_ensures(TlsCredentialReloader::load, (paths, files, expected, mux, now), result),
        result is Ok,
        call_ensures(TlsCredentialReloader::generation, (&result->Ok_0,), generation),
        call_ensures(TlsCredentialReloader::paths, (&result->Ok_0,), of_loader),
    ensures
        read is Ok,
        same_credentials(*generation, read->Ok_0),
        *of_loader == paths,
{
    lemma_same(*generation, read->Ok_0);
}

/// Whether credentials are of the same certificates and keys.
pub open spec fn same_credentials(a: Credentials, b: Credentials) -> bool {
    &&& plain(a.roots@) == plain(b.roots@)
    &&& a.certificate@ == b.certificate@
    &&& plain(a.intermediates@) == plain(b.intermediates@)
    &&& a.private_key@ == b.private_key@
    &&& plain(a.alpn@) == plain(b.alpn@)
}

proof fn lemma_same(a: Credentials, b: Credentials)
    requires
        a@ == b@,
    ensures
        same_credentials(a, b),
{
    lemma_plain(a.roots@);
    lemma_plain(b.roots@);
    lemma_plain(a.intermediates@);
    lemma_plain(b.intermediates@);
    lemma_plain(a.alpn@);
    lemma_plain(b.alpn@);
}

/// What is installed is in use.
pub proof fn law_installed_generations_are_in_use(
    loader: &mut TlsCredentialReloader,
    installed: Credentials,
)
    requires
        call_ensures(TlsCredentialReloader::install, (loader, installed), ()),
    ensures
        forall|generation: &Credentials| #[trigger]
            call_ensures(TlsCredentialReloader::generation, (&*final(loader),), generation)
                ==> same_credentials(*generation, installed),
{
    assert forall|generation: &Credentials| #[trigger]
        call_ensures(
            TlsCredentialReloader::generation,
            (&*final(loader),),
            generation,
        ) implies same_credentials(*generation, installed) by {
        lemma_same(*generation, installed);
    }
}

/// Credentials are accepted if and only if their certificate and their key are: they are then kept
/// as they are. Otherwise what is wrong with the certificate is reported, or else with the key.
pub proof fn law_credentials_are_accepted(
    credentials: Credentials,
    verdict: Result<SpiffeId, PeerRejection>,
    key: Result<(), rustls::Error>,
    result: Result<Credentials, InterlinkError>,
)
    requires
        call_ensures(reload::accept_credentials, (credentials, verdict, key), result),
    ensures
        result is Ok <==> verdict is Ok && key is Ok,
        result matches Ok(accepted) ==> accepted == credentials,
        verdict matches Err(rejection) ==> forall|error: InterlinkError| #[trigger]
            call_ensures(PeerRejection::into_error, (rejection,), error) ==> (
            result matches Err(e) && e@ == error@),
        verdict is Ok ==> (key matches Err(error) ==> (result matches Err(InterlinkError::Tls(m))
            && m@ == verify::tls_error_text(error))),
{
}

/// A rejection is a failure of TLS, in the words of the path's fault or in those of the rejection.
pub proof fn law_rejections_are_failures_of_tls(rejection: PeerRejection, error: InterlinkError)
    requires
        call_ensures(PeerRejection::into_error, (rejection,), error),
    ensures
        error is Tls,
        rejection matches PeerRejection::Path(fault) ==> error->Tls_0@ == verify::tls_error_text(
            fault,
        ),
        rejection matches PeerRejection::Identity(words) ==> error->Tls_0@ == "unexpected error: "@
            + words@,
{
}

/// A peer is accepted if and only if its path is valid and its certificate proves an identity of
/// our trust domain.
pub proof fn law_peers_are_judged(
    path: Result<(), rustls::Error>,
    leaf: &[u8],
    trust_domain: &str,
    proved: Result<SpiffeId, InterlinkError>,
    result: Result<SpiffeId, PeerRejection>,
)
    requires
        call_ensures(x509::spiffe_id_from_cert_der, (leaf,), proved),
        call_ensures(verify::judge_peer, (path, leaf, trust_domain), result),
    ensures
        result is Ok <==> path is Ok && proved is Ok && proved->Ok_0.trust_domain@
            == trust_domain@,
        result matches Ok(id) ==> id@ == proved->Ok_0@,
        path matches Err(error) ==> result == Err::<SpiffeId, PeerRejection>(
            PeerRejection::Path(error),
        ),
        path is Ok && proved is Err ==> (result matches Err(PeerRejection::Identity(m)) && m@
            == "SPIFFE identity: Identity error: "@ + proved->Err_0@.message),
        path is Ok && proved is Ok && proved->Ok_0.trust_domain@ != trust_domain@ ==> (
        result matches Err(PeerRejection::Identity(m)) && m@ == "peer trust domain '"@
            + proved->Ok_0.trust_domain@ + "' does not match ours '"@ + trust_domain@ + "'"@),
{
}

} // verus!
