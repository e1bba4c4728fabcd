use interlink::common::constants::cert;
use interlink::common::error::InterlinkError;
use interlink::common::identity::SpiffeId;
use interlink::identity::ca::{
    leaf_profile, root_profile, subject_names, CertificateAuthority, EARLIEST_TIME, LATEST_TIME,
    SERIAL_NUMBER_BYTES,
};
use interlink::proxy::handshake::IdentityCache;
use interlink::x509::{
    spiffe_id_from_cert_der, spiffe_id_from_extensions, AltName, CertExtension,
};
use x509_parser::extensions::{GeneralName, ParsedExtension};
use x509_parser::parse_x509_certificate;

#[test]
fn test_debug_leaf() {
    let ca = CertificateAuthority::new("td.local").unwrap();
    let id = SpiffeId::new("td.local", "ns", "sa");
    let cert_der = ca.issue_leaf(&id).unwrap();
    let parsed = parse_x509_certificate(&cert_der).unwrap().1;
    println!("subject: {:?}", parsed.subject());
    println!("issuer: {:?}", parsed.issuer());
    println!("extensions ({}):", parsed.extensions().len());
    for ext in parsed.extensions().iter() {
        println!("  oid={} critical={}", ext.oid, ext.critical);
    }
    let mut found = false;
    for ext in parsed.extensions().iter() {
        if format!("{}", ext.oid) == "2.5.29.17" {
            if let ParsedExtension::SubjectAlternativeName(san) = ext.parsed_extension() {
                for gn in san.general_names.iter() {
                    println!("  SAN entry: {:?}", gn);
                    if let GeneralName::URI(uri) = gn {
                        println!("  URI: {}", uri);
                        assert_eq!(*uri, "spiffe://td.local/ns/ns/sa/sa");
                        found = true;
                    }
                }
            }
        }
    }
    assert!(found, "SPIFFE ID not found in SAN");
}

#[test]
fn test_ca_init() {
    let ca = CertificateAuthority::new("td.local").unwrap();
    assert!(!ca.root_cert_der().is_empty());
}

#[test]
fn test_issue_leaf() {
    let ca = CertificateAuthority::new("td.local").unwrap();
    let id = SpiffeId::new("td.local", "ns", "sa");
    let cert = ca.issue_leaf(&id).unwrap();
    assert!(cert.len() > 100);
    let parsed = parse_x509_certificate(cert.as_ref()).unwrap().1;
    assert_eq!(parsed.version().0, 2);
}

#[test]
fn test_leaf_san() {
    let ca = CertificateAuthority::new("td.local").unwrap();
    let id = SpiffeId::new("td.local", "ns", "sa");
    let cert_der = ca.issue_leaf(&id).unwrap();
    let parsed = parse_x509_certificate(&cert_der).unwrap().1;

    let mut found = false;
    for ext in parsed.extensions().iter() {
        if format!("{}", ext.oid) == "2.5.29.17" {
            if let ParsedExtension::SubjectAlternativeName(san) = ext.parsed_extension() {
                for gn in san.general_names.iter() {
                    if let GeneralName::URI(uri) = gn {
                        assert_eq!(*uri, "spiffe://td.local/ns/ns/sa/sa");
                        found = true;
                    }
                }
            }
        }
    }
    assert!(found, "SPIFFE ID in SAN");
}

#[test]
fn test_leaf_extensions() {
    let ca = CertificateAuthority::new("td.local").unwrap();
    let id = SpiffeId::new("td.local", "ns", "sa");
    let cert_der = ca.issue_leaf(&id).unwrap();
    let parsed = parse_x509_certificate(&cert_der).unwrap().1;

    let oids: Vec<String> = parsed
        .extensions()
        .iter()
        .map(|e| format!("{}", e.oid))
        .collect();
    assert!(oids.contains(&"2.5.29.17".into()));
    assert!(oids.contains(&"2.5.29.15".into()));
    assert!(oids.contains(&"2.5.29.37".into()));
    assert!(oids.contains(&"2.5.29.19".into()));
    // The identity comes first.
    assert_eq!(oids[0], "2.5.29.17");
}

#[test]
fn test_root_is_self_signed() {
    let ca = CertificateAuthority::new("td.local").unwrap();
    let parsed = parse_x509_certificate(ca.root_cert_der()).unwrap().1;
    assert_eq!(
        format!("{}", parsed.issuer()),
        format!("{}", parsed.subject())
    );
}

#[test]
fn test_leaf_ttl_24h() {
    let ca = CertificateAuthority::new("td.local").unwrap();
    let id = SpiffeId::new("td.local", "ns", "sa");
    let cert_der = ca.issue_leaf(&id).unwrap();
    let parsed = parse_x509_certificate(&cert_der).unwrap().1;
    let ttl = parsed.validity().not_after.timestamp() - parsed.validity().not_before.timestamp();
    let expected = cert::LEAF_TTL;
    assert!(
        (expected - 3600..=expected + 3600).contains(&ttl),
        "TTL ~{}s: {}",
        expected,
        ttl
    );
    assert_eq!(ttl, expected);
}

#[test]
fn test_certificate_authority_extensions() {
    let ca = CertificateAuthority::new("ext-test.local").unwrap();
    let id = SpiffeId::try_new("ext-test.local", "ns1", "sa1").unwrap();
    let cert = ca.issue_leaf(&id).unwrap();
    let parsed = parse_x509_certificate(&cert).unwrap().1;

    let ext_oids: Vec<String> = parsed
        .extensions()
        .iter()
        .map(|e| format!("{}", e.oid))
        .collect();
    assert!(ext_oids.contains(&"2.5.29.17".to_string()), "SAN");
    assert!(ext_oids.contains(&"2.5.29.15".to_string()), "KeyUsage");
    assert!(
        ext_oids.contains(&"2.5.29.37".to_string()),
        "ExtendedKeyUsage"
    );
    assert!(
        ext_oids.contains(&"2.5.29.19".to_string()),
        "BasicConstraints"
    );
}

#[test]
fn test_certificate_short_lived() {
    let ca = CertificateAuthority::new("ttl-test.local").unwrap();
    let id = SpiffeId::try_new("ttl-test.local", "ns1", "sa1").unwrap();
    let cert_der = ca.issue_leaf(&id).unwrap();
    let parsed = parse_x509_certificate(&cert_der).unwrap().1;

    let validity = parsed.validity();
    let ttl = validity.not_after.timestamp() - validity.not_before.timestamp();
    assert!(
        (23 * 3600..=25 * 3600).contains(&ttl),
        "TTL should be ~24h, got {}s",
        ttl
    );
}

fn chain_of(certs: &[Vec<u8>]) -> Option<Vec<Vec<u8>>> {
    Some(certs.to_vec())
}

#[test]
fn test_extract_identity_rejects_empty_certs() {
    let err = IdentityCache::new().extract_identity(&chain_of(&[]));
    assert!(err.is_err());
    assert_eq!(
        err.unwrap_err().message(),
        "Identity error: empty certificate chain"
    );
    assert_eq!(
        IdentityCache::new().extract_identity(&None).unwrap_err().message(),
        "Identity error: no peer certificate"
    );
}

#[test]
fn test_extract_identity_from_real_cert() {
    let ca = CertificateAuthority::new("test.local").unwrap();
    let id = SpiffeId::new("test.local", "ns1", "sa1");
    let cert = ca.issue_leaf(&id).unwrap();

    let mut cache = IdentityCache::new();
    let result = cache.extract_identity(&chain_of(&[cert.clone()]));
    assert_eq!(result.unwrap(), id);
    // Again, from the cache.
    assert_eq!(cache.extract_identity(&chain_of(&[cert])).unwrap(), id);
    // Another certificate has another identity.
    let other = SpiffeId::new("test.local", "ns1", "sa2");
    let cert = ca.issue_leaf(&other).unwrap();
    assert_eq!(cache.extract_identity(&chain_of(&[cert])).unwrap(), other);
}

#[test]
fn test_extract_identity_rejects_wrong_oid() {
    let ca = CertificateAuthority::new("test.local").unwrap();
    let id = SpiffeId::new("test.local", "ns1", "sa1");
    let cert = ca.issue_leaf(&id).unwrap();
    let parsed = parse_x509_certificate(cert.as_ref()).unwrap().1;

    // Should find exactly one SAN
    let san_count = parsed
        .extensions()
        .iter()
        .filter(|e| format!("{}", e.oid) == "2.5.29.17")
        .count();
    assert_eq!(san_count, 1);
}

#[test]
fn the_first_spiffe_uri_of_a_subject_name_is_the_identity() {
    let extension = |oid: &str, names: Vec<AltName>| CertExtension {
        oid: oid.into(),
        alt_names: Some(names),
    };
    let uri = |text: &str| AltName::Uri(text.into());
    let found = spiffe_id_from_extensions(Ok(vec![
        extension("2.5.29.18", vec![uri("spiffe://other/ns/a/sa/b")]),
        CertExtension { oid: "2.5.29.17".into(), alt_names: None },
        extension(
            "2.5.29.17",
            vec![
                AltName::Other,
                AltName::Dns("spiffe://td/ns/n/sa/d".into()),
                AltName::Address(vec![127, 0, 0, 1]),
                uri("https://td/ns/n/sa/s"),
                uri("spiffe://TD/ns/n/sa/s"),
                uri("spiffe://td/ns/n/sa/t"),
            ],
        ),
    ]));
    assert_eq!(found.unwrap(), SpiffeId::new("td", "n", "s"));
    assert_eq!(
        spiffe_id_from_extensions(Ok(vec![])).unwrap_err().message(),
        "Identity error: no SPIFFE URI in SAN extension"
    );
    assert_eq!(
        spiffe_id_from_extensions(Err("broken".into())).unwrap_err().message(),
        "Identity error: cert parse: broken"
    );
    let garbage = spiffe_id_from_cert_der(b"no certificate");
    assert!(garbage.unwrap_err().message().starts_with("Identity error: cert parse: "));
    // The root certificate carries no identity.
    let ca = CertificateAuthority::new("td.local").unwrap();
    assert_eq!(
        spiffe_id_from_cert_der(ca.root_cert_der()).unwrap_err().message(),
        "Identity error: no SPIFFE URI in SAN extension"
    );
}

#[test]
fn names_become_addresses_or_dns_names() {
    let ca = CertificateAuthority::new("td.local").unwrap();
    let id = SpiffeId::new("td.local", "ns", "sa");
    let (der, key) = ca
        .issue_leaf_with_key(&id, &["localhost", "127.0.0.1", "::1"])
        .unwrap();
    assert_eq!(spiffe_id_from_cert_der(&der).unwrap(), id);
    let parsed = parse_x509_certificate(&der).unwrap().1;
    let san = parsed.subject_alternative_name().unwrap().unwrap();
    let names = &san.value.general_names;
    assert_eq!(names.len(), 4);
    assert_eq!(names[0], GeneralName::URI("spiffe://td.local/ns/ns/sa/sa"));
    assert_eq!(names[1], GeneralName::DNSName("localhost"));
    assert_eq!(names[2], GeneralName::IPAddress(&[127, 0, 0, 1]));
    assert!(matches!(names[3], GeneralName::IPAddress(bytes) if bytes.len() == 16));
    // The key is that of the certificate, and the authority signed it.
    let key = rcgen::KeyPair::try_from(key.as_slice()).unwrap();
    assert_eq!(
        parsed.public_key().subject_public_key.data.as_ref(),
        key.public_key_raw()
    );
    assert!(key.is_compatible(&rcgen::PKCS_ED25519));
    assert!(ca.root_key().is_compatible(&rcgen::PKCS_ED25519));
    let root = parse_x509_certificate(ca.root_cert_der()).unwrap().1;
    assert_eq!(parsed.issuer(), root.subject());
    // Two certificates have two keys and two serial numbers.
    let (again, _) = ca.issue_leaf_with_key(&id, &[]).unwrap();
    let again = parse_x509_certificate(&again).unwrap().1;
    assert_ne!(parsed.raw_serial(), again.raw_serial());
    assert_ne!(parsed.public_key().raw, again.public_key().raw);
    assert!(parsed.raw_serial().len() <= SERIAL_NUMBER_BYTES + 1);
}

#[test]
fn text_that_is_not_ascii_is_refused() {
    let ca = CertificateAuthority::new("td.local").unwrap();
    let error = |id: &SpiffeId, names: &[&str]| match ca.issue_leaf_with_key(id, names) {
        Err(InterlinkError::Identity(message)) => message,
        other => panic!("{other:?}"),
    };
    assert!(error(&SpiffeId::new("é.local", "ns", "sa"), &[]).starts_with("SPIFFE URI SAN: "));
    assert!(error(&SpiffeId::new("td.local", "ns", "sa"), &["ok", "é"]).starts_with("DNS SAN: "));
}

#[test]
fn profiles_hold_what_a_certificate_says() {
    let root = root_profile("td.local", 1_000).unwrap();
    let subject: Vec<(&[u64], &str)> =
        root.subject.iter().map(|a| (a.oid.as_slice(), a.value.as_str())).collect();
    assert_eq!(
        subject,
        [(&[2, 5, 4, 3][..], "interlink CA"), (&[2, 5, 4, 10][..], "td.local")]
    );
    assert!(root.is_ca && root.signs_certificates && root.signs_data);
    assert_eq!((root.not_before, root.not_after), (1_000, 1_000 + cert::ROOT_CA_TTL));
    let id = SpiffeId::new("td.local", "ns", "sa");
    let names = subject_names(&["a", "10.0.0.1"]).unwrap();
    let leaf = leaf_profile(&id, names, 1_000, vec![7]).unwrap();
    assert_eq!(leaf.uri, "spiffe://td.local/ns/ns/sa/sa");
    let names: Vec<(&str, bool)> =
        leaf.names.iter().map(|n| (n.text.as_str(), n.is_address)).collect();
    assert_eq!(names, [("a", false), ("10.0.0.1", true)]);
    assert!(leaf.profile.subject.is_empty());
    assert!(!leaf.profile.is_ca && !leaf.profile.signs_certificates);
    assert!(leaf.profile.signs_data && leaf.server_auth && leaf.client_auth);
    assert_eq!((leaf.profile.not_before, leaf.profile.not_after), (1_000, 87_400));
    assert_eq!(leaf.serial, [7]);
}

const OUT_OF_RANGE: &str =
    "Identity error: the clock shows a time that no certificate can carry";

#[test]
fn the_clock_decides_whether_a_profile_is_made() {
    let id = SpiffeId::new("td.local", "ns", "sa");
    let root = |now: i64| root_profile("td.local", now);
    let leaf = |now: i64| leaf_profile(&id, vec![], now, vec![1]);
    for now in [EARLIEST_TIME, 0, LATEST_TIME - cert::ROOT_CA_TTL] {
        assert_eq!(root(now).unwrap().not_after, now + cert::ROOT_CA_TTL);
    }
    for now in [i64::MIN, EARLIEST_TIME - 1, LATEST_TIME - cert::ROOT_CA_TTL + 1, i64::MAX] {
        assert_eq!(root(now).unwrap_err().message(), OUT_OF_RANGE);
    }
    for now in [EARLIEST_TIME, 0, LATEST_TIME - cert::LEAF_TTL] {
        assert_eq!(leaf(now).unwrap().profile.not_after, now + cert::LEAF_TTL);
    }
    for now in [i64::MIN, EARLIEST_TIME - 1, LATEST_TIME - cert::LEAF_TTL + 1, i64::MAX] {
        assert_eq!(leaf(now).unwrap_err().message(), OUT_OF_RANGE);
    }
}

fn ed25519() -> rcgen::KeyPair {
    rcgen::KeyPair::generate_for(&rcgen::PKCS_ED25519).unwrap()
}

#[test]
fn an_authority_is_made_of_a_key_and_a_time() {
    let key = ed25519();
    let public = key.public_key_raw().to_vec();
    let now = 1_700_000_000;
    let ca = CertificateAuthority::found("td.local", Ok(key), now).unwrap();
    let root = parse_x509_certificate(ca.root_cert_der()).unwrap().1;
    assert_eq!(root.public_key().subject_public_key.data.as_ref(), public);
    assert_eq!(root.validity().not_before.timestamp(), now);
    assert_eq!(root.validity().not_after.timestamp(), now + cert::ROOT_CA_TTL);
    assert_eq!(format!("{}", root.subject()), "CN=interlink CA, O=td.local");
    let fault = |key, now| match CertificateAuthority::found("td.local", key, now) {
        Err(error) => error.message(),
        Ok(_) => panic!("an authority was made"),
    };
    let failed = rcgen::Error::KeyGenerationUnavailable;
    let text = failed.to_string();
    assert_eq!(fault(Err(failed), now), format!("Identity error: root keygen: {text}"));
    assert_eq!(fault(Ok(ed25519()), i64::MAX), OUT_OF_RANGE);
}

#[test]
fn a_certificate_is_made_of_a_serial_number_a_key_and_a_time() {
    let ca = CertificateAuthority::new("td.local").unwrap();
    let id = SpiffeId::new("td.local", "ns", "sa");
    let now = 1_700_000_000;
    let serial = || Ok(vec![5; SERIAL_NUMBER_BYTES]);
    let (der, key) = ca.issue_at(&id, &["localhost"], now, serial(), Ok(ed25519())).unwrap();
    let leaf = parse_x509_certificate(&der).unwrap().1;
    assert_eq!(leaf.raw_serial(), [5; SERIAL_NUMBER_BYTES]);
    assert_eq!(leaf.validity().not_before.timestamp(), now);
    assert_eq!(leaf.validity().not_after.timestamp(), now + 86_400);
    assert!(leaf.subject().iter().next().is_none());
    // The same key, serial number and time make the same certificate.
    let same = || rcgen::KeyPair::try_from(key.as_slice());
    let again = ca.issue_at(&id, &["localhost"], now, serial(), same()).unwrap();
    assert_eq!(again, (der, key.clone()));

    let fault = |names: &[&str], now, serial, key| {
        ca.issue_at(&id, names, now, serial, key).unwrap_err().message()
    };
    assert_eq!(
        fault(&[], now, Err("dry".into()), Ok(ed25519())),
        "Identity error: rng: dry"
    );
    let failed = rcgen::Error::KeyGenerationUnavailable;
    let text = failed.to_string();
    assert_eq!(
        fault(&[], now, serial(), Err(failed)),
        format!("Identity error: leaf keygen: {text}")
    );
    assert_eq!(fault(&[], i64::MAX, serial(), Ok(ed25519())), OUT_OF_RANGE);
    // A name that can not be carried is refused before anything else is looked at.
    assert!(fault(&["é"], i64::MAX, Err("dry".into()), Ok(ed25519()))
        .starts_with("Identity error: DNS SAN: "));
}

#[test]
fn only_the_root_is_an_authority() {
    let ca = CertificateAuthority::new("td.local").unwrap();
    let root = parse_x509_certificate(ca.root_cert_der()).unwrap().1;
    let constraints = root.basic_constraints().unwrap().unwrap().value;
    assert!(constraints.ca);
    assert_eq!(constraints.path_len_constraint, None);
    assert!(root.key_usage().unwrap().unwrap().value.key_cert_sign());

    let id = SpiffeId::new("td.local", "ns", "sa");
    let (with_key, _) = ca.issue_leaf_with_key(&id, &["localhost", "127.0.0.1"]).unwrap();
    for der in [ca.issue_leaf(&id).unwrap(), with_key] {
        let leaf = parse_x509_certificate(&der).unwrap().1;
        assert!(!leaf.basic_constraints().unwrap().unwrap().value.ca);
        assert!(!leaf.is_ca());
        let usage = leaf.key_usage().unwrap().unwrap().value;
        assert!(usage.digital_signature() && !usage.key_cert_sign());
    }
}

#[test]
fn test_mtls_ca_creates_valid_certs() {
    let ca = CertificateAuthority::new("test.local").unwrap();
    let id = SpiffeId::try_new("test.local", "ns1", "sa1").unwrap();
    let cert = ca.issue_leaf(&id).unwrap();

    assert!(cert.len() > 200, "cert too small: {} bytes", cert.len());
    let parsed = parse_x509_certificate(cert.as_ref()).unwrap().1;
    assert_eq!(parsed.version().0, 2, "must be X.509 v3");

    // Verify SAN contains SPIFFE ID
    let mut found = false;
    for ext in parsed.extensions().iter() {
        if format!("{}", ext.oid) == "2.5.29.17" {
            let p = ext.parsed_extension();
            if let ParsedExtension::SubjectAlternativeName(san) = p {
                for gn in san.general_names.iter() {
                    if let GeneralName::URI(uri) = gn {
                        assert_eq!(*uri, "spiffe://test.local/ns/ns1/sa/sa1");
                        found = true;
                    }
                }
            }
        }
    }
    assert!(found, "SPIFFE ID not found in SAN");
}
