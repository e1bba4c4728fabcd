use interlink::common::error::InterlinkError;
use interlink::common::identity::{CompiledPattern, IdentityProvider, SegmentGlob, SpiffeId, TrustDomain};
use interlink::identity::provider::StaticIdentityProvider;

fn identity_error(uri: &str) -> String {
    match SpiffeId::from_uri(uri) {
        Err(InterlinkError::Identity(message)) => message,
        other => panic!("{uri}: {other:?}"),
    }
}

#[test]
fn identity_test_spiffe_id_roundtrip() {
    let id = SpiffeId::new("cluster.local", "default", "payments");
    let uri = id.to_uri();
    assert_eq!(uri, "spiffe://cluster.local/ns/default/sa/payments");

    let parsed = SpiffeId::from_uri(&uri).unwrap();
    assert_eq!(parsed, id);
}

#[test]
fn test_spiffe_id_from_uri() {
    let id = SpiffeId::from_uri("spiffe://example.org/ns/foo/sa/bar").unwrap();
    assert_eq!(id.trust_domain, "example.org");
    assert_eq!(id.namespace, "foo");
    assert_eq!(id.service_account, "bar");
}

#[test]
fn test_spiffe_id_missing_scheme() {
    let result = SpiffeId::from_uri("https://example.org/ns/foo/sa/bar");
    assert!(result.is_err());
}

#[test]
fn test_spiffe_id_malformed_path() {
    let result = SpiffeId::from_uri("spiffe://example.org/foo/bar");
    assert!(result.is_err());
}

#[test]
fn test_spiffe_id_empty_segments() {
    assert!(SpiffeId::from_uri("spiffe:///ns/default/sa/web").is_err());
    assert!(SpiffeId::from_uri("spiffe://example.org/ns//sa/web").is_err());
    assert!(SpiffeId::from_uri("spiffe://example.org/ns/default/sa/").is_err());
}

#[test]
fn test_spiffe_id_wildcard_match() {
    let id = SpiffeId::new("trust", "default", "web-api");
    assert!(id.matches_pattern("spiffe://trust/ns/default/sa/web-api"));
    assert!(id.matches_pattern("spiffe://trust/ns/*/sa/*"));
    assert!(id.matches_pattern("spiffe://trust/ns/default/sa/*"));
    assert!(id.matches_pattern("spiffe://trust/ns/default/sa/web*"));
    assert!(id.matches_pattern("spiffe://trust/ns/default/sa/*api"));
    assert!(!id.matches_pattern("spiffe://trust/ns/other/sa/web-api"));
    assert!(!id.matches_pattern("spiffe://other/ns/default/sa/web-api"));
    assert!(!id.matches_pattern("spiffe://trust/ns/default/sa/web"));
}

#[test]
fn segment_glob_covers_all_compiled_shapes() {
    let cases = [
        ("", "", true),
        ("", "anything", false),
        ("*", "anything", true),
        ("exact", "exact", true),
        ("exact", "other", false),
        ("pre*", "prefix", true),
        ("pre*", "other", false),
        ("*suffix", "suffix-suffix", true),
        ("*suffix", "suffix-other", false),
        ("*middle*", "a-middle-z", true),
        ("*middle*", "absent", false),
        ("pre*suffix", "pre-middle-suffix", true),
        ("pre*suffix", "presuffix", true),
        ("pre*suffix", "prefix", false),
        ("a*b*c", "a-1-b-2-c", true),
        ("a*b*c", "a-1-c-2-b", false),
        ("*a*b*", "z-a-1-b-z", true),
        ("*a*b*", "z-b-1-a-z", false),
        ("a**b", "a-middle-b", true),
        ("**", "anything", true),
    ];

    for (pattern, value, expected) in cases {
        assert_eq!(
            SegmentGlob::new(pattern).matches(value),
            expected,
            "pattern {pattern:?}, value {value:?}"
        );
    }
}

#[test]
fn segment_glob_does_not_let_parts_overlap() {
    let cases = [
        ("abcd*x*bcde", "abcde", false),
        ("ab*ba", "aba", false),
        ("ab*ba", "abba", true),
        ("a*a*a", "aa", false),
        ("a*a*a", "aaa", true),
        ("*aa*a", "aaa", true),
        ("*aa*a", "aa", false),
        ("*ab*ab*", "abab", true),
        ("*ab*ab*", "aab", false),
        ("x*é*y", "xéy", true),
        ("x*é*y", "xy", false),
        ("*", "", true),
        ("***", "", true),
    ];
    for (pattern, value, expected) in cases {
        assert_eq!(
            SegmentGlob::new(pattern).matches(value),
            expected,
            "pattern {pattern:?}, value {value:?}"
        );
        assert_eq!(SegmentGlob::new(pattern).clone().matches(value), expected);
    }
}

#[test]
fn spiffe_uri_rejects_non_identity_components() {
    for uri in [
        "spiffe://user@example.org/ns/foo/sa/bar",
        "spiffe://example.org:443/ns/foo/sa/bar",
        "spiffe://example.org/ns/foo/sa/bar?query",
        "spiffe://example.org/ns/foo/sa/bar#fragment",
        "spiffe://example.org/ns/foo/sa/bar/extra",
    ] {
        assert!(SpiffeId::from_uri(uri).is_err(), "{uri} must be rejected");
        assert!(
            CompiledPattern::from_uri(uri).is_err(),
            "{uri} must be rejected as a pattern"
        );
    }
}

#[test]
fn spiffe_uri_normalizes_scheme_and_trust_domain_case() {
    let id = SpiffeId::from_uri("SPIFFE://EXAMPLE.ORG/ns/foo/sa/bar").unwrap();
    assert_eq!(id.trust_domain, "example.org");
    assert_eq!(id.to_uri(), "spiffe://example.org/ns/foo/sa/bar");
}

#[test]
fn test_display() {
    let id = SpiffeId::new("a.com", "b", "c");
    assert_eq!(id.to_uri(), "spiffe://a.com/ns/b/sa/c");
}

#[test]
fn e2e_proxy_test_test_spiffe_id_roundtrip() {
    let id = SpiffeId::try_new("cluster.local", "default", "web-api").unwrap();
    let uri = id.to_uri();
    assert_eq!(uri, "spiffe://cluster.local/ns/default/sa/web-api");
    let parsed = SpiffeId::from_uri(&uri).unwrap();
    assert_eq!(parsed, id);
}

#[test]
fn test_spiffe_id_wildcard() {
    let id = SpiffeId::try_new("trust", "default", "web").unwrap();
    assert!(id.matches_pattern("spiffe://trust/ns/default/sa/web"));
    assert!(id.matches_pattern("spiffe://trust/ns/*/sa/*"));
    assert!(!id.matches_pattern("spiffe://other/ns/default/sa/web"));
}

#[test]
fn test_spiffe_id_integration() {
    // Full round-trip: parse → format → re-parse
    let original = "spiffe://cluster.local/ns/default/sa/web-api";
    let id = SpiffeId::from_uri(original).unwrap();
    assert_eq!(id.to_uri(), original);
    assert_eq!(id.trust_domain, "cluster.local");
    assert_eq!(id.namespace, "default");
    assert_eq!(id.service_account, "web-api");
}

#[test]
fn each_malformed_uri_has_its_error() {
    let expected = "malformed SPIFFE path: expected /ns/<ns>/sa/<sa>, got ";
    assert_eq!(identity_error("spiffe:"), "invalid URI: missing URI scheme separator");
    assert_eq!(
        identity_error("https://example.org/ns/foo/sa/bar"),
        "expected spiffe:// scheme, got https"
    );
    assert_eq!(identity_error("not-a-uri"), "expected spiffe:// scheme, got not-a-uri");
    // Nine bytes in fewer than nine characters are enough for a scheme to be looked for.
    assert_eq!(identity_error("ééééé"), "expected spiffe:// scheme, got ééééé");
    assert_eq!(identity_error("spiffe://example.org"), format!("{expected}empty path"));
    assert_eq!(
        identity_error("spiffe:///ns/a/sa/b"),
        "missing trust domain in SPIFFE URI"
    );
    assert_eq!(
        identity_error("spiffe://a b/ns/a/sa/b"),
        "SPIFFE URI authority must contain only a trust domain"
    );
    assert_eq!(identity_error("spiffe://t/foo/bar"), format!("{expected}/foo/bar"));
    assert_eq!(identity_error("spiffe://t/ns/foo"), format!("{expected}/ns/foo"));
    assert_eq!(
        identity_error("spiffe://t/ns/foo?x/sa/b"),
        "SPIFFE URI must not contain a query or fragment"
    );
    assert_eq!(identity_error("spiffe://t/ns/foo/bar"), format!("{expected}/ns/foo/bar"));
    assert_eq!(identity_error("spiffe://t/ns//sa/b"), format!("{expected}/ns//sa/b"));
    assert_eq!(identity_error("spiffe://t/ns/a/sa/"), format!("{expected}/ns/a/sa/"));
    assert_eq!(
        identity_error("spiffe://t/ns/a/sa/b/c"),
        format!("{expected}/ns/a/sa/b/c")
    );
    match CompiledPattern::from_uri("spiffe:") {
        Err(InterlinkError::Identity(message)) => {
            assert_eq!(message, "invalid pattern URI: missing URI scheme separator")
        }
        other => panic!("{other:?}"),
    }
}

#[test]
fn checked_construction_names_the_empty_part() {
    let message = |id: Result<SpiffeId, InterlinkError>| id.unwrap_err().message();
    assert_eq!(
        message(SpiffeId::try_new("", "", "")),
        "Identity error: trust domain must not be empty"
    );
    assert_eq!(
        message(SpiffeId::try_new("a", "", "")),
        "Identity error: namespace must not be empty"
    );
    assert_eq!(
        message(SpiffeId::try_new("a", "b", "")),
        "Identity error: service account must not be empty"
    );
    assert_eq!("spiffe://a/ns/b/sa/c".parse::<SpiffeId>().unwrap(), SpiffeId::new("a", "b", "c"));
}

#[test]
fn wildcards_stand_for_any_trust_domain_and_any_service() {
    let web = SpiffeId::new("trust", "default", "web");
    assert!(web.matches_pattern("spiffe://trust/ns/default/*"));
    assert!(!web.matches_pattern("spiffe://trust/ns/other/*"));
    assert!(web.matches_pattern("spiffe://*/ns/*/sa/*"));
    assert!(web.matches_pattern("spiffe://*/ns/*/*"));
    // Beside a narrower part a `*` is a trust domain by that name.
    assert!(!web.matches_pattern("spiffe://*/ns/default/sa/web"));
    assert!(!web.matches_pattern("spiffe://*/ns/default/*"));
    assert!(!web.matches_pattern("spiffe://*/ns/*/sa/web"));
    assert!(web.matches_pattern("spiffe://TRUST/ns/default/sa/web"));
    assert!(web.matches_compiled(&CompiledPattern::any()));
    assert_eq!(
        CompiledPattern::from_uri("spiffe://*/ns/*/sa/*").unwrap(),
        CompiledPattern::any()
    );
    assert_eq!(
        CompiledPattern::from_uri("spiffe://t/ns/n/*").unwrap(),
        CompiledPattern::from_uri("spiffe://t/ns/n/sa/*").unwrap()
    );
    // The short form is for patterns only.
    assert!(SpiffeId::from_uri("spiffe://trust/ns/default/*").is_err());
    assert!(!web.matches_pattern("no pattern"));
}

#[test]
fn static_provider_hands_out_what_it_was_given() {
    let id = SpiffeId::new("trust", "default", "web");
    let domain = TrustDomain::new("trust").with_ca(vec![1]).with_ca(vec![2]);
    let provider = StaticIdentityProvider::new(id.clone(), domain);
    assert_eq!(provider.get_identity().unwrap(), id);
    assert_eq!(provider.get_trust_domain().name, "trust");
    assert_eq!(provider.get_trust_domain().ca_certs, vec![vec![1], vec![2]]);

    let provider = StaticIdentityProvider::with_ca_bundle(id.clone(), vec![vec![3]]);
    assert_eq!(provider.get_trust_domain().name, "trust");
    assert_eq!(provider.get_trust_domain().ca_certs, vec![vec![3]]);
}
