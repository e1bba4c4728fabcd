//! What holds of identities, their URIs and their patterns taken together.

use vstd::prelude::*;
use vstd::utf8::encode_utf8;

use crate::common::config;
use crate::common::config::{Config, Environment};
use crate::common::constants::{buffers, cert, ports, timeouts};
use crate::common::error::InterlinkError;
use crate::common::glob;
use crate::common::identity;
use crate::common::identity::{Reading, SpiffeId, SpiffeParts};
use crate::identity::provider;
use crate::proxy::handshake;
use crate::text;

verus! {

/// A string has at least as many bytes as characters.
pub proof fn lemma_bytes_at_least_chars(s: Seq<char>)
    ensures
        encode_utf8(s).len() >= s.len(),
    decreases s.len(),
{
    if s.len() > 0 {
        lemma_bytes_at_least_chars(s.drop_first());
    }
}

/// The index of the first character of a set in `head + tail` is the length of `head`, where
/// `head` has none and `tail` opens with one.
proof fn lemma_first_behind(head: Seq<char>, tail: Seq<char>, set: Set<char>)
    requires
        forall|i: int| 0 <= i < head.len() ==> !set.contains(#[trigger] head[i]),
        tail.len() > 0 ==> set.contains(tail[0]),
    ensures
        text::first_of(head + tail, set) == head.len(),
{
    let s = head + tail;
    assert forall|i: int| 0 <= i < head.len() implies !set.contains(#[trigger] s[i]) by {
        assert(s[i] == head[i]);
    }
    text::lemma_first_of_unique(s, set, head.len() as int);
}

/// What is read from a scheme of either case, a valid authority, and two valid segments.
pub proof fn lemma_read_rendered(
    scheme: Seq<char>,
    domain: Seq<char>,
    namespace: Seq<char>,
    account: Seq<char>,
    reading: Reading,
)
    requires
        text::ascii_lowercase(scheme) == "spiffe://"@,
        domain.len() > 0,
        forall|i: int|
            0 <= i < domain.len() ==> (#[trigger] domain[i]) != '/'
                && !identity::foreign_to_trust_domain(domain[i]),
        identity::valid_segment(namespace),
        identity::valid_segment(account),
    ensures
        identity::read_uri(
            scheme + domain + "/ns/"@ + namespace + "/sa/"@ + account,
            reading,
        ) == Ok::<SpiffeParts, Seq<char>>(
            SpiffeParts { trust_domain: domain, namespace, service_account: account },
        ),
{
    reveal_strlit("spiffe://");
    reveal_strlit("/ns/");
    reveal_strlit("/sa/");
    reveal_strlit("ns/");
    reveal_strlit("sa/");
    reveal_strlit("*");
    let uri = scheme + domain + "/ns/"@ + namespace + "/sa/"@ + account;
    lemma_bytes_at_least_chars(uri);
    assert(text::ascii_lowercase(scheme).len() == scheme.len());
    assert(text::ascii_lowercase(uri).subrange(0, 9) =~= text::ascii_lowercase(scheme));
    let rest = uri.skip(9);
    let path = "/ns/"@ + namespace + "/sa/"@ + account;
    assert(rest =~= domain + path);
    lemma_first_behind(domain, path, set!['/']);
    assert(rest.take(domain.len() as int) =~= domain);
    assert forall|i: int| 0 <= i < domain.len() implies !identity::foreign_to_trust_domain(
        #[trigger] rest[i],
    ) by {
        assert(rest[i] == domain[i]);
    }
    let after = rest.skip(domain.len() as int + 1);
    assert(after =~= "ns/"@ + namespace + "/sa/"@ + account);
    assert(after.subrange(0, 3) =~= "ns/"@);
    let segments = after.skip(3);
    let tail = "/sa/"@ + account;
    assert(segments =~= namespace + tail);
    lemma_first_behind(namespace, tail, identity::segment_ends());
    assert(segments.take(namespace.len() as int) =~= namespace);
    let last = segments.skip(namespace.len() as int + 1);
    assert(last =~= "sa/"@ + account);
    assert(last.subrange(0, 3) =~= "sa/"@);
    assert(last.skip(3) =~= account);
    lemma_first_behind(account, Seq::empty(), identity::segment_ends());
    assert(account + Seq::<char>::empty() =~= account);
}

/// Reading the URI of a valid identity gives the identity back.
pub proof fn law_uri_round_trip(id: SpiffeParts)
    requires
        identity::valid_identity(id),
    ensures
        identity::identity_of(identity::identity_uri(id)) == Ok::<SpiffeParts, Seq<char>>(id),
{
    reveal_strlit("spiffe://");
    assert(text::ascii_lowercase("spiffe://"@) =~= "spiffe://"@);
    lemma_read_rendered(
        "spiffe://"@,
        id.trust_domain,
        id.namespace,
        id.service_account,
        Reading::Identity,
    );
}

/// Rendering what was read and reading it again changes nothing.
pub proof fn law_reading_normalizes_once(uri: Seq<char>)
    ensures
        identity::identity_of(uri) matches Ok(id) ==> identity::identity_of(
            identity::identity_uri(id),
        ) == identity::identity_of(uri),
{
    if let Ok(id) = identity::identity_of(uri) {
        identity::law_read_identities_are_valid(uri);
        law_uri_round_trip(id);
    }
}

/// Letter case in the scheme and in the trust domain does not matter.
pub proof fn law_scheme_and_trust_domain_ignore_case(
    scheme: Seq<char>,
    domain: Seq<char>,
    namespace: Seq<char>,
    account: Seq<char>,
)
    requires
        text::ascii_lowercase(scheme) == "spiffe://"@,
        domain.len() > 0,
        forall|i: int|
            0 <= i < domain.len() ==> (#[trigger] domain[i]) != '/'
                && !identity::foreign_to_trust_domain(domain[i]),
        identity::valid_segment(namespace),
        identity::valid_segment(account),
    ensures
        identity::identity_of(scheme + domain + "/ns/"@ + namespace + "/sa/"@ + account) == Ok::<
            SpiffeParts,
            Seq<char>,
        >(
            SpiffeParts {
                trust_domain: text::ascii_lowercase(domain),
                namespace,
                service_account: account,
            },
        ),
{
    lemma_read_rendered(scheme, domain, namespace, account, Reading::Identity);
}

/// Text matches itself as a pattern.
proof fn lemma_matches_itself(s: Seq<char>)
    ensures
        glob::glob_matches(s, s),
    decreases s.len(),
{
    if s.len() > 0 {
        lemma_matches_itself(s.skip(1));
    }
}

/// A valid identity matches its own URI taken as a pattern.
pub proof fn law_identity_matches_its_own_uri(id: SpiffeParts)
    requires
        identity::valid_identity(id),
    ensures
        identity::matches_text(id, identity::identity_uri(id)),
{
    reveal_strlit("spiffe://");
    assert(text::ascii_lowercase("spiffe://"@) =~= "spiffe://"@);
    lemma_read_rendered(
        "spiffe://"@,
        id.trust_domain,
        id.namespace,
        id.service_account,
        Reading::Pattern,
    );
    lemma_matches_itself(id.namespace);
    lemma_matches_itself(id.service_account);
}

proof fn lemma_literal_is_no_star(segment: Seq<char>)
    requires
        glob::literal(segment, 0, segment.len() as int),
    ensures
        segment != "*"@,
{
    reveal_strlit("*");
    if segment == "*"@ {
        assert(segment[0] == '*');
    }
}

/// Without a `*` in its segments, the URI of one valid identity matches no other identity.
pub proof fn law_literal_pattern_matches_one_identity(id: SpiffeParts, other: SpiffeParts)
    requires
        identity::valid_identity(id),
        glob::literal(id.namespace, 0, id.namespace.len() as int),
        glob::literal(id.service_account, 0, id.service_account.len() as int),
    ensures
        identity::matches_text(other, identity::identity_uri(id)) <==> other == id,
{
    law_identity_matches_its_own_uri(id);
    reveal_strlit("spiffe://");
    lemma_literal_is_no_star(id.namespace);
    assert(text::ascii_lowercase("spiffe://"@) =~= "spiffe://"@);
    lemma_read_rendered(
        "spiffe://"@,
        id.trust_domain,
        id.namespace,
        id.service_account,
        Reading::Pattern,
    );
    glob::lemma_exact(id.namespace, other.namespace);
    glob::lemma_exact(id.service_account, other.service_account);
}

/// `*` matches every segment.
pub proof fn law_star_matches_every_segment(value: Seq<char>)
    ensures
        glob::glob_matches("*"@, value),
{
    reveal_strlit("*");
    glob::lemma_only_stars("*"@, value);
}

/// The pattern `spiffe://*/ns/*/sa/*` and the pattern of `CompiledPattern::any` are one, and every
/// identity matches it.
pub proof fn law_any_pattern_matches_every_identity(id: SpiffeParts)
    ensures
        identity::pattern_of("spiffe://*/ns/*/sa/*"@) == Ok::<SpiffeParts, Seq<char>>(
            identity::any_pattern(),
        ),
        identity::parts_match(id, identity::any_pattern()),
        identity::matches_text(id, "spiffe://*/ns/*/sa/*"@),
{
    reveal_strlit("*");
    reveal_strlit("spiffe://");
    reveal_strlit("/ns/");
    reveal_strlit("/sa/");
    reveal_strlit("spiffe://*/ns/*/sa/*");
    let star = "*"@;
    assert(text::ascii_lowercase("spiffe://"@) =~= "spiffe://"@);
    assert("spiffe://"@ + star + "/ns/"@ + star + "/sa/"@ + star =~= "spiffe://*/ns/*/sa/*"@);
    lemma_read_rendered("spiffe://"@, star, star, star, Reading::Pattern);
    law_star_matches_every_segment(id.namespace);
    law_star_matches_every_segment(id.service_account);
}

/// No pattern but that one reaches beyond a trust domain: what two identities of different trust
/// domains match is the pattern that every identity matches.
pub proof fn law_patterns_keep_to_their_trust_domain(
    pattern: Seq<char>,
    one: SpiffeParts,
    other: SpiffeParts,
)
    requires
        identity::matches_text(one, pattern),
        identity::matches_text(other, pattern),
        one.trust_domain != other.trust_domain,
    ensures
        identity::pattern_of(pattern) == Ok::<SpiffeParts, Seq<char>>(identity::any_pattern()),
{
    let rest = pattern.skip(9);
    text::lemma_first_of(rest, set!['/']);
    let parts = identity::read_uri(pattern, Reading::Pattern)->Ok_0;
    assert(parts.trust_domain == rest.take(text::first_of(rest, set!['/'])));
    assert(text::ascii_lowercase(parts.trust_domain).len() == parts.trust_domain.len());
    assert(identity::is_all_stars(parts));
}

/// What is read from a pattern that ends in `/*` behind its namespace.
pub proof fn lemma_read_short(scheme: Seq<char>, domain: Seq<char>, namespace: Seq<char>)
    requires
        text::ascii_lowercase(scheme) == "spiffe://"@,
        domain.len() > 0,
        forall|i: int|
            0 <= i < domain.len() ==> (#[trigger] domain[i]) != '/'
                && !identity::foreign_to_trust_domain(domain[i]),
        identity::valid_segment(namespace),
    ensures
        identity::read_uri(scheme + domain + "/ns/"@ + namespace + "/*"@, Reading::Pattern) == Ok::<
            SpiffeParts,
            Seq<char>,
        >(SpiffeParts { trust_domain: domain, namespace, service_account: "*"@ }),
{
    reveal_strlit("spiffe://");
    reveal_strlit("/ns/");
    reveal_strlit("ns/");
    reveal_strlit("/*");
    reveal_strlit("*");
    let uri = scheme + domain + "/ns/"@ + namespace + "/*"@;
    lemma_bytes_at_least_chars(uri);
    assert(text::ascii_lowercase(scheme).len() == scheme.len());
    assert(text::ascii_lowercase(uri).subrange(0, 9) =~= text::ascii_lowercase(scheme));
    let rest = uri.skip(9);
    let path = "/ns/"@ + namespace + "/*"@;
    assert(rest =~= domain + path);
    lemma_first_behind(domain, path, set!['/']);
    assert(rest.take(domain.len() as int) =~= domain);
    assert forall|i: int| 0 <= i < domain.len() implies !identity::foreign_to_trust_domain(
        #[trigger] rest[i],
    ) by {
        assert(rest[i] == domain[i]);
    }
    let after = rest.skip(domain.len() as int + 1);
    assert(after =~= "ns/"@ + namespace + "/*"@);
    assert(after.subrange(0, 3) =~= "ns/"@);
    let segments = after.skip(3);
    assert(segments =~= namespace + "/*"@);
    lemma_first_behind(namespace, "/*"@, identity::segment_ends());
    assert(segments.take(namespace.len() as int) =~= namespace);
    assert(segments.skip(namespace.len() as int + 1) =~= "*"@);
}

/// A pattern that ends in `/*` behind the namespace matches any service of the namespace: it is
/// the pattern that ends in `/sa/*`.
pub proof fn law_namespace_wildcard(domain: Seq<char>, namespace: Seq<char>)
    requires
        domain.len() > 0,
        forall|i: int|
            0 <= i < domain.len() ==> (#[trigger] domain[i]) != '/'
                && !identity::foreign_to_trust_domain(domain[i]),
        identity::valid_segment(namespace),
    ensures
        identity::pattern_of("spiffe://"@ + domain + "/ns/"@ + namespace + "/*"@)
            == identity::pattern_of("spiffe://"@ + domain + "/ns/"@ + namespace + "/sa/"@ + "*"@),
        identity::pattern_of("spiffe://"@ + domain + "/ns/"@ + namespace + "/*"@) is Ok,
{
    reveal_strlit("spiffe://");
    reveal_strlit("*");
    assert(text::ascii_lowercase("spiffe://"@) =~= "spiffe://"@);
    lemma_read_rendered("spiffe://"@, domain, namespace, "*"@, Reading::Pattern);
    lemma_read_short("spiffe://"@, domain, namespace);
}

/// A pattern with a literal namespace and `*` for the service account matches exactly the
/// identities of that trust domain and namespace.
pub proof fn law_namespace_pattern(domain: Seq<char>, namespace: Seq<char>, id: SpiffeParts)
    requires
        identity::valid_identity(
            SpiffeParts { trust_domain: domain, namespace, service_account: "*"@ },
        ),
        glob::literal(namespace, 0, namespace.len() as int),
    ensures
        identity::matches_text(
            id,
            "spiffe://"@ + domain + "/ns/"@ + namespace + "/sa/"@ + "*"@,
        ) <==> id.trust_domain == domain && id.namespace == namespace,
{
    reveal_strlit("spiffe://");
    assert(text::ascii_lowercase("spiffe://"@) =~= "spiffe://"@);
    lemma_read_rendered("spiffe://"@, domain, namespace, "*"@, Reading::Pattern);
    lemma_literal_is_no_star(namespace);
    glob::lemma_exact(namespace, id.namespace);
    law_star_matches_every_segment(id.service_account);
}

/// The environment comes before the file, and the file before the defaults.
pub proof fn law_environment_before_file_before_defaults(
    base: Config,
    file: Config,
    env: Environment,
)
    ensures
        config::environment_over(config::file_over(base, file), env) matches Ok(c) ==> {
            &&& c.trust_domain == config::set_to(env.trust_domain, file.trust_domain)
            &&& c.log_level == config::set_to(env.log_level, file.log_level)
            &&& c.identity == config::over(env.identity, config::over(file.identity, base.identity))
            &&& c.default_upstream == config::over(
                env.default_upstream,
                config::over(file.default_upstream, base.default_upstream),
            )
            &&& c.ca_bundle_path == config::over(
                env.ca_bundle_path,
                config::over(file.ca_bundle_path, base.ca_bundle_path),
            )
            &&& c.cert_path == config::over(
                env.cert_path,
                config::over(file.cert_path, base.cert_path),
            )
            &&& c.key_path == config::over(
                env.key_path,
                config::over(file.key_path, base.key_path),
            )
            &&& env.mux is None ==> c.mux == file.mux
            &&& env.max_connections is None ==> c.max_connections == file.max_connections
            &&& env.proxy_inbound_port is None ==> c.proxy_inbound_port == file.proxy_inbound_port
            &&& env.proxy_outbound_port is None ==> c.proxy_outbound_port
                == file.proxy_outbound_port
            &&& env.metrics_port is None ==> c.metrics_port == file.metrics_port
        },
{
}

/// An error is shown with what it is about before its message.
pub proof fn law_errors_in_words(error: InterlinkError, words: String)
    requires
        call_ensures(InterlinkError::message, (&error,), words),
    ensures
        error matches InterlinkError::Tls(m) ==> words@ == "TLS error: "@ + m@,
        error matches InterlinkError::Io(m) ==> words@ == "I/O error: "@ + m@,
        error matches InterlinkError::Protocol(m) ==> words@ == "Protocol error: "@ + m@,
        error matches InterlinkError::Identity(m) ==> words@ == "Identity error: "@ + m@,
        error matches InterlinkError::PolicyViolation(m) ==> words@ == "Policy violation: "@ + m@,
        error matches InterlinkError::DnsResolution(m) ==> words@ == "DNS resolution failed: "@
            + m@,
        error matches InterlinkError::Config(m) ==> words@ == "Configuration error: "@ + m@,
{
}

/// Copies of an identity are the same.
pub proof fn law_copied_identities(id: SpiffeId, copy: SpiffeId)
    requires
        call_ensures(<SpiffeId as Clone>::clone, (&id,), copy),
    ensures
        copy@ == id@,
{
}

/// What holds where nothing is configured: the ports, the timeouts and lifetimes in seconds, and
/// the sizes in bytes.
pub proof fn law_defaults()
    ensures
        ports::INBOUND_PROXY == 4143,
        ports::OUTBOUND_PROXY == 4140,
        ports::METRICS == 4190,
        ports::IDENTITY_GRPC == 4191,
        ports::ADMIN == 4192,
        timeouts::TLS_HANDSHAKE == 10,
        timeouts::TCP_IDLE == 300,
        timeouts::DNS_RESOLVE == 5,
        timeouts::SHUTDOWN_GRACE == 30,
        cert::LEAF_TTL == 24 * 60 * 60,
        cert::ROOT_CA_TTL == 365 * cert::LEAF_TTL,
        cert::CLOCK_SKEW_TOLERANCE == 60 * 60,
        buffers::PROTOCOL_DETECT == 32,
        buffers::SOCKET_READ == 16 * 1024,
        buffers::MAX_FRAME_SIZE == 0x100_0000 - 1,
        provider::K8S_SERVICE_ACCOUNT_TOKEN_PATH@
            == "/var/run/secrets/kubernetes.io/serviceaccount/token"@,
        provider::K8S_NAMESPACE_PATH@
            == "/var/run/secrets/kubernetes.io/serviceaccount/namespace"@,
        handshake::IDENTITY_CACHE_CAPACITY == 1024,
{
}

} // verus!
