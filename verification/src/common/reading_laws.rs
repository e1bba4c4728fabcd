//! What is read from texts: identities, patterns, numbers and settings.

use vstd::prelude::*;
use vstd::utf8::encode_utf8;

use crate::common::config;
use crate::common::config::{Config, Environment};
use crate::common::error::InterlinkError;
use crate::common::glob;
use crate::common::identity;
use crate::common::identity::{CompiledPattern, Reading, SegmentGlob, SpiffeId, SpiffeParts};
use crate::common::laws;
use crate::number;
use crate::number::NumberFault;
use crate::proxy::config::ProxyConfig;
use crate::text;

verus! {

/// Whether a text says `spiffe://` in letters of either case.
pub open spec fn is_scheme(s: Seq<char>) -> bool {
    &&& s.len() == 9
    &&& forall|i: int|
        0 <= i < 9 ==> (#[trigger] s[i]) == "spiffe://"@[i] || s[i] as u32 + 32
            == "spiffe://"@[i] as u32 && 'A' <= s[i] <= 'Z'
}

/// Whether a character can stand in a trust domain: no control character, no space, and none of
/// `@ : [ ] \ / ? #`.
pub open spec fn fits_trust_domain(c: char) -> bool {
    &&& c > ' '
    &&& c != '\u{7f}'
    &&& c != '@'
    &&& c != ':'
    &&& c != '['
    &&& c != ']'
    &&& c != '\\'
    &&& c != '?'
    &&& c != '#'
    &&& c != '/'
}

/// Whether a text can be the trust domain of a URI.
pub open spec fn is_trust_domain(s: Seq<char>) -> bool {
    s.len() > 0 && forall|i: int| 0 <= i < s.len() ==> fits_trust_domain(#[trigger] s[i])
}

/// Whether a text can be a segment of a URI: it is not empty and holds none of `/ ? #`.
pub open spec fn is_segment(s: Seq<char>) -> bool {
    s.len() > 0 && forall|i: int|
        0 <= i < s.len() ==> (#[trigger] s[i]) != '/' && s[i] != '?' && s[i] != '#'
}

/// Whether two texts are the same but for upper-case ASCII letters, which are in lower case in the
/// second.
pub open spec fn lowered(s: Seq<char>, lower: Seq<char>) -> bool {
    &&& lower.len() == s.len()
    &&& forall|i: int|
        0 <= i < s.len() ==> if 'A' <= s[i] <= 'Z' {
            (#[trigger] lower[i]) as int == s[i] as int + 32
        } else {
            lower[i] == s[i]
        }
}

/// Whether a text is the URI of an identity, written with some trust domain.
pub open spec fn writes(
    uri: Seq<char>,
    scheme: Seq<char>,
    domain: Seq<char>,
    id: SpiffeParts,
) -> bool {
    &&& is_scheme(scheme)
    &&& is_trust_domain(domain)
    &&& lowered(domain, id.trust_domain)
    &&& is_segment(id.namespace)
    &&& is_segment(id.service_account)
    &&& uri == scheme + domain + "/ns/"@ + id.namespace + "/sa/"@ + id.service_account
}

proof fn lemma_scheme(s: Seq<char>)
    ensures
        is_scheme(s) <==> text::ascii_lowercase(s) == "spiffe://"@,
{
    reveal_strlit("spiffe://");
    let lower = text::ascii_lowercase(s);
    if is_scheme(s) {
        assert forall|i: int| 0 <= i < 9 implies #[trigger] lower[i] == "spiffe://"@[i] by {
            assert(s[i] == "spiffe://"@[i] || s[i] as u32 + 32 == "spiffe://"@[i] as u32);
        }
        assert(lower =~= "spiffe://"@);
    }
    if lower == "spiffe://"@ {
        assert(lower.len() == s.len());
        assert forall|i: int| 0 <= i < 9 implies (#[trigger] s[i]) == "spiffe://"@[i] || s[i] as u32
            + 32 == "spiffe://"@[i] as u32 && 'A' <= s[i] <= 'Z' by {
            assert(lower[i] == text::ascii_lower(s[i]));
        }
    }
}

proof fn lemma_lowered(s: Seq<char>, lower: Seq<char>)
    ensures
        lowered(s, lower) <==> lower == text::ascii_lowercase(s),
{
    let wanted = text::ascii_lowercase(s);
    if lowered(s, lower) {
        assert forall|i: int| 0 <= i < s.len() implies #[trigger] lower[i] == wanted[i] by {
            assert(wanted[i] == text::ascii_lower(s[i]));
            assert(if 'A' <= s[i] <= 'Z' {
                lower[i] as int == s[i] as int + 32 && wanted[i] as int == s[i] as int + 32
            } else {
                lower[i] == s[i]
            });
        }
        assert(lower =~= wanted);
    }
}

proof fn lemma_characters(s: Seq<char>)
    ensures
        is_segment(s) <==> identity::valid_segment(s),
        is_trust_domain(s) <==> {
            &&& s.len() > 0
            &&& forall|i: int|
                0 <= i < s.len() ==> (#[trigger] s[i]) != '/'
                    && !identity::foreign_to_trust_domain(s[i])
        },
{
    assert forall|c: char| #[trigger]
        identity::segment_ends().contains(c) <==> c == '/' || c == '?' || c == '#' by {}
    if identity::valid_segment(s) {
        assert forall|i: int| 0 <= i < s.len() implies (#[trigger] s[i]) != '/' && s[i] != '?'
            && s[i] != '#' by {
            assert(!identity::segment_ends().contains(s[i]));
        }
    }
    if is_segment(s) {
        assert forall|i: int| 0 <= i < s.len() implies !identity::segment_ends().contains(
            #[trigger] s[i],
        ) by {}
    }
    if is_trust_domain(s) {
        assert forall|i: int| 0 <= i < s.len() implies (#[trigger] s[i]) != '/'
            && !identity::foreign_to_trust_domain(s[i]) by {
            assert(fits_trust_domain(s[i]));
        }
    }
}

/// The parts that are read stand in the text.
#[verifier::spinoff_prover]
#[verifier::rlimit(60)]
proof fn lemma_read_stands_written(uri: Seq<char>, reading: Reading)
    requires
        identity::read_uri(uri, reading) is Ok,
    ensures
        ({
            let parts = identity::read_uri(uri, reading)->Ok_0;
            let head = uri.take(9) + parts.trust_domain + "/ns/"@ + parts.namespace;
            &&& uri.len() >= 9
            &&& is_scheme(uri.take(9))
            &&& is_trust_domain(parts.trust_domain)
            &&& is_segment(parts.namespace)
            &&& uri == head + "/sa/"@ + parts.service_account && is_segment(parts.service_account)
                || reading == Reading::Pattern && parts.service_account == "*"@ && uri == head
                + "/*"@
        }),
{
    reveal_strlit("spiffe://");
    reveal_strlit("/ns/");
    reveal_strlit("/sa/");
    reveal_strlit("ns/");
    reveal_strlit("sa/");
    reveal_strlit("/*");
    reveal_strlit("*");
    let parts = identity::read_uri(uri, reading)->Ok_0;
    let lower = text::ascii_lowercase(uri);
    assert(lower.subrange(0, 9) =~= text::ascii_lowercase(uri.take(9)));
    lemma_scheme(uri.take(9));
    let rest = uri.skip(9);
    let end = text::first_of(rest, set!['/']);
    text::lemma_first_of(rest, set!['/']);
    let domain = rest.take(end);
    assert(parts.trust_domain == domain);
    assert forall|i: int| 0 <= i < domain.len() implies (#[trigger] domain[i]) != '/'
        && !identity::foreign_to_trust_domain(domain[i]) by {
        assert(!set!['/'].contains(rest[i]));
        assert(!identity::foreign_to_trust_domain(rest[i]));
    }
    lemma_characters(domain);
    assert(set!['/'].contains(rest[end]));
    let path = rest.skip(end + 1);
    let segments = path.skip(3);
    let at = text::first_of(segments, identity::segment_ends());
    text::lemma_first_of(segments, identity::segment_ends());
    let namespace = segments.take(at);
    assert(parts.namespace == namespace);
    assert forall|i: int| 0 <= i < namespace.len() implies !identity::segment_ends().contains(
        #[trigger] namespace[i],
    ) by {
        assert(!identity::segment_ends().contains(segments[i]));
    }
    lemma_characters(namespace);
    let tail = segments.skip(at + 1);
    assert(path.subrange(0, 3) =~= "ns/"@);
    assert(path =~= "ns/"@ + segments);
    assert(segments =~= namespace + "/"@ + tail) by {
        reveal_strlit("/");
    }
    reveal_strlit("/");
    assert(rest =~= domain + "/"@ + path);
    assert(uri =~= uri.take(9) + rest);
    let head = uri.take(9) + domain + "/ns/"@ + namespace;
    assert(uri =~= head + "/"@ + tail);
    if reading == Reading::Pattern && tail == "*"@ {
        assert(uri =~= head + "/*"@);
    } else {
        let account = tail.skip(3);
        text::lemma_first_of(account, identity::segment_ends());
        assert(parts.service_account == account);
        lemma_characters(account);
        assert(tail.subrange(0, 3) =~= "sa/"@);
        assert(tail =~= "sa/"@ + account);
        assert(uri =~= head + "/sa/"@ + account);
    }
}

/// A text is read as an identity if and only if it is the URI of one; then it is read as that one.
pub proof fn law_identities_are_read_from_their_uris(
    uri: &str,
    result: Result<SpiffeId, InterlinkError>,
)
    requires
        call_ensures(SpiffeId::from_uri, (uri,), result),
    ensures
        result matches Ok(id) ==> exists|scheme: Seq<char>, domain: Seq<char>| #[trigger]
            writes(uri@, scheme, domain, id@),
        forall|scheme: Seq<char>, domain: Seq<char>, id: SpiffeParts| #[trigger]
            writes(uri@, scheme, domain, id) ==> (result matches Ok(r) && r@ == id),
        result matches Err(error) ==> error is Identity,
{
    if let Ok(id) = result {
        lemma_read_stands_written(uri@, Reading::Identity);
        let parts = identity::read_uri(uri@, Reading::Identity)->Ok_0;
        lemma_lowered(parts.trust_domain, id@.trust_domain);
        assert(writes(uri@, uri@.take(9), parts.trust_domain, id@));
    }
    assert forall|scheme: Seq<char>, domain: Seq<char>, id: SpiffeParts| #[trigger]
        writes(uri@, scheme, domain, id) implies result matches Ok(r) && r@ == id by {
        lemma_scheme(scheme);
        lemma_lowered(domain, id.trust_domain);
        lemma_characters(domain);
        lemma_characters(id.namespace);
        lemma_characters(id.service_account);
        laws::law_scheme_and_trust_domain_ignore_case(
            scheme,
            domain,
            id.namespace,
            id.service_account,
        );
    }
}

/// What is refused as an identity, and in which words: too short a text, another scheme, no path,
/// no trust domain, more than a trust domain, no namespace, a query or fragment behind it.
pub proof fn law_refused_identities(uri: &str, result: Result<SpiffeId, InterlinkError>)
    requires
        call_ensures(SpiffeId::from_uri, (uri,), result),
    ensures
        encode_utf8(uri@).len() < 9 ==> is_identity_error(
            result,
            "invalid URI: missing URI scheme separator"@,
        ),
        forall|scheme: Seq<char>, rest: Seq<char>|
            is_scheme(scheme) && uri@ == #[trigger] (scheme + rest) && lacks(rest, '/')
                ==> is_identity_error(
                result,
                "malformed SPIFFE path: expected /ns/<ns>/sa/<sa>, got "@ + "empty path"@,
            ),
        forall|scheme: Seq<char>, path: Seq<char>|
            is_scheme(scheme) && uri@ == #[trigger] (scheme + "/"@ + path) ==> is_identity_error(
                result,
                "missing trust domain in SPIFFE URI"@,
            ),
        forall|scheme: Seq<char>, domain: Seq<char>, path: Seq<char>|
            is_scheme(scheme) && uri@ == #[trigger] (scheme + domain + "/"@ + path) && lacks(
                domain,
                '/',
            ) && domain.len() > 0 && !is_trust_domain(domain) ==> is_identity_error(
                result,
                "SPIFFE URI authority must contain only a trust domain"@,
            ),
        forall|scheme: Seq<char>, domain: Seq<char>, path: Seq<char>|
            is_scheme(scheme) && uri@ == #[trigger] (scheme + domain + "/"@ + path)
                && is_trust_domain(domain) && !begins(path, "ns/"@) ==> is_identity_error(
                result,
                "malformed SPIFFE path: expected /ns/<ns>/sa/<sa>, got "@ + ("/"@ + path),
            ),
        forall|scheme: Seq<char>, domain: Seq<char>, namespace: Seq<char>|
            is_scheme(scheme) && uri@ == #[trigger] (scheme + domain + "/ns/"@ + namespace)
                && is_trust_domain(domain) && (namespace.len() == 0 || is_segment(namespace))
                ==> is_identity_error(
                result,
                "malformed SPIFFE path: expected /ns/<ns>/sa/<sa>, got "@ + ("/ns/"@ + namespace),
            ),
        forall|
            scheme: Seq<char>,
            domain: Seq<char>,
            namespace: Seq<char>,
            end: char,
            rest: Seq<char>,
        |
            is_scheme(scheme) && uri@ == #[trigger] (scheme + domain + "/ns/"@ + namespace.push(end)
                + rest) && is_trust_domain(domain) && (namespace.len() == 0 || is_segment(
                namespace,
            )) && (end == '?' || end == '#') ==> is_identity_error(
                result,
                "SPIFFE URI must not contain a query or fragment"@,
            ),
        !is_scheme_of(uri@) && encode_utf8(uri@).len() >= 9 ==> (result matches Err(
            InterlinkError::Identity(m),
        ) && exists|scheme: Seq<char>| m@ == #[trigger] ("expected spiffe:// scheme, got "@
            + scheme)
            && names_scheme(uri@, scheme)),
{
    reveal_strlit("spiffe://");
    reveal_strlit("/");
    reveal_strlit("/ns/");
    reveal_strlit("ns/");
    reveal_strlit("://");
    assert forall|scheme: Seq<char>, rest: Seq<char>|
        is_scheme(scheme) && uri@ == #[trigger] (scheme + rest) && lacks(rest, '/') implies
        is_identity_error(
        result,
        "malformed SPIFFE path: expected /ns/<ns>/sa/<sa>, got "@ + "empty path"@,
    ) by {
        lemma_scheme_opens(uri@, scheme, rest);
        text::lemma_first_of(rest, set!['/']);
    }
    assert forall|scheme: Seq<char>, path: Seq<char>|
        is_scheme(scheme) && uri@ == #[trigger] (scheme + "/"@ + path) implies is_identity_error(
        result,
        "missing trust domain in SPIFFE URI"@,
    ) by {
        assert(uri@ =~= scheme + ("/"@ + path));
        lemma_scheme_opens(uri@, scheme, "/"@ + path);
    }
    assert forall|scheme: Seq<char>, domain: Seq<char>, path: Seq<char>|
        is_scheme(scheme) && uri@ == #[trigger] (scheme + domain + "/"@ + path) && lacks(
            domain,
            '/',
        ) && domain.len() > 0 && !is_trust_domain(domain) implies is_identity_error(
        result,
        "SPIFFE URI authority must contain only a trust domain"@,
    ) by {
        let rest = domain + "/"@ + path;
        assert(uri@ =~= scheme + rest);
        lemma_scheme_opens(uri@, scheme, rest);
        assert forall|i: int| 0 <= i < domain.len() implies !set!['/'].contains(
            #[trigger] rest[i],
        ) by {
            assert(rest[i] == domain[i]);
        }
        text::lemma_first_of_unique(rest, set!['/'], domain.len() as int);
        lemma_characters(domain);
        let i = choose|i: int|
            0 <= i < domain.len() && ((#[trigger] domain[i]) == '/'
                || identity::foreign_to_trust_domain(domain[i]));
        assert(rest[i] == domain[i]);
        assert(identity::foreign_to_trust_domain(rest[i]));
    }
    assert forall|scheme: Seq<char>, domain: Seq<char>, path: Seq<char>|
        is_scheme(scheme) && uri@ == #[trigger] (scheme + domain + "/"@ + path) && is_trust_domain(
            domain,
        ) && !begins(path, "ns/"@) implies is_identity_error(
        result,
        "malformed SPIFFE path: expected /ns/<ns>/sa/<sa>, got "@ + ("/"@ + path),
    ) by {
        lemma_authority_read(uri@, scheme, domain, path);
        lemma_begins(path, "ns/"@);
    }
    assert forall|scheme: Seq<char>, domain: Seq<char>, namespace: Seq<char>|
        is_scheme(scheme) && uri@ == #[trigger] (scheme + domain + "/ns/"@ + namespace)
            && is_trust_domain(domain) && (namespace.len() == 0 || is_segment(
            namespace,
        )) implies is_identity_error(
        result,
        "malformed SPIFFE path: expected /ns/<ns>/sa/<sa>, got "@ + ("/ns/"@ + namespace),
    ) by {
        let path = "ns/"@ + namespace;
        assert(uri@ =~= scheme + domain + "/"@ + path);
        lemma_authority_read(uri@, scheme, domain, path);
        assert(path.subrange(0, 3) =~= "ns/"@);
        assert(path.skip(3) =~= namespace);
        lemma_characters(namespace);
        text::lemma_first_of_unique(namespace, identity::segment_ends(), namespace.len() as int);
    }
    assert forall|
        scheme: Seq<char>,
        domain: Seq<char>,
        namespace: Seq<char>,
        end: char,
        rest: Seq<char>,
    |
        is_scheme(scheme) && uri@ == #[trigger] (scheme + domain + "/ns/"@ + namespace.push(end)
            + rest) && is_trust_domain(domain) && (namespace.len() == 0 || is_segment(namespace))
            && (end == '?' || end == '#') implies is_identity_error(
        result,
        "SPIFFE URI must not contain a query or fragment"@,
    ) by {
        let segments = namespace.push(end) + rest;
        let path = "ns/"@ + segments;
        assert(uri@ =~= scheme + domain + "/"@ + path);
        lemma_authority_read(uri@, scheme, domain, path);
        assert(path.subrange(0, 3) =~= "ns/"@);
        assert(path.skip(3) =~= segments);
        lemma_characters(namespace);
        let n = namespace.len() as int;
        assert forall|i: int| 0 <= i < n implies !identity::segment_ends().contains(
            #[trigger] segments[i],
        ) by {
            assert(segments[i] == namespace[i]);
        }
        assert(segments[n] == end);
        text::lemma_first_of_unique(segments, identity::segment_ends(), n);
    }
    if !is_scheme_of(uri@) && encode_utf8(uri@).len() >= 9 {
        let lower = text::ascii_lowercase(uri@);
        if text::starts_with(lower, "spiffe://"@) {
            assert(lower.subrange(0, 9) =~= text::ascii_lowercase(uri@.take(9)));
            lemma_scheme(uri@.take(9));
        }
        let scheme = text::before_first(uri@, "://"@);
        lemma_names_scheme(uri@);
        assert(result->Err_0->Identity_0@ == "expected spiffe:// scheme, got "@ + scheme);
    }
}

/// Whether a text begins with another.
pub open spec fn begins(s: Seq<char>, head: Seq<char>) -> bool {
    exists|rest: Seq<char>| s == #[trigger] (head + rest)
}

proof fn lemma_begins(s: Seq<char>, head: Seq<char>)
    ensures
        begins(s, head) == text::starts_with(s, head),
{
    if text::starts_with(s, head) {
        assert(s =~= head + s.skip(head.len() as int));
    }
    if begins(s, head) {
        let rest = choose|rest: Seq<char>| s == #[trigger] (head + rest);
        assert(s.subrange(0, head.len() as int) =~= head);
    }
}

/// Whether a text begins with `spiffe://` in letters of either case.
pub open spec fn is_scheme_of(uri: Seq<char>) -> bool {
    uri.len() >= 9 && is_scheme(uri.take(9))
}

/// Whether a text is what stands before the first `://`, or everything where there is none.
pub open spec fn names_scheme(uri: Seq<char>, scheme: Seq<char>) -> bool {
    ||| uri == scheme && forall|i: int| !#[trigger] text::occurs_at(uri, "://"@, i)
    ||| exists|rest: Seq<char>|
        uri == #[trigger] (scheme + "://"@ + rest) && forall|i: int|
            0 <= i < scheme.len() ==> !#[trigger] text::occurs_at(uri, "://"@, i)
}

proof fn lemma_names_scheme(uri: Seq<char>)
    ensures
        names_scheme(uri, text::before_first(uri, "://"@)),
    decreases uri.len(),
{
    reveal_strlit("://");
    let needle = "://"@;
    let scheme = text::before_first(uri, needle);
    if exists|i: int| #[trigger] text::occurs_at(uri, needle, i) {
        let any = choose|i: int| #[trigger] text::occurs_at(uri, needle, i);
        let at = lemma_first_occurrence(uri, needle, any);
        text::lemma_before_first(uri, needle, at);
        let rest = uri.skip(at + 3);
        assert(uri.subrange(at, at + 3) == needle);
        assert(uri =~= scheme + needle + rest);
    } else {
        text::lemma_before_first(uri, needle, uri.len() as int);
        assert(uri.take(uri.len() as int) =~= uri);
    }
}

proof fn lemma_first_occurrence(s: Seq<char>, needle: Seq<char>, any: int) -> (at: int)
    requires
        text::occurs_at(s, needle, any),
        needle.len() > 0,
    ensures
        0 <= at < s.len(),
        text::occurs_at(s, needle, at),
        forall|i: int| 0 <= i < at ==> !#[trigger] text::occurs_at(s, needle, i),
    decreases any,
{
    if exists|i: int| 0 <= i < any && #[trigger] text::occurs_at(s, needle, i) {
        let earlier = choose|i: int| 0 <= i < any && #[trigger] text::occurs_at(s, needle, i);
        lemma_first_occurrence(s, needle, earlier)
    } else {
        any
    }
}

/// What is read behind a trust domain is the path.
proof fn lemma_authority_read(
    uri: Seq<char>,
    scheme: Seq<char>,
    domain: Seq<char>,
    path: Seq<char>,
)
    requires
        is_scheme(scheme),
        is_trust_domain(domain),
        uri == scheme + domain + "/"@ + path,
    ensures
        identity::read_uri(uri, Reading::Identity) == identity::read_path(
            domain,
            path,
            Reading::Identity,
        ),
{
    reveal_strlit("/");
    let rest = domain + "/"@ + path;
    assert(uri =~= scheme + rest);
    lemma_scheme_opens(uri, scheme, rest);
    lemma_characters(domain);
    let n = domain.len() as int;
    assert forall|i: int| 0 <= i < n implies !set!['/'].contains(#[trigger] rest[i])
        && !identity::foreign_to_trust_domain(rest[i]) by {
        assert(rest[i] == domain[i]);
    }
    assert(rest[n] == '/');
    text::lemma_first_of_unique(rest, set!['/'], n);
    assert(rest.take(n) =~= domain);
    assert(rest.skip(n + 1) =~= path);
}

/// Whether a text is without a character.
pub open spec fn lacks(s: Seq<char>, c: char) -> bool {
    forall|i: int| 0 <= i < s.len() ==> #[trigger] s[i] != c
}

/// Whether an identity was refused in these words.
pub open spec fn is_identity_error(
    result: Result<SpiffeId, InterlinkError>,
    words: Seq<char>,
) -> bool {
    result matches Err(InterlinkError::Identity(m)) && m@ == words
}

proof fn lemma_scheme_opens(uri: Seq<char>, scheme: Seq<char>, rest: Seq<char>)
    requires
        is_scheme(scheme),
        uri == scheme + rest,
    ensures
        encode_utf8(uri).len() >= 9,
        text::starts_with(text::ascii_lowercase(uri), "spiffe://"@),
        uri.skip(9) == rest,
{
    reveal_strlit("spiffe://");
    lemma_scheme(scheme);
    laws::lemma_bytes_at_least_chars(uri);
    assert(text::ascii_lowercase(uri).subrange(0, 9) =~= text::ascii_lowercase(scheme));
    assert(uri.skip(9) =~= rest);
}

/// An identity is made of three parts that are not empty, and keeps them as they are.
pub proof fn law_identities_keep_their_parts(
    trust_domain: &str,
    namespace: &str,
    account: &str,
    unchecked: SpiffeId,
    checked: Result<SpiffeId, InterlinkError>,
)
    requires
        call_ensures(SpiffeId::new, (trust_domain, namespace, account), unchecked),
        call_ensures(SpiffeId::try_new, (trust_domain, namespace, account), checked),
    ensures
        unchecked.trust_domain@ == trust_domain@,
        unchecked.namespace@ == namespace@,
        unchecked.service_account@ == account@,
        checked is Ok <==> trust_domain@.len() > 0 && namespace@.len() > 0 && account@.len() > 0,
        checked matches Ok(id) ==> {
            &&& id.trust_domain@ == trust_domain@
            &&& id.namespace@ == namespace@
            &&& id.service_account@ == account@
        },
        checked matches Err(InterlinkError::Identity(m)) ==> m@ == if trust_domain@.len() == 0 {
            "trust domain must not be empty"@
        } else if namespace@.len() == 0 {
            "namespace must not be empty"@
        } else {
            "service account must not be empty"@
        },
        checked matches Err(error) ==> error is Identity,
{
}

/// The URI of an identity names its parts, and two identities are the same if their parts are.
pub proof fn law_identities_are_their_parts(
    id: SpiffeId,
    other: SpiffeId,
    uri: String,
    same: bool,
)
    requires
        call_ensures(SpiffeId::to_uri, (&id,), uri),
        call_ensures(SpiffeId::same_as, (&id, &other), same),
    ensures
        uri@ == "spiffe://"@ + id.trust_domain@ + "/ns/"@ + id.namespace@ + "/sa/"@
            + id.service_account@,
        same <==> id.trust_domain@ == other.trust_domain@ && id.namespace@ == other.namespace@
            && id.service_account@ == other.service_account@,
{
}

/// Whether a text is a pattern of three parts; the last may be left out as `/*` for `/sa/*`.
pub open spec fn writes_pattern(
    pattern: Seq<char>,
    scheme: Seq<char>,
    domain: Seq<char>,
    namespace: Seq<char>,
    account: Seq<char>,
) -> bool {
    &&& is_scheme(scheme)
    &&& is_trust_domain(domain)
    &&& is_segment(namespace)
    &&& is_segment(account)
    &&& pattern == scheme + domain + "/ns/"@ + namespace + "/sa/"@ + account || account == "*"@
        && pattern == scheme + domain + "/ns/"@ + namespace + "/*"@
}

/// An identity matches a pattern if and only if its trust domain is that of the pattern and its
/// namespace and service account match those of the pattern. The pattern with a `*` for each part
/// is matched by every identity. Text that is no pattern is matched by none.
pub proof fn law_patterns_match_part_by_part(
    id: SpiffeId,
    pattern: &str,
    matched: bool,
)
    requires
        call_ensures(SpiffeId::matches_pattern, (&id, pattern), matched),
    ensures
        forall|scheme: Seq<char>, domain: Seq<char>, namespace: Seq<char>, account: Seq<char>|
            #[trigger] writes_pattern(pattern@, scheme, domain, namespace, account) ==> (matched
                <==> domain == "*"@ && namespace == "*"@ && account == "*"@ || lowered(
                domain,
                id@.trust_domain,
            ) && glob::glob_matches(namespace, id@.namespace) && glob::glob_matches(
                account,
                id@.service_account,
            )),
        matched ==> exists|
            scheme: Seq<char>,
            domain: Seq<char>,
            namespace: Seq<char>,
            account: Seq<char>,
        | #[trigger] writes_pattern(pattern@, scheme, domain, namespace, account),
{
    reveal_strlit("*");
    assert forall|scheme: Seq<char>, domain: Seq<char>, namespace: Seq<char>, account: Seq<char>|
        #[trigger] writes_pattern(pattern@, scheme, domain, namespace, account) implies (matched
        <==> domain == "*"@ && namespace == "*"@ && account == "*"@ || lowered(
        domain,
        id@.trust_domain,
    ) && glob::glob_matches(namespace, id@.namespace) && glob::glob_matches(
        account,
        id@.service_account,
    )) by {
        lemma_pattern_written(pattern@, scheme, domain, namespace, account);
        lemma_lowered(domain, id@.trust_domain);
        assert(text::ascii_lowercase(domain).len() == domain.len());
        laws::law_star_matches_every_segment(id@.namespace);
        laws::law_star_matches_every_segment(id@.service_account);
    }
    if matched {
        lemma_read_stands_written(pattern@, Reading::Pattern);
        let parts = identity::read_uri(pattern@, Reading::Pattern)->Ok_0;
        if parts.service_account == "*"@ {
            assert(is_segment(parts.service_account));
        }
        assert(writes_pattern(
            pattern@,
            pattern@.take(9),
            parts.trust_domain,
            parts.namespace,
            parts.service_account,
        ));
    }
}

proof fn lemma_pattern_written(
    pattern: Seq<char>,
    scheme: Seq<char>,
    domain: Seq<char>,
    namespace: Seq<char>,
    account: Seq<char>,
)
    requires
        writes_pattern(pattern, scheme, domain, namespace, account),
    ensures
        identity::read_uri(pattern, Reading::Pattern) == Ok::<SpiffeParts, Seq<char>>(
            SpiffeParts { trust_domain: domain, namespace, service_account: account },
        ),
{
    lemma_scheme(scheme);
    lemma_characters(domain);
    lemma_characters(namespace);
    lemma_characters(account);
    if pattern == scheme + domain + "/ns/"@ + namespace + "/sa/"@ + account {
        laws::lemma_read_rendered(scheme, domain, namespace, account, Reading::Pattern);
    } else {
        laws::lemma_read_short(scheme, domain, namespace);
    }
}

/// A pattern is compiled if and only if it is one, and matches what its text matches. What is no
/// pattern is refused as it is refused as an identity.
pub proof fn law_compiled_patterns_match_what_their_text_matches(
    id: SpiffeId,
    pattern: &str,
    compiled: Result<CompiledPattern, InterlinkError>,
    as_identity: Result<SpiffeId, InterlinkError>,
    by_text: bool,
    any: CompiledPattern,
    by_any: bool,
)
    requires
        call_ensures(CompiledPattern::from_uri, (pattern,), compiled),
        call_ensures(SpiffeId::from_uri, (pattern,), as_identity),
        call_ensures(SpiffeId::matches_pattern, (&id, pattern), by_text),
        call_ensures(CompiledPattern::any, (), any),
        call_ensures(SpiffeId::matches_compiled, (&id, &any), by_any),
    ensures
        compiled matches Ok(p) ==> forall|by_pattern: bool| #[trigger]
            call_ensures(SpiffeId::matches_compiled, (&id, &p), by_pattern) ==> by_pattern
                == by_text,
        compiled matches Err(error) ==> !by_text && error is Identity,
        compiled matches Err(error) ==> if encode_utf8(pattern@).len() < 9 {
            error->Identity_0@ == "invalid pattern URI: missing URI scheme separator"@
        } else {
            as_identity matches Err(InterlinkError::Identity(m)) && error->Identity_0@ == m@
        },
        by_any,
{
    laws::law_any_pattern_matches_every_identity(id@);
}

/// A segment matches a pattern that is put together of two, if it can be divided so that each part
/// matches its own.
pub proof fn law_patterns_match_piece_by_piece(a: Seq<char>, b: Seq<char>, value: Seq<char>)
    ensures
        glob::glob_matches(a + b, value) <==> exists|k: int|
            0 <= k <= value.len() && #[trigger] glob::glob_matches(a, value.take(k))
                && glob::glob_matches(b, value.skip(k)),
    decreases a.len(),
{
    let whole = a + b;
    if a.len() == 0 {
        assert(whole =~= b);
        assert(value.skip(0) =~= value);
        assert(value.take(0).len() == 0);
        assert(glob::glob_matches(a, value.take(0)));
        if glob::glob_matches(b, value) {
            assert(glob::glob_matches(a, value.take(0)) && glob::glob_matches(b, value.skip(0)));
        }
    } else {
        let rest = a.skip(1);
        assert(whole.skip(1) =~= rest + b);
        assert(whole[0] == a[0]);
        if a[0] == '*' {
            if glob::glob_matches(whole, value) {
                let j = choose|j: int|
                    0 <= j <= value.len() && glob::glob_matches(
                        whole.skip(1),
                        #[trigger] value.skip(j),
                    );
                law_patterns_match_piece_by_piece(rest, b, value.skip(j));
                let k = choose|k: int|
                    0 <= k <= value.skip(j).len() && #[trigger] glob::glob_matches(
                        rest,
                        value.skip(j).take(k),
                    ) && glob::glob_matches(b, value.skip(j).skip(k));
                assert(value.skip(j).skip(k) =~= value.skip(j + k));
                assert(value.skip(j).take(k) =~= value.take(j + k).skip(j));
                assert(glob::glob_matches(a, value.take(j + k)));
            }
            if exists|k: int|
                0 <= k <= value.len() && #[trigger] glob::glob_matches(a, value.take(k))
                    && glob::glob_matches(b, value.skip(k)) {
                let k = choose|k: int|
                    0 <= k <= value.len() && #[trigger] glob::glob_matches(a, value.take(k))
                        && glob::glob_matches(b, value.skip(k));
                let j = choose|j: int|
                    0 <= j <= value.take(k).len() && glob::glob_matches(
                        rest,
                        #[trigger] value.take(k).skip(j),
                    );
                assert(value.take(k).skip(j) =~= value.skip(j).take(k - j));
                assert(value.skip(j).skip(k - j) =~= value.skip(k));
                law_patterns_match_piece_by_piece(rest, b, value.skip(j));
                assert(glob::glob_matches(rest, value.skip(j).take(k - j)));
                assert(glob::glob_matches(whole.skip(1), value.skip(j)));
            }
        } else {
            if glob::glob_matches(whole, value) {
                law_patterns_match_piece_by_piece(rest, b, value.skip(1));
                let k = choose|k: int|
                    0 <= k <= value.skip(1).len() && #[trigger] glob::glob_matches(
                        rest,
                        value.skip(1).take(k),
                    ) && glob::glob_matches(b, value.skip(1).skip(k));
                assert(value.skip(1).skip(k) =~= value.skip(k + 1));
                assert(value.skip(1).take(k) =~= value.take(k + 1).skip(1));
                assert(glob::glob_matches(a, value.take(k + 1)));
            }
            if exists|k: int|
                0 <= k <= value.len() && #[trigger] glob::glob_matches(a, value.take(k))
                    && glob::glob_matches(b, value.skip(k)) {
                let k = choose|k: int|
                    0 <= k <= value.len() && #[trigger] glob::glob_matches(a, value.take(k))
                        && glob::glob_matches(b, value.skip(k));
                assert(value.take(k).skip(1) =~= value.skip(1).take(k - 1));
                assert(value.skip(1).skip(k - 1) =~= value.skip(k));
                law_patterns_match_piece_by_piece(rest, b, value.skip(1));
                assert(glob::glob_matches(rest, value.skip(1).take(k - 1)));
            }
        }
    }
}

/// The shortest patterns: the empty one matches the empty segment, a `*` anything, any other
/// character itself.
pub proof fn law_shortest_patterns(c: char, value: Seq<char>)
    ensures
        glob::glob_matches(Seq::empty(), value) <==> value.len() == 0,
        glob::glob_matches(seq!['*'], value),
        c != '*' ==> (glob::glob_matches(seq![c], value) <==> value == seq![c]),
{
    reveal_strlit("*");
    reveal_with_fuel(glob::glob_matches, 2);
    laws::law_star_matches_every_segment(value);
    assert("*"@ =~= seq!['*']);
    assert(seq![c].skip(1) =~= Seq::empty());
    if value.len() == 1 && value[0] == c {
        assert(value =~= seq![c]);
    }
}

/// A segment glob matches by its pattern: a `*` matches anything, any other character itself, and
/// the empty pattern the empty segment.
pub proof fn law_segment_globs(pattern: &str, value: &str, compiled: SegmentGlob, matched: bool)
    requires
        call_ensures(SegmentGlob::new, (pattern,), compiled),
        call_ensures(SegmentGlob::matches, (&compiled, value), matched),
    ensures
        matched == glob::glob_matches(pattern@, value@),
        pattern@ == "*"@ ==> matched,
        lacks(pattern@, '*') ==> (matched <==> value@ == pattern@),
{
    laws::law_star_matches_every_segment(value@);
    if lacks(pattern@, '*') {
        glob::lemma_exact(pattern@, value@);
    }
}

/// Whether a character is a decimal digit.
pub open spec fn is_digit(c: char) -> bool {
    '0' <= c <= '9'
}

proof fn lemma_digits_push(digits: Seq<char>, so_far: nat, max: nat, c: char)
    requires
        so_far <= max,
    ensures
        number::digits_value(digits.push(c), so_far, max) == match number::digits_value(
            digits,
            so_far,
            max,
        ) {
            Err(fault) => Err(fault),
            Ok(n) => if !is_digit(c) {
                Err(NumberFault::InvalidDigit)
            } else if n * 10 + (c as nat - '0' as nat) > max {
                Err(NumberFault::TooLarge)
            } else {
                Ok((n * 10 + (c as nat - '0' as nat)) as nat)
            },
        },
    decreases digits.len(),
{
    reveal_with_fuel(number::digits_value, 2);
    let longer = digits.push(c);
    if digits.len() == 0 {
        assert(longer.skip(1) =~= Seq::<char>::empty());
        assert(longer[0] == c);
    } else {
        assert(longer[0] == digits[0]);
        assert(longer.skip(1) =~= digits.skip(1).push(c));
        let next = (so_far * 10 + (digits[0] as nat - '0' as nat)) as nat;
        if is_digit(digits[0]) && next <= max {
            lemma_digits_push(digits.skip(1), next, max, c);
        }
    }
}

/// Decimal numbers are read digit by digit: one more digit behind a number makes it ten times as
/// large, plus the digit, as long as it fits.
pub proof fn law_numbers_are_read_in_decimal(s: Seq<char>, c: char, max: nat)
    ensures
        s.len() > 0 && s != seq!['+'] ==> number::number_value(s.push(c), max)
            == match number::number_value(s, max) {
            Err(fault) => Err(fault),
            Ok(n) => if !is_digit(c) {
                Err(NumberFault::InvalidDigit)
            } else if n * 10 + (c as nat - '0' as nat) > max {
                Err(NumberFault::TooLarge)
            } else {
                Ok((n * 10 + (c as nat - '0' as nat)) as nat)
            },
        },
        is_digit(c) ==> number::number_value(seq![c], max) == number::number_value(
            seq!['+', c],
            max,
        ),
        is_digit(c) && c as nat - '0' as nat <= max ==> number::number_value(seq![c], max) == Ok::<
            nat,
            NumberFault,
        >((c as nat - '0' as nat) as nat),
        is_digit(c) && c as nat - '0' as nat > max ==> number::number_value(seq![c], max) == Err::<
            nat,
            NumberFault,
        >(NumberFault::TooLarge),
        !is_digit(c) ==> number::number_value(seq![c], max) == Err::<nat, NumberFault>(
            NumberFault::InvalidDigit,
        ),
        number::number_value(Seq::empty(), max) == Err::<nat, NumberFault>(NumberFault::Empty),
{
    let none = Seq::<char>::empty();
    lemma_digits_push(none, 0, max, c);
    assert(none.push(c) =~= seq![c]);
    assert(seq!['+', c].skip(1) =~= seq![c]);
    if s.len() > 0 {
        let longer = s.push(c);
        assert(longer[0] == s[0]);
        if s[0] == '+' {
            assert(longer.skip(1) =~= s.skip(1).push(c));
            if s.len() == 1 {
                assert(s =~= seq!['+']);
            }
            lemma_digits_push(s.skip(1), 0, max, c);
        } else {
            lemma_digits_push(s, 0, max, c);
        }
    }
}

/// A number is read as it is written: what is written in decimal is read back, if it fits.
pub proof fn law_numbers_round_trip(
    n: u64,
    written: String,
    s: &str,
    max: u64,
    read: Result<u64, NumberFault>,
)
    requires
        call_ensures(number::write_decimal, (n,), written),
        call_ensures(number::parse_number, (s, max), read),
        s@ == written@,
    ensures
        n <= max ==> read == Ok::<u64, NumberFault>(n),
        n > max ==> read == Err::<u64, NumberFault>(NumberFault::TooLarge),
{
    lemma_decimal_reads(n as nat, max as nat);
}

proof fn lemma_decimal_reads(n: nat, max: nat)
    ensures
        number::decimal(n).len() > 0,
        is_digit(number::decimal(n)[0]),
        n <= max ==> number::number_value(number::decimal(n), max) == Ok::<nat, NumberFault>(n),
        n > max ==> number::number_value(number::decimal(n), max) == Err::<nat, NumberFault>(
            NumberFault::TooLarge,
        ),
    decreases n,
{
    if n < 10 {
        let c = (n + '0' as nat) as char;
        law_numbers_are_read_in_decimal(seq!['0'], c, max);
        assert(number::decimal(n) =~= seq![c]);
    } else {
        let front = number::decimal(n / 10);
        let c = (n % 10 + '0' as nat) as char;
        lemma_decimal_reads(n / 10, max);
        assert(number::decimal(n) =~= front.push(c));
        if front == seq!['+'] {
            assert(front[0] == '+');
        }
        law_numbers_are_read_in_decimal(front, c, max);
    }
}

/// What a setting leaves out is as it was; what it sets is what it says. A port or a limit is the
/// number that the setting writes, and a switch is on or off. The environment is taken if and only
/// if each of these makes sense.
pub proof fn law_environment_sets_what_it_says(
    config: Config,
    env: Environment,
    result: Result<Config, InterlinkError>,
)
    requires
        call_ensures(Config::with_env, (config, env), result),
    ensures
        result is Ok <==> {
            &&& port_makes_sense(env.proxy_inbound_port)
            &&& port_makes_sense(env.proxy_outbound_port)
            &&& port_makes_sense(env.metrics_port)
            &&& env.max_connections matches Some(s) ==> number::number_value(
                s@,
                usize::MAX as nat,
            ) is Ok
            &&& env.mux matches Some(s) ==> s@ == "true"@ || s@ == "false"@
        },
        result matches Err(error) ==> error is Config,
        (!port_makes_sense(env.proxy_inbound_port) ==> is_port_error(
            result,
            env.proxy_inbound_port,
        )),
        (port_makes_sense(env.proxy_inbound_port) && !port_makes_sense(env.proxy_outbound_port)
            ==> is_port_error(result, env.proxy_outbound_port)),
        (port_makes_sense(env.proxy_inbound_port) && port_makes_sense(env.proxy_outbound_port)
            && !port_makes_sense(env.metrics_port) ==> is_port_error(result, env.metrics_port)),
        (port_makes_sense(env.proxy_inbound_port) && port_makes_sense(env.proxy_outbound_port)
            && port_makes_sense(env.metrics_port) ==> (env.max_connections matches Some(s) ==> (
        number::number_value(s@, usize::MAX as nat) matches Err(fault) ==> (result matches Err(
            InterlinkError::Config(m),
        ) && m@ == "INTERLINK_MAX_CONNECTIONS: "@ + number::fault_text(fault))))),
        (port_makes_sense(env.proxy_inbound_port) && port_makes_sense(env.proxy_outbound_port)
            && port_makes_sense(env.metrics_port) && (env.max_connections matches Some(s)
            ==> number::number_value(s@, usize::MAX as nat) is Ok) ==> (env.mux matches Some(s)
            ==> s@ == "true"@ || s@ == "false"@ || (result matches Err(InterlinkError::Config(m))
            && m@ == "INTERLINK_MUX: provided string was not `true` or `false`"@))),
        result matches Ok(c) ==> {
            &&& c.trust_domain == laid(env.trust_domain, config.trust_domain)
            &&& c.log_level == laid(env.log_level, config.log_level)
            &&& c.identity == stacked(env.identity, config.identity)
            &&& c.ca_bundle_path == stacked(env.ca_bundle_path, config.ca_bundle_path)
            &&& c.cert_path == stacked(env.cert_path, config.cert_path)
            &&& c.key_path == stacked(env.key_path, config.key_path)
            &&& c.default_upstream == stacked(env.default_upstream, config.default_upstream)
            &&& port_is(env.proxy_inbound_port, config.proxy_inbound_port, c.proxy_inbound_port)
            &&& port_is(
                env.proxy_outbound_port,
                config.proxy_outbound_port,
                c.proxy_outbound_port,
            )
            &&& port_is(env.metrics_port, config.metrics_port, c.metrics_port)
            &&& match env.max_connections {
                Some(s) => number::number_value(s@, usize::MAX as nat) == Ok::<nat, NumberFault>(
                    c.max_connections as nat,
                ),
                None => c.max_connections == config.max_connections,
            }
            &&& match env.mux {
                Some(s) => c.mux == (s@ == "true"@),
                None => c.mux == config.mux,
            }
        },
{
    reveal_strlit("true");
    reveal_strlit("false");
    if let Some(s) = env.max_connections {
        lemma_number_in_range(s@, usize::MAX as nat);
    }
    if let Some(s) = env.proxy_inbound_port {
        lemma_number_in_range(s@, 65535);
    }
    if let Some(s) = env.proxy_outbound_port {
        lemma_number_in_range(s@, 65535);
    }
    if let Some(s) = env.metrics_port {
        lemma_number_in_range(s@, 65535);
    }
}

proof fn lemma_number_in_range(s: Seq<char>, max: nat)
    ensures
        number::number_value(s, max) matches Ok(n) ==> n <= max,
{
    if s.len() > 0 && s[0] == '+' && s.len() > 1 {
        lemma_digits_in_range(s.skip(1), 0, max);
    } else if s.len() > 0 {
        lemma_digits_in_range(s, 0, max);
    }
}

proof fn lemma_digits_in_range(digits: Seq<char>, so_far: nat, max: nat)
    requires
        so_far <= max,
    ensures
        number::digits_value(digits, so_far, max) matches Ok(n) ==> n <= max,
    decreases digits.len(),
{
    if digits.len() > 0 && is_digit(digits[0]) {
        let next = (so_far * 10 + (digits[0] as nat - '0' as nat)) as nat;
        if next <= max {
            lemma_digits_in_range(digits.skip(1), next, max);
        }
    }
}

/// Whether a setting names a port, if it is made at all.
pub open spec fn port_makes_sense(setting: Option<String>) -> bool {
    setting matches Some(s) ==> number::number_value(s@, 65535) is Ok
}

/// Whether a configuration was refused for a port.
pub open spec fn is_port_error(
    result: Result<Config, InterlinkError>,
    setting: Option<String>,
) -> bool {
    &&& result matches Err(InterlinkError::Config(m))
    &&& number::number_value(setting->0@, 65535) matches Err(fault)
    &&& m@ == "invalid port '"@ + setting->0@ + "': "@ + number::fault_text(fault)
}

/// Whether a port is the one that a setting names, or else the one below.
pub open spec fn port_is(setting: Option<String>, below: u16, port: u16) -> bool {
    match setting {
        Some(s) => number::number_value(s@, 65535) == Ok::<nat, NumberFault>(port as nat),
        None => port == below,
    }
}

/// The value on top, or else the one below.
pub open spec fn laid<T>(top: Option<T>, below: T) -> T {
    if top is Some {
        top->0
    } else {
        below
    }
}

/// The value on top, or else the one below, if there is one.
pub open spec fn stacked<T>(top: Option<T>, below: Option<T>) -> Option<T> {
    if top is Some {
        top
    } else {
        below
    }
}

/// A file replaces what it must hold, and what it may hold where it does.
pub proof fn law_files_replace_what_they_hold(config: Config, file: Config, result: Config)
    requires
        call_ensures(Config::with_file, (config, file), result),
    ensures
        result.trust_domain == file.trust_domain,
        result.proxy_inbound_port == file.proxy_inbound_port,
        result.proxy_outbound_port == file.proxy_outbound_port,
        result.metrics_port == file.metrics_port,
        result.log_level == file.log_level,
        result.max_connections == file.max_connections,
        result.mux == file.mux,
        result.identity == stacked(file.identity, config.identity),
        result.ca_bundle_path == stacked(file.ca_bundle_path, config.ca_bundle_path),
        result.cert_path == stacked(file.cert_path, config.cert_path),
        result.key_path == stacked(file.key_path, config.key_path),
        result.default_upstream == stacked(file.default_upstream, config.default_upstream),
{
}

/// A configuration is valid if and only if it has a trust domain, allows a connection, and its
/// identity, if it has one, is one.
pub proof fn law_valid_configurations(config: Config, result: Result<(), InterlinkError>)
    requires
        call_ensures(Config::validate, (&config,), result),
    ensures
        result is Ok <==> {
            &&& config.trust_domain@.len() > 0
            &&& config.max_connections > 0
            &&& config.identity matches Some(uri) ==> identity::identity_of(uri@) is Ok
        },
        result matches Err(error) ==> {
            &&& error matches InterlinkError::Config(m)
            &&& if config.trust_domain@.len() == 0 {
                m@ == "trust_domain must not be empty"@
            } else if config.max_connections == 0 {
                m@ == "max_connections must be > 0"@
            } else {
                identity::identity_of(config.identity->0@) matches Err(message) && m@
                    == "invalid INTERLINK_IDENTITY: "@ + ("Identity error: "@ + message)
            }
        },
{
}

/// The faults of a number in words.
pub proof fn law_number_faults_in_words(fault: NumberFault, words: &'static str)
    requires
        call_ensures(NumberFault::message, (fault,), words),
    ensures
        fault is Empty ==> words@ == "cannot parse integer from empty string"@,
        fault is InvalidDigit ==> words@ == "invalid digit found in string"@,
        fault is TooLarge ==> words@ == "number too large to fit in target type"@,
        words@ == number::fault_text(fault),
{
}

/// The defaults: the trust domain `cluster.local`, ports 4143, 4140 and 4190, the log level
/// `info`, 1024 connections, tunnels, and nothing else.
pub proof fn law_default_configuration(config: Config)
    requires
        call_ensures(<Config as Default>::default, (), config),
    ensures
        config.trust_domain@ == "cluster.local"@,
        config.proxy_inbound_port == 4143,
        config.proxy_outbound_port == 4140,
        config.metrics_port == 4190,
        config.log_level@ == "info"@,
        config.max_connections == 1024,
        config.mux,
        config.identity is None,
        config.ca_bundle_path is None,
        config.cert_path is None,
        config.key_path is None,
        config.default_upstream is None,
{
}

/// A configuration that is loaded is valid, and is the environment over the file over the
/// defaults. What makes sense and is valid is loaded.
pub proof fn law_loaded_configurations(
    file: Option<Config>,
    env: Environment,
    result: Result<Config, InterlinkError>,
)
    requires
        call_ensures(Config::load, (file, env), result),
    ensures
        exists|base: Config, below: Config|
            {
                &&& config::is_default(base)
                &&& match file {
                    Some(file) => call_ensures(Config::with_file, (base, file), below) || below
                        == config::file_over(base, file),
                    None => below == base,
                }
                &&& match #[trigger] config::environment_over(below, env) {
                    Err(_) => result is Err,
                    Ok(c) => if c.trust_domain@.len() > 0 && c.max_connections > 0 && (
                    c.identity matches Some(uri) ==> identity::identity_of(uri@) is Ok) {
                        result == Ok::<Config, InterlinkError>(c)
                    } else {
                        result is Err
                    },
                }
                &&& #[trigger] config::is_default(base)
            },
{
    let base = choose|base: Config| #[trigger]
        config::is_default(base) && {
            let below = match file {
                Some(file) => config::file_over(base, file),
                None => base,
            };
            match config::environment_over(below, env) {
                Err(fault) => result matches Err(e) && e@ == fault,
                Ok(config) => match config::config_fault(config) {
                    Some(fault) => result matches Err(e) && e@ == fault,
                    None => result == Ok::<Config, InterlinkError>(config),
                },
            }
        };
    let below = match file {
        Some(file) => config::file_over(base, file),
        None => base,
    };
    let _ = config::environment_over(below, env);
}

/// A proxy takes its part of a configuration as it is.
pub proof fn law_proxies_take_their_part(config: Config, result: ProxyConfig)
    requires
        call_ensures(Config::to_proxy_config, (&config,), result),
    ensures
        result.trust_domain == config.trust_domain,
        result.identity == config.identity,
        result.default_upstream == config.default_upstream,
        result.max_connections == Some(config.max_connections),
        result.mux == config.mux,
{
}

/// The configuration file is the one that is set, or `/etc/interlink/config.json`.
pub proof fn law_configuration_file(setting: Option<String>, path: String)
    requires
        call_ensures(config::config_file_path, (setting,), path),
    ensures
        setting matches Some(s) && s@.len() > 0 ==> path@ == setting->0@,
        setting is None || setting->0@.len() == 0 ==> path@ == "/etc/interlink/config.json"@,
{
}

} // verus!
