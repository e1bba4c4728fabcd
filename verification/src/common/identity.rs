//! SPIFFE identities and the patterns that match them.

use vstd::prelude::*;
use vstd::utf8::encode_utf8;

use crate::common::error::InterlinkError;
use crate::common::glob;
use crate::text;

pub use crate::common::segment::SegmentGlob;

verus! {

/// The three parts of a SPIFFE URI.
pub struct SpiffeParts {
    pub trust_domain: Seq<char>,
    pub namespace: Seq<char>,
    pub service_account: Seq<char>,
}

/// Characters that an authority may hold besides a trust domain, or that no authority holds.
pub open spec fn foreign_to_trust_domain(c: char) -> bool {
    ||| c <= '\u{20}'
    ||| c == '\u{7f}'
    ||| c == '@'
    ||| c == ':'
    ||| c == '['
    ||| c == ']'
    ||| c == '\\'
    ||| c == '?'
    ||| c == '#'
}

/// The characters that end a path segment.
pub open spec fn segment_ends() -> Set<char> {
    set!['/', '?', '#']
}

/// The text of a malformed path error.
pub open spec fn malformed_path(path: Seq<char>) -> Seq<char> {
    "malformed SPIFFE path: expected /ns/<ns>/sa/<sa>, got "@ + path
}

/// What is read: an identity, or a pattern for identities. A pattern may end in `/*` in place of
/// `/sa/*`.
#[derive(Clone, Copy, PartialEq, Eq, Structural)]
pub enum Reading {
    Identity,
    Pattern,
}

/// Reads a SPIFFE URI: its parts, or the text of the error.
pub open spec fn read_uri(uri: Seq<char>, reading: Reading) -> Result<SpiffeParts, Seq<char>> {
    if encode_utf8(uri).len() < 9 {
        Err(
            match reading {
                Reading::Identity => "invalid URI: missing URI scheme separator"@,
                Reading::Pattern => "invalid pattern URI: missing URI scheme separator"@,
            },
        )
    } else if !text::starts_with(text::ascii_lowercase(uri), "spiffe://"@) {
        Err("expected spiffe:// scheme, got "@ + text::before_first(uri, "://"@))
    } else {
        read_authority(uri.skip(9), reading)
    }
}

/// Reads what follows `spiffe://`.
pub open spec fn read_authority(rest: Seq<char>, reading: Reading) -> Result<SpiffeParts, Seq<char>> {
    let end = text::first_of(rest, set!['/']);
    let trust_domain = rest.take(end);
    if end == rest.len() {
        Err(malformed_path("empty path"@))
    } else if end == 0 {
        Err("missing trust domain in SPIFFE URI"@)
    } else if exists|i: int| 0 <= i < end && foreign_to_trust_domain(#[trigger] rest[i]) {
        Err("SPIFFE URI authority must contain only a trust domain"@)
    } else {
        read_path(trust_domain, rest.skip(end + 1), reading)
    }
}

/// Reads what follows the first `/` of the path.
pub open spec fn read_path(
    trust_domain: Seq<char>,
    path: Seq<char>,
    reading: Reading,
) -> Result<SpiffeParts, Seq<char>> {
    if !text::starts_with(path, "ns/"@) {
        Err(malformed_path("/"@ + path))
    } else {
        read_segments(trust_domain, path.skip(3), reading)
    }
}

/// Reads what follows `/ns/`.
pub open spec fn read_segments(
    trust_domain: Seq<char>,
    path: Seq<char>,
    reading: Reading,
) -> Result<SpiffeParts, Seq<char>> {
    let end = text::first_of(path, segment_ends());
    let namespace = path.take(end);
    let tail = path.skip(end + 1);
    let service_account = tail.skip(3);
    if end == path.len() {
        Err(malformed_path("/ns/"@ + path))
    } else if path[end] != '/' {
        Err("SPIFFE URI must not contain a query or fragment"@)
    } else if reading == Reading::Pattern && end > 0 && tail == "*"@ {
        Ok(SpiffeParts { trust_domain, namespace, service_account: "*"@ })
    } else if !text::starts_with(tail, "sa/"@) || end == 0 || service_account.len() == 0
        || text::first_of(service_account, segment_ends()) < service_account.len() {
        Err(malformed_path("/ns/"@ + path))
    } else {
        Ok(SpiffeParts { trust_domain, namespace, service_account })
    }
}

/// The parts of a SPIFFE URI as they were written.
struct SpiffeUriParts {
    trust_domain: String,
    namespace: String,
    service_account: String,
}

impl SpiffeUriParts {
    spec fn parts(&self) -> SpiffeParts {
        SpiffeParts {
            trust_domain: self.trust_domain@,
            namespace: self.namespace@,
            service_account: self.service_account@,
        }
    }
}

/// An identity error with a fixed text.
fn identity_error(message: &str) -> (error: InterlinkError)
    ensures
        error matches InterlinkError::Identity(m) && m@ == message@,
{
    InterlinkError::Identity(message.to_owned())
}

/// A malformed path error for `head` and the characters from `from` on.
fn malformed(head: &str, chars: &Vec<char>, from: usize) -> (error: InterlinkError)
    requires
        from <= chars@.len(),
    ensures
        error matches InterlinkError::Identity(m) && m@ == malformed_path(
            head@ + chars@.skip(from as int),
        ),
{
    let path: String = text::string_of(chars, from, chars.len());
    let message: String = "malformed SPIFFE path: expected /ns/<ns>/sa/<sa>, got ".to_owned().concat(
        head,
    ).concat(path.as_str());
    proof {
        assert(message@ =~= malformed_path(head@ + chars@.skip(from as int)));
    }
    InterlinkError::Identity(message)
}

/// Whether a character can not stand in a trust domain.
fn is_foreign(c: char) -> (r: bool)
    ensures
        r == foreign_to_trust_domain(c),
{
    c <= '\u{20}' || c == '\u{7f}' || c == '@' || c == ':' || c == '[' || c == ']' || c == '\\'
        || c == '?' || c == '#'
}

/// Whether a character among `from..to` can not stand in a trust domain.
fn holds_foreign(chars: &Vec<char>, from: usize, to: usize) -> (r: bool)
    requires
        from <= to <= chars@.len(),
    ensures
        r == exists|i: int|
            0 <= i < to - from && foreign_to_trust_domain(
                #[trigger] chars@.subrange(from as int, to as int)[i],
            ),
{
    let ghost part = chars@.subrange(from as int, to as int);
    let mut i: usize = from;
    while i < to
        invariant
            from <= i <= to <= chars@.len(),
            part == chars@.subrange(from as int, to as int),
            forall|j: int| 0 <= j < i - from ==> !foreign_to_trust_domain(#[trigger] part[j]),
        decreases to - i,
    {
        assert(part[i - from] == chars@[i as int]);
        if is_foreign(chars[i]) {
            return true;
        }
        i = i + 1;
    }
    false
}

/// The index in `from..` of the first character that ends a path segment, or the number of
/// characters.
fn find_segment_end(chars: &Vec<char>, from: usize) -> (at: usize)
    requires
        from <= chars@.len(),
    ensures
        from <= at <= chars@.len(),
        at - from == text::first_of(chars@.skip(from as int), segment_ends()),
{
    let ghost rest = chars@.skip(from as int);
    let mut at: usize = from;
    while at < chars.len() && chars[at] != '/' && chars[at] != '?' && chars[at] != '#'
        invariant
            from <= at <= chars@.len(),
            rest == chars@.skip(from as int),
            forall|i: int| 0 <= i < at - from ==> !segment_ends().contains(#[trigger] rest[i]),
        decreases chars@.len() - at,
    {
        assert(rest[at - from] == chars@[at as int]);
        at = at + 1;
    }
    proof {
        text::lemma_first_of_unique(rest, segment_ends(), at - from);
    }
    at
}

fn parse_spiffe_uri(uri: &str, reading: Reading) -> (result: Result<
    SpiffeUriParts,
    InterlinkError,
>)
    ensures
        match read_uri(uri@, reading) {
            Ok(parts) => result matches Ok(p) && p.parts() == parts,
            Err(message) => result matches Err(InterlinkError::Identity(m)) && m@ == message,
        },
{
    if uri.as_bytes().len() < 9 {
        return Err(
            match reading {
                Reading::Identity => identity_error("invalid URI: missing URI scheme separator"),
                Reading::Pattern => identity_error(
                    "invalid pattern URI: missing URI scheme separator",
                ),
            },
        );
    }
    let chars: Vec<char> = text::chars_of(uri);
    let total: usize = chars.len();
    proof {
        reveal_strlit("spiffe://");
        reveal_strlit("://");
        reveal_strlit("ns/");
        reveal_strlit("sa/");
        reveal_strlit("*");
    }
    if !text::opens_ignoring_case(&chars, "spiffe://") {
        let scheme: String = text::text_before(&chars, "://");
        return Err(
            InterlinkError::Identity(
                "expected spiffe:// scheme, got ".to_owned().concat(scheme.as_str()),
            ),
        );
    }
    let ghost rest = chars@.skip(9);
    let authority_end: usize = text::find_char(&chars, 9, '/');
    if authority_end == total {
        proof {
            assert("empty path"@ + chars@.skip(total as int) =~= "empty path"@);
        }
        return Err(malformed("empty path", &chars, total));
    }
    if authority_end == 9 {
        return Err(identity_error("missing trust domain in SPIFFE URI"));
    }
    let ghost domain_len = authority_end - 9;
    proof {
        assert(chars@.subrange(9, authority_end as int) =~= rest.take(domain_len));
        assert forall|i: int| 0 <= i < domain_len implies #[trigger] rest[i] == rest.take(
            domain_len,
        )[i] by {}
    }
    if holds_foreign(&chars, 9, authority_end) {
        proof {
            let i = choose|i: int|
                0 <= i < domain_len && foreign_to_trust_domain(
                    #[trigger] rest.take(domain_len)[i],
                );
            assert(foreign_to_trust_domain(rest[i]));
        }
        return Err(identity_error("SPIFFE URI authority must contain only a trust domain"));
    }
    proof {
        assert forall|i: int| 0 <= i < domain_len implies !foreign_to_trust_domain(
            #[trigger] rest[i],
        ) by {
            assert(rest[i] == rest.take(domain_len)[i]);
        }
    }
    let path_start: usize = authority_end + 1;
    let ghost path = chars@.skip(path_start as int);
    assert(rest.skip(domain_len + 1) =~= path);
    if !text::literal_at(&chars, path_start, "ns/") {
        return Err(malformed("/", &chars, path_start));
    }
    let segments_start: usize = path_start + 3;
    let ghost segments = chars@.skip(segments_start as int);
    assert(path.skip(3) =~= segments);
    let namespace_end: usize = find_segment_end(&chars, segments_start);
    let ghost end = namespace_end - segments_start;
    if namespace_end == total {
        return Err(malformed("/ns/", &chars, segments_start));
    }
    assert(segments[end] == chars@[namespace_end as int]);
    if chars[namespace_end] != '/' {
        return Err(identity_error("SPIFFE URI must not contain a query or fragment"));
    }
    let tail_start: usize = namespace_end + 1;
    assert(segments.skip(end + 1) =~= chars@.skip(tail_start as int));
    assert(chars@.subrange(segments_start as int, namespace_end as int) =~= segments.take(end));
    match reading {
        Reading::Pattern => {
            if namespace_end > segments_start && total - tail_start == 1 && chars[tail_start] == '*' {
                assert(chars@.skip(tail_start as int) =~= "*"@);
                return Ok(
                    SpiffeUriParts {
                        trust_domain: text::string_of(&chars, 9, authority_end),
                        namespace: text::string_of(&chars, segments_start, namespace_end),
                        service_account: "*".to_owned(),
                    },
                );
            }
        },
        Reading::Identity => {},
    }
    assert(tail_start < total ==> chars@.skip(tail_start as int)[0] == chars@[tail_start as int]);
    assert(reading == Reading::Pattern && end > 0 ==> chars@.skip(tail_start as int) != "*"@);
    if !text::literal_at(&chars, tail_start, "sa/") || namespace_end == segments_start || total
        - tail_start == 3 {
        return Err(malformed("/ns/", &chars, segments_start));
    }
    let account_start: usize = tail_start + 3;
    assert(chars@.skip(tail_start as int).skip(3) =~= chars@.skip(account_start as int));
    if find_segment_end(&chars, account_start) != total {
        return Err(malformed("/ns/", &chars, segments_start));
    }
    assert(chars@.subrange(account_start as int, total as int) =~= chars@.skip(
        account_start as int,
    ));
    Ok(
        SpiffeUriParts {
            trust_domain: text::string_of(&chars, 9, authority_end),
            namespace: text::string_of(&chars, segments_start, namespace_end),
            service_account: text::string_of(&chars, account_start, total),
        },
    )
}

/// Reads an identity: the trust domain comes out in lower case.
pub open spec fn identity_of(uri: Seq<char>) -> Result<SpiffeParts, Seq<char>> {
    match read_uri(uri, Reading::Identity) {
        Ok(parts) => Ok(
            SpiffeParts { trust_domain: text::ascii_lowercase(parts.trust_domain), ..parts },
        ),
        Err(message) => Err(message),
    }
}

/// Whether a pattern was written with a `*` for each of its parts.
pub open spec fn is_all_stars(parts: SpiffeParts) -> bool {
    &&& parts.trust_domain == "*"@
    &&& parts.namespace == "*"@
    &&& parts.service_account == "*"@
}

/// Reads a pattern for identities. The empty trust domain of a pattern stands for any; only the
/// pattern that is written with a `*` for each of its parts has it.
pub open spec fn pattern_of(uri: Seq<char>) -> Result<SpiffeParts, Seq<char>> {
    match read_uri(uri, Reading::Pattern) {
        Ok(parts) => Ok(
            SpiffeParts {
                trust_domain: if is_all_stars(parts) {
                    Seq::empty()
                } else {
                    text::ascii_lowercase(parts.trust_domain)
                },
                ..parts
            },
        ),
        Err(message) => Err(message),
    }
}

/// Whether an identity matches a pattern.
pub open spec fn parts_match(id: SpiffeParts, pattern: SpiffeParts) -> bool {
    &&& pattern.trust_domain.len() == 0 || id.trust_domain == pattern.trust_domain
    &&& glob::glob_matches(pattern.namespace, id.namespace)
    &&& glob::glob_matches(pattern.service_account, id.service_account)
}

/// Whether an identity matches a pattern given as text; text that is no pattern matches nothing.
pub open spec fn matches_text(id: SpiffeParts, pattern: Seq<char>) -> bool {
    pattern_of(pattern) matches Ok(p) && parts_match(id, p)
}

/// The URI of an identity.
pub open spec fn identity_uri(id: SpiffeParts) -> Seq<char> {
    "spiffe://"@ + id.trust_domain + "/ns/"@ + id.namespace + "/sa/"@ + id.service_account
}

/// The pattern that matches every identity.
pub open spec fn any_pattern() -> SpiffeParts {
    SpiffeParts { trust_domain: Seq::empty(), namespace: "*"@, service_account: "*"@ }
}

/// A policy pattern, compiled so that it can be matched many times.
#[derive(Debug, Clone, Hash, Eq, PartialEq)]
pub struct CompiledPattern {
    /// Empty where any trust domain matches.
    pub trust_domain: String,
    pub namespace: SegmentGlob,
    pub service_account: SegmentGlob,
}

impl View for CompiledPattern {
    type V = SpiffeParts;

    open spec fn view(&self) -> SpiffeParts {
        SpiffeParts {
            trust_domain: self.trust_domain@,
            namespace: self.namespace.pattern(),
            service_account: self.service_account.pattern(),
        }
    }
}

impl CompiledPattern {
    /// Compiles a pattern in the layout of a SPIFFE URI.
    pub fn from_uri(uri: &str) -> (result: Result<Self, InterlinkError>)
        ensures
            match pattern_of(uri@) {
                Ok(pattern) => result matches Ok(p) && p@ == pattern,
                Err(message) => result matches Err(InterlinkError::Identity(m)) && m@ == message,
            },
    {
        match parse_spiffe_uri(uri, Reading::Pattern) {
            Ok(parts) => {
                let domain: Vec<char> = text::chars_of(parts.trust_domain.as_str());
                assert(domain@.subrange(0, domain@.len() as int) =~= domain@);
                let star: String = "*".to_owned();
                let trust_domain: String = if parts.trust_domain == star && parts.namespace == star
                    && parts.service_account == star {
                    String::new()
                } else {
                    text::lower_string_of(&domain, 0, domain.len())
                };
                Ok(
                    CompiledPattern {
                        trust_domain,
                        namespace: SegmentGlob::new(parts.namespace.as_str()),
                        service_account: SegmentGlob::new(parts.service_account.as_str()),
                    },
                )
            },
            Err(error) => Err(error),
        }
    }

    /// The pattern that matches every identity.
    pub fn any() -> (pattern: Self)
        ensures
            pattern@ == any_pattern(),
    {
        CompiledPattern {
            trust_domain: String::new(),
            namespace: SegmentGlob::new("*"),
            service_account: SegmentGlob::new("*"),
        }
    }
}

/// A SPIFFE identity.
///
/// Format: `spiffe://<trust-domain>/ns/<namespace>/sa/<service-account>`. RFC 5280 §4.2.1.6 wants
/// it encoded as a uniformResourceIdentifier in the subjectAltName extension of a certificate.
#[derive(Debug, Hash, Eq, PartialEq)]
pub struct SpiffeId {
    pub trust_domain: String,
    pub namespace: String,
    pub service_account: String,
}

impl View for SpiffeId {
    type V = SpiffeParts;

    open spec fn view(&self) -> SpiffeParts {
        SpiffeParts {
            trust_domain: self.trust_domain@,
            namespace: self.namespace@,
            service_account: self.service_account@,
        }
    }
}

impl Clone for SpiffeId {
    fn clone(&self) -> (copy: Self)
        ensures
            copy == *self,
    {
        SpiffeId {
            trust_domain: self.trust_domain.clone(),
            namespace: self.namespace.clone(),
            service_account: self.service_account.clone(),
        }
    }
}

impl SpiffeId {
    /// An identity of known parts, taken as they are. For configuration and network data use
    /// `try_new` or `from_uri`.
    pub fn new(trust_domain: &str, namespace: &str, service_account: &str) -> (id: Self)
        ensures
            id@ == (SpiffeParts {
                trust_domain: trust_domain@,
                namespace: namespace@,
                service_account: service_account@,
            }),
    {
        SpiffeId {
            trust_domain: trust_domain.to_owned(),
            namespace: namespace.to_owned(),
            service_account: service_account.to_owned(),
        }
    }

    /// An identity of parts that are checked: none may be empty.
    pub fn try_new(trust_domain: &str, namespace: &str, service_account: &str) -> (result: Result<
        Self,
        InterlinkError,
    >)
        ensures
            match missing_part(trust_domain@, namespace@, service_account@) {
                None => result matches Ok(id) && id@ == (SpiffeParts {
                    trust_domain: trust_domain@,
                    namespace: namespace@,
                    service_account: service_account@,
                }),
                Some(message) => result matches Err(InterlinkError::Identity(m)) && m@ == message,
            },
    {
        let id: SpiffeId = SpiffeId::new(trust_domain, namespace, service_account);
        match id.validate_segments() {
            Ok(()) => Ok(id),
            Err(error) => Err(error),
        }
    }

    fn validate_segments(&self) -> (result: Result<(), InterlinkError>)
        ensures
            match missing_part(self@.trust_domain, self@.namespace, self@.service_account) {
                None => result is Ok,
                Some(message) => result matches Err(InterlinkError::Identity(m)) && m@ == message,
            },
    {
        if self.trust_domain.as_str().is_empty() {
            return Err(identity_error("trust domain must not be empty"));
        }
        if self.namespace.as_str().is_empty() {
            return Err(identity_error("namespace must not be empty"));
        }
        if self.service_account.as_str().is_empty() {
            return Err(identity_error("service account must not be empty"));
        }
        Ok(())
    }

    /// The identity as a URI: `spiffe://trust/ns/foo/sa/bar`.
    pub fn to_uri(&self) -> (uri: String)
        ensures
            uri@ == identity_uri(self@),
    {
        "spiffe://".to_owned().concat(self.trust_domain.as_str()).concat("/ns/").concat(
            self.namespace.as_str(),
        ).concat("/sa/").concat(self.service_account.as_str())
    }

    /// Reads an identity from an absolute URI.
    pub fn from_uri(uri: &str) -> (result: Result<Self, InterlinkError>)
        ensures
            match identity_of(uri@) {
                Ok(parts) => result matches Ok(id) && id@ == parts,
                Err(message) => result matches Err(InterlinkError::Identity(m)) && m@ == message,
            },
    {
        match parse_spiffe_uri(uri, Reading::Identity) {
            Ok(parts) => {
                let domain: Vec<char> = text::chars_of(parts.trust_domain.as_str());
                let lowered: String = text::lower_string_of(&domain, 0, domain.len());
                proof {
                    assert(domain@.subrange(0, domain@.len() as int) =~= domain@);
                    law_read_identities_are_valid(uri@);
                }
                SpiffeId::try_new(
                    lowered.as_str(),
                    parts.namespace.as_str(),
                    parts.service_account.as_str(),
                )
            },
            Err(error) => Err(error),
        }
    }

    /// Whether the identity matches a policy pattern: a SPIFFE URI that may hold `*` in its
    /// namespace and service account. Its trust domain has to be that of the identity; the pattern
    /// `spiffe://*/ns/*/sa/*` alone matches every identity.
    pub fn matches_pattern(&self, pattern: &str) -> (matched: bool)
        ensures
            matched == matches_text(self@, pattern@),
    {
        match CompiledPattern::from_uri(pattern) {
            Ok(compiled) => self.matches_compiled(&compiled),
            Err(_) => false,
        }
    }

    /// Whether the identity matches a compiled pattern.
    pub fn matches_compiled(&self, pattern: &CompiledPattern) -> (matched: bool)
        ensures
            matched == parts_match(self@, pattern@),
    {
        (pattern.trust_domain.as_str().is_empty() || self.trust_domain == pattern.trust_domain)
            && pattern.namespace.matches(self.namespace.as_str())
            && pattern.service_account.matches(self.service_account.as_str())
    }

    /// Whether two identities are the same.
    pub fn same_as(&self, other: &SpiffeId) -> (same: bool)
        ensures
            same == (self@ == other@),
    {
        self.trust_domain == other.trust_domain && self.namespace == other.namespace
            && self.service_account == other.service_account
    }
}

impl std::str::FromStr for SpiffeId {
    type Err = InterlinkError;

    /// Reads an identity from an absolute URI.
    fn from_str(s: &str) -> (result: Result<Self, InterlinkError>)
        ensures
            match identity_of(s@) {
                Ok(parts) => result matches Ok(id) && id@ == parts,
                Err(message) => result matches Err(InterlinkError::Identity(m)) && m@ == message,
            },
    {
        SpiffeId::from_uri(s)
    }
}

/// The error text for the first empty part of an identity.
pub open spec fn missing_part(
    trust_domain: Seq<char>,
    namespace: Seq<char>,
    service_account: Seq<char>,
) -> Option<Seq<char>> {
    if trust_domain.len() == 0 {
        Some("trust domain must not be empty"@)
    } else if namespace.len() == 0 {
        Some("namespace must not be empty"@)
    } else if service_account.len() == 0 {
        Some("service account must not be empty"@)
    } else {
        None
    }
}

/// A path segment that a URI can carry: not empty, and nothing in it ends a segment.
pub open spec fn valid_segment(s: Seq<char>) -> bool {
    s.len() > 0 && forall|i: int| 0 <= i < s.len() ==> !segment_ends().contains(#[trigger] s[i])
}

/// An identity that a URI can carry: a lower-case trust domain without characters foreign to it,
/// and two valid segments.
pub open spec fn valid_identity(id: SpiffeParts) -> bool {
    &&& id.trust_domain.len() > 0
    &&& text::ascii_lowercase(id.trust_domain) == id.trust_domain
    &&& forall|i: int|
        0 <= i < id.trust_domain.len() ==> (#[trigger] id.trust_domain[i]) != '/'
            && !foreign_to_trust_domain(id.trust_domain[i])
    &&& valid_segment(id.namespace)
    &&& valid_segment(id.service_account)
}

/// Every identity that is read from a URI is one that a URI can carry.
pub proof fn law_read_identities_are_valid(uri: Seq<char>)
    ensures
        identity_of(uri) matches Ok(id) ==> valid_identity(id),
{
    reveal_strlit("sa/");
    if let Ok(parts) = read_uri(uri, Reading::Identity) {
        let rest = uri.skip(9);
        let end = text::first_of(rest, set!['/']);
        text::lemma_first_of(rest, set!['/']);
        let lowered = text::ascii_lowercase(parts.trust_domain);
        assert(parts.trust_domain == rest.take(end));
        assert forall|i: int| 0 <= i < lowered.len() implies (#[trigger] lowered[i]) != '/'
            && !foreign_to_trust_domain(lowered[i]) && text::ascii_lower(lowered[i])
            == lowered[i] by {
            assert(!set!['/'].contains(rest[i]));
            assert(!foreign_to_trust_domain(rest[i]));
            assert(lowered[i] == text::ascii_lower(rest[i]));
        }
        assert(text::ascii_lowercase(lowered) =~= lowered);
        let segments = rest.skip(end + 1).skip(3);
        text::lemma_first_of(segments, segment_ends());
        text::lemma_first_of(parts.service_account, segment_ends());
    }
}

/// A trust domain: its name, and the root certificates that identities in it are verified
/// against.
#[derive(Debug, Clone)]
pub struct TrustDomain {
    pub name: String,
    pub ca_certs: Vec<Vec<u8>>,
}

impl TrustDomain {
    /// A trust domain without root certificates.
    pub fn new(name: &str) -> (domain: Self)
        ensures
            domain.name@ == name@,
            domain.ca_certs@.len() == 0,
    {
        TrustDomain { name: name.to_owned(), ca_certs: Vec::new() }
    }

    /// The trust domain with one more root certificate, behind the others.
    pub fn with_ca(self, cert_der: Vec<u8>) -> (domain: Self)
        ensures
            domain.name == self.name,
            domain.ca_certs@ == self.ca_certs@.push(cert_der),
    {
        let mut ca_certs: Vec<Vec<u8>> = self.ca_certs;
        ca_certs.push(cert_der);
        TrustDomain { name: self.name, ca_certs }
    }
}

/// The source of truth for the local identity.
///
/// In Kubernetes the identity is derived from the service account token.
pub trait IdentityProvider: Send + Sync {
    fn get_identity(&self) -> Result<SpiffeId, InterlinkError>;

    fn get_trust_domain(&self) -> &TrustDomain;
}

} // verus!
