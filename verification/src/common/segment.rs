//! Compiled glob patterns for one path segment of a SPIFFE URI.

use vstd::prelude::*;

use crate::common::glob;
use crate::text;

verus! {

/// How a pattern is matched. Parts are index ranges into the pattern.
#[derive(Debug, Hash, Eq, PartialEq)]
enum SegmentGlobKind {
    Any,
    Exact,
    Prefix { end: usize },
    Suffix { start: usize },
    Contains { start: usize, end: usize },
    PrefixSuffix { prefix_end: usize, suffix_start: usize },
    Multi { parts: Vec<(usize, usize)>, anchored_start: bool, anchored_end: bool },
}

/// A pattern for a single path segment (namespace or service account), taken apart once so that
/// matching a value does not look for `*` again.
#[derive(Debug, Hash, Eq, PartialEq)]
pub struct SegmentGlob {
    pattern: Vec<char>,
    kind: SegmentGlobKind,
}

/// `parts` are the maximal runs of `pattern` without a `*`, in order.
spec fn runs_of(pattern: Seq<char>, parts: Seq<(usize, usize)>) -> bool {
    &&& runs_up_to(pattern, parts, pattern.len() as int)
    &&& glob::all_stars(pattern, end_of_runs(parts), pattern.len() as int)
}

/// Where the last run ends; 0 where there is none.
spec fn end_of_runs(parts: Seq<(usize, usize)>) -> int {
    if parts.len() == 0 {
        0
    } else {
        parts.last().1 as int
    }
}

/// The runs lie in `0..limit`, hold no `*`, and only `*` stands before the first and between any
/// two.
spec fn runs_up_to(pattern: Seq<char>, parts: Seq<(usize, usize)>, limit: int) -> bool {
    &&& forall|i: int|
        0 <= i < parts.len() ==> {
            &&& (#[trigger] parts[i]).0 < parts[i].1 <= limit
            &&& glob::literal(pattern, parts[i].0 as int, parts[i].1 as int)
        }
    &&& parts.len() > 0 ==> glob::all_stars(pattern, 0, parts[0].0 as int)
    &&& forall|i: int, j: int|
        #![trigger parts[i], parts[j]]
        0 <= i && j == i + 1 && j < parts.len() ==> {
            &&& parts[i].1 < parts[j].0
            &&& glob::all_stars(pattern, parts[i].1 as int, parts[j].0 as int)
        }
}

impl SegmentGlob {
    /// The pattern as it was written.
    pub closed spec fn pattern(&self) -> Seq<char> {
        self.pattern@
    }

    /// The kind describes the pattern.
    #[verifier::type_invariant]
    spec fn well_formed(self) -> bool {
        let p = self.pattern@;
        let n = p.len() as int;
        match self.kind {
            SegmentGlobKind::Any => n > 0 && glob::all_stars(p, 0, n),
            SegmentGlobKind::Exact => glob::literal(p, 0, n),
            SegmentGlobKind::Prefix { end } => {
                &&& end < n
                &&& glob::literal(p, 0, end as int)
                &&& glob::all_stars(p, end as int, n)
            },
            SegmentGlobKind::Suffix { start } => {
                &&& 0 < start <= n
                &&& glob::all_stars(p, 0, start as int)
                &&& glob::literal(p, start as int, n)
            },
            SegmentGlobKind::Contains { start, end } => {
                &&& 0 < start < end < n
                &&& glob::all_stars(p, 0, start as int)
                &&& glob::literal(p, start as int, end as int)
                &&& glob::all_stars(p, end as int, n)
            },
            SegmentGlobKind::PrefixSuffix { prefix_end, suffix_start } => {
                &&& prefix_end < suffix_start <= n
                &&& glob::literal(p, 0, prefix_end as int)
                &&& glob::all_stars(p, prefix_end as int, suffix_start as int)
                &&& glob::literal(p, suffix_start as int, n)
            },
            SegmentGlobKind::Multi { parts, anchored_start, anchored_end } => {
                &&& n > 0
                &&& parts@.len() >= 2
                &&& runs_of(p, parts@)
                &&& anchored_start == (p[0] != '*')
                &&& anchored_end == (p[n - 1] != '*')
            },
        }
    }

    /// Compiles a pattern.
    pub fn new(pattern: &str) -> (compiled: Self)
        ensures
            compiled.pattern() == pattern@,
    {
        let chars: Vec<char> = text::chars_of(pattern);
        let n: usize = chars.len();
        let mut parts: Vec<(usize, usize)> = Vec::new();
        let mut start: usize = 0;
        let mut i: usize = 0;
        let mut wildcard: bool = false;
        while i < n
            invariant
                n == chars@.len(),
                start <= i <= n,
                runs_up_to(chars@, parts@, start as int),
                end_of_runs(parts@) <= start,
                glob::all_stars(chars@, end_of_runs(parts@), start as int),
                start > end_of_runs(parts@) || (start == 0 && parts@.len() == 0),
                glob::literal(chars@, start as int, i as int),
                wildcard == !glob::literal(chars@, 0, i as int),
                wildcard == (start > 0),
            decreases n - i,
        {
            if chars[i] == '*' {
                if start != i {
                    parts.push((start, i));
                }
                start = i + 1;
                wildcard = true;
                assert(chars@[i as int] == '*');
            }
            i = i + 1;
        }
        if !wildcard {
            return SegmentGlob { pattern: chars, kind: SegmentGlobKind::Exact };
        }
        if start != n {
            parts.push((start, n));
        }
        assert(runs_of(chars@, parts@));
        let anchored_start: bool = chars[0] != '*';
        let anchored_end: bool = chars[n - 1] != '*';
        let kind: SegmentGlobKind = if parts.len() == 0 {
            SegmentGlobKind::Any
        } else if parts.len() == 1 && anchored_start {
            SegmentGlobKind::Prefix { end: parts[0].1 }
        } else if parts.len() == 1 && anchored_end {
            SegmentGlobKind::Suffix { start: parts[0].0 }
        } else if parts.len() == 1 {
            SegmentGlobKind::Contains { start: parts[0].0, end: parts[0].1 }
        } else if parts.len() == 2 && anchored_start && anchored_end {
            SegmentGlobKind::PrefixSuffix { prefix_end: parts[0].1, suffix_start: parts[1].0 }
        } else {
            SegmentGlobKind::Multi { parts, anchored_start, anchored_end }
        };
        SegmentGlob { pattern: chars, kind }
    }

    /// Whether the whole of `value` matches the pattern.
    pub fn matches(&self, value: &str) -> (matched: bool)
        ensures
            matched == glob::glob_matches(self.pattern(), value@),
    {
        proof {
            use_type_invariant(self);
        }
        let v: Vec<char> = text::chars_of(value);
        let p: &Vec<char> = &self.pattern;
        let ghost ps = p@;
        let ghost n = p@.len() as int;
        match &self.kind {
            SegmentGlobKind::Any => {
                proof {
                    glob::lemma_only_stars(ps, v@);
                }
                true
            },
            SegmentGlobKind::Exact => {
                proof {
                    glob::lemma_exact(ps, v@);
                    assert(ps.subrange(0, n) =~= ps);
                    if v@.len() == n {
                        assert(v@.subrange(0, n) =~= v@);
                    }
                }
                v.len() == p.len() && occurs(&v, 0, p, 0, p.len())
            },
            SegmentGlobKind::Prefix { end } => {
                proof {
                    lemma_prefix(ps, *end as int, v@);
                }
                v.len() >= *end && occurs(&v, 0, p, 0, *end)
            },
            SegmentGlobKind::Suffix { start } => {
                proof {
                    lemma_suffix(ps, *start as int, v@);
                }
                v.len() >= p.len() - *start && occurs(
                    &v,
                    v.len() - (p.len() - *start),
                    p,
                    *start,
                    p.len(),
                )
            },
            SegmentGlobKind::Contains { start, end } => {
                let found: Option<usize> = find(&v, 0, v.len(), p, *start, *end);
                proof {
                    assert(v@.subrange(0, v@.len() as int) =~= v@);
                    lemma_contains(ps, *start as int, *end as int, v@, found);
                }
                found.is_some()
            },
            SegmentGlobKind::PrefixSuffix { prefix_end, suffix_start } => {
                let tail: usize = p.len() - *suffix_start;
                proof {
                    lemma_prefix_suffix(ps, *prefix_end as int, *suffix_start as int, v@);
                }
                v.len() >= *prefix_end && v.len() - *prefix_end >= tail && occurs(
                    &v,
                    0,
                    p,
                    0,
                    *prefix_end,
                ) && occurs(&v, v.len() - tail, p, *suffix_start, p.len())
            },
            SegmentGlobKind::Multi { parts, anchored_start, anchored_end } => {
                matches_multi(p, &v, parts, *anchored_start, *anchored_end)
            },
        }
    }
}

impl Clone for SegmentGlob {
    fn clone(&self) -> (copy: Self)
        ensures
            copy.pattern() == self.pattern(),
    {
        proof {
            use_type_invariant(self);
        }
        let mut pattern: Vec<char> = Vec::new();
        let mut i: usize = 0;
        while i < self.pattern.len()
            invariant
                i <= self.pattern@.len(),
                pattern@ == self.pattern@.take(i as int),
            decreases self.pattern@.len() - i,
        {
            pattern.push(self.pattern[i]);
            i = i + 1;
            assert(self.pattern@.take(i as int) =~= self.pattern@.take(i - 1).push(
                self.pattern@[i - 1],
            ));
        }
        assert(pattern@ =~= self.pattern@);
        let kind: SegmentGlobKind = match &self.kind {
            SegmentGlobKind::Any => SegmentGlobKind::Any,
            SegmentGlobKind::Exact => SegmentGlobKind::Exact,
            SegmentGlobKind::Prefix { end } => SegmentGlobKind::Prefix { end: *end },
            SegmentGlobKind::Suffix { start } => SegmentGlobKind::Suffix { start: *start },
            SegmentGlobKind::Contains { start, end } => SegmentGlobKind::Contains {
                start: *start,
                end: *end,
            },
            SegmentGlobKind::PrefixSuffix { prefix_end, suffix_start } => {
                SegmentGlobKind::PrefixSuffix {
                    prefix_end: *prefix_end,
                    suffix_start: *suffix_start,
                }
            },
            SegmentGlobKind::Multi { parts, anchored_start, anchored_end } => {
                SegmentGlobKind::Multi {
                    parts: copy_parts(parts),
                    anchored_start: *anchored_start,
                    anchored_end: *anchored_end,
                }
            },
        };
        SegmentGlob { pattern, kind }
    }
}

fn copy_parts(parts: &Vec<(usize, usize)>) -> (copy: Vec<(usize, usize)>)
    ensures
        copy@ == parts@,
{
    let mut copy: Vec<(usize, usize)> = Vec::new();
    let mut i: usize = 0;
    while i < parts.len()
        invariant
            i <= parts@.len(),
            copy@ == parts@.take(i as int),
        decreases parts@.len() - i,
    {
        copy.push((parts[i].0, parts[i].1));
        i = i + 1;
        assert(parts@.take(i as int) =~= parts@.take(i - 1).push(parts@[i - 1]));
    }
    assert(copy@ =~= parts@);
    copy
}

/// Whether the part `from..to` of the pattern stands in `v` at index `at`.
fn occurs(v: &Vec<char>, at: usize, p: &Vec<char>, from: usize, to: usize) -> (r: bool)
    requires
        from <= to <= p@.len(),
        at + (to - from) <= v@.len(),
    ensures
        r == text::occurs_at(v@, p@.subrange(from as int, to as int), at as int),
{
    let ghost part = p@.subrange(from as int, to as int);
    let total: usize = v.len();
    let mut i: usize = 0;
    while i < to - from
        invariant
            total == v@.len(),
            from <= to <= p@.len(),
            at + (to - from) <= v@.len(),
            i <= to - from,
            part == p@.subrange(from as int, to as int),
            forall|j: int| 0 <= j < i ==> #[trigger] part[j] == v@[at + j],
        decreases to - from - i,
    {
        if v[at + i] != p[from + i] {
            assert(part[i as int] == p@[from + i]);
            assert(v@.subrange(at as int, at + part.len())[i as int] == v@[at + i]);
            return false;
        }
        assert(part[i as int] == p@[from + i]);
        i = i + 1;
    }
    assert(v@.subrange(at as int, at + part.len()) =~= part);
    true
}

/// The first index in `lo..hi` at which the part `from..to` of the pattern stands, all of it
/// before `hi`.
fn find(v: &Vec<char>, lo: usize, hi: usize, p: &Vec<char>, from: usize, to: usize) -> (r: Option<
    usize,
>)
    requires
        lo <= hi <= v@.len(),
        from <= to <= p@.len(),
    ensures
        match r {
            Some(at) => {
                &&& lo <= at
                &&& at + (to - from) <= hi
                &&& text::occurs_at(
                    v@.subrange(lo as int, hi as int),
                    p@.subrange(from as int, to as int),
                    at - lo,
                )
                &&& forall|j: int|
                    0 <= j < at - lo ==> !#[trigger] text::occurs_at(
                        v@.subrange(lo as int, hi as int),
                        p@.subrange(from as int, to as int),
                        j,
                    )
            },
            None => forall|j: int|
                !#[trigger] text::occurs_at(
                    v@.subrange(lo as int, hi as int),
                    p@.subrange(from as int, to as int),
                    j,
                ),
        },
{
    let ghost window = v@.subrange(lo as int, hi as int);
    let ghost part = p@.subrange(from as int, to as int);
    let mut at: usize = lo;
    while hi - at >= to - from
        invariant
            lo <= at <= hi <= v@.len(),
            from <= to <= p@.len(),
            window == v@.subrange(lo as int, hi as int),
            part == p@.subrange(from as int, to as int),
            forall|j: int| 0 <= j < at - lo ==> !#[trigger] text::occurs_at(window, part, j),
        decreases hi - at,
    {
        let here: bool = occurs(v, at, p, from, to);
        assert(v@.subrange(at as int, at + part.len()) =~= window.subrange(
            at - lo,
            at - lo + part.len(),
        ));
        if here {
            return Some(at);
        }
        if at == hi {
            return None;
        }
        at = at + 1;
    }
    None
}

proof fn lemma_prefix(p: Seq<char>, end: int, v: Seq<char>)
    requires
        0 <= end < p.len(),
        glob::literal(p, 0, end),
        glob::all_stars(p, end, p.len() as int),
    ensures
        glob::glob_matches(p, v) <==> text::occurs_at(v, p.subrange(0, end), 0),
{
    let lit = p.subrange(0, end);
    let stars = p.skip(end);
    assert(p =~= lit + stars);
    glob::lemma_literal_head(lit, stars, v);
    glob::lemma_only_stars(stars, v.skip(end));
}

proof fn lemma_suffix(p: Seq<char>, start: int, v: Seq<char>)
    requires
        0 < start <= p.len(),
        glob::all_stars(p, 0, start),
        glob::literal(p, start, p.len() as int),
    ensures
        glob::glob_matches(p, v) <==> text::occurs_at(
            v,
            p.subrange(start, p.len() as int),
            v.len() - (p.len() - start),
        ),
{
    let stars = p.take(start);
    let lit = p.subrange(start, p.len() as int);
    assert(p =~= stars + lit);
    glob::lemma_literal_tail(stars, lit, v);
    glob::lemma_only_stars(stars, v.take(v.len() - lit.len()));
}

proof fn lemma_contains(p: Seq<char>, start: int, end: int, v: Seq<char>, found: Option<usize>)
    requires
        0 < start < end < p.len(),
        glob::all_stars(p, 0, start),
        glob::literal(p, start, end),
        glob::all_stars(p, end, p.len() as int),
        match found {
            Some(at) => text::occurs_at(v, p.subrange(start, end), at as int) && forall|j: int|
                0 <= j < at ==> !#[trigger] text::occurs_at(v, p.subrange(start, end), j),
            None => forall|j: int| !#[trigger] text::occurs_at(v, p.subrange(start, end), j),
        },
    ensures
        glob::glob_matches(p, v) <==> found is Some,
{
    let stars = p.take(start);
    let lit = p.subrange(start, end);
    let rest = p.skip(end);
    assert(p =~= stars + (lit + rest));
    let at: Option<int> = match found {
        Some(at) => Some(at as int),
        None => None,
    };
    glob::lemma_first_occurrence(stars, lit, rest, v, at);
    if let Some(o) = at {
        glob::lemma_only_stars(rest, v.skip(o + lit.len()));
    }
}

/// A literal head `..a` and a literal tail `z..` of the pattern are matched by the head and the
/// tail of the value, and what is left of the pattern by what is left of the value.
proof fn lemma_anchors(p: Seq<char>, a: int, z: int, v: Seq<char>)
    requires
        0 <= a <= z <= p.len(),
        glob::literal(p, 0, a),
        glob::literal(p, z, p.len() as int),
    ensures
        glob::glob_matches(p, v) <==> {
            let tail = p.len() - z;
            &&& a + tail <= v.len()
            &&& text::occurs_at(v, p.subrange(0, a), 0)
            &&& text::occurs_at(v, p.subrange(z, p.len() as int), v.len() - tail)
            &&& glob::glob_matches(p.subrange(a, z), v.subrange(a, v.len() - tail))
        },
{
    let head = p.subrange(0, a);
    let mid = p.subrange(a, z);
    let lit = p.subrange(z, p.len() as int);
    let tail = p.len() - z;
    assert(p =~= head + (mid + lit));
    glob::lemma_literal_head(head, mid + lit, v);
    let w = v.skip(a);
    glob::lemma_literal_tail(mid, lit, w);
    if a + tail <= v.len() {
        assert(w.subrange(w.len() - tail, w.len() as int) =~= v.subrange(
            v.len() - tail,
            v.len() as int,
        ));
        assert(w.take(w.len() - tail) =~= v.subrange(a, v.len() - tail));
    }
}

proof fn lemma_prefix_suffix(p: Seq<char>, a: int, z: int, v: Seq<char>)
    requires
        0 <= a < z <= p.len(),
        glob::literal(p, 0, a),
        glob::all_stars(p, a, z),
        glob::literal(p, z, p.len() as int),
    ensures
        glob::glob_matches(p, v) <==> {
            &&& a + (p.len() - z) <= v.len()
            &&& text::occurs_at(v, p.subrange(0, a), 0)
            &&& text::occurs_at(v, p.subrange(z, p.len() as int), v.len() - (p.len() - z))
        },
{
    lemma_anchors(p, a, z, v);
    if a + (p.len() - z) <= v.len() {
        glob::lemma_only_stars(p.subrange(a, z), v.subrange(a, v.len() - (p.len() - z)));
    }
}

/// Where the pattern behind the first `i` runs begins.
spec fn behind(parts: Seq<(usize, usize)>, i: int) -> int {
    if i == 0 {
        0
    } else {
        parts[i - 1].1 as int
    }
}

/// Matches a pattern of two runs or more: the anchored ends first, then every other run at its
/// first occurrence.
fn matches_multi(
    p: &Vec<char>,
    v: &Vec<char>,
    parts: &Vec<(usize, usize)>,
    anchored_start: bool,
    anchored_end: bool,
) -> (matched: bool)
    requires
        p@.len() > 0,
        parts@.len() >= 2,
        runs_of(p@, parts@),
        anchored_start == (p@[0] != '*'),
        anchored_end == (p@[p@.len() - 1] != '*'),
    ensures
        matched == glob::glob_matches(p@, v@),
{
    let ghost n = p@.len() as int;
    let ghost m = parts@.len() as int;
    let mut first: usize = 0;
    let mut last: usize = parts.len();
    let mut lo: usize = 0;
    let mut hi: usize = v.len();
    let ghost a = if anchored_start {
        parts@[0].1 as int
    } else {
        0
    };
    let ghost z = if anchored_end {
        parts@[m - 1].0 as int
    } else {
        n
    };
    proof {
        assert(parts@[0].1 < parts@[1].0);
        assert(parts@[m - 2].1 < parts@[m - 1].0);
        lemma_runs_in_order(p@, parts@, 0, m - 2);
        lemma_runs_in_order(p@, parts@, 1, m - 1);
        assert(anchored_start ==> parts@[0].0 == 0) by {
            if anchored_start && parts@[0].0 > 0 {
                assert(p@[0] == '*');
            }
        }
        assert(anchored_end ==> parts@[m - 1].1 == n) by {
            if anchored_end && parts@[m - 1].1 < n {
                assert(p@[n - 1] == '*');
            }
        }
        lemma_anchors(p@, a, z, v@);
    }

    if anchored_start {
        let (start, end): (usize, usize) = parts[0];
        if v.len() < end - start || !occurs(v, 0, p, start, end) {
            return false;
        }
        lo = end - start;
        first = 1;
    }
    if anchored_end {
        let (start, end): (usize, usize) = parts[last - 1];
        if v.len() < end - start || !occurs(v, v.len() - (end - start), p, start, end) {
            return false;
        }
        hi = v.len() - (end - start);
        last = last - 1;
    }
    if lo > hi {
        return false;
    }
    let mut i: usize = first;
    assert(behind(parts@, first as int) == a);
    assert(p@.subrange(0, 0) =~= Seq::<char>::empty());
    assert(p@.subrange(n, n) =~= Seq::<char>::empty());
    assert(v@.subrange(0, 0) =~= Seq::<char>::empty());
    assert(v@.subrange(v@.len() as int, v@.len() as int) =~= Seq::<char>::empty());
    while i < last
        invariant
            p@.len() == n,
            n > 0,
            parts@.len() == m,
            m >= 2,
            runs_of(p@, parts@),
            anchored_start == (p@[0] != '*'),
            anchored_end == (p@[n - 1] != '*'),
            anchored_start ==> i >= 1,
            last == if anchored_end {
                m - 1
            } else {
                m
            },
            z == if anchored_end {
                parts@[m - 1].0 as int
            } else {
                n
            },
            i <= last,
            lo <= hi <= v@.len(),
            glob::glob_matches(p@, v@) == glob::glob_matches(
                p@.subrange(behind(parts@, i as int), z),
                v@.subrange(lo as int, hi as int),
            ),
        decreases last - i,
    {
        let (start, end): (usize, usize) = parts[i];
        let found: Option<usize> = find(v, lo, hi, p, start, end);
        proof {
            lemma_middle_step(p@, parts@, i as int, z, anchored_end, v@, lo as int, hi as int, found);
        }
        match found {
            None => {
                return false;
            },
            Some(at) => {
                lo = at + (end - start);
            },
        }
        i = i + 1;
    }
    proof {
        lemma_closing_stars(p@, parts@, z, anchored_end);
        glob::lemma_only_stars(
            p@.subrange(behind(parts@, i as int), z),
            v@.subrange(lo as int, hi as int),
        );
    }
    true
}

/// Runs stand in the order of their indices.
proof fn lemma_runs_in_order(p: Seq<char>, parts: Seq<(usize, usize)>, i: int, j: int)
    requires
        runs_of(p, parts),
        0 <= i <= j < parts.len(),
    ensures
        parts[i].0 <= parts[j].0,
        parts[i].1 <= parts[j].1,
    decreases j - i,
{
    if i < j {
        lemma_runs_in_order(p, parts, i, j - 1);
        assert(parts[j - 1].1 < parts[j].0);
        assert(parts[j].0 < parts[j].1);
        assert(parts[j - 1].0 < parts[j - 1].1);
    }
}

/// The run `i` has at least one `*` on either side, where it is neither anchored at the start of
/// the pattern nor the anchored end.
proof fn lemma_middle_run(
    p: Seq<char>,
    parts: Seq<(usize, usize)>,
    i: int,
    z: int,
    anchored_end: bool,
)
    requires
        p.len() > 0,
        parts.len() >= 2,
        runs_of(p, parts),
        anchored_end == (p[p.len() - 1] != '*'),
        z == if anchored_end {
            parts[parts.len() - 1].0 as int
        } else {
            p.len() as int
        },
        0 <= i < if anchored_end {
            parts.len() - 1
        } else {
            parts.len() as int
        },
        i == 0 ==> p[0] == '*',
    ensures
        behind(parts, i) < parts[i].0 < parts[i].1 < z <= p.len(),
        glob::all_stars(p, behind(parts, i), parts[i].0 as int),
        p[parts[i].1 as int] == '*',
{
    let m = parts.len() as int;
    assert(parts[i].0 < parts[i].1 <= p.len());
    if i == 0 && parts[0].0 == 0 {
        assert(p[0] != '*');
    }
    if i + 1 < m {
        assert(parts[i].1 < parts[i + 1].0);
        lemma_runs_in_order(p, parts, i + 1, m - 1);
        assert(p[parts[i].1 as int] == '*');
        assert(parts[i + 1].0 < parts[i + 1].1 <= p.len());
        assert(parts[m - 1].0 < parts[m - 1].1 <= p.len());
    } else {
        if parts[i].1 == p.len() {
            assert(p[p.len() - 1] != '*');
        }
        assert(p[parts[i].1 as int] == '*');
    }
}

/// Taking the run `i` at its first occurrence loses no match.
proof fn lemma_middle_step(
    p: Seq<char>,
    parts: Seq<(usize, usize)>,
    i: int,
    z: int,
    anchored_end: bool,
    v: Seq<char>,
    lo: int,
    hi: int,
    found: Option<usize>,
)
    requires
        p.len() > 0,
        parts.len() >= 2,
        runs_of(p, parts),
        anchored_end == (p[p.len() - 1] != '*'),
        z == if anchored_end {
            parts[parts.len() - 1].0 as int
        } else {
            p.len() as int
        },
        0 <= i < if anchored_end {
            parts.len() - 1
        } else {
            parts.len() as int
        },
        i == 0 ==> p[0] == '*',
        0 <= lo <= hi <= v.len(),
        ({
            let window = v.subrange(lo, hi);
            let part = p.subrange(parts[i].0 as int, parts[i].1 as int);
            match found {
                Some(at) => {
                    &&& lo <= at
                    &&& at + part.len() <= hi
                    &&& text::occurs_at(window, part, at - lo)
                    &&& forall|j: int|
                        0 <= j < at - lo ==> !#[trigger] text::occurs_at(window, part, j)
                },
                None => forall|j: int| !#[trigger] text::occurs_at(window, part, j),
            }
        }),
    ensures
        glob::glob_matches(p.subrange(behind(parts, i), z), v.subrange(lo, hi)) == match found {
            Some(at) => glob::glob_matches(
                p.subrange(behind(parts, i + 1), z),
                v.subrange(at + (parts[i].1 - parts[i].0), hi),
            ),
            None => false,
        },
{
    let at: Option<int> = match found {
        Some(o) => Some(o - lo),
        None => None,
    };
    let pos = behind(parts, i);
    lemma_middle_run(p, parts, i, z, anchored_end);
    let stars = p.subrange(pos, parts[i].0 as int);
    let lit = p.subrange(parts[i].0 as int, parts[i].1 as int);
    let rest = p.subrange(parts[i].1 as int, z);
    let w = v.subrange(lo, hi);
    assert(p.subrange(pos, z) =~= stars + (lit + rest));
    glob::lemma_first_occurrence(stars, lit, rest, w, at);
    if let Some(o) = found {
        assert(w.skip(o - lo + lit.len()) =~= v.subrange(o + lit.len(), hi));
    }
}

/// Behind the last run that is not the anchored end only `*` is left, at least one.
proof fn lemma_closing_stars(p: Seq<char>, parts: Seq<(usize, usize)>, z: int, anchored_end: bool)
    requires
        p.len() > 0,
        parts.len() >= 2,
        runs_of(p, parts),
        anchored_end == (p[p.len() - 1] != '*'),
        z == if anchored_end {
            parts[parts.len() - 1].0 as int
        } else {
            p.len() as int
        },
    ensures
        ({
            let last = if anchored_end {
                parts.len() - 1
            } else {
                parts.len() as int
            };
            &&& 0 <= behind(parts, last) < z <= p.len()
            &&& glob::all_stars(
                p.subrange(behind(parts, last), z),
                0,
                p.subrange(behind(parts, last), z).len() as int,
            )
        }),
{
    let m = parts.len() as int;
    assert(parts[m - 1].0 < parts[m - 1].1 <= p.len());
    if anchored_end {
        assert(parts[m - 2].1 < parts[m - 1].0);
        assert(parts[m - 2].0 < parts[m - 2].1);
    } else if parts[m - 1].1 == p.len() {
        assert(p[p.len() - 1] != '*');
    }
}

} // verus!
