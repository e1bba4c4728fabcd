//! Strings as sequences of characters.

use vstd::prelude::*;

verus! {

/// `String::push` of the standard library appends one character.
pub assume_specification[ String::push ](s: &mut String, c: char)
    ensures
        final(s)@ == old(s)@.push(c),
;

/// The lower-case form of an ASCII upper-case letter; any other character is kept.
pub open spec fn ascii_lower(c: char) -> char {
    if 'A' <= c && c <= 'Z' {
        ((c as u32) + 32) as char
    } else {
        c
    }
}

/// `ascii_lower` on every character.
pub open spec fn ascii_lowercase(s: Seq<char>) -> Seq<char> {
    s.map_values(|c: char| ascii_lower(c))
}

/// The index of the first character that belongs to `set`, or the length of `s`.
pub open spec fn first_of(s: Seq<char>, set: Set<char>) -> int
    decreases s.len(),
{
    if s.len() == 0 || set.contains(s[0]) {
        0
    } else {
        1 + first_of(s.skip(1), set)
    }
}

/// Whether `needle` stands in `s` at index `k`.
pub open spec fn occurs_at(s: Seq<char>, needle: Seq<char>, k: int) -> bool {
    &&& 0 <= k
    &&& k + needle.len() <= s.len()
    &&& s.subrange(k, k + needle.len()) == needle
}

/// What stands before the first `needle` in `s`; all of `s` where there is none.
pub open spec fn before_first(s: Seq<char>, needle: Seq<char>) -> Seq<char>
    decreases s.len(),
{
    if s.len() == 0 || occurs_at(s, needle, 0) {
        Seq::empty()
    } else {
        seq![s[0]] + before_first(s.skip(1), needle)
    }
}

/// Whether `s` opens with `head`.
pub open spec fn starts_with(s: Seq<char>, head: Seq<char>) -> bool {
    occurs_at(s, head, 0)
}

/// Where the first character of `set` lies, if there is one, the characters before it are not in
/// the set.
pub proof fn lemma_first_of(s: Seq<char>, set: Set<char>)
    ensures
        0 <= first_of(s, set) <= s.len(),
        first_of(s, set) < s.len() ==> set.contains(s[first_of(s, set)]),
        forall|i: int| 0 <= i < first_of(s, set) ==> !set.contains(#[trigger] s[i]),
    decreases s.len(),
{
    if s.len() > 0 && !set.contains(s[0]) {
        lemma_first_of(s.skip(1), set);
        assert forall|i: int| 0 <= i < first_of(s, set) implies !set.contains(#[trigger] s[i]) by {
            if i > 0 {
                assert(s.skip(1)[i - 1] == s[i]);
            }
        }
    }
}

/// An index with those properties is the first one.
pub proof fn lemma_first_of_unique(s: Seq<char>, set: Set<char>, at: int)
    requires
        0 <= at <= s.len(),
        at < s.len() ==> set.contains(s[at]),
        forall|i: int| 0 <= i < at ==> !set.contains(#[trigger] s[i]),
    ensures
        first_of(s, set) == at,
{
    lemma_first_of(s, set);
    let f = first_of(s, set);
    if f < at {
        assert(!set.contains(s[f]));
    }
    if at < f {
        assert(!set.contains(s[at]));
    }
}

/// What stands before the first occurrence is what was passed over to reach it.
pub proof fn lemma_before_first(s: Seq<char>, needle: Seq<char>, at: int)
    requires
        0 <= at <= s.len(),
        at < s.len() ==> occurs_at(s, needle, at),
        forall|i: int| 0 <= i < at ==> !#[trigger] occurs_at(s, needle, i),
    ensures
        before_first(s, needle) == s.take(at),
    decreases s.len(),
{
    if at == 0 {
        assert(s.take(0) =~= Seq::<char>::empty());
    } else {
        let t = s.skip(1);
        assert(!occurs_at(s, needle, 0));
        assert forall|i: int| 0 <= i < at - 1 implies !#[trigger] occurs_at(t, needle, i) by {
            lemma_occurs_skip(s, needle, i + 1);
            assert(!occurs_at(s, needle, i + 1));
        }
        lemma_occurs_skip(s, needle, at);
        lemma_before_first(t, needle, at - 1);
        assert(seq![s[0]] + t.take(at - 1) =~= s.take(at));
    }
}

/// An occurrence keeps its place relative to the characters around it.
pub proof fn lemma_occurs_skip(s: Seq<char>, needle: Seq<char>, k: int)
    requires
        s.len() > 0,
        k >= 1,
    ensures
        occurs_at(s.skip(1), needle, k - 1) <==> occurs_at(s, needle, k),
{
    if k + needle.len() <= s.len() {
        assert(s.skip(1).subrange(k - 1, k - 1 + needle.len()) =~= s.subrange(
            k,
            k + needle.len(),
        ));
    }
}

/// Whether `literal` stands among the characters at index `at`.
pub fn literal_at(chars: &Vec<char>, at: usize, literal: &str) -> (found: bool)
    requires
        at <= chars@.len(),
    ensures
        found == occurs_at(chars@, literal@, at as int),
        found == starts_with(chars@.skip(at as int), literal@),
{
    let wanted: Vec<char> = chars_of(literal);
    let total: usize = chars.len();
    proof {
        if at + literal@.len() <= chars@.len() {
            assert(chars@.skip(at as int).subrange(0, literal@.len() as int) =~= chars@.subrange(
                at as int,
                at + literal@.len(),
            ));
        }
    }
    if total - at < wanted.len() {
        return false;
    }
    let mut i: usize = 0;
    while i < wanted.len()
        invariant
            total == chars@.len(),
            wanted@ == literal@,
            i <= wanted@.len(),
            at + wanted@.len() <= total,
            forall|j: int| 0 <= j < i ==> #[trigger] wanted@[j] == chars@[at + j],
        decreases wanted@.len() - i,
    {
        if chars[at + i] != wanted[i] {
            assert(chars@.subrange(at as int, at + wanted@.len())[i as int] == chars@[at + i]);
            return false;
        }
        i = i + 1;
    }
    assert(chars@.subrange(at as int, at + wanted@.len()) =~= wanted@);
    true
}

/// Whether the characters open with `literal`, letter case aside; `literal` is in lower case.
pub fn opens_ignoring_case(chars: &Vec<char>, literal: &str) -> (found: bool)
    ensures
        found == starts_with(ascii_lowercase(chars@), literal@),
{
    let wanted: Vec<char> = chars_of(literal);
    if chars.len() < wanted.len() {
        return false;
    }
    let ghost head = ascii_lowercase(chars@).subrange(0, wanted@.len() as int);
    let mut i: usize = 0;
    while i < wanted.len()
        invariant
            wanted@ == literal@,
            i <= wanted@.len() <= chars@.len(),
            head == ascii_lowercase(chars@).subrange(0, wanted@.len() as int),
            forall|j: int| 0 <= j < i ==> #[trigger] wanted@[j] == head[j],
        decreases wanted@.len() - i,
    {
        assert(head[i as int] == ascii_lower(chars@[i as int]));
        if lower_char(chars[i]) != wanted[i] {
            return false;
        }
        i = i + 1;
    }
    assert(head =~= wanted@);
    true
}

/// The index in `from..` of the first `wanted`, or the number of characters.
pub fn find_char(chars: &Vec<char>, from: usize, wanted: char) -> (at: usize)
    requires
        from <= chars@.len(),
    ensures
        from <= at <= chars@.len(),
        at - from == first_of(chars@.skip(from as int), set![wanted]),
{
    let ghost rest = chars@.skip(from as int);
    let mut at: usize = from;
    while at < chars.len() && chars[at] != wanted
        invariant
            from <= at <= chars@.len(),
            rest == chars@.skip(from as int),
            forall|i: int| 0 <= i < at - from ==> !set![wanted].contains(#[trigger] rest[i]),
        decreases chars@.len() - at,
    {
        assert(rest[at - from] == chars@[at as int]);
        at = at + 1;
    }
    proof {
        lemma_first_of_unique(rest, set![wanted], at - from);
    }
    at
}

/// What stands before the first `needle`; everything where there is none.
pub fn text_before(chars: &Vec<char>, needle: &str) -> (s: String)
    requires
        needle@.len() > 0,
    ensures
        s@ == before_first(chars@, needle@),
{
    let mut at: usize = 0;
    while at < chars.len()
        invariant
            at <= chars@.len(),
            forall|i: int| 0 <= i < at ==> !#[trigger] occurs_at(chars@, needle@, i),
        decreases chars@.len() - at,
    {
        if literal_at(chars, at, needle) {
            proof {
                lemma_before_first(chars@, needle@, at as int);
                assert(chars@.subrange(0, at as int) =~= chars@.take(at as int));
            }
            return string_of(chars, 0, at);
        }
        at = at + 1;
    }
    proof {
        lemma_before_first(chars@, needle@, at as int);
        assert(chars@.subrange(0, at as int) =~= chars@.take(at as int));
    }
    string_of(chars, 0, at)
}

/// The index of the last `wanted`, or -1.
pub open spec fn last_of(s: Seq<char>, wanted: char) -> int
    decreases s.len(),
{
    if s.len() == 0 {
        -1
    } else if s.last() == wanted {
        s.len() - 1
    } else {
        last_of(s.drop_last(), wanted)
    }
}

/// The index of the last `wanted` among the characters.
pub fn find_last(chars: &Vec<char>, wanted: char) -> (at: Option<usize>)
    ensures
        match at {
            Some(i) => i < chars@.len() && i == last_of(chars@, wanted),
            None => last_of(chars@, wanted) == -1,
        },
{
    let mut n: usize = chars.len();
    assert(chars@.take(n as int) =~= chars@);
    while n > 0
        invariant
            n <= chars@.len(),
            last_of(chars@, wanted) == last_of(chars@.take(n as int), wanted),
        decreases n,
    {
        assert(chars@.take(n as int).last() == chars@[n - 1]);
        assert(chars@.take(n as int).drop_last() =~= chars@.take(n - 1));
        if chars[n - 1] == wanted {
            return Some(n - 1);
        }
        n = n - 1;
    }
    None
}

/// The pieces of `s` between the separators.
pub open spec fn pieces(s: Seq<char>, separator: char) -> Seq<Seq<char>>
    decreases s.len(),
{
    let end = first_of(s, set![separator]);
    if end < 0 || end >= s.len() {
        seq![s]
    } else {
        seq![s.take(end)] + pieces(s.skip(end + 1), separator)
    }
}

/// Splits a string at every separator.
pub fn split(s: &str, separator: char) -> (list: Vec<String>)
    ensures
        strings(list@) == pieces(s@, separator),
{
    let chars: Vec<char> = chars_of(s);
    let mut list: Vec<String> = Vec::new();
    let mut start: usize = 0;
    let ghost wanted = pieces(s@, separator);
    assert(chars@.skip(0) =~= chars@);
    assert(strings(list@) + pieces(chars@, separator) =~= wanted);
    loop
        invariant_except_break
            start <= chars@.len(),
            strings(list@) + pieces(chars@.skip(start as int), separator) =~= wanted,
        ensures
            strings(list@) =~= wanted,
        decreases chars@.len() - start,
    {
        let end: usize = find_char(&chars, start, separator);
        let piece: String = string_of(&chars, start, end);
        let ghost rest = chars@.skip(start as int);
        let ghost before = list@;
        proof {
            assert(chars@.subrange(start as int, end as int) =~= rest.take(end - start));
        }
        list.push(piece);
        assert(strings(list@) =~= strings(before).push(piece@));
        if end == chars.len() {
            assert(rest.take(end - start) =~= rest);
            assert(pieces(rest, separator) =~= seq![rest]);
            break;
        }
        assert(rest.skip(end - start + 1) =~= chars@.skip(end + 1));
        assert(pieces(rest, separator) =~= seq![piece@] + pieces(
            chars@.skip(end + 1),
            separator,
        ));
        start = end + 1;
    }
    list
}

/// Strings as values.
pub open spec fn strings(list: Seq<String>) -> Seq<Seq<char>> {
    list.map_values(|s: String| s@)
}

/// The characters of each slice.
pub open spec fn slices(list: Seq<&str>) -> Seq<Seq<char>> {
    list.map_values(|s: &str| s@)
}

/// The characters with the White_Space property of Unicode.
pub open spec fn white_space(c: char) -> bool {
    ||| '\u{9}' <= c <= '\u{d}'
    ||| c == '\u{20}'
    ||| c == '\u{85}'
    ||| c == '\u{a0}'
    ||| c == '\u{1680}'
    ||| '\u{2000}' <= c <= '\u{200a}'
    ||| c == '\u{2028}'
    ||| c == '\u{2029}'
    ||| c == '\u{202f}'
    ||| c == '\u{205f}'
    ||| c == '\u{3000}'
}

fn is_white_space(c: char) -> (r: bool)
    ensures
        r == white_space(c),
{
    '\u{9}' <= c && c <= '\u{d}' || c == '\u{20}' || c == '\u{85}' || c == '\u{a0}' || c
        == '\u{1680}' || '\u{2000}' <= c && c <= '\u{200a}' || c == '\u{2028}' || c == '\u{2029}'
        || c == '\u{202f}' || c == '\u{205f}' || c == '\u{3000}'
}

/// `s` without the white space at its start.
pub open spec fn trimmed_start(s: Seq<char>) -> Seq<char>
    decreases s.len(),
{
    if s.len() > 0 && white_space(s[0]) {
        trimmed_start(s.skip(1))
    } else {
        s
    }
}

/// `s` without the white space at its end.
pub open spec fn trimmed_end(s: Seq<char>) -> Seq<char>
    decreases s.len(),
{
    if s.len() > 0 && white_space(s.last()) {
        trimmed_end(s.drop_last())
    } else {
        s
    }
}

/// `s` without the white space at its ends.
pub open spec fn trimmed(s: Seq<char>) -> Seq<char> {
    trimmed_end(trimmed_start(s))
}

/// Drops the white space at both ends.
pub fn trim(s: &str) -> (t: String)
    ensures
        t@ == trimmed(s@),
{
    let chars: Vec<char> = chars_of(s);
    let mut start: usize = 0;
    assert(chars@.skip(0) =~= chars@);
    while start < chars.len() && is_white_space(chars[start])
        invariant
            start <= chars@.len(),
            trimmed_start(chars@) == trimmed_start(chars@.skip(start as int)),
        decreases chars@.len() - start,
    {
        assert(chars@.skip(start as int).skip(1) =~= chars@.skip(start + 1));
        start = start + 1;
    }
    assert(trimmed_start(chars@) == chars@.skip(start as int)) by {
        if start < chars@.len() {
            assert(chars@.skip(start as int)[0] == chars@[start as int]);
        }
    }
    let mut end: usize = chars.len();
    assert(chars@.subrange(start as int, end as int) =~= chars@.skip(start as int));
    while end > start && is_white_space(chars[end - 1])
        invariant
            start <= end <= chars@.len(),
            trimmed(chars@) == trimmed_end(chars@.subrange(start as int, end as int)),
        decreases end - start,
    {
        assert(chars@.subrange(start as int, end as int).drop_last() =~= chars@.subrange(
            start as int,
            end - 1,
        ));
        end = end - 1;
    }
    string_of(&chars, start, end)
}

/// The characters of a string.
pub fn chars_of(s: &str) -> (chars: Vec<char>)
    ensures
        chars@ == s@,
{
    let mut chars: Vec<char> = Vec::new();
    for c in iter: s.chars()
        invariant
            iter.seq() == s@,
            chars@ == s@.take(iter.index()),
    {
        chars.push(c);
    }
    proof {
        assert(s@.take(s@.len() as int) =~= s@);
    }
    chars
}

/// The string made of the characters `from..to`.
pub fn string_of(chars: &Vec<char>, from: usize, to: usize) -> (s: String)
    requires
        from <= to <= chars@.len(),
    ensures
        s@ == chars@.subrange(from as int, to as int),
{
    let mut s = String::new();
    let mut i: usize = from;
    while i < to
        invariant
            from <= i <= to <= chars@.len(),
            s@ == chars@.subrange(from as int, i as int),
        decreases to - i,
    {
        s.push(chars[i]);
        i = i + 1;
        assert(chars@.subrange(from as int, i as int) =~= chars@.subrange(
            from as int,
            i - 1,
        ).push(chars@[i - 1]));
    }
    s
}

/// Lowers one ASCII letter.
pub fn lower_char(c: char) -> (r: char)
    ensures
        r == ascii_lower(c),
{
    if 'A' <= c && c <= 'Z' {
        ((c as u8) + 32) as char
    } else {
        c
    }
}

/// Lowers every ASCII letter among the characters `from..to`.
pub fn lower_string_of(chars: &Vec<char>, from: usize, to: usize) -> (s: String)
    requires
        from <= to <= chars@.len(),
    ensures
        s@ == ascii_lowercase(chars@.subrange(from as int, to as int)),
{
    let mut s = String::new();
    let mut i: usize = from;
    while i < to
        invariant
            from <= i <= to <= chars@.len(),
            s@ == ascii_lowercase(chars@.subrange(from as int, i as int)),
        decreases to - i,
    {
        s.push(lower_char(chars[i]));
        i = i + 1;
        assert(ascii_lowercase(chars@.subrange(from as int, i as int)) =~= ascii_lowercase(
            chars@.subrange(from as int, i - 1),
        ).push(ascii_lower(chars@[i - 1])));
    }
    s
}

} // verus!
