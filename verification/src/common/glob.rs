//! What a glob pattern matches, and the facts that a left-to-right matcher rests on.
//!
//! In a pattern `*` stands for any run of characters, the empty one included;
//! every other character stands for itself.

use vstd::prelude::*;

use crate::text;

verus! {

/// Whether the whole of `value` matches `pattern`.
pub open spec fn glob_matches(pattern: Seq<char>, value: Seq<char>) -> bool
    decreases pattern.len(),
{
    if pattern.len() == 0 {
        value.len() == 0
    } else if pattern[0] == '*' {
        exists|k: int|
            0 <= k <= value.len() && glob_matches(pattern.skip(1), #[trigger] value.skip(k))
    } else {
        &&& value.len() > 0
        &&& value[0] == pattern[0]
        &&& glob_matches(pattern.skip(1), value.skip(1))
    }
}

/// No `*` among the characters `from..to`.
pub open spec fn literal(pattern: Seq<char>, from: int, to: int) -> bool {
    forall|i: int| from <= i < to ==> #[trigger] pattern[i] != '*'
}

/// Nothing but `*` among the characters `from..to`.
pub open spec fn all_stars(pattern: Seq<char>, from: int, to: int) -> bool {
    forall|i: int| from <= i < to ==> #[trigger] pattern[i] == '*'
}

/// A literal run at the head of a pattern matches exactly itself at the head of the value.
pub proof fn lemma_literal_head(lit: Seq<char>, rest: Seq<char>, value: Seq<char>)
    requires
        literal(lit, 0, lit.len() as int),
    ensures
        glob_matches(lit + rest, value) <==> text::occurs_at(value, lit, 0) && glob_matches(
            rest,
            value.skip(lit.len() as int),
        ),
    decreases lit.len(),
{
    let whole = lit + rest;
    if lit.len() == 0 {
        assert(whole =~= rest);
        assert(value.skip(0) =~= value);
        assert(value.subrange(0, 0) =~= lit);
    } else {
        let tail = lit.skip(1);
        assert(whole.skip(1) =~= tail + rest);
        assert(whole[0] == lit[0]);
        assert(lit[0] != '*');
        assert forall|i: int| 0 <= i < tail.len() implies #[trigger] tail[i] != '*' by {
            assert(tail[i] == lit[i + 1]);
        }
        if value.len() > 0 {
            lemma_literal_head(tail, rest, value.skip(1));
            if value.len() >= lit.len() {
                assert(value.skip(1).skip(tail.len() as int) =~= value.skip(lit.len() as int));
            }
            if text::occurs_at(value, lit, 0) {
                let head = value.subrange(0, lit.len() as int);
                assert(head[0] == value[0]);
                assert(value.skip(1).subrange(0, tail.len() as int) =~= head.skip(1));
            }
            if value[0] == lit[0] && text::occurs_at(value.skip(1), tail, 0) {
                assert forall|i: int| 0 <= i < lit.len() implies value[i] == lit[i] by {
                    if i > 0 {
                        assert(value.skip(1).subrange(0, tail.len() as int)[i - 1] == tail[i - 1]);
                    }
                }
                assert(value.subrange(0, lit.len() as int) =~= lit);
            }
        }
    }
}

/// A literal run at the tail of a pattern matches exactly itself at the tail of the value.
pub proof fn lemma_literal_tail(front: Seq<char>, lit: Seq<char>, value: Seq<char>)
    requires
        literal(lit, 0, lit.len() as int),
    ensures
        glob_matches(front + lit, value) <==> text::occurs_at(value, lit, value.len() - lit.len())
            && glob_matches(front, value.take(value.len() - lit.len())),
    decreases front.len(),
{
    let whole = front + lit;
    let n = lit.len() as int;
    if front.len() == 0 {
        assert(whole =~= lit + Seq::<char>::empty());
        lemma_literal_head(lit, Seq::<char>::empty(), value);
        if value.len() == n {
            assert(value.subrange(0, n) =~= value);
            assert(value.take(0).len() == 0);
        } else if value.len() > n {
            assert(value.skip(n).len() > 0);
            assert(value.take(value.len() - n).len() > 0);
        }
    } else {
        assert(whole.skip(1) =~= front.skip(1) + lit);
        assert(whole[0] == front[0]);
        if front[0] == '*' {
            if glob_matches(whole, value) {
                let k = choose|k: int|
                    0 <= k <= value.len() && glob_matches(whole.skip(1), #[trigger] value.skip(k));
                let rest = value.skip(k);
                lemma_literal_tail(front.skip(1), lit, rest);
                assert(rest.subrange(rest.len() - n, rest.len() as int) =~= value.subrange(
                    value.len() - n,
                    value.len() as int,
                ));
                assert(rest.take(rest.len() - n) =~= value.take(value.len() - n).skip(k));
            }
            if text::occurs_at(value, lit, value.len() - n) && glob_matches(
                front,
                value.take(value.len() - n),
            ) {
                let kept = value.take(value.len() - n);
                let k = choose|k: int|
                    0 <= k <= kept.len() && glob_matches(front.skip(1), #[trigger] kept.skip(k));
                let rest = value.skip(k);
                lemma_literal_tail(front.skip(1), lit, rest);
                assert(rest.subrange(rest.len() - n, rest.len() as int) =~= value.subrange(
                    value.len() - n,
                    value.len() as int,
                ));
                assert(rest.take(rest.len() - n) =~= kept.skip(k));
                assert(glob_matches(whole.skip(1), value.skip(k)));
            }
        } else if value.len() > 0 {
            let rest = value.skip(1);
            lemma_literal_tail(front.skip(1), lit, rest);
            if value.len() > n {
                assert(rest.subrange(rest.len() - n, rest.len() as int) =~= value.subrange(
                    value.len() - n,
                    value.len() as int,
                ));
                assert(rest.take(rest.len() - n) =~= value.take(value.len() - n).skip(1));
            }
        }
    }
}

/// A run of one or more `*` at the head of a pattern lets the rest match from any index on.
pub proof fn lemma_stars_head(stars: Seq<char>, rest: Seq<char>, value: Seq<char>)
    requires
        stars.len() > 0,
        all_stars(stars, 0, stars.len() as int),
    ensures
        glob_matches(stars + rest, value) <==> exists|k: int|
            0 <= k <= value.len() && glob_matches(rest, #[trigger] value.skip(k)),
    decreases stars.len(),
{
    let whole = stars + rest;
    assert(whole[0] == stars[0]);
    if stars.len() == 1 {
        assert(whole.skip(1) =~= rest);
    } else {
        let fewer = stars.skip(1);
        assert(whole.skip(1) =~= fewer + rest);
        assert forall|i: int| 0 <= i < fewer.len() implies #[trigger] fewer[i] == '*' by {
            assert(fewer[i] == stars[i + 1]);
        }
        if glob_matches(whole, value) {
            let j = choose|j: int|
                0 <= j <= value.len() && glob_matches(whole.skip(1), #[trigger] value.skip(j));
            lemma_stars_head(fewer, rest, value.skip(j));
            let k = choose|k: int|
                0 <= k <= value.skip(j).len() && glob_matches(rest, #[trigger] value.skip(j).skip(k));
            assert(value.skip(j).skip(k) =~= value.skip(j + k));
            assert(glob_matches(rest, value.skip(j + k)));
        }
        if exists|k: int| 0 <= k <= value.len() && glob_matches(rest, #[trigger] value.skip(k)) {
            lemma_stars_head(fewer, rest, value);
            assert(value.skip(0) =~= value);
            assert(glob_matches(whole.skip(1), value.skip(0)));
        }
    }
}

/// A pattern of one or more `*` matches everything.
pub proof fn lemma_only_stars(stars: Seq<char>, value: Seq<char>)
    requires
        stars.len() > 0,
        all_stars(stars, 0, stars.len() as int),
    ensures
        glob_matches(stars, value),
{
    let none = Seq::<char>::empty();
    lemma_stars_head(stars, none, value);
    assert(stars + none =~= stars);
    assert(value.skip(value.len() as int) =~= none);
    assert(glob_matches(none, value.skip(value.len() as int)));
}

/// A pattern without `*` matches only itself.
pub proof fn lemma_exact(pattern: Seq<char>, value: Seq<char>)
    requires
        literal(pattern, 0, pattern.len() as int),
    ensures
        glob_matches(pattern, value) <==> value == pattern,
{
    let none = Seq::<char>::empty();
    lemma_literal_head(pattern, none, value);
    assert(pattern + none =~= pattern);
    if value.len() == pattern.len() {
        assert(value.subrange(0, pattern.len() as int) =~= value);
    }
    if value.len() > pattern.len() {
        assert(value.skip(pattern.len() as int).len() > 0);
    }
}

/// What matches a pattern that opens with `*` still matches when characters are put in front.
pub proof fn lemma_star_absorbs(pattern: Seq<char>, value: Seq<char>, k: int)
    requires
        pattern.len() > 0,
        pattern[0] == '*',
        0 <= k <= value.len(),
        glob_matches(pattern, value.skip(k)),
    ensures
        glob_matches(pattern, value),
{
    let j = choose|j: int|
        0 <= j <= value.skip(k).len() && glob_matches(pattern.skip(1), #[trigger] value.skip(k).skip(j));
    assert(value.skip(k).skip(j) =~= value.skip(k + j));
    assert(glob_matches(pattern.skip(1), value.skip(k + j)));
}

/// Stars, a literal, and a rest that opens with `*`: taking the first occurrence of the literal
/// loses no match.
pub proof fn lemma_first_occurrence(
    stars: Seq<char>,
    lit: Seq<char>,
    rest: Seq<char>,
    value: Seq<char>,
    at: Option<int>,
)
    requires
        stars.len() > 0,
        all_stars(stars, 0, stars.len() as int),
        literal(lit, 0, lit.len() as int),
        rest.len() > 0,
        rest[0] == '*',
        match at {
            Some(o) => text::occurs_at(value, lit, o) && forall|j: int|
                0 <= j < o ==> !#[trigger] text::occurs_at(value, lit, j),
            None => forall|j: int| !#[trigger] text::occurs_at(value, lit, j),
        },
    ensures
        glob_matches(stars + (lit + rest), value) <==> match at {
            Some(o) => glob_matches(rest, value.skip(o + lit.len())),
            None => false,
        },
{
    let tail = lit + rest;
    lemma_stars_head(stars, tail, value);
    if glob_matches(stars + tail, value) {
        let k = choose|k: int| 0 <= k <= value.len() && glob_matches(tail, #[trigger] value.skip(k));
        lemma_literal_head(lit, rest, value.skip(k));
        assert(value.skip(k).subrange(0, lit.len() as int) =~= value.subrange(
            k,
            k + lit.len(),
        ));
        assert(text::occurs_at(value, lit, k));
        let o = at->0;
        assert(o <= k);
        assert(value.skip(k).skip(lit.len() as int) =~= value.skip(o + lit.len()).skip(k - o));
        lemma_star_absorbs(rest, value.skip(o + lit.len()), k - o);
    }
    if let Some(o) = at {
        if glob_matches(rest, value.skip(o + lit.len())) {
            lemma_literal_head(lit, rest, value.skip(o));
            assert(value.skip(o).subrange(0, lit.len() as int) =~= value.subrange(
                o,
                o + lit.len(),
            ));
            assert(value.skip(o).skip(lit.len() as int) =~= value.skip(o + lit.len()));
            assert(glob_matches(tail, value.skip(o)));
        }
    }
}

} // verus!
