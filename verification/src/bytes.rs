//! Byte sequences and the text that they spell.

use vstd::prelude::*;
use vstd::utf8::encode_utf8;

verus! {

/// Whether the bytes open with the text.
pub open spec fn opens_with(bytes: Seq<u8>, text: Seq<char>) -> bool {
    &&& encode_utf8(text).len() <= bytes.len()
    &&& bytes.take(encode_utf8(text).len() as int) == encode_utf8(text)
}

/// The index of the first `wanted`, or the number of bytes.
pub open spec fn first_byte(bytes: Seq<u8>, wanted: u8) -> int
    decreases bytes.len(),
{
    if bytes.len() == 0 || bytes[0] == wanted {
        0
    } else {
        1 + first_byte(bytes.skip(1), wanted)
    }
}

/// The first `wanted` lies at `at`, if it lies anywhere.
pub proof fn lemma_first_byte(bytes: Seq<u8>, wanted: u8, at: int)
    requires
        0 <= at <= bytes.len(),
        at < bytes.len() ==> bytes[at] == wanted,
        forall|i: int| 0 <= i < at ==> #[trigger] bytes[i] != wanted,
    ensures
        first_byte(bytes, wanted) == at,
    decreases bytes.len(),
{
    if at > 0 {
        let rest = bytes.skip(1);
        assert(bytes[0] != wanted);
        assert forall|i: int| 0 <= i < at - 1 implies #[trigger] rest[i] != wanted by {
            assert(rest[i] == bytes[i + 1]);
        }
        assert(at < bytes.len() ==> rest[at - 1] == bytes[at]);
        lemma_first_byte(rest, wanted, at - 1);
    }
}

/// Whether the bytes `from..to` are those of the text.
pub fn spells(bytes: &[u8], from: usize, to: usize, text: &str) -> (r: bool)
    requires
        from <= to <= bytes@.len(),
    ensures
        r == (bytes@.subrange(from as int, to as int) == encode_utf8(text@)),
{
    let wanted: &[u8] = text.as_bytes();
    let ghost part = bytes@.subrange(from as int, to as int);
    if to - from != wanted.len() {
        return false;
    }
    let mut i: usize = 0;
    while i < wanted.len()
        invariant
            from <= to <= bytes@.len(),
            to - from == wanted@.len(),
            i <= wanted@.len(),
            wanted@ == encode_utf8(text@),
            part == bytes@.subrange(from as int, to as int),
            forall|j: int| 0 <= j < i ==> #[trigger] part[j] == wanted@[j],
        decreases wanted@.len() - i,
    {
        assert(part[i as int] == bytes@[from + i]);
        if bytes[from + i] != wanted[i] {
            return false;
        }
        i = i + 1;
    }
    assert(part =~= wanted@);
    true
}

/// Whether the bytes open with the text.
pub fn open_with(bytes: &[u8], text: &str) -> (r: bool)
    ensures
        r == opens_with(bytes@, text@),
{
    let n: usize = text.as_bytes().len();
    proof {
        if n <= bytes@.len() {
            assert(bytes@.subrange(0, n as int) =~= bytes@.take(n as int));
        }
    }
    n <= bytes.len() && spells(bytes, 0, n, text)
}

/// The index in `from..` of the first `wanted`, or the number of bytes.
pub fn find_byte(bytes: &[u8], from: usize, wanted: u8) -> (at: usize)
    requires
        from <= bytes@.len(),
    ensures
        from <= at <= bytes@.len(),
        at - from == first_byte(bytes@.skip(from as int), wanted),
{
    let ghost rest = bytes@.skip(from as int);
    let mut at: usize = from;
    while at < bytes.len() && bytes[at] != wanted
        invariant
            from <= at <= bytes@.len(),
            rest == bytes@.skip(from as int),
            forall|i: int| 0 <= i < at - from ==> #[trigger] rest[i] != wanted,
        decreases bytes@.len() - at,
    {
        assert(rest[at - from] == bytes@[at as int]);
        at = at + 1;
    }
    proof {
        if at < bytes@.len() {
            assert(rest[at - from] == bytes@[at as int]);
        }
        lemma_first_byte(rest, wanted, at - from);
    }
    at
}

/// Whether the text stands among the bytes at index `k`.
pub open spec fn text_at(bytes: Seq<u8>, text: Seq<char>, k: int) -> bool {
    &&& 0 <= k
    &&& k + encode_utf8(text).len() <= bytes.len()
    &&& bytes.subrange(k, k + encode_utf8(text).len()) == encode_utf8(text)
}

/// Whether the text stands anywhere among the bytes.
pub fn contain_text(bytes: &[u8], text: &str) -> (found: bool)
    ensures
        found == exists|k: int| #[trigger] text_at(bytes@, text@, k),
{
    let n: usize = text.as_bytes().len();
    let mut k: usize = 0;
    while k <= bytes.len() && n <= bytes.len() - k
        invariant
            n == encode_utf8(text@).len(),
            k <= bytes@.len() + 1,
            forall|j: int| 0 <= j < k ==> !#[trigger] text_at(bytes@, text@, j),
        decreases bytes@.len() + 1 - k,
    {
        if spells(bytes, k, k + n, text) {
            assert(text_at(bytes@, text@, k as int));
            return true;
        }
        if k == bytes.len() {
            assert forall|j: int| !#[trigger] text_at(bytes@, text@, j) by {
                assert(j > k ==> j + n > bytes@.len());
            }
            return false;
        }
        k = k + 1;
    }
    assert forall|j: int| !#[trigger] text_at(bytes@, text@, j) by {
        assert(j >= k ==> j + n > bytes@.len());
    }
    false
}

/// A copy of the bytes.
pub fn copy_bytes(bytes: &[u8]) -> (copy: Vec<u8>)
    ensures
        copy@ == bytes@,
{
    let mut copy: Vec<u8> = Vec::new();
    let mut i: usize = 0;
    while i < bytes.len()
        invariant
            i <= bytes@.len(),
            copy@ == bytes@.take(i as int),
        decreases bytes@.len() - i,
    {
        copy.push(bytes[i]);
        i = i + 1;
        assert(bytes@.take(i as int) =~= bytes@.take(i - 1).push(bytes@[i - 1]));
    }
    assert(copy@ =~= bytes@);
    copy
}

} // verus!
