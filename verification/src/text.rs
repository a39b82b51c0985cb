//! Text primitives the room matching is built on: lower-casing, and the
//! search for one run of bytes inside another.
//!
//! Offsets are byte offsets into the UTF-8 form of a text, as `str` counts
//! them.

use vstd::prelude::*;
use vstd::utf8::encode_utf8;

verus! {

/// The lower-case form of a text, as the standard library computes it.
pub uninterp spec fn lowercase(s: Seq<char>) -> Seq<char>;

/// `str::to_lowercase` of the standard library. Its result is determined by
/// the characters of its argument alone (the Unicode case tables are part of
/// the standard library, no locale is consulted); nothing more is claimed of
/// it than that it is this one function of the text.
pub assume_specification[ str::to_lowercase ](s: &str) -> (r: String)
    ensures
        r@ == lowercase(s@),
;

/// The UTF-8 bytes of the lower-case form of a text.
pub open spec fn lowercase_bytes(s: Seq<char>) -> Seq<u8> {
    encode_utf8(lowercase(s))
}

/// The texts of a list of strings.
pub open spec fn texts(list: Seq<String>) -> Seq<Seq<char>> {
    Seq::new(list.len(), |j: int| list[j]@)
}

/// `part` stands in `text` at byte offset `at`.
pub open spec fn occurs_at(text: Seq<u8>, part: Seq<u8>, at: int) -> bool {
    &&& 0 <= at
    &&& at + part.len() <= text.len()
    &&& text.subrange(at, at + part.len()) == part
}

/// `part` stands somewhere in `text`. The empty run stands in every text.
pub open spec fn contains(text: Seq<u8>, part: Seq<u8>) -> bool {
    exists|at: int| occurs_at(text, part, at)
}

/// The offsets, from `from` on, at which `part` stands in `text`, taken from
/// left to right and without overlap: after an occurrence the search goes on
/// behind its last byte. An empty `part` has no occurrences.
pub open spec fn occurrences(text: Seq<u8>, part: Seq<u8>, from: int) -> Seq<int>
    decreases text.len() - from,
{
    if part.len() == 0 || from < 0 || from + part.len() > text.len() {
        Seq::empty()
    } else if occurs_at(text, part, from) {
        seq![from] + occurrences(text, part, from + part.len())
    } else {
        occurrences(text, part, from + 1)
    }
}

/// The offsets of a vector, as mathematical integers.
pub open spec fn offsets(v: Seq<usize>) -> Seq<int> {
    Seq::new(v.len(), |k: int| v[k] as int)
}

/// Every offset in `occurrences` is one at which `part` stands, and none lies
/// before `from`.
pub proof fn lemma_occurrences_match(text: Seq<u8>, part: Seq<u8>, from: int, k: int)
    requires
        0 <= k < occurrences(text, part, from).len(),
    ensures
        occurs_at(text, part, occurrences(text, part, from)[k]),
        from <= occurrences(text, part, from)[k],
        part.len() > 0,
    decreases text.len() - from,
{
    if occurs_at(text, part, from) {
        if k > 0 {
            lemma_occurrences_match(text, part, from + part.len(), k - 1);
        }
    } else {
        lemma_occurrences_match(text, part, from + 1, k);
    }
}

/// Consecutive occurrences do not overlap: each begins at or behind the end
/// of the one before it.
pub proof fn lemma_occurrences_disjoint(text: Seq<u8>, part: Seq<u8>, from: int, k: int)
    requires
        0 <= k,
        k + 1 < occurrences(text, part, from).len(),
    ensures
        occurrences(text, part, from)[k] + part.len() <= occurrences(text, part, from)[k + 1],
    decreases text.len() - from,
{
    if occurs_at(text, part, from) {
        if k == 0 {
            lemma_occurrences_match(text, part, from + part.len(), 0);
        } else {
            lemma_occurrences_disjoint(text, part, from + part.len(), k - 1);
        }
    } else {
        lemma_occurrences_disjoint(text, part, from + 1, k);
    }
}

/// No occurrence is passed over: wherever a non-empty `part` stands in `text`
/// at or behind `from`, one of the chosen occurrences begins at or before that
/// place and covers its first byte.
pub proof fn lemma_occurrences_leftmost(text: Seq<u8>, part: Seq<u8>, from: int, at: int)
    requires
        0 <= from <= at,
        part.len() > 0,
        occurs_at(text, part, at),
    ensures
        exists|k: int|
            0 <= k < occurrences(text, part, from).len() && #[trigger] occurrences(
                text,
                part,
                from,
            )[k] <= at < occurrences(text, part, from)[k] + part.len(),
    decreases text.len() - from,
{
    let all = occurrences(text, part, from);
    if occurs_at(text, part, from) {
        if at < from + part.len() {
            assert(all[0] == from);
        } else {
            let rest = occurrences(text, part, from + part.len());
            lemma_occurrences_leftmost(text, part, from + part.len(), at);
            let k = choose|k: int|
                0 <= k < rest.len() && #[trigger] rest[k] <= at < rest[k] + part.len();
            assert(all[k + 1] == rest[k]);
        }
    } else {
        lemma_occurrences_leftmost(text, part, from + 1, at);
    }
}

/// A non-empty `part` stands in `text` exactly when it has an occurrence
/// there.
pub proof fn lemma_contains_iff_occurs(text: Seq<u8>, part: Seq<u8>)
    requires
        part.len() > 0,
    ensures
        contains(text, part) <==> occurrences(text, part, 0).len() > 0,
{
    if contains(text, part) {
        let at = choose|at: int| occurs_at(text, part, at);
        lemma_occurrences_leftmost(text, part, 0, at);
    }
    if occurrences(text, part, 0).len() > 0 {
        lemma_occurrences_match(text, part, 0, 0);
    }
}

/// Whether `part` stands in `text` at offset `at`.
pub fn matches_at(text: &[u8], part: &[u8], at: usize) -> (r: bool)
    ensures
        r == occurs_at(text@, part@, at as int),
{
    let n: usize = text.len();
    let m: usize = part.len();
    if at > n || n - at < m {
        return false;
    }
    let mut j: usize = 0;
    while j < m
        invariant
            n == text@.len(),
            m == part@.len(),
            at + m <= n,
            j <= m,
            forall|i: int| 0 <= i < j ==> text@[at + i] == part@[i],
        decreases m - j,
    {
        if text[at + j] != part[j] {
            proof {
                assert(text@.subrange(at as int, at + m)[j as int] == text@[at + j]);
            }
            return false;
        }
        j += 1;
    }
    proof {
        assert(text@.subrange(at as int, at + m) =~= part@);
    }
    true
}

/// Whether `part` stands somewhere in `text`.
pub fn contains_bytes(text: &[u8], part: &[u8]) -> (r: bool)
    ensures
        r == contains(text@, part@),
{
    let n: usize = text.len();
    let m: usize = part.len();
    if m > n {
        return false;
    }
    let last: usize = n - m;
    let mut at: usize = 0;
    loop
        invariant
            n == text@.len(),
            m == part@.len(),
            last == n - m,
            at <= last,
            forall|i: int| 0 <= i < at ==> !occurs_at(text@, part@, i),
        decreases last - at,
    {
        if matches_at(text, part, at) {
            return true;
        }
        if at == last {
            return false;
        }
        at += 1;
    }
}

/// The occurrences of `part` in `text`, from left to right and without
/// overlap.
pub fn find_occurrences(text: &[u8], part: &[u8]) -> (found: Vec<usize>)
    ensures
        offsets(found@) == occurrences(text@, part@, 0),
{
    let n: usize = text.len();
    let m: usize = part.len();
    let mut found: Vec<usize> = Vec::new();
    if m == 0 || m > n {
        assert(offsets(found@) =~= occurrences(text@, part@, 0));
        return found;
    }
    let mut at: usize = 0;
    while at <= n - m
        invariant
            n == text@.len(),
            m == part@.len(),
            0 < m <= n,
            at <= n,
            offsets(found@) + occurrences(text@, part@, at as int) == occurrences(text@, part@, 0),
        decreases n - at,
    {
        let ghost before = offsets(found@);
        if matches_at(text, part, at) {
            found.push(at);
            proof {
                assert(offsets(found@) =~= before + seq![at as int]);
                assert(before + (seq![at as int] + occurrences(text@, part@, at + m)) =~= (before
                    + seq![at as int]) + occurrences(text@, part@, at + m));
            }
            at += m;
        } else {
            at += 1;
        }
    }
    proof {
        assert(occurrences(text@, part@, at as int) =~= Seq::<int>::empty());
        assert(offsets(found@) + Seq::<int>::empty() =~= offsets(found@));
    }
    found
}

} // verus!
