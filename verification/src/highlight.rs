//! Marking, inside a room's name, the places where the query stands.
//!
//! The places are looked for in the lower-case copy of the name; the text
//! that is marked is cut out of the name itself, at the same byte offsets, so
//! that it keeps the name's own letters.

use vstd::prelude::*;
use vstd::string::*;
use vstd::utf8::*;
use crate::style::{colour_off, green, green_on};
use crate::text::{
    find_occurrences, lemma_occurrences_disjoint, lemma_occurrences_match, lowercase,
    lowercase_bytes, occurrences, offsets,
};

verus! {

/// Spans of `len` bytes that begin at `starts` follow one another from
/// `from` on without overlap.
pub open spec fn ordered(starts: Seq<int>, len: int, from: int) -> bool {
    &&& 0 <= from
    &&& 0 <= len
    &&& forall|k: int| 0 <= k < starts.len() ==> from <= #[trigger] starts[k]
    &&& forall|k: int, l: int|
        0 <= k < l < starts.len() ==> #[trigger] starts[k] + len <= #[trigger] starts[l]
}

/// Each span lies inside `name` and begins and ends between two characters
/// of it.
pub open spec fn aligned(name: Seq<u8>, starts: Seq<int>, len: int) -> bool {
    forall|k: int|
        0 <= k < starts.len() ==> is_char_boundary(name, #[trigger] starts[k]) && is_char_boundary(
            name,
            starts[k] + len,
        )
}

/// The text of `name` from byte `from` on, with `on` put before and `off`
/// behind each span.
pub open spec fn marked(
    name: Seq<u8>,
    starts: Seq<int>,
    len: int,
    from: int,
    on: Seq<char>,
    off: Seq<char>,
) -> Seq<char>
    decreases starts.len(),
{
    if starts.len() == 0 {
        decode_utf8(name.subrange(from, name.len() as int))
    } else {
        decode_utf8(name.subrange(from, starts[0])) + (on + decode_utf8(
            name.subrange(starts[0], starts[0] + len),
        ) + off) + marked(name, starts.drop_first(), len, starts[0] + len, on, off)
    }
}

/// The text of `name` with each span shown in green.
pub open spec fn highlighted(name: Seq<u8>, starts: Seq<int>, len: int) -> Seq<char> {
    marked(name, starts, len, 0, green_on(), colour_off())
}

/// What is shown for a name when a text is to be marked in it that was looked
/// for in a copy of the name: the name with green around the bytes at which
/// the text stands in the copy, the occurrences taken from left to right
/// without overlap. Where an occurrence does not fit between the characters
/// of the name, the name is shown as it is.
pub open spec fn marked_like(name: Seq<char>, copy: Seq<char>, part: Seq<char>) -> Seq<char> {
    let starts = occurrences(encode_utf8(copy), encode_utf8(part), 0);
    let len = encode_utf8(part).len() as int;
    if aligned(encode_utf8(name), starts, len) {
        highlighted(encode_utf8(name), starts, len)
    } else {
        name
    }
}

/// What is shown for a room's name when the query is to be marked in it:
/// the name with every occurrence of the query in green, the occurrences
/// being those of the lower-case query in the lower-case name. Where
/// lower-casing moved the bytes so that an occurrence does not fit between
/// the characters of the name, the name is shown as it is.
pub open spec fn highlight_text(name: Seq<char>, query: Seq<char>) -> Seq<char> {
    marked_like(name, lowercase(name), lowercase(query))
}

/// A place between two characters of a text is also one in the rest of the
/// text behind an earlier such place.
proof fn lemma_boundary_in_rest(bytes: Seq<u8>, p: int, q: int)
    requires
        valid_utf8(bytes),
        is_char_boundary(bytes, p),
        is_char_boundary(bytes, q),
        0 <= p <= q,
    ensures
        q <= bytes.len(),
        valid_utf8(bytes.subrange(p, bytes.len() as int)),
        is_char_boundary(bytes.subrange(p, bytes.len() as int), q - p),
{
    let rest = bytes.subrange(p, bytes.len() as int);
    valid_utf8_split(bytes, p);
    if q == p {
    } else if q == bytes.len() {
        is_char_boundary_start_end_of_seq(rest);
    } else {
        is_char_boundary_iff_not_is_continuation_byte(bytes, q);
        is_char_boundary_iff_not_is_continuation_byte(rest, q - p);
    }
}

/// The spans that `occurrences` gives follow one another without overlap.
pub proof fn lemma_occurrences_ordered(text: Seq<u8>, part: Seq<u8>)
    ensures
        ordered(occurrences(text, part, 0), part.len() as int, 0),
{
    let starts = occurrences(text, part, 0);
    assert forall|k: int| 0 <= k < starts.len() implies 0 <= #[trigger] starts[k] by {
        lemma_occurrences_match(text, part, 0, k);
    }
    assert forall|k: int, l: int| 0 <= k < l < starts.len() implies #[trigger] starts[k]
        + part.len() <= #[trigger] starts[l] by {
        lemma_ordered_apart(text, part, k, l);
    }
}

/// An occurrence ends before every later one begins.
proof fn lemma_ordered_apart(text: Seq<u8>, part: Seq<u8>, k: int, l: int)
    requires
        0 <= k < l < occurrences(text, part, 0).len(),
    ensures
        occurrences(text, part, 0)[k] + part.len() <= occurrences(text, part, 0)[l],
    decreases l - k,
{
    lemma_occurrences_disjoint(text, part, 0, l - 1);
    if k < l - 1 {
        lemma_ordered_apart(text, part, k, l - 1);
    }
}

/// Marking with nothing leaves the text as it was: what stands between and
/// inside the spans is, piece by piece, the text of the name.
pub proof fn law_marking_keeps_text(name: Seq<u8>, starts: Seq<int>, len: int, from: int)
    requires
        valid_utf8(name),
        is_char_boundary(name, from),
        ordered(starts, len, from),
        aligned(name, starts, len),
    ensures
        marked(name, starts, len, from, Seq::empty(), Seq::empty()) == decode_utf8(
            name.subrange(from, name.len() as int),
        ),
    decreases starts.len(),
{
    let none = Seq::<char>::empty();
    let n = name.len() as int;
    if starts.len() > 0 {
        let a = starts[0];
        let b = a + len;
        let rest = name.subrange(from, n);
        lemma_boundary_in_rest(name, from, a);
        lemma_boundary_in_rest(name, a, b);
        lemma_boundary_in_rest(name, from, b);
        let tail = starts.drop_first();
        assert forall|k: int| 0 <= k < tail.len() implies b <= #[trigger] tail[k] by {
            assert(tail[k] == starts[k + 1]);
        }
        assert forall|k: int, l: int| 0 <= k < l < tail.len() implies #[trigger] tail[k] + len
            <= #[trigger] tail[l] by {
            assert(tail[k] == starts[k + 1]);
            assert(tail[l] == starts[l + 1]);
        }
        assert forall|k: int| 0 <= k < tail.len() implies is_char_boundary(
            name,
            #[trigger] tail[k],
        ) && is_char_boundary(name, tail[k] + len) by {
            assert(tail[k] == starts[k + 1]);
        }
        law_marking_keeps_text(name, tail, len, b);
        decode_utf8_split(rest, a - from);
        let behind = name.subrange(a, n);
        decode_utf8_split(behind, len);
        assert(rest.subrange(0, a - from) =~= name.subrange(from, a));
        assert(rest.subrange(a - from, rest.len() as int) =~= behind);
        assert(behind.subrange(0, len) =~= name.subrange(a, b));
        assert(behind.subrange(len, behind.len() as int) =~= name.subrange(b, n));
        assert(none + decode_utf8(name.subrange(a, b)) + none =~= decode_utf8(
            name.subrange(a, b),
        ));
        assert(decode_utf8(name.subrange(from, a)) + decode_utf8(name.subrange(a, b))
            + decode_utf8(name.subrange(b, n)) =~= decode_utf8(name.subrange(from, a)) + (
        decode_utf8(name.subrange(a, b)) + decode_utf8(name.subrange(b, n))));
    }
}

/// What `highlight_text` shows, with the colour left out of it.
pub open spec fn plain_text(name: Seq<char>, query: Seq<char>) -> Seq<char> {
    let starts = occurrences(lowercase_bytes(name), lowercase_bytes(query), 0);
    let len = lowercase_bytes(query).len() as int;
    if aligned(encode_utf8(name), starts, len) {
        marked(encode_utf8(name), starts, len, 0, Seq::empty(), Seq::empty())
    } else {
        name
    }
}

/// What is marked in a name is the name's own text, letter for letter: with
/// the colour left out, what is shown for a name is the name, whatever the
/// query.
pub proof fn law_highlight_keeps_name(name: Seq<char>, query: Seq<char>)
    ensures
        plain_text(name, query) == name,
{
    let bytes = encode_utf8(name);
    let starts = occurrences(lowercase_bytes(name), lowercase_bytes(query), 0);
    let len = lowercase_bytes(query).len() as int;
    if aligned(bytes, starts, len) {
        encode_utf8_valid_utf8(name);
        encode_utf8_decode_utf8(name);
        lemma_occurrences_ordered(lowercase_bytes(name), lowercase_bytes(query));
        law_marking_keeps_text(bytes, starts, len, 0);
        assert(bytes.subrange(0, bytes.len() as int) =~= bytes);
    }
}

/// Whether each span lies inside the name and between its characters.
pub fn spans_aligned(name: &str, starts: &Vec<usize>, len: usize) -> (r: bool)
    ensures
        r == aligned(name.spec_bytes(), offsets(starts@), len as int),
{
    let n: usize = name.as_bytes().len();
    let ghost bytes = name.spec_bytes();
    let ghost offs = offsets(starts@);
    proof {
        encode_utf8_valid_utf8(name@);
    }
    let mut k: usize = 0;
    while k < starts.len()
        invariant
            k <= starts.len(),
            n == bytes.len(),
            bytes == name.spec_bytes(),
            offs == offsets(starts@),
            valid_utf8(bytes),
            forall|j: int|
                0 <= j < k ==> is_char_boundary(bytes, #[trigger] offs[j]) && is_char_boundary(
                    bytes,
                    offs[j] + len,
                ),
        decreases starts.len() - k,
    {
        let a: usize = starts[k];
        assert(offs[k as int] == a);
        if a > n || len > n - a {
            proof {
                if is_char_boundary(bytes, a as int) && is_char_boundary(bytes, a + len) {
                    lemma_boundary_in_rest(bytes, a as int, a + len);
                }
            }
            return false;
        }
        if !name.is_char_boundary(a) || !name.is_char_boundary(a + len) {
            return false;
        }
        k += 1;
    }
    true
}

/// The name with each of the given spans shown in green.
pub fn highlight_spans(name: &str, starts: &Vec<usize>, len: usize) -> (r: String)
    requires
        ordered(offsets(starts@), len as int, 0),
        aligned(name.spec_bytes(), offsets(starts@), len as int),
    ensures
        r@ == highlighted(name.spec_bytes(), offsets(starts@), len as int),
{
    let ghost bytes = name.spec_bytes();
    let ghost offs = offsets(starts@);
    let ghost n = bytes.len() as int;
    let total: usize = name.as_bytes().len();
    let mut out: String = String::new();
    let mut rest: &str = name;
    let mut pos: usize = 0;
    proof {
        encode_utf8_valid_utf8(name@);
        assert(bytes.subrange(0, n) =~= bytes);
        assert(offs.skip(0) =~= offs);
        assert(out@ + highlighted(bytes, offs, len as int) =~= highlighted(
            bytes,
            offs,
            len as int,
        ));
    }
    let mut k: usize = 0;
    while k < starts.len()
        invariant
            k <= starts.len(),
            bytes == name.spec_bytes(),
            offs == offsets(starts@),
            n == bytes.len(),
            n == total,
            valid_utf8(bytes),
            ordered(offs, len as int, 0),
            aligned(bytes, offs, len as int),
            pos <= n,
            is_char_boundary(bytes, pos as int),
            rest.spec_bytes() == bytes.subrange(pos as int, n),
            forall|j: int| k <= j < offs.len() ==> pos <= #[trigger] offs[j],
            out@ + marked(
                bytes,
                offs.skip(k as int),
                len as int,
                pos as int,
                green_on(),
                colour_off(),
            ) == highlighted(bytes, offs, len as int),
        decreases starts.len() - k,
    {
        let a: usize = starts[k];
        let ghost tail = offs.skip(k as int);
        let ghost before_out = out@;
        proof {
            assert(offs[k as int] == a);
            assert(tail[0] == a);
            lemma_boundary_in_rest(bytes, pos as int, a as int);
            lemma_boundary_in_rest(bytes, a as int, a + len);
            lemma_boundary_in_rest(bytes, pos as int, a + len);
        }
        let (before, behind) = rest.split_at(a - pos);
        proof {
            assert(behind.spec_bytes() =~= bytes.subrange(a as int, n));
            assert(before.spec_bytes() =~= bytes.subrange(pos as int, a as int));
        }
        let (inside, after) = behind.split_at(len);
        proof {
            assert(inside.spec_bytes() =~= bytes.subrange(a as int, a + len));
            assert(after.spec_bytes() =~= bytes.subrange(a + len, n));
            encode_utf8_decode_utf8(before@);
            encode_utf8_decode_utf8(inside@);
        }
        out.append(before);
        let shown: String = green(inside);
        out.append(shown.as_str());
        proof {
            assert(tail.drop_first() =~= offs.skip(k + 1));
            assert forall|j: int| k + 1 <= j < offs.len() implies a + len <= #[trigger] offs[j] by {
                assert(offs[k as int] + len <= offs[j]);
            }
            let piece = decode_utf8(bytes.subrange(pos as int, a as int)) + (green_on()
                + decode_utf8(bytes.subrange(a as int, a + len)) + colour_off());
            assert(out@ =~= before_out + piece);
            let next = marked(
                bytes,
                offs.skip(k + 1),
                len as int,
                a + len,
                green_on(),
                colour_off(),
            );
            assert(marked(bytes, tail, len as int, pos as int, green_on(), colour_off()) == piece
                + next);
            assert(before_out + (piece + next) =~= (before_out + piece) + next);
        }
        rest = after;
        pos = a + len;
        k += 1;
    }
    proof {
        assert(offs.skip(k as int) =~= Seq::<int>::empty());
        encode_utf8_decode_utf8(rest@);
    }
    out.append(rest);
    out
}

/// The name with green around the bytes at which `part` stands in `copy`.
pub fn highlight_like(name: &str, copy: &str, part: &str) -> (r: String)
    ensures
        r@ == marked_like(name@, copy@, part@),
{
    let starts: Vec<usize> = find_occurrences(copy.as_bytes(), part.as_bytes());
    let len: usize = part.as_bytes().len();
    proof {
        lemma_occurrences_ordered(encode_utf8(copy@), encode_utf8(part@));
    }
    if spans_aligned(name, &starts, len) {
        highlight_spans(name, &starts, len)
    } else {
        name.to_owned()
    }
}

/// The name as it is shown in a list of candidates, with every occurrence of
/// the query in green.
pub fn highlight(name: &str, query: &str) -> (r: String)
    ensures
        r@ == highlight_text(name@, query@),
{
    let lower_name: String = name.to_lowercase();
    let lower_query: String = query.to_lowercase();
    highlight_like(name, lower_name.as_str(), lower_query.as_str())
}

} // verus!
