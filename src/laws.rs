//! Properties of the operations, stated over the characters they select and
//! proved for all inputs.
use vstd::prelude::*;
use vstd::utf8::*;

use crate::range::{start_length_range, unsigned_range};
use crate::search::index_of_spec;
use crate::{remove_spec, substr_spec, substring_spec, substru_spec};

verus! {

broadcast use encode_utf8_valid_utf8;

/// The byte offset, in the UTF-8 encoding of `s`, at which character `k` begins.
pub open spec fn byte_offset(s: Seq<char>, k: int) -> int {
    encode_utf8(s.take(k)).len() as int
}

/// Encoding distributes over concatenation.
pub proof fn lemma_encode_concat(a: Seq<char>, b: Seq<char>)
    ensures
        encode_utf8(a + b) == encode_utf8(a) + encode_utf8(b),
    decreases a.len(),
{
    if a.len() == 0 {
        assert(a + b =~= b);
        assert(encode_utf8(a) + encode_utf8(b) =~= encode_utf8(b));
    } else {
        assert((a + b)[0] == a[0]);
        assert((a + b).drop_first() =~= a.drop_first() + b);
        lemma_encode_concat(a.drop_first(), b);
        assert(encode_utf8(a + b) =~= encode_utf8(a) + encode_utf8(b));
    }
}

/// The encoding of `s` splits at the byte offset of character `k` into the
/// encodings of the characters before and after it.
pub proof fn lemma_encode_split(s: Seq<char>, k: int)
    requires
        0 <= k <= s.len(),
    ensures
        encode_utf8(s) == encode_utf8(s.take(k)) + encode_utf8(s.skip(k)),
        0 <= byte_offset(s, k) <= encode_utf8(s).len(),
{
    lemma_encode_concat(s.take(k), s.skip(k));
    assert(s.take(k) + s.skip(k) =~= s);
}

/// The byte offset of every character index is a boundary between scalar values.
pub proof fn lemma_offset_is_boundary(s: Seq<char>, k: int)
    requires
        0 <= k <= s.len(),
    ensures
        is_char_boundary(encode_utf8(s), byte_offset(s, k)),
    decreases k,
{
    lemma_encode_split(s, k);
    if k == 0 {
        assert(s.take(0) =~= Seq::<char>::empty());
    } else {
        let rest = s.drop_first();
        let bytes = encode_utf8(s);
        lemma_offset_is_boundary(rest, k - 1);
        encode_utf8_first_scalar(s);
        let w = encode_scalar(s[0] as u32).len() as int;
        assert(pop_first_scalar(bytes) =~= encode_utf8(rest));
        assert(s.take(k)[0] == s[0]);
        assert(s.take(k).drop_first() =~= rest.take(k - 1));
        assert(byte_offset(s, k) == w + byte_offset(rest, k - 1));
    }
}

/// The characters `a..b` of `s` encode to exactly the bytes of `s` between the
/// byte offsets of `a` and `b`.
pub proof fn lemma_encode_subrange(s: Seq<char>, a: int, b: int)
    requires
        0 <= a <= b <= s.len(),
    ensures
        encode_utf8(s.subrange(a, b)) == encode_utf8(s).subrange(byte_offset(s, a), byte_offset(s, b)),
{
    lemma_encode_split(s, b);
    lemma_encode_concat(s.take(a), s.subrange(a, b));
    assert(s.take(a) + s.subrange(a, b) =~= s.take(b));
    assert(encode_utf8(s).subrange(byte_offset(s, a), byte_offset(s, b)) =~= encode_utf8(
        s.subrange(a, b),
    ));
}

/// Every range that the start-and-length resolver gives lies within the string.
pub proof fn lemma_start_length_range_within(n: int, start: int, length: int)
    requires
        0 <= n,
    ensures
        0 <= start_length_range(n, start, length).0 <= start_length_range(n, start, length).1 <= n,
{
}

/// The number of characters that `substr` returns is the width of the resolved
/// range, and never more than the string holds.
pub proof fn law_substr_length(s: Seq<char>, start: int, length: int)
    ensures
        substr_spec(s, start, length).len() == start_length_range(s.len() as int, start, length).1
            - start_length_range(s.len() as int, start, length).0,
        substr_spec(s, start, length).len() <= s.len(),
{
    lemma_start_length_range_within(s.len() as int, start, length);
}

/// A negative length selects the same characters as the positive length that
/// ends at the (resolved) start: the characters from `lo` through the start.
pub proof fn law_substr_negative_length(s: Seq<char>, start: int, length: int)
    requires
        length < 0,
        -s.len() <= start < s.len(),
    ensures
        ({
            let st = if start >= 0 { start } else { s.len() + start };
            let lo = if st + length + 1 >= 0 { st + length + 1 } else { 0 };
            substr_spec(s, start, length) == substr_spec(s, lo, st - lo + 1)
        }),
{
}

/// A negative start `-k` selects what the start `len - k` selects.
pub proof fn law_substr_negative_start(s: Seq<char>, k: int, length: int)
    requires
        1 <= k <= s.len(),
    ensures
        substr_spec(s, -k, length) == substr_spec(s, s.len() - k, length),
{
}

/// `substring` does not depend on the order of its two positions.
pub proof fn law_substring_swap(s: Seq<char>, a: int, b: int)
    ensures
        substring_spec(s, a, b) == substring_spec(s, b, a),
{
}

/// `substring` between a position and itself is empty.
pub proof fn law_substring_same(s: Seq<char>, a: int)
    ensures
        substring_spec(s, a, a) == Seq::<char>::empty(),
{
    assert(substring_spec(s, a, a) =~= Seq::<char>::empty());
}

/// From the first character, any length that reaches the end gives the whole string.
pub proof fn law_substr_whole(s: Seq<char>, length: int)
    requires
        length >= s.len(),
    ensures
        substr_spec(s, 0, length) == s,
{
    if s.len() == 0 {
        assert(substr_spec(s, 0, length) =~= s);
    } else {
        assert(s.subrange(0, s.len() as int) =~= s);
    }
}

/// A start outside the string selects nothing, whatever the length; the same
/// holds of `substru` for a start at or past the end.
pub proof fn law_out_of_range_empty(s: Seq<char>, start: int, length: int)
    requires
        start < -s.len() || start >= s.len(),
    ensures
        substr_spec(s, start, length) == Seq::<char>::empty(),
        start >= 0 && length >= 0 ==> substru_spec(s, start, length) == Seq::<char>::empty(),
{
    assert(substr_spec(s, start, length) =~= Seq::<char>::empty());
    if start >= 0 && length >= 0 {
        assert(substru_spec(s, start, length) =~= Seq::<char>::empty());
    }
}

/// Removing nothing, or from a start past the end, leaves the string unchanged.
pub proof fn law_remove_unchanged(s: Seq<char>, start: int, length: int)
    requires
        0 <= start,
        0 <= length,
        length == 0 || start >= s.len(),
    ensures
        remove_spec(s, start, length) == s,
{
    let r = unsigned_range(s.len() as int, start, length);
    assert(s.take(r.0) + s.skip(r.1) =~= s);
}

/// An empty pattern is never found.
pub proof fn law_empty_pattern_not_found(s: Seq<char>, start: int, r: Option<usize>)
    requires
        index_of_spec(s, Seq::<char>::empty(), start, r),
    ensures
        r is None,
{
}

/// `substr` cuts the UTF-8 encoding of the string only between scalar values:
/// its result encodes to the bytes of the string between two such boundaries.
pub proof fn law_substr_utf8_boundaries(s: Seq<char>, start: int, length: int)
    ensures
        ({
            let r = start_length_range(s.len() as int, start, length);
            let bytes = encode_utf8(s);
            &&& is_char_boundary(bytes, byte_offset(s, r.0))
            &&& is_char_boundary(bytes, byte_offset(s, r.1))
            &&& encode_utf8(substr_spec(s, start, length)) == bytes.subrange(
                byte_offset(s, r.0),
                byte_offset(s, r.1),
            )
        }),
{
    let r = start_length_range(s.len() as int, start, length);
    lemma_start_length_range_within(s.len() as int, start, length);
    lemma_offset_is_boundary(s, r.0);
    lemma_offset_is_boundary(s, r.1);
    lemma_encode_subrange(s, r.0, r.1);
}

/// `str_remove` excises a byte span of the UTF-8 encoding that begins and ends
/// between scalar values, and keeps the bytes on either side.
pub proof fn law_remove_utf8_boundaries(s: Seq<char>, start: int, length: int)
    requires
        0 <= start,
        0 <= length,
    ensures
        ({
            let r = unsigned_range(s.len() as int, start, length);
            let bytes = encode_utf8(s);
            &&& is_char_boundary(bytes, byte_offset(s, r.0))
            &&& is_char_boundary(bytes, byte_offset(s, r.1))
            &&& encode_utf8(remove_spec(s, start, length)) == bytes.take(byte_offset(s, r.0))
                + bytes.skip(byte_offset(s, r.1))
        }),
{
    let r = unsigned_range(s.len() as int, start, length);
    let bytes = encode_utf8(s);
    lemma_offset_is_boundary(s, r.0);
    lemma_offset_is_boundary(s, r.1);
    lemma_encode_split(s, r.0);
    lemma_encode_split(s, r.1);
    lemma_encode_concat(s.take(r.0), s.skip(r.1));
    assert(bytes.take(byte_offset(s, r.0)) =~= encode_utf8(s.take(r.0)));
    assert(bytes.skip(byte_offset(s, r.1)) =~= encode_utf8(s.skip(r.1)));
}

} // verus!
