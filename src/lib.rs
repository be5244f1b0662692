//! Character-indexed string operations: substrings, search and removal addressed
//! by Unicode scalar value position instead of byte offset. Signed positions count
//! from the end of the string, and no combination of arguments panics: out-of-range
//! requests give an empty string, the string unchanged, or `None`.
use vstd::prelude::*;
use vstd::string::*;

pub mod laws;
pub mod project;
pub mod range;
pub mod search;

use project::{collect_outside, collect_range, char_vec};
use range::{
    calc_start_end, calc_start_end_exclusive, calc_to_end, calc_unsigned, start_end_range,
    start_length_range, to_end_range, unsigned_range,
};
use search::{find_from, index_of_spec};

verus! {

/// The characters that `substr` selects.
pub open spec fn substr_spec(s: Seq<char>, start: int, length: int) -> Seq<char> {
    let r = start_length_range(s.len() as int, start, length);
    s.subrange(r.0, r.1)
}

/// The characters that `substru` selects.
pub open spec fn substru_spec(s: Seq<char>, start: int, length: int) -> Seq<char> {
    let r = unsigned_range(s.len() as int, start, length);
    s.subrange(r.0, r.1)
}

/// The characters that `substr_end` selects.
pub open spec fn substr_end_spec(s: Seq<char>, start: int) -> Seq<char> {
    let r = to_end_range(s.len() as int, start);
    s.subrange(r.0, r.1)
}

/// The characters that `substring` selects.
pub open spec fn substring_spec(s: Seq<char>, start: int, end: int) -> Seq<char> {
    let r = start_end_range(s.len() as int, start, end);
    s.subrange(r.0, r.1)
}

/// `s` without the characters that `str_remove` takes out: those from `start`,
/// `length` of them, as far as the string goes.
pub open spec fn remove_spec(s: Seq<char>, start: int, length: int) -> Seq<char> {
    let r = unsigned_range(s.len() as int, start, length);
    s.take(r.0) + s.skip(r.1)
}

/// Character index of the first occurrence of `searchstring` in `s` at or after
/// character index `start_index`; `None` when there is none, when `start_index`
/// is past the end, or when `searchstring` is empty.
pub fn indexof(s: &str, searchstring: &str, start_index: usize) -> (r: Option<usize>)
    ensures
        index_of_spec(s@, searchstring@, start_index as int, r),
{
    let source: Vec<char> = char_vec(s);
    let pattern: Vec<char> = char_vec(searchstring);
    find_from(&source, &pattern, start_index)
}

/// `s` without its characters from index `start_index` on, `length` of them or as
/// many as there are. A start past the end, or a zero length, leaves `s` unchanged.
pub fn str_remove(s: &str, start_index: usize, length: usize) -> (r: String)
    ensures
        r@ == remove_spec(s@, start_index as int, length as int),
{
    let total_length: usize = s.unicode_len();
    let (from, to) = calc_unsigned(total_length, start_index, length);
    collect_outside(s, from, to)
}

/// The characters of `s` from `start_index`, `length` of them. A negative
/// `start_index` counts from the end; a negative `length` takes the characters
/// that end at `start_index`. A start outside the string, or a zero length, gives
/// an empty string; a length past either end stops at that end.
pub fn substr(s: &str, start_index: isize, length: isize) -> (r: String)
    ensures
        r@ == substr_spec(s@, start_index as int, length as int),
        r@.len() <= s@.len(),
{
    let total_length: usize = s.unicode_len();
    let (start, end) = calc_start_end(total_length, start_index, length);
    collect_range(s, start, end)
}

/// The characters of `s` from `start_index`, `length` of them, stopping at the end
/// of the string.
pub fn substru(s: &str, start_index: usize, length: usize) -> (r: String)
    ensures
        r@ == substru_spec(s@, start_index as int, length as int),
{
    let total_length: usize = s.unicode_len();
    let (start, end) = calc_unsigned(total_length, start_index, length);
    collect_range(s, start, end)
}

/// The characters of `s` from `start_index` to the end; a negative `start_index`
/// counts from the end. A start outside `[-len, len]` gives an empty string.
pub fn substr_end(s: &str, start_index: isize) -> (r: String)
    ensures
        r@ == substr_end_spec(s@, start_index as int),
{
    let total_length: usize = s.unicode_len();
    let (start, end) = calc_to_end(total_length, start_index);
    collect_range(s, start, end)
}

/// The characters of `s` from one index up to, not including, the other; the
/// smaller index comes first, and each is clamped into `[0, len]`.
pub fn substring(s: &str, start_index: isize, end_index: isize) -> (r: String)
    ensures
        r@ == substring_spec(s@, start_index as int, end_index as int),
{
    if start_index == end_index {
        return String::new();
    }
    let total_length: usize = s.unicode_len();
    let (start, end) = calc_start_end_exclusive(total_length, start_index, end_index);
    collect_range(s, start, end)
}

/// The same operations as methods of `str` and `String`, with the same results.
pub trait CharString: View<V = Seq<char>> {
    fn indexof(&self, searchstring: &str, start_index: usize) -> (r: Option<usize>)
        ensures
            index_of_spec(self@, searchstring@, start_index as int, r),
    ;

    fn substr(&self, start_index: isize, length: isize) -> (r: String)
        ensures
            r@ == substr_spec(self@, start_index as int, length as int),
    ;

    fn substru(&self, start_index: usize, length: usize) -> (r: String)
        ensures
            r@ == substru_spec(self@, start_index as int, length as int),
    ;

    fn substr_end(&self, start_index: isize) -> (r: String)
        ensures
            r@ == substr_end_spec(self@, start_index as int),
    ;

    fn substring(&self, start_index: isize, end_index: isize) -> (r: String)
        ensures
            r@ == substring_spec(self@, start_index as int, end_index as int),
    ;

    fn str_remove(&self, start_index: usize, length: usize) -> (r: String)
        ensures
            r@ == remove_spec(self@, start_index as int, length as int),
    ;
}

impl CharString for str {
    fn indexof(&self, searchstring: &str, start_index: usize) -> (r: Option<usize>) {
        indexof(self, searchstring, start_index)
    }

    fn substr(&self, start_index: isize, length: isize) -> (r: String) {
        substr(self, start_index, length)
    }

    fn substru(&self, start_index: usize, length: usize) -> (r: String) {
        substru(self, start_index, length)
    }

    fn substr_end(&self, start_index: isize) -> (r: String) {
        substr_end(self, start_index)
    }

    fn substring(&self, start_index: isize, end_index: isize) -> (r: String) {
        substring(self, start_index, end_index)
    }

    fn str_remove(&self, start_index: usize, length: usize) -> (r: String) {
        str_remove(self, start_index, length)
    }
}

impl CharString for String {
    fn indexof(&self, searchstring: &str, start_index: usize) -> (r: Option<usize>) {
        indexof(self.as_str(), searchstring, start_index)
    }

    fn substr(&self, start_index: isize, length: isize) -> (r: String) {
        substr(self.as_str(), start_index, length)
    }

    fn substru(&self, start_index: usize, length: usize) -> (r: String) {
        substru(self.as_str(), start_index, length)
    }

    fn substr_end(&self, start_index: isize) -> (r: String) {
        substr_end(self.as_str(), start_index)
    }

    fn substring(&self, start_index: isize, end_index: isize) -> (r: String) {
        substring(self.as_str(), start_index, end_index)
    }

    fn str_remove(&self, start_index: usize, length: usize) -> (r: String) {
        str_remove(self.as_str(), start_index, length)
    }
}

/// The characters of all `parts`, one after another.
pub open spec fn concat_spec(parts: Seq<&str>) -> Seq<char>
    decreases parts.len(),
{
    if parts.len() == 0 {
        Seq::empty()
    } else {
        concat_spec(parts.drop_last()) + parts.last()@
    }
}

/// All `parts` joined in order into one new string.
pub fn str_concat(parts: &[&str]) -> (r: String)
    ensures
        r@ == concat_spec(parts@),
{
    let mut r: String = String::new();
    let mut i: usize = 0;
    while i < parts.len()
        invariant
            i <= parts@.len(),
            r@ == concat_spec(parts@.take(i as int)),
        decreases parts@.len() - i,
    {
        r.append(parts[i]);
        proof {
            assert(parts@.take(i + 1).drop_last() =~= parts@.take(i as int));
        }
        i = i + 1;
    }
    assert(parts@.take(i as int) =~= parts@);
    r
}

} // verus!
