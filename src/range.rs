//! Range resolution: turning signed, possibly out-of-range positions into a
//! well-ordered character range `[start, end)` within a string of `n` characters.
use vstd::prelude::*;

verus! {

/// The character range selected by a start position and a signed length, for a
/// string of `n` characters. A negative start counts from the end; a negative
/// length selects the characters ending at the start position. Out-of-range
/// starts and zero lengths select nothing.
pub open spec fn start_length_range(n: int, start: int, length: int) -> (int, int) {
    if n <= 0 || length == 0 || start < -n || start >= n {
        (0, 0)
    } else {
        let st = if start >= 0 { start } else { n + start };
        if length > 0 {
            (st, if st + length <= n { st + length } else { n })
        } else {
            (if st + length + 1 >= 0 { st + length + 1 } else { 0 }, st + 1)
        }
    }
}

/// Resolves a start position and a signed length into a character range over a
/// string of `total_length` characters; extreme values never overflow.
pub fn calc_start_end(total_length: usize, start_index: isize, length: isize) -> (r: (usize, usize))
    ensures
        r.0 as int == start_length_range(total_length as int, start_index as int, length as int).0,
        r.1 as int == start_length_range(total_length as int, start_index as int, length as int).1,
        r.0 <= r.1 <= total_length,
{
    if total_length == 0 || length == 0 {
        return (0, 0);
    }
    // The start position counted from the beginning of the string.
    let st: usize;
    if start_index >= 0 {
        let s: usize = start_index as usize;
        if s >= total_length {
            return (0, 0);
        }
        st = s;
    } else {
        // Magnitude of a negative value, which always fits in `usize`.
        let back: usize = (-(start_index + 1)) as usize + 1;
        if back > total_length {
            return (0, 0);
        }
        st = total_length - back;
    }
    if length > 0 {
        let len: usize = length as usize;
        let end: usize = if len <= total_length - st { st + len } else { total_length };
        (st, end)
    } else {
        let back: usize = (-(length + 1)) as usize;
        // Characters before the start that the range takes in.
        let begin: usize = if back <= st { st - back } else { 0 };
        (begin, st + 1)
    }
}

/// The character range between two positions, in either order, each clamped
/// into `[0, n]`; equal positions select nothing.
pub open spec fn start_end_range(n: int, a: int, b: int) -> (int, int) {
    let lo = if a <= b { a } else { b };
    let hi = if a <= b { b } else { a };
    (clamp_spec(lo, n), clamp_spec(hi, n))
}

/// `v` clamped into `[0, n]`.
pub open spec fn clamp_spec(v: int, n: int) -> int {
    if v <= 0 { 0 } else if v >= n { n } else { v }
}

/// The characters from a signed start to the end of a string of `n`
/// characters; starts outside `[-n, n]` select nothing.
pub open spec fn to_end_range(n: int, start: int) -> (int, int) {
    if start < -n || start > n {
        (0, 0)
    } else if start >= 0 {
        (start, n)
    } else {
        (n + start, n)
    }
}

/// The characters selected by an unsigned start and length, cut at the end of a
/// string of `n` characters.
pub open spec fn unsigned_range(n: int, start: int, length: int) -> (int, int) {
    (if start <= n { start } else { n }, if start + length <= n { start + length } else { n })
}

/// A signed position clamped into `[0, n]`.
pub fn clamp_position(v: isize, n: usize) -> (r: usize)
    ensures
        r as int == clamp_spec(v as int, n as int),
{
    if v <= 0 {
        0
    } else if v as usize >= n {
        n
    } else {
        v as usize
    }
}

/// Resolves two positions, in either order, into a character range over a string
/// of `total_length` characters.
pub fn calc_start_end_exclusive(total_length: usize, start_index: isize, end_index: isize) -> (r: (
    usize,
    usize,
))
    ensures
        r.0 as int == start_end_range(total_length as int, start_index as int, end_index as int).0,
        r.1 as int == start_end_range(total_length as int, start_index as int, end_index as int).1,
        r.0 <= r.1 <= total_length,
{
    if start_index <= end_index {
        (clamp_position(start_index, total_length), clamp_position(end_index, total_length))
    } else {
        (clamp_position(end_index, total_length), clamp_position(start_index, total_length))
    }
}

/// Resolves a signed start into the range up to the end of a string of
/// `total_length` characters.
pub fn calc_to_end(total_length: usize, start_index: isize) -> (r: (usize, usize))
    ensures
        r.0 as int == to_end_range(total_length as int, start_index as int).0,
        r.1 as int == to_end_range(total_length as int, start_index as int).1,
        r.0 <= r.1 <= total_length,
{
    if start_index >= 0 {
        let s: usize = start_index as usize;
        if s > total_length {
            (0, 0)
        } else {
            (s, total_length)
        }
    } else {
        let back: usize = (-(start_index + 1)) as usize + 1;
        if back > total_length {
            (0, 0)
        } else {
            (total_length - back, total_length)
        }
    }
}

/// Resolves an unsigned start and length into a character range over a string of
/// `total_length` characters.
pub fn calc_unsigned(total_length: usize, start_index: usize, length: usize) -> (r: (usize, usize))
    ensures
        r.0 as int == unsigned_range(total_length as int, start_index as int, length as int).0,
        r.1 as int == unsigned_range(total_length as int, start_index as int, length as int).1,
        r.0 <= r.1 <= total_length,
{
    if start_index >= total_length {
        (total_length, total_length)
    } else if length <= total_length - start_index {
        (start_index, start_index + length)
    } else {
        (start_index, total_length)
    }
}

} // verus!
