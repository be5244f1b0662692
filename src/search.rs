//! Searching one character sequence for another.
use vstd::prelude::*;

verus! {

/// `p` occurs in `s` starting at character index `i`.
pub open spec fn matches_at(s: Seq<char>, p: Seq<char>, i: int) -> bool {
    0 <= i && i + p.len() <= s.len() && s.subrange(i, i + p.len()) == p
}

/// What a search for `p` in `s` from character index `start` finds: the first
/// occurrence at or after `start`, or nothing. An empty pattern is never found.
pub open spec fn index_of_spec(s: Seq<char>, p: Seq<char>, start: int, r: Option<usize>) -> bool {
    match r {
        Some(i) => {
            &&& p.len() > 0
            &&& start <= i
            &&& matches_at(s, p, i as int)
            &&& forall|j: int| start <= j < i ==> !#[trigger] matches_at(s, p, j)
        },
        None => p.len() == 0 || forall|j: int| start <= j ==> !#[trigger] matches_at(s, p, j),
    }
}

/// Whether `p` occurs in `s` at index `i`, compared character by character.
pub fn matches_at_exec(s: &Vec<char>, p: &Vec<char>, i: usize) -> (r: bool)
    requires
        i + p@.len() <= s@.len(),
    ensures
        r == matches_at(s@, p@, i as int),
{
    let n: usize = s.len();
    let mut k: usize = 0;
    while k < p.len()
        invariant
            n == s@.len(),
            i + p@.len() <= s@.len(),
            k <= p@.len(),
            forall|q: int| 0 <= q < k ==> s@[i + q] == p@[q],
        decreases p@.len() - k,
    {
        if s[i + k] != p[k] {
            assert(s@.subrange(i as int, i + p@.len())[k as int] != p@[k as int]);
            return false;
        }
        k = k + 1;
    }
    assert(s@.subrange(i as int, i + p@.len()) =~= p@);
    true
}

/// The first index at or after `start` where `p` occurs in `s`; an empty
/// pattern is never found.
pub fn find_from(s: &Vec<char>, p: &Vec<char>, start: usize) -> (r: Option<usize>)
    ensures
        index_of_spec(s@, p@, start as int, r),
{
    if p.len() == 0 || p.len() > s.len() {
        return None;
    }
    let last: usize = s.len() - p.len();
    let mut i: usize = start;
    while i <= last
        invariant
            p@.len() > 0,
            last + p@.len() == s@.len(),
            last < usize::MAX,
            start <= i,
            forall|j: int| start <= j < i ==> !#[trigger] matches_at(s@, p@, j),
        decreases last + 1 - i,
    {
        if matches_at_exec(s, p, i) {
            return Some(i);
        }
        i = i + 1;
    }
    None
}

} // verus!
