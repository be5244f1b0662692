//! Moving between a string and its characters: every cut is made between two
//! scalar values, so every result is well-formed text.
use vstd::prelude::*;
use vstd::std_specs::iter::IteratorSpec;

verus! {

/// Relies on `String::push`: the character is appended at the end.
#[verifier::external_body]
fn push_char(s: &mut String, c: char)
    ensures
        final(s)@ == old(s)@.push(c),
{
    s.push(c);
}

/// The characters of `s`, in order.
pub fn char_vec(s: &str) -> (v: Vec<char>)
    ensures
        v@ == s@,
{
    let mut v: Vec<char> = Vec::new();
    for c in it: s.chars()
        invariant
            it.seq() == s@,
            v@ == it.seq().take(it.index() as int),
    {
        v.push(c);
    }
    v
}

/// The characters `from..to` of `s`, as a new string.
pub fn collect_range(s: &str, from: usize, to: usize) -> (r: String)
    requires
        from <= to <= s@.len(),
    ensures
        r@ == s@.subrange(from as int, to as int),
{
    let mut r: String = String::new();
    let mut pos: usize = 0;
    for c in it: s.chars()
        invariant_except_break
            pos == it.index(),
        invariant
            it.seq() == s@,
            from <= to <= s@.len(),
            pos <= to,
            r@ == s@.subrange(from as int, if pos <= from { from as int } else { pos as int }),
        ensures
            pos == to,
    {
        if pos >= to {
            break;
        }
        if pos >= from {
            push_char(&mut r, c);
        }
        pos = pos + 1;
    }
    r
}

/// `s` without its characters `from..to`, as a new string.
pub fn collect_outside(s: &str, from: usize, to: usize) -> (r: String)
    requires
        from <= to <= s@.len(),
    ensures
        r@ == s@.take(from as int) + s@.skip(to as int),
{
    let v: Vec<char> = char_vec(s);
    let mut r: String = String::new();
    let mut i: usize = 0;
    while i < from
        invariant
            v@ == s@,
            from <= to <= v@.len(),
            i <= from,
            r@ == s@.take(i as int),
        decreases from - i,
    {
        push_char(&mut r, v[i]);
        proof {
            assert(s@.take(i + 1) =~= s@.take(i as int).push(v@[i as int]));
        }
        i = i + 1;
    }
    let ghost head: Seq<char> = r@;
    let mut j: usize = to;
    while j < v.len()
        invariant
            v@ == s@,
            head == s@.take(from as int),
            to <= j <= v@.len(),
            r@ == head + s@.subrange(to as int, j as int),
        decreases v@.len() - j,
    {
        push_char(&mut r, v[j]);
        proof {
            assert(s@.subrange(to as int, j + 1) =~= s@.subrange(to as int, j as int).push(
                v@[j as int],
            ));
        }
        j = j + 1;
    }
    assert(s@.subrange(to as int, j as int) =~= s@.skip(to as int));
    r
}

} // verus!
