//! Character-sequence helpers shared by the renderer.

use vstd::prelude::*;

use crate::outside::{push_char, to_chars};

verus! {

/// `p` is a prefix of `s`.
pub open spec fn starts_with(s: Seq<char>, p: Seq<char>) -> bool {
    p.len() <= s.len() && s.subrange(0, p.len() as int) == p
}

/// `p` is a suffix of `s`.
pub open spec fn ends_with(s: Seq<char>, p: Seq<char>) -> bool {
    p.len() <= s.len() && s.subrange(s.len() - p.len(), s.len() as int) == p
}

/// What is left of `s` after its first `n` characters.
pub open spec fn rest(s: Seq<char>, n: nat) -> Seq<char> {
    s.subrange(n as int, s.len() as int)
}

/// Does `p` occur in `s` at position `i`?
pub fn starts_at(s: &Vec<char>, i: usize, p: &Vec<char>) -> (r: bool)
    requires
        i <= s.len(),
    ensures
        r == starts_with(rest(s@, i as nat), p@),
{
    if p.len() > s.len() - i {
        return false;
    }
    let ghost tail = rest(s@, i as nat);
    let mut k: usize = 0;
    while k < p.len()
        invariant
            i <= s.len(),
            p.len() <= s.len() - i,
            k <= p.len(),
            tail == rest(s@, i as nat),
            forall|j: int| 0 <= j < k ==> tail[j] == p@[j],
        decreases p.len() - k,
    {
        if s[i + k] != p[k] {
            assert(tail.subrange(0, p@.len() as int)[k as int] != p@[k as int]);
            return false;
        }
        k += 1;
    }
    assert(tail.subrange(0, p@.len() as int) =~= p@);
    true
}

/// Does the line begin with the literal `p`?
pub fn line_starts_with(line: &Vec<char>, p: &str) -> (r: bool)
    ensures
        r == starts_with(line@, p@),
{
    let pc = to_chars(p);
    assert(rest(line@, 0) =~= line@);
    starts_at(line, 0, &pc)
}

/// Appends the characters `s[from..to]` to `out`.
pub fn push_range(out: &mut String, s: &Vec<char>, from: usize, to: usize)
    requires
        from <= to <= s.len(),
    ensures
        final(out)@ == old(out)@ + s@.subrange(from as int, to as int),
{
    let mut k: usize = from;
    while k < to
        invariant
            from <= k <= to <= s.len(),
            out@ == old(out)@ + s@.subrange(from as int, k as int),
        decreases to - k,
    {
        push_char(out, s[k]);
        assert(s@.subrange(from as int, k + 1) =~= s@.subrange(from as int, k as int).push(s@[k as int]));
        k += 1;
    }
}

/// A `String` holding the characters `s[from..to]`.
pub fn string_of_range(s: &Vec<char>, from: usize, to: usize) -> (r: String)
    requires
        from <= to <= s.len(),
    ensures
        r@ == s@.subrange(from as int, to as int),
{
    let mut out = String::new();
    push_range(&mut out, s, from, to);
    out
}


/// Does the text end with the literal `p`?
pub fn line_ends_with(line: &Vec<char>, p: &str) -> (r: bool)
    ensures
        r == ends_with(line@, p@),
{
    let pc = to_chars(p);
    if pc.len() > line.len() {
        return false;
    }
    let at = line.len() - pc.len();
    let r = starts_at(line, at, &pc);
    assert(rest(line@, at as nat).subrange(0, pc@.len() as int) =~= line@.subrange(
        line@.len() - pc@.len(),
        line@.len() as int,
    ));
    r
}

} // verus!
