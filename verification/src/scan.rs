//! Scanning of characters: runs, first occurrences, and the removal of white
//! space.

use crate::text::{numeric_char, whitespace_char};
use vstd::prelude::*;

verus! {

/// The end of the run of characters that `keep` accepts and that begins at
/// `i`: the first index from `i` on whose character it refuses, or the
/// length of `s`.
pub open spec fn span_end(s: Seq<char>, i: int, keep: spec_fn(char) -> bool) -> int
    decreases s.len() - i,
{
    if 0 <= i < s.len() && keep(s[i]) {
        span_end(s, i + 1, keep)
    } else {
        i
    }
}

/// A run ends at or after its start and inside `s`, holds only characters
/// that `keep` accepts, and stops before one that it refuses.
pub proof fn lemma_span_end(s: Seq<char>, i: int, keep: spec_fn(char) -> bool)
    requires
        0 <= i <= s.len(),
    ensures
        i <= span_end(s, i, keep) <= s.len(),
        forall|k: int| i <= k < span_end(s, i, keep) ==> keep(#[trigger] s[k]),
        span_end(s, i, keep) < s.len() ==> !keep(s[span_end(s, i, keep)]),
    decreases s.len() - i,
{
    if i < s.len() && keep(s[i]) {
        lemma_span_end(s, i + 1, keep);
    }
}

/// A line ends at a line feed or a carriage return.
pub open spec fn ends_line(c: char) -> bool {
    c == '\n' || c == '\r'
}

/// A blank, a tab, a line feed or a carriage return.
pub open spec fn is_space(c: char) -> bool {
    c == ' ' || c == '\t' || c == '\n' || c == '\r'
}

/// A character that may stand in a number: a numeric character, a point or a
/// sign.
pub open spec fn number_char(c: char) -> bool {
    numeric_char(c) || c == '.' || c == '-' || c == '+'
}

pub open spec fn in_line() -> spec_fn(char) -> bool {
    |c: char| !ends_line(c)
}

pub open spec fn in_space() -> spec_fn(char) -> bool {
    |c: char| is_space(c)
}

pub open spec fn in_digits() -> spec_fn(char) -> bool {
    |c: char| numeric_char(c)
}

pub open spec fn in_number() -> spec_fn(char) -> bool {
    |c: char| number_char(c)
}

/// Whether `c` may stand in a number.
pub fn is_number_char(c: char) -> (b: bool)
    ensures
        b == number_char(c),
{
    c.is_numeric() || c == '.' || c == '-' || c == '+'
}

/// The end of the line that begins at `i`.
pub fn line_end(s: &[char], i: usize) -> (e: usize)
    requires
        i <= s@.len(),
    ensures
        e == span_end(s@, i as int, in_line()),
        i <= e <= s@.len(),
{
    let mut k = i;
    while k < s.len() && !(s[k] == '\n' || s[k] == '\r')
        invariant
            i <= k <= s@.len(),
            span_end(s@, i as int, in_line()) == span_end(s@, k as int, in_line()),
        decreases s@.len() - k,
    {
        k += 1;
    }
    k
}

/// The end of the white space that begins at `i`.
pub fn space_end(s: &[char], i: usize) -> (e: usize)
    requires
        i <= s@.len(),
    ensures
        e == span_end(s@, i as int, in_space()),
        i <= e <= s@.len(),
{
    let mut k = i;
    while k < s.len() && (s[k] == ' ' || s[k] == '\t' || s[k] == '\n' || s[k] == '\r')
        invariant
            i <= k <= s@.len(),
            span_end(s@, i as int, in_space()) == span_end(s@, k as int, in_space()),
        decreases s@.len() - k,
    {
        k += 1;
    }
    k
}

/// The end of the numeric characters that begin at `i`.
pub fn digits_end(s: &[char], i: usize) -> (e: usize)
    requires
        i <= s@.len(),
    ensures
        e == span_end(s@, i as int, in_digits()),
        i <= e <= s@.len(),
{
    let mut k = i;
    while k < s.len() && s[k].is_numeric()
        invariant
            i <= k <= s@.len(),
            span_end(s@, i as int, in_digits()) == span_end(s@, k as int, in_digits()),
        decreases s@.len() - k,
    {
        k += 1;
    }
    k
}

/// The end of the number characters that begin at `i`.
pub fn number_end(s: &[char], i: usize) -> (e: usize)
    requires
        i <= s@.len(),
    ensures
        e == span_end(s@, i as int, in_number()),
        i <= e <= s@.len(),
{
    let mut k = i;
    while k < s.len() && is_number_char(s[k])
        invariant
            i <= k <= s@.len(),
            span_end(s@, i as int, in_number()) == span_end(s@, k as int, in_number()),
        decreases s@.len() - k,
    {
        k += 1;
    }
    k
}

/// The index of the first `c` in `s`, or the length of `s` where it has none.
pub open spec fn first_index(s: Seq<char>, c: char) -> int {
    span_end(s, 0, other_than(c))
}

pub open spec fn other_than(c: char) -> spec_fn(char) -> bool {
    |d: char| d != c
}

/// Finds the first `c` in `s`.
pub fn find(s: &[char], c: char) -> (e: usize)
    ensures
        e == first_index(s@, c),
        e <= s@.len(),
        e < s@.len() ==> s@[e as int] == c,
{
    let mut k: usize = 0;
    while k < s.len() && s[k] != c
        invariant
            k <= s@.len(),
            span_end(s@, 0, other_than(c)) == span_end(s@, k as int, other_than(c)),
        decreases s@.len() - k,
    {
        k += 1;
    }
    k
}

/// `s` without its white space.
pub open spec fn squeeze(s: Seq<char>) -> Seq<char>
    decreases s.len(),
{
    if s.len() == 0 {
        Seq::empty()
    } else if whitespace_char(s.last()) {
        squeeze(s.drop_last())
    } else {
        squeeze(s.drop_last()).push(s.last())
    }
}

/// Removes the white space from `s`.
pub fn squeezed(s: &[char]) -> (out: Vec<char>)
    ensures
        out@ == squeeze(s@),
{
    let mut out: Vec<char> = Vec::new();
    let mut k: usize = 0;
    assert(s@.take(0) =~= Seq::<char>::empty());
    while k < s.len()
        invariant
            k <= s@.len(),
            out@ == squeeze(s@.take(k as int)),
        decreases s@.len() - k,
    {
        assert(s@.take(k + 1).drop_last() =~= s@.take(k as int));
        if !s[k].is_whitespace() {
            out.push(s[k]);
        }
        k += 1;
    }
    assert(s@.take(s@.len() as int) =~= s@);
    out
}

/// The characters `s[from..to]` in a vector of their own.
pub fn copy_range(s: &[char], from: usize, to: usize) -> (out: Vec<char>)
    requires
        from <= to <= s@.len(),
    ensures
        out@ == s@.subrange(from as int, to as int),
{
    let mut out: Vec<char> = Vec::new();
    let mut k = from;
    while k < to
        invariant
            from <= k <= to <= s@.len(),
            out@ == s@.subrange(from as int, k as int),
        decreases to - k,
    {
        out.push(s[k]);
        k += 1;
    }
    out
}

} // verus!
