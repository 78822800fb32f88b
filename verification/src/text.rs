//! Characters and strings: the few conversions that parsing and rendering
//! rest on.

use vstd::prelude::*;
use vstd::std_specs::iter::IteratorSpec;

verus! {

broadcast use vstd::string::group_string_axioms;

/// Whether `c` counts as a number character in the sense of
/// `char::is_numeric`: a character of one of the Unicode categories for
/// numbers.
pub uninterp spec fn numeric_char(c: char) -> bool;

/// Whether `c` is white space in the sense of `char::is_whitespace`: a
/// character with the Unicode property `White_Space`.
pub uninterp spec fn whitespace_char(c: char) -> bool;

/// `char::is_numeric`: the answer depends on the character alone, and is
/// given the name `numeric_char`.
pub assume_specification[ char::is_numeric ](c: char) -> (b: bool)
    ensures
        b == numeric_char(c),
;

/// `char::is_whitespace`: the answer depends on the character alone, and is
/// given the name `whitespace_char`.
pub assume_specification[ char::is_whitespace ](c: char) -> (b: bool)
    ensures
        b == whitespace_char(c),
;

/// `String::push` appends the character to the end of the string.
pub assume_specification[ String::push ](s: &mut String, c: char)
    ensures
        final(s)@ == old(s)@.push(c),
;

/// The characters of `s`, one by one.
pub fn to_chars(s: &str) -> (v: Vec<char>)
    ensures
        v@ == s@,
{
    let mut it = s.chars();
    let mut v: Vec<char> = Vec::new();
    loop
        invariant
            v@ + it.remaining() == s@,
        ensures
            v@ == s@,
        decreases s@.len() - v@.len(),
    {
        match it.next() {
            Some(c) => {
                v.push(c);
            },
            None => {
                break ;
            },
        }
    }
    v
}

/// The string that holds the characters `chars[from..to]`.
pub fn to_string(chars: &[char], from: usize, to: usize) -> (s: String)
    requires
        from <= to <= chars@.len(),
    ensures
        s@ == chars@.subrange(from as int, to as int),
{
    let mut s = String::new();
    let mut i: usize = from;
    while i < to
        invariant
            from <= i <= to <= chars@.len(),
            s@ == chars@.subrange(from as int, i as int),
        decreases to - i,
    {
        s.push(chars[i]);
        i += 1;
    }
    s
}

} // verus!
