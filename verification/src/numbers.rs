//! Decimal numbers: how the text of a number names an amount in micrometers.

use crate::microns::{clamp_i32, Microns};
use crate::scan::{find, first_index};
use vstd::prelude::*;

verus! {

/// One of the ten digits.
pub open spec fn is_digit(c: char) -> bool {
    '0' <= c <= '9'
}

/// What a digit counts.
pub open spec fn digit_value(c: char) -> int {
    c as u32 as int - 48
}

/// Every character of `s` is a digit.
pub open spec fn all_digits(s: Seq<char>) -> bool {
    forall|i: int| 0 <= i < s.len() ==> is_digit(#[trigger] s[i])
}

/// The number that the digits of `s` write.
pub open spec fn digits_value(s: Seq<char>) -> int
    decreases s.len(),
{
    if s.len() == 0 {
        0
    } else {
        digits_value(s.drop_last()) * 10 + digit_value(s.last())
    }
}

/// What stands at place `i` behind the point: the digit there, or nothing.
pub open spec fn place(s: Seq<char>, i: int) -> int {
    if 0 <= i < s.len() {
        digit_value(s[i])
    } else {
        0
    }
}

/// The first three places behind the point, in thousandths. Further places
/// are cut off.
pub open spec fn thousandths(s: Seq<char>) -> int {
    place(s, 0) * 100 + place(s, 1) * 10 + place(s, 2)
}

/// The text begins with a sign.
pub open spec fn has_sign(t: Seq<char>) -> bool {
    t.len() > 0 && (t[0] == '+' || t[0] == '-')
}

/// The text without its sign.
pub open spec fn unsigned_part(t: Seq<char>) -> Seq<char> {
    if has_sign(t) {
        t.subrange(1, t.len() as int)
    } else {
        t
    }
}

/// The digits before the point.
pub open spec fn whole_part(t: Seq<char>) -> Seq<char> {
    let body = unsigned_part(t);
    body.subrange(0, first_index(body, '.'))
}

/// The characters behind the point; none where there is no point.
pub open spec fn fraction_part(t: Seq<char>) -> Seq<char> {
    let body = unsigned_part(t);
    let dot = first_index(body, '.');
    if dot < body.len() {
        body.subrange(dot + 1, body.len() as int)
    } else {
        Seq::empty()
    }
}

/// The text is a decimal number: a sign or none, then digits with at most
/// one point among them, and at least one digit in all.
pub open spec fn is_decimal(t: Seq<char>) -> bool {
    &&& all_digits(whole_part(t))
    &&& all_digits(fraction_part(t))
    &&& whole_part(t).len() + fraction_part(t).len() > 0
}

/// The amount in micrometers that a decimal number of millimeters names:
/// a thousand times the number, cut off towards zero, and kept within the
/// range of the amounts.
pub open spec fn decimal_microns(t: Seq<char>) -> Option<int> {
    if is_decimal(t) {
        let size = digits_value(whole_part(t)) * 1000 + thousandths(fraction_part(t));
        Some(
            clamp_i32(
                if t[0] == '-' {
                    -size
                } else {
                    size
                },
            ),
        )
    } else {
        None
    }
}

/// What the digits of a sequence write is never negative.
pub proof fn lemma_digits_value_bounds(s: Seq<char>)
    requires
        all_digits(s),
    ensures
        0 <= digits_value(s),
    decreases s.len(),
{
    if s.len() > 0 {
        assert(is_digit(s.last()));
        assert forall|i: int| 0 <= i < s.drop_last().len() implies is_digit(
            #[trigger] s.drop_last()[i],
        ) by {
            assert(s.drop_last()[i] == s[i]);
        }
        lemma_digits_value_bounds(s.drop_last());
    }
}

fn digit_of(c: char) -> (d: Option<i64>)
    ensures
        d is Some <==> is_digit(c),
        d is Some ==> d->Some_0 == digit_value(c) && 0 <= d->Some_0 <= 9,
{
    if '0' <= c && c <= '9' {
        Some((c as u32 - 48) as i64)
    } else {
        None
    }
}

/// The value of the first three places of `s[from..to]`, where they are
/// digits.
fn read_thousandths(s: &[char], from: usize, to: usize) -> (r: Option<i64>)
    requires
        from <= to <= s@.len(),
    ensures
        r is Some <==> all_digits(s@.subrange(from as int, to as int)),
        r is Some ==> r->Some_0 == thousandths(s@.subrange(from as int, to as int)) && 0
            <= r->Some_0 <= 999,
{
    let ghost t = s@.subrange(from as int, to as int);
    let mut k = from;
    let mut value: i64 = 0;
    let mut weight: i64 = 100;
    while k < to
        invariant
            from <= k <= to <= s@.len(),
            t == s@.subrange(from as int, to as int),
            forall|i: int| 0 <= i < k - from ==> is_digit(#[trigger] t[i]),
            k - from == 0 ==> weight == 100 && value == 0,
            k - from == 1 ==> weight == 10 && value == place(t, 0) * 100,
            k - from == 2 ==> weight == 1 && value == place(t, 0) * 100 + place(t, 1) * 10,
            k - from >= 3 ==> weight == 0 && value == thousandths(t),
            0 <= value <= 999,
            value + 9 * weight <= 999 || weight == 0,
        decreases to - k,
    {
        match digit_of(s[k]) {
            None => {
                assert(!is_digit(t[k - from]));
                return None;
            },
            Some(d) => {
                assert(t[k - from] == s@[k as int]);
                value = value + d * weight;
                weight = if weight == 100 {
                    10
                } else if weight == 10 {
                    1
                } else {
                    0
                };
            },
        }
        k += 1;
    }
    Some(value)
}

/// The value of the digits `s[from..to]`, no higher than three million,
/// where they are digits.
fn read_whole(s: &[char], from: usize, to: usize) -> (r: Option<i64>)
    requires
        from <= to <= s@.len(),
    ensures
        r is Some <==> all_digits(s@.subrange(from as int, to as int)),
        r is Some ==> r->Some_0 == if digits_value(s@.subrange(from as int, to as int))
            < 3_000_000 {
            digits_value(s@.subrange(from as int, to as int))
        } else {
            3_000_000
        },
{
    let ghost t = s@.subrange(from as int, to as int);
    let mut k = from;
    let mut value: i64 = 0;
    assert(t.take(0) =~= Seq::<char>::empty());
    while k < to
        invariant
            from <= k <= to <= s@.len(),
            t == s@.subrange(from as int, to as int),
            all_digits(t.take(k - from)),
            0 <= value <= 3_000_000,
            value == if digits_value(t.take(k - from)) < 3_000_000 {
                digits_value(t.take(k - from))
            } else {
                3_000_000
            },
        decreases to - k,
    {
        let ghost seen = t.take(k - from);
        let ghost more = t.take(k - from + 1);
        assert(more.drop_last() =~= seen);
        assert(more.last() == s@[k as int]);
        proof {
            lemma_digits_value_bounds(seen);
        }
        match digit_of(s[k]) {
            None => {
                assert(!is_digit(t[k - from]));
                return None;
            },
            Some(d) => {
                assert forall|i: int| 0 <= i < more.len() implies is_digit(#[trigger] more[i]) by {
                    if i < seen.len() {
                        assert(seen[i] == more[i]);
                    }
                }
                let next = value * 10 + d;
                value = if next < 3_000_000 {
                    next
                } else {
                    3_000_000
                };
            },
        }
        k += 1;
    }
    assert(t.take(to - from) =~= t);
    Some(value)
}

/// Reads a decimal number of millimeters as an amount of micrometers. Text
/// that is no decimal number names no amount.
pub fn parse_decimal(t: &[char]) -> (r: Option<Microns>)
    ensures
        match r {
            Some(m) => decimal_microns(t@) == Some(m@),
            None => decimal_microns(t@) is None,
        },
{
    let n = t.len();
    let signed = n > 0 && (t[0] == '+' || t[0] == '-');
    let negative = n > 0 && t[0] == '-';
    let body = if signed {
        crate::scan::copy_range(t, 1, n)
    } else {
        crate::scan::copy_range(t, 0, n)
    };
    assert(t@.subrange(0, n as int) =~= t@);
    assert(body@ == unsigned_part(t@));
    let dot = find(body.as_slice(), '.');
    let whole = read_whole(body.as_slice(), 0, dot);
    let fraction = if dot < body.len() {
        read_thousandths(body.as_slice(), dot + 1, body.len())
    } else {
        assert(body@.subrange(body@.len() as int, body@.len() as int) =~= Seq::<char>::empty());
        read_thousandths(body.as_slice(), body.len(), body.len())
    };
    let digits = if dot < body.len() {
        dot + (body.len() - dot - 1)
    } else {
        dot
    };
    match (whole, fraction) {
        (Some(w), Some(f)) => {
            if digits == 0 {
                return None;
            }
            proof {
                lemma_digits_value_bounds(whole_part(t@));
            }
            let size: i64 = w * 1000 + f;
            let signed_size: i64 = if negative {
                -size
            } else {
                size
            };
            let amount: i32 = if signed_size > i32::MAX as i64 {
                i32::MAX
            } else if signed_size < i32::MIN as i64 {
                i32::MIN
            } else {
                signed_size as i32
            };
            Some(Microns(amount))
        },
        _ => None,
    }
}

} // verus!
