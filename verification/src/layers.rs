//! Planarity and layer heights: what the heights of the extrusion moves tell
//! of the layers of a print.

use crate::microns::{clamp_i32, Microns};
use crate::model::GCodeLine;
use crate::replay::{arrived, departed, extrudes, leaves_plane};
use vstd::prelude::*;
use vstd::relations::{sorted_by, total_ordering};

verus! {

/// No line after line `i` lays down material while it changes height.
pub open spec fn planar_after(lines: Seq<GCodeLine>, i: int) -> bool {
    forall|j: int| i < j < lines.len() ==> !#[trigger] leaves_plane(lines, j)
}

/// A scan of the lines after `from` for one that leaves its plane ends at
/// `to`: on the first such line, or on the last line where there is none.
pub open spec fn scan_ends(lines: Seq<GCodeLine>, from: int, to: int) -> bool {
    if planar_after(lines, from) {
        to == if lines.len() == 0 {
            0
        } else {
            lines.len() - 1
        }
    } else {
        &&& from < to < lines.len()
        &&& leaves_plane(lines, to)
        &&& forall|j: int| from < j < to ==> !#[trigger] leaves_plane(lines, j)
    }
}

/// The heights at which the lines from `from` up to, not including, `to` lay
/// down material, in the order of the lines.
pub open spec fn heights_between(lines: Seq<GCodeLine>, from: int, to: int) -> Seq<int>
    decreases to - from,
{
    if to <= from {
        Seq::empty()
    } else {
        let before = heights_between(lines, from, to - 1);
        if extrudes(lines, to - 1) {
            before.push(arrived(lines, to - 1).z)
        } else {
            before
        }
    }
}

/// `s` without the values that repeat the value just before them.
pub open spec fn without_repeats(s: Seq<int>) -> Seq<int>
    decreases s.len(),
{
    if s.len() == 0 {
        Seq::empty()
    } else {
        let before = without_repeats(s.drop_last());
        if s.len() >= 2 && s[s.len() - 2] == s.last() {
            before
        } else {
            before.push(s.last())
        }
    }
}

/// The order of the integers.
pub open spec fn at_most() -> spec_fn(int, int) -> bool {
    |a: int, b: int| a <= b
}

/// The values of `s` from the lowest to the highest.
pub open spec fn ascending(s: Seq<int>) -> Seq<int> {
    s.sort_by(at_most())
}

/// From the third step on, every step between neighbours of `h` is `step`
/// high (steps saturate).
pub open spec fn steps_regular(h: Seq<int>, step: int) -> bool {
    forall|i: int| 3 <= i < h.len() ==> clamp_i32(#[trigger] h[i] - h[i - 1]) == step
}

/// The height of the first layer and that of the layers after it, read from
/// the heights `h` in ascending order. Without heights both are 0; one
/// height is the first layer's, and nothing is known of the others; with two
/// heights or more the first layer is as high as the first step; the other
/// layers are as high as the second step, or 0 where a later step differs
/// from it.
pub open spec fn layer_pair(h: Seq<int>) -> (int, int) {
    if h.len() == 0 {
        (0, 0)
    } else if h.len() == 1 {
        (h[0], 0)
    } else if h.len() == 2 {
        (clamp_i32(h[1] - h[0]), 0)
    } else if steps_regular(h, clamp_i32(h[2] - h[1])) {
        (clamp_i32(h[1] - h[0]), clamp_i32(h[2] - h[1]))
    } else {
        (clamp_i32(h[1] - h[0]), 0)
    }
}

/// The layer heights that the lines after line `i` show: both 0 where some
/// line leaves its plane, else read from the heights of the extrusion moves,
/// repeats dropped and the rest in ascending order.
pub open spec fn layer_heights(lines: Seq<GCodeLine>, i: int) -> (int, int) {
    if planar_after(lines, i) {
        layer_pair(ascending(without_repeats(heights_between(lines, i + 1, lines.len() as int))))
    } else {
        (0, 0)
    }
}

/// A print whose lines never change height is planar.
pub proof fn lemma_flat_is_planar(lines: Seq<GCodeLine>, i: int)
    requires
        forall|j: int| i < j < lines.len() ==> arrived(lines, j).z == departed(lines, j).z,
    ensures
        planar_after(lines, i),
{
}

/// A print is not planar as soon as one line after the cursor lays down
/// material while it changes height.
pub proof fn lemma_off_plane_is_not_planar(lines: Seq<GCodeLine>, i: int, j: int)
    requires
        i < j < lines.len(),
        arrived(lines, j).e > departed(lines, j).e,
        arrived(lines, j).z != departed(lines, j).z,
    ensures
        !planar_after(lines, i),
{
    assert(leaves_plane(lines, j));
}

/// The values of `v` as integers.
pub open spec fn as_ints(v: Seq<i32>) -> Seq<int> {
    v.map_values(|x: i32| x as int)
}

/// Drops the values that repeat the value just before them.
pub fn drop_repeats(v: &Vec<i32>) -> (out: Vec<i32>)
    ensures
        as_ints(out@) == without_repeats(as_ints(v@)),
{
    let mut out: Vec<i32> = Vec::new();
    let mut k: usize = 0;
    assert(as_ints(v@).take(0) =~= Seq::<int>::empty());
    assert(as_ints(out@) =~= Seq::<int>::empty());
    while k < v.len()
        invariant
            k <= v@.len(),
            as_ints(out@) == without_repeats(as_ints(v@).take(k as int)),
        decreases v@.len() - k,
    {
        let ghost before = as_ints(out@);
        let ghost more = as_ints(v@).take(k + 1);
        assert(more.drop_last() =~= as_ints(v@).take(k as int));
        assert(more.last() == v@[k as int] as int);
        if k == 0 || v[k] != v[k - 1] {
            out.push(v[k]);
            assert(as_ints(out@) =~= before.push(v@[k as int] as int));
        }
        k += 1;
    }
    assert(as_ints(v@).take(v@.len() as int) =~= as_ints(v@));
    out
}

/// Brings the values into ascending order.
pub fn sort_ascending(v: &Vec<i32>) -> (out: Vec<i32>)
    ensures
        as_ints(out@) == ascending(as_ints(v@)),
{
    let mut out: Vec<i32> = Vec::new();
    let mut k: usize = 0;
    assert(as_ints(v@).take(0) =~= Seq::<int>::empty());
    assert(as_ints(out@) =~= Seq::<int>::empty());
    while k < v.len()
        invariant
            k <= v@.len(),
            out@.len() == k,
            sorted_by(as_ints(out@), at_most()),
            as_ints(out@).to_multiset() == as_ints(v@).take(k as int).to_multiset(),
        decreases v@.len() - k,
    {
        let x = v[k];
        let mut p: usize = 0;
        while p < out.len() && out[p] <= x
            invariant
                p <= out@.len(),
                forall|i: int| 0 <= i < p ==> out@[i] <= x,
            decreases out@.len() - p,
        {
            p += 1;
        }
        let ghost before = as_ints(out@);
        let ghost seen = as_ints(v@).take(k as int);
        out.insert(p, x);
        proof {
            assert(as_ints(out@) =~= before.insert(p as int, x as int));
            assert(as_ints(v@).take(k + 1) =~= seen.push(x as int));
            vstd::seq_lib::to_multiset_insert(before, p as int, x as int);
            vstd::seq_lib::to_multiset_build(seen, x as int);
            let now = as_ints(out@);
            assert forall|i: int, j: int| 0 <= i < j < now.len() implies #[trigger] at_most()(
                now[i],
                now[j],
            ) by {
                if j < p {
                    assert(at_most()(before[i], before[j]));
                } else if j == p {
                } else if i < p {
                    assert(at_most()(before[i], before[j - 1]));
                } else if i == p {
                    assert(at_most()(before[p as int], before[j - 1]) || p == j - 1);
                } else {
                    assert(at_most()(before[i - 1], before[j - 1]));
                }
            }
        }
        k += 1;
    }
    proof {
        let given = as_ints(v@);
        assert(given.take(v@.len() as int) =~= given);
        lemma_order_is_total();
        given.lemma_sort_by_ensures(at_most());
        vstd::seq_lib::lemma_sorted_unique(as_ints(out@), ascending(given), at_most());
    }
    out
}

/// The integers are totally ordered.
pub proof fn lemma_order_is_total()
    ensures
        total_ordering(at_most()),
{
}

/// The values of `s` in ascending order are ordered, and are the values of
/// `s`, each as often as `s` has it.
pub proof fn lemma_ascending(s: Seq<int>)
    ensures
        sorted_by(ascending(s), at_most()),
        ascending(s).to_multiset() == s.to_multiset(),
        ascending(s).len() == s.len(),
{
    lemma_order_is_total();
    s.lemma_sort_by_ensures(at_most());
    s.to_multiset_ensures();
    ascending(s).to_multiset_ensures();
}

fn step_between(low: i32, high: i32) -> (d: i32)
    ensures
        d == clamp_i32(high - low),
{
    (Microns(high) - Microns(low)).0
}

/// Reads the two layer heights from heights in ascending order.
pub fn layers_of(h: &Vec<i32>) -> (r: (Microns, Microns))
    ensures
        (r.0@, r.1@) == layer_pair(as_ints(h@)),
{
    let ghost hs = as_ints(h@);
    if h.len() == 0 {
        return (Microns(0), Microns(0));
    }
    if h.len() == 1 {
        return (Microns(h[0]), Microns(0));
    }
    let first = step_between(h[0], h[1]);
    if h.len() == 2 {
        return (Microns(first), Microns(0));
    }
    let second = step_between(h[1], h[2]);
    let mut i: usize = 3;
    while i < h.len()
        invariant
            3 <= i <= h@.len(),
            hs == as_ints(h@),
            first == clamp_i32(hs[1] - hs[0]),
            second == clamp_i32(hs[2] - hs[1]),
            forall|k: int| 3 <= k < i ==> clamp_i32(#[trigger] hs[k] - hs[k - 1]) == second,
        decreases h@.len() - i,
    {
        if step_between(h[i - 1], h[i]) != second {
            assert(clamp_i32(hs[i as int] - hs[i - 1]) != second);
            assert(!steps_regular(hs, second as int));
            return (Microns(first), Microns(0));
        }
        i += 1;
    }
    (Microns(first), Microns(second))
}

} // verus!
