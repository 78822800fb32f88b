//! Shapes: the runs of lines that agree on whether they lay down material.

use crate::model::GCodeLine;
use crate::replay::extrudes;
use core::ops::RangeInclusive;
use vstd::prelude::*;

verus! {

/// `RangeInclusive::start` gives the lower bound that the range was made
/// with.
pub assume_specification<Idx>[ RangeInclusive::<Idx>::start ](r: &RangeInclusive<Idx>) -> (s: &Idx)
    ensures
        *s == r@.start,
;

/// `RangeInclusive::end` gives the upper bound that the range was made with.
pub assume_specification<Idx>[ RangeInclusive::<Idx>::end ](r: &RangeInclusive<Idx>) -> (e: &Idx)
    ensures
        *e == r@.end,
;

/// The last line of the run that line `i` begins: the lines from `i` on
/// that agree with it, up to the first that does not.
pub open spec fn run_end(lines: Seq<GCodeLine>, i: int) -> int
    decreases lines.len() - i,
{
    if 0 <= i && i + 1 < lines.len() && extrudes(lines, i + 1) == extrudes(lines, i) {
        run_end(lines, i + 1)
    } else {
        i
    }
}

/// The shapes among the first `n` lines, as pairs of first and last index.
/// A line that agrees with the one before it lengthens the last shape; any
/// other line starts a new one.
pub open spec fn shapes_upto(lines: Seq<GCodeLine>, n: nat) -> Seq<(int, int)>
    decreases n,
{
    if n == 0 {
        Seq::empty()
    } else {
        let before = shapes_upto(lines, (n - 1) as nat);
        let i = n - 1;
        if i > 0 && extrudes(lines, i) == extrudes(lines, i - 1) {
            before.update(before.len() - 1, (before.last().0, i))
        } else {
            before.push((i, i))
        }
    }
}

/// The shapes of a whole model.
pub open spec fn shape_list(lines: Seq<GCodeLine>) -> Seq<(int, int)> {
    shapes_upto(lines, lines.len())
}

/// The pairs in `s` divide the indices below `n`: the first begins at 0, each
/// next one begins right after the one before, none is empty or leaves the
/// indices below `n`, and the last ends at `n - 1`.
pub open spec fn is_partition(s: Seq<(int, int)>, n: int) -> bool {
    &&& n == 0 <==> s.len() == 0
    &&& s.len() > 0 ==> s.first().0 == 0 && s.last().1 == n - 1
    &&& forall|k: int| 0 <= k < s.len() ==> 0 <= (#[trigger] s[k]).0 <= s[k].1 < n
    &&& forall|k: int| 0 <= k < s.len() - 1 ==> (#[trigger] s[k + 1]).0 == s[k].1 + 1
}

/// Every line of every pair in `s` agrees with the first line of its pair,
/// and the first lines of neighbouring pairs disagree.
pub open spec fn is_alternating(lines: Seq<GCodeLine>, s: Seq<(int, int)>) -> bool {
    &&& forall|k: int, i: int|
        0 <= k < s.len() && (#[trigger] s[k]).0 <= i <= s[k].1 ==> #[trigger] extrudes(lines, i)
            == extrudes(lines, s[k].0)
    &&& forall|k: int|
        0 <= k < s.len() - 1 ==> extrudes(lines, (#[trigger] s[k + 1]).0) != extrudes(
            lines,
            s[k].0,
        )
}

/// The range `r` is the pair `s`.
pub open spec fn spans(r: RangeInclusive<usize>, s: (int, int)) -> bool {
    r@.start == s.0 && r@.end == s.1 && !r@.exhausted
}

/// The ranges in `v` are the pairs in `s`, in order.
pub open spec fn spans_all(v: Seq<RangeInclusive<usize>>, s: Seq<(int, int)>) -> bool {
    v.len() == s.len() && forall|k: int| 0 <= k < v.len() ==> spans(#[trigger] v[k], s[k])
}

/// A run ends inside the model, holds only lines that agree with its first,
/// and cannot be lengthened.
pub proof fn lemma_run_end(lines: Seq<GCodeLine>, i: int)
    requires
        0 <= i < lines.len(),
    ensures
        i <= run_end(lines, i) < lines.len(),
        forall|j: int| i <= j <= run_end(lines, i) ==> extrudes(lines, j) == extrudes(lines, i),
        run_end(lines, i) + 1 < lines.len() ==> extrudes(lines, run_end(lines, i) + 1) != extrudes(
            lines,
            i,
        ),
    decreases lines.len() - i,
{
    if i + 1 < lines.len() && extrudes(lines, i + 1) == extrudes(lines, i) {
        lemma_run_end(lines, i + 1);
    }
}

/// The shapes of the first `n` lines divide the indices below `n`, and
/// alternate.
pub proof fn lemma_shapes_upto(lines: Seq<GCodeLine>, n: nat)
    ensures
        is_partition(shapes_upto(lines, n), n as int),
        is_alternating(lines, shapes_upto(lines, n)),
    decreases n,
{
    if n > 0 {
        lemma_shapes_upto(lines, (n - 1) as nat);
        let before = shapes_upto(lines, (n - 1) as nat);
        let now = shapes_upto(lines, n);
        let i = n - 1;
        if i > 0 && extrudes(lines, i) == extrudes(lines, i - 1) {
            assert forall|k: int, j: int|
                0 <= k < now.len() && (#[trigger] now[k]).0 <= j <= now[k].1 implies #[trigger] extrudes(
                lines,
                j,
            ) == extrudes(lines, now[k].0) by {
                if k == now.len() - 1 {
                    if j == i {
                        assert(extrudes(lines, i - 1) == extrudes(lines, before[k].0));
                    } else {
                        assert(extrudes(lines, j) == extrudes(lines, before[k].0));
                    }
                } else {
                    assert(now[k] == before[k]);
                }
            }
            assert forall|k: int| 0 <= k < now.len() - 1 implies extrudes(
                lines,
                (#[trigger] now[k + 1]).0,
            ) != extrudes(lines, now[k].0) by {
                assert(now[k + 1].0 == before[k + 1].0);
                assert(now[k] == before[k]);
            }
            assert forall|k: int| 0 <= k < now.len() - 1 implies (#[trigger] now[k + 1]).0
                == now[k].1 + 1 by {
                assert(now[k + 1].0 == before[k + 1].0);
                assert(now[k] == before[k]);
            }
        } else {
            assert forall|k: int, j: int|
                0 <= k < now.len() && (#[trigger] now[k]).0 <= j <= now[k].1 implies #[trigger] extrudes(
                lines,
                j,
            ) == extrudes(lines, now[k].0) by {
                if k < before.len() {
                    assert(now[k] == before[k]);
                }
            }
            assert forall|k: int| 0 <= k < now.len() - 1 implies extrudes(
                lines,
                (#[trigger] now[k + 1]).0,
            ) != extrudes(lines, now[k].0) by {
                if k + 1 < before.len() {
                    assert(now[k + 1] == before[k + 1]);
                    assert(now[k] == before[k]);
                } else {
                    assert(now[k] == before[k]);
                    assert(extrudes(lines, i - 1) == extrudes(lines, before[k].0));
                }
            }
            assert forall|k: int| 0 <= k < now.len() - 1 implies (#[trigger] now[k + 1]).0
                == now[k].1 + 1 by {
                if k + 1 < before.len() {
                    assert(now[k + 1] == before[k + 1]);
                }
                assert(now[k] == before[k]);
            }
        }
    }
}

/// The shapes of a model divide its line indices into runs that follow one
/// another without gap or overlap, and neighbouring runs differ in kind.
pub proof fn lemma_shapes_partition(lines: Seq<GCodeLine>)
    ensures
        is_partition(shape_list(lines), lines.len() as int),
        is_alternating(lines, shape_list(lines)),
{
    lemma_shapes_upto(lines, lines.len());
}

/// Where a model has a second shape, it begins right behind the first.
pub proof fn lemma_second_shape(lines: Seq<GCodeLine>)
    requires
        shape_list(lines).len() >= 2,
    ensures
        shape_list(lines)[1].0 == shape_list(lines)[0].1 + 1,
{
    lemma_shapes_partition(lines);
    let s = shape_list(lines);
    assert(s[0int + 1].0 == s[0].1 + 1);
}

/// The first shape of a model is the run that its first line begins.
pub proof fn lemma_first_shape(lines: Seq<GCodeLine>)
    requires
        lines.len() > 0,
    ensures
        shape_list(lines).len() > 0,
        shape_list(lines)[0] == (0int, run_end(lines, 0)),
{
    let e = run_end(lines, 0);
    lemma_run_end(lines, 0);
    lemma_shapes_grow(lines, 0, e);
    let first = shapes_upto(lines, (e + 1) as nat);
    assert(first =~= seq![(0int, e)]);
    if e + 1 < lines.len() {
        lemma_shapes_prefix(lines, (e + 1) as nat, lines.len());
        assert(shape_list(lines)[0] == first[0]);
    }
}

/// Where line `n` disagrees with the line before it, the shapes of the
/// first `n` lines stay as they are when more lines are read.
proof fn lemma_shapes_prefix(lines: Seq<GCodeLine>, n: nat, m: nat)
    requires
        0 < n < m,
        extrudes(lines, n as int) != extrudes(lines, n - 1),
    ensures
        shapes_upto(lines, m).len() > shapes_upto(lines, n).len(),
        forall|k: int|
            0 <= k < shapes_upto(lines, n).len() ==> shapes_upto(lines, m)[k] == shapes_upto(
                lines,
                n,
            )[k],
    decreases m - n,
{
    if m > n + 1 {
        lemma_shapes_prefix(lines, n, (m - 1) as nat);
    }
}

/// Every line of a model lies in exactly one of its shapes.
pub proof fn lemma_shapes_cover_once(lines: Seq<GCodeLine>, i: int)
    requires
        0 <= i < lines.len(),
    ensures
        exists|k: int|
            0 <= k < shape_list(lines).len() && (#[trigger] shape_list(lines)[k]).0 <= i
                <= shape_list(lines)[k].1,
        forall|k: int, m: int|
            0 <= k < shape_list(lines).len() && 0 <= m < shape_list(lines).len() && (
            #[trigger] shape_list(lines)[k]).0 <= i <= shape_list(lines)[k].1 && (
            #[trigger] shape_list(lines)[m]).0 <= i <= shape_list(lines)[m].1 ==> k == m,
{
    lemma_shapes_partition(lines);
    lemma_partition_covers_once(shape_list(lines), lines.len() as int, i);
}

/// In a division of the indices below `n`, every index lies in exactly one
/// pair.
pub proof fn lemma_partition_covers_once(s: Seq<(int, int)>, n: int, i: int)
    requires
        is_partition(s, n),
        0 <= i < n,
    ensures
        exists|k: int| 0 <= k < s.len() && (#[trigger] s[k]).0 <= i <= s[k].1,
        forall|k: int, m: int|
            0 <= k < s.len() && 0 <= m < s.len() && (#[trigger] s[k]).0 <= i <= s[k].1 && (
            #[trigger] s[m]).0 <= i <= s[m].1 ==> k == m,
{
    lemma_partition_ordered(s, n);
    let k = find_pair(s, n, i, 0);
    assert(s[k].0 <= i <= s[k].1);
}

/// In a division, a later pair begins after an earlier one ends.
proof fn lemma_partition_ordered(s: Seq<(int, int)>, n: int)
    requires
        is_partition(s, n),
    ensures
        forall|k: int, m: int| 0 <= k < m < s.len() ==> (#[trigger] s[k]).1 < (#[trigger] s[m]).0,
{
    assert forall|k: int, m: int| 0 <= k < m < s.len() implies (#[trigger] s[k]).1 < (
    #[trigger] s[m]).0 by {
        lemma_partition_gap(s, n, k, m);
    }
}

proof fn lemma_partition_gap(s: Seq<(int, int)>, n: int, k: int, m: int)
    requires
        is_partition(s, n),
        0 <= k < m < s.len(),
    ensures
        s[k].1 < s[m].0,
    decreases m - k,
{
    if m == k + 1 {
        assert(s[k + 1].0 == s[k].1 + 1);
    } else {
        lemma_partition_gap(s, n, k, m - 1);
        assert(s[m - 1].0 <= s[m - 1].1);
        assert(s[(m - 1) + 1].0 == s[m - 1].1 + 1);
    }
}

/// The pair at or after `from` that holds `i`.
proof fn find_pair(s: Seq<(int, int)>, n: int, i: int, from: int) -> (k: int)
    requires
        is_partition(s, n),
        0 <= from < s.len(),
        s[from].0 <= i < n,
    ensures
        from <= k < s.len(),
        s[k].0 <= i <= s[k].1,
    decreases s.len() - from,
{
    if i <= s[from].1 {
        from
    } else {
        if from == s.len() - 1 {
            assert(s.last().1 == n - 1);
            from
        } else {
            assert(s[from + 1].0 == s[from].1 + 1);
            find_pair(s, n, i, from + 1)
        }
    }
}

/// A whole run that begins where the shapes of the lines before it end adds
/// one shape to them.
pub proof fn lemma_shapes_grow(lines: Seq<GCodeLine>, a: int, e: int)
    requires
        0 <= a <= e < lines.len(),
        a == 0 || extrudes(lines, a) != extrudes(lines, a - 1),
        forall|j: int| a <= j <= e ==> extrudes(lines, j) == extrudes(lines, a),
    ensures
        shapes_upto(lines, (e + 1) as nat) == shapes_upto(lines, a as nat).push((a, e)),
    decreases e - a,
{
    if e == a {
    } else {
        lemma_shapes_grow(lines, a, e - 1);
        assert(extrudes(lines, e) == extrudes(lines, e - 1));
        let before = shapes_upto(lines, e as nat);
        assert(before == shapes_upto(lines, a as nat).push((a, e - 1)));
        assert(before.update(before.len() - 1, (before.last().0, e)) =~= shapes_upto(
            lines,
            a as nat,
        ).push((a, e)));
    }
}

} // verus!
