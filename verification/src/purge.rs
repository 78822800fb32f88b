//! Purge lines: what tells the priming of the nozzle from the first printed
//! feature.

use crate::model::GCodeLine;
use crate::replay::{arrived, extrudes};
use vstd::prelude::*;

verus! {

/// The magnitude of `v`.
pub open spec fn magnitude(v: int) -> int {
    if v < 0 {
        -v
    } else {
        v
    }
}

/// Line `i` belongs to the first extrusion of the file: it lays down
/// material, and so does every line between an earlier extrusion and it.
pub open spec fn first_extrusion(lines: Seq<GCodeLine>, i: int) -> bool {
    &&& 0 <= i < lines.len()
    &&& extrudes(lines, i)
    &&& forall|k: int, j: int|
        0 <= k <= j <= i && #[trigger] extrudes(lines, k) ==> #[trigger] extrudes(lines, j)
}

/// After line `i` the head is inside the print area: X and Y both lie beyond
/// the margin.
pub open spec fn beyond_margin(lines: Seq<GCodeLine>, i: int, margin: int) -> bool {
    arrived(lines, i).x > margin && arrived(lines, i).y > margin
}

/// Some line from `a` to `b` leads inside the print area.
pub open spec fn strays(lines: Seq<GCodeLine>, a: int, b: int, margin: int) -> bool {
    exists|i: int| a <= i <= b && #[trigger] beyond_margin(lines, i, margin)
}

/// The steepness of the step `(dx1, dy1)` and that of the step `(dx2, dy2)`,
/// each the magnitude of `dy / dx`, lie no further apart than the tolerance,
/// given in millionths. The quotients are compared without dividing, so that
/// two upright steps agree.
pub open spec fn slopes_agree(dx1: int, dy1: int, dx2: int, dy2: int, tolerance_ppm: int) -> bool {
    1_000_000 * magnitude(magnitude(dy1) * magnitude(dx2) - magnitude(dy2) * magnitude(dx1))
        <= tolerance_ppm * (magnitude(dx1) * magnitude(dx2))
}

/// The step into the point after line `i + 1` and the step out of it are
/// equally steep.
pub open spec fn straight_at(lines: Seq<GCodeLine>, i: int, tolerance_ppm: int) -> bool {
    let p = arrived(lines, i);
    let q = arrived(lines, i + 1);
    let r = arrived(lines, i + 2);
    slopes_agree(q.x - p.x, q.y - p.y, r.x - q.x, r.y - q.y, tolerance_ppm)
}

/// All steps between the points after the lines `a` to `b` are equally steep.
pub open spec fn collinear(lines: Seq<GCodeLine>, a: int, b: int, tolerance_ppm: int) -> bool {
    forall|i: int| a <= i && i + 2 <= b ==> #[trigger] straight_at(lines, i, tolerance_ppm)
}

/// The lines `a` to `b` are a purge line: they belong to the first extrusion
/// of the file, none of their points lies inside the print area, and with
/// three points or more they lie on one line.
pub open spec fn purge_line(
    lines: Seq<GCodeLine>,
    a: int,
    b: int,
    margin: int,
    tolerance_ppm: int,
) -> bool {
    &&& 0 <= a <= b < lines.len()
    &&& first_extrusion(lines, a)
    &&& !strays(lines, a, b, margin)
    &&& (b - a + 1 >= 3 ==> collinear(lines, a, b, tolerance_ppm))
}

/// One point inside the print area is enough: the lines are no purge line,
/// whatever else holds of them.
pub proof fn lemma_stray_is_no_purge_line(
    lines: Seq<GCodeLine>,
    a: int,
    b: int,
    i: int,
    margin: int,
    tolerance_ppm: int,
)
    requires
        a <= i <= b,
        arrived(lines, i).x > margin,
        arrived(lines, i).y > margin,
    ensures
        !purge_line(lines, a, b, margin, tolerance_ppm),
{
    assert(beyond_margin(lines, i, margin));
}

/// Three points on one line, or more, inside the margin and in the first
/// extrusion of the file are a purge line.
pub proof fn lemma_straight_first_extrusion_is_purge_line(
    lines: Seq<GCodeLine>,
    a: int,
    b: int,
    margin: int,
    tolerance_ppm: int,
)
    requires
        0 <= a <= b < lines.len(),
        first_extrusion(lines, a),
        forall|i: int|
            a <= i <= b ==> arrived(lines, i).x <= margin || arrived(lines, i).y <= margin,
        forall|i: int| a <= i && i + 2 <= b ==> #[trigger] straight_at(lines, i, tolerance_ppm),
    ensures
        purge_line(lines, a, b, margin, tolerance_ppm),
{
    assert forall|i: int| a <= i <= b implies !#[trigger] beyond_margin(lines, i, margin) by {}
}

fn magnitude_of(v: i64) -> (r: i128)
    requires
        -0x1_0000_0000 <= v <= 0x1_0000_0000,
    ensures
        r == magnitude(v as int),
        0 <= r <= 0x1_0000_0000,
{
    if v < 0 {
        -(v as i128)
    } else {
        v as i128
    }
}

/// Whether two steps are equally steep within the tolerance.
pub fn steps_agree(dx1: i64, dy1: i64, dx2: i64, dy2: i64, tolerance_ppm: u32) -> (r: bool)
    requires
        -0x1_0000_0000 <= dx1 <= 0x1_0000_0000,
        -0x1_0000_0000 <= dy1 <= 0x1_0000_0000,
        -0x1_0000_0000 <= dx2 <= 0x1_0000_0000,
        -0x1_0000_0000 <= dy2 <= 0x1_0000_0000,
    ensures
        r == slopes_agree(dx1 as int, dy1 as int, dx2 as int, dy2 as int, tolerance_ppm as int),
{
    let ax1 = magnitude_of(dx1);
    let ay1 = magnitude_of(dy1);
    let ax2 = magnitude_of(dx2);
    let ay2 = magnitude_of(dy2);
    assert(0 <= ay1 * ax2 <= 0x1_0000_0000 * 0x1_0000_0000) by (nonlinear_arith)
        requires
            0 <= ay1 <= 0x1_0000_0000,
            0 <= ax2 <= 0x1_0000_0000,
    ;
    assert(0 <= ay2 * ax1 <= 0x1_0000_0000 * 0x1_0000_0000) by (nonlinear_arith)
        requires
            0 <= ay2 <= 0x1_0000_0000,
            0 <= ax1 <= 0x1_0000_0000,
    ;
    assert(0 <= ax1 * ax2 <= 0x1_0000_0000 * 0x1_0000_0000) by (nonlinear_arith)
        requires
            0 <= ax1 <= 0x1_0000_0000,
            0 <= ax2 <= 0x1_0000_0000,
    ;
    let first: i128 = ay1 * ax2;
    let second: i128 = ay2 * ax1;
    let apart: i128 = if first < second {
        second - first
    } else {
        first - second
    };
    let span: i128 = ax1 * ax2;
    let tolerance: i128 = tolerance_ppm as i128;
    assert(0 <= tolerance * span <= 0x1_0000_0000 * (0x1_0000_0000 * 0x1_0000_0000))
        by (nonlinear_arith)
        requires
            0 <= tolerance <= 0x1_0000_0000,
            0 <= span <= 0x1_0000_0000 * 0x1_0000_0000,
    ;
    1_000_000 * apart <= tolerance * span
}

} // verus!
