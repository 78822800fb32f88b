//! The cursor: a place in a model together with the machine position that the
//! lines up to that place lead to, and what can be told of the print from
//! there.

use crate::layers::{
    as_ints, drop_repeats, heights_between, layer_heights, layers_of, planar_after, scan_ends,
    sort_ascending,
};
use crate::microns::Microns;
use crate::model::{Command, GCodeLine, GCodeModel};
use crate::purge::{
    beyond_margin, collinear, first_extrusion, purge_line, steps_agree, straight_at, strays,
};
use crate::replay::{
    arrived, departed, extrudes, leaves_plane, replay, stands_at, step, update, Machine,
};
use crate::shapes::{
    is_alternating, is_partition, lemma_run_end, lemma_shapes_grow, lemma_shapes_partition,
    run_end, shape_list, shapes_upto, spans, spans_all,
};
use core::ops::Range;
use core::ops::RangeInclusive;
use vstd::prelude::*;

verus! {

/// Why a cursor could not move.
#[derive(Debug, Copy, Clone, PartialEq, Eq, Structural)]
pub enum CursorError {
    StartOfFile,
    EndOfFile,
}

/// Why no range could be given.
#[derive(Debug, Copy, Clone, PartialEq, Eq, Structural)]
pub enum ShapeError {
    /// The model has no line, and so no shape.
    NoShapes,
}

/// The limits by which a purge line is told from printed geometry.
#[derive(Debug, Copy, Clone, PartialEq, Eq, Structural)]
pub struct PurgeConfig {
    /// A point whose X and Y both lie beyond this margin is inside the print
    /// area.
    pub margin: Microns,
    /// How far two slopes may lie apart and still count as equal, in
    /// millionths.
    pub slope_tolerance_ppm: u32,
}

impl Default for PurgeConfig {
    /// A margin of 2 mm, and slopes that must agree exactly.
    fn default() -> (r: PurgeConfig)
        ensures
            r == (PurgeConfig { margin: Microns(2000), slope_tolerance_ppm: 0 }),
    {
        PurgeConfig { margin: Microns(2000), slope_tolerance_ppm: 0 }
    }
}

/// What a cursor stands for: the lines it walks, the index of its line, and
/// its limits. The positions it holds follow from these.
pub struct CursorView {
    pub lines: Seq<GCodeLine>,
    pub index: int,
    pub config: PurgeConfig,
}

/// A place in a model. On a model without lines the cursor rests at index 0,
/// before any command.
#[derive(Clone, Copy)]
pub struct Cursor<'a> {
    parent: &'a GCodeModel,
    idx: usize,
    state: [Microns; 5],
    prev: [Microns; 5],
    rel_xyz: bool,
    rel_e: bool,
    config: PurgeConfig,
}

impl<'a> View for Cursor<'a> {
    type V = CursorView;

    closed spec fn view(&self) -> CursorView {
        CursorView { lines: self.parent.lines@, index: self.idx as int, config: self.config }
    }
}

/// The last index of `lines`, or 0 where there is no line.
pub open spec fn last_index(lines: Seq<GCodeLine>) -> int {
    if lines.len() == 0 {
        0
    } else {
        lines.len() - 1
    }
}

impl<'a> Cursor<'a> {
    #[verifier::type_invariant]
    closed spec fn inv(&self) -> bool {
        let lines = self.parent.lines@;
        let i = self.idx as int;
        &&& i <= last_index(lines)
        &&& stands_at(self.state, arrived(lines, i))
        &&& stands_at(self.prev, departed(lines, i))
        &&& self.rel_xyz == arrived(lines, i).rel_xyz
        &&& self.rel_e == arrived(lines, i).rel_e
    }

    /// A cursor on the first line of `parent`, with the given limits.
    pub fn with_config(parent: &'a GCodeModel, config: PurgeConfig) -> (c: Cursor<'a>)
        ensures
            c == Cursor::begin(parent, config),
            c@.lines == parent.lines@,
            c@.index == 0,
            c@.config == config,
    {
        let unset = Microns(i32::MIN);
        let origin = [unset, unset, unset, unset, unset];
        assert(origin =~= pose(departed(parent.lines@, 0)));
        if parent.lines.len() == 0 {
            assert(arrived(parent.lines@, 0) == replay(parent.lines@, 0));
            Cursor { parent, idx: 0, state: origin, prev: origin, rel_xyz: false, rel_e: false, config }
        } else {
            let (state, rel_xyz, rel_e) = update(&origin, false, false, &parent.lines[0].command);
            assert(arrived(parent.lines@, 0) == step(
                replay(parent.lines@, 0),
                parent.lines@[0].command,
            ));
            assert(state =~= pose(arrived(parent.lines@, 0)));
            Cursor { parent, idx: 0, state, prev: origin, rel_xyz, rel_e, config }
        }
    }

    /// The cursor that stands on the first line of `parent` with the limits
    /// `config`.
    pub closed spec fn begin(parent: &'a GCodeModel, config: PurgeConfig) -> Cursor<'a> {
        Cursor {
            parent,
            idx: 0,
            state: pose(arrived(parent.lines@, 0)),
            prev: pose(departed(parent.lines@, 0)),
            rel_xyz: arrived(parent.lines@, 0).rel_xyz,
            rel_e: arrived(parent.lines@, 0).rel_e,
            config,
        }
    }

    /// The index of the line the cursor is on.
    pub fn index(&self) -> (i: usize)
        ensures
            i == self@.index,
            0 <= self@.index <= last_index(self@.lines),
    {
        proof {
            use_type_invariant(self);
        }
        self.idx
    }

    /// The command of the line the cursor is on; none on a model without
    /// lines.
    pub fn command(&self) -> (c: Option<&'a Command>)
        ensures
            self@.lines.len() == 0 <==> c is None,
            c is Some ==> *c->Some_0 == self@.lines[self@.index].command,
    {
        proof {
            use_type_invariant(self);
        }
        if self.parent.lines.len() == 0 {
            None
        } else {
            Some(&self.parent.lines[self.idx].command)
        }
    }

    /// The limits that the cursor tells purge lines by.
    pub fn config(&self) -> (c: PurgeConfig)
        ensures
            c == self@.config,
    {
        self.config
    }

    /// Whether moves after the cursor's line are read as relative: first for
    /// X, Y and Z, then for the extrusion axis.
    pub fn relative(&self) -> (r: (bool, bool))
        ensures
            r.0 == arrived(self@.lines, self@.index).rel_xyz,
            r.1 == arrived(self@.lines, self@.index).rel_e,
    {
        proof {
            use_type_invariant(self);
        }
        (self.rel_xyz, self.rel_e)
    }

    /// The position after the line the cursor is on.
    pub fn position(&self) -> (p: [Microns; 5])
        ensures
            stands_at(p, arrived(self@.lines, self@.index)),
    {
        proof {
            use_type_invariant(self);
        }
        self.state
    }

    /// The position before the line the cursor is on.
    pub fn previous(&self) -> (p: [Microns; 5])
        ensures
            stands_at(p, departed(self@.lines, self@.index)),
    {
        proof {
            use_type_invariant(self);
        }
        self.prev
    }

    /// Moves to the next line and gives the position after it. On the last
    /// line the cursor stays as it is.
    pub fn next(&mut self) -> (r: Result<[Microns; 5], CursorError>)
        ensures
            final(self)@.lines == old(self)@.lines,
            final(self)@.config == old(self)@.config,
            old(self)@.index + 1 < old(self)@.lines.len() ==> r is Ok && stands_at(
                r->Ok_0,
                arrived(old(self)@.lines, old(self)@.index + 1),
            ) && final(self)@.index == old(self)@.index + 1,
            old(self)@.index + 1 >= old(self)@.lines.len() ==> r == Err::<[Microns; 5], CursorError>(
                CursorError::EndOfFile,
            ) && *final(self) == *old(self),
    {
        proof {
            use_type_invariant(&*self);
        }
        let n = self.parent.lines.len();
        if n == 0 || self.idx == n - 1 {
            return Err(CursorError::EndOfFile);
        }
        let (state, rel_xyz, rel_e) = update(
            &self.state,
            self.rel_xyz,
            self.rel_e,
            &self.parent.lines[self.idx + 1].command,
        );
        *self = Cursor {
            parent: self.parent,
            idx: self.idx + 1,
            state,
            prev: self.state,
            rel_xyz,
            rel_e,
            config: self.config,
        };
        Ok(state)
    }

    /// The command of the next line, where there is one.
    pub fn peek_next(&self) -> (r: Result<&'a Command, CursorError>)
        ensures
            self@.index + 1 < self@.lines.len() ==> r is Ok && *r->Ok_0 == self@.lines[self@.index
                + 1].command,
            self@.index + 1 >= self@.lines.len() ==> r is Err && r->Err_0 == CursorError::EndOfFile,
    {
        proof {
            use_type_invariant(self);
        }
        let n = self.parent.lines.len();
        if n == 0 || self.idx == n - 1 {
            return Err(CursorError::EndOfFile);
        }
        Ok(&self.parent.lines[self.idx + 1].command)
    }

    /// The command of the line before, where there is one.
    pub fn peek_prev(&self) -> (r: Result<&'a Command, CursorError>)
        ensures
            self@.index > 0 ==> r is Ok && *r->Ok_0 == self@.lines[self@.index - 1].command,
            self@.index == 0 ==> r is Err && r->Err_0 == CursorError::StartOfFile,
    {
        proof {
            use_type_invariant(self);
        }
        if self.idx == 0 {
            return Err(CursorError::StartOfFile);
        }
        Ok(&self.parent.lines[self.idx - 1].command)
    }

    /// A cursor of its own on line `idx`, reached by replaying the lines from
    /// the first one. A target past the last line leads to the last line.
    pub fn child_at(&self, idx: usize) -> (c: Cursor<'a>)
        ensures
            c@.lines == self@.lines,
            c@.config == self@.config,
            c@.index == if idx <= last_index(self@.lines) {
                idx as int
            } else {
                last_index(self@.lines)
            },
    {
        let mut child = Cursor::with_config(self.parent, self.config);
        let n = self.parent.lines.len();
        while child.idx < idx && child.idx + 1 < n
            invariant
                n == self.parent.lines@.len(),
                child@.lines == self@.lines,
                child@.config == self@.config,
                child@.index <= idx,
                child@.index <= last_index(self@.lines),
            decreases n - child.idx,
        {
            let _ = child.next();
        }
        child
    }

    /// Moves to the line before and gives its command. The position is found
    /// again by replaying the lines from the first one. On the first line the
    /// cursor stays as it is.
    pub fn prev(&mut self) -> (r: Result<&'a Command, CursorError>)
        ensures
            final(self)@.lines == old(self)@.lines,
            final(self)@.config == old(self)@.config,
            old(self)@.index > 0 ==> r is Ok && *r->Ok_0 == old(self)@.lines[old(self)@.index
                - 1].command && final(self)@.index == old(self)@.index - 1,
            old(self)@.index == 0 ==> r is Err && r->Err_0 == CursorError::StartOfFile
                && *final(self) == *old(self),
    {
        proof {
            use_type_invariant(&*self);
        }
        if self.idx == 0 {
            return Err(CursorError::StartOfFile);
        }
        let target = self.idx - 1;
        *self = self.child_at(target);
        Ok(&self.parent.lines[target].command)
    }

    /// Back to the first line, as a new cursor would stand there.
    pub fn reset(&mut self)
        ensures
            final(self)@.lines == old(self)@.lines,
            final(self)@.config == old(self)@.config,
            final(self)@.index == 0,
    {
        *self = Cursor::with_config(self.parent, self.config);
    }

    /// Whether the line the cursor is on lays down material: the extrusion
    /// axis has risen and the head has moved. Without a rise of the extrusion
    /// axis no move counts, wherever it leads.
    pub fn is_extrusion(&self) -> (r: bool)
        ensures
            r == extrudes(self@.lines, self@.index),
            arrived(self@.lines, self@.index).e <= departed(self@.lines, self@.index).e ==> !r,
    {
        proof {
            use_type_invariant(self);
        }
        self.state[3].0 > self.prev[3].0 && (self.state[0].0 != self.prev[0].0 || self.state[1].0
            != self.prev[1].0 || self.state[2].0 != self.prev[2].0)
    }

    /// Whether the line the cursor is on lays down material while the height
    /// changes.
    pub fn nonplanar_extrusion(&self) -> (r: bool)
        ensures
            r == leaves_plane(self@.lines, self@.index),
    {
        proof {
            use_type_invariant(self);
        }
        self.state[3].0 > self.prev[3].0 && self.state[2].0 != self.prev[2].0
    }
}

impl<'a> Cursor<'a> {
    /// Walks to the end of the run that the cursor's line begins, and gives
    /// the indices from that line to the end of the run.
    pub fn next_shape(&mut self) -> (r: RangeInclusive<usize>)
        ensures
            final(self)@.lines == old(self)@.lines,
            final(self)@.config == old(self)@.config,
            final(self)@.index == run_end(old(self)@.lines, old(self)@.index),
            spans(r, (old(self)@.index, run_end(old(self)@.lines, old(self)@.index))),
    {
        let start = self.index();
        let kind = self.is_extrusion();
        let n = self.parent.lines.len();
        loop
            invariant
                n == self.parent.lines@.len(),
                self@.lines == old(self)@.lines,
                self@.config == old(self)@.config,
                start == old(self)@.index,
                start <= self@.index <= last_index(self@.lines),
                extrudes(self@.lines, self@.index) == kind,
                run_end(self@.lines, self@.index) == run_end(self@.lines, start as int),
            ensures
                self@.lines == old(self)@.lines,
                self@.config == old(self)@.config,
                start == old(self)@.index,
                self@.index == run_end(self@.lines, start as int),
            decreases n - self.idx,
        {
            let mut probe = *self;
            match probe.next() {
                Err(_) => {
                    break ;
                },
                Ok(_) => {
                    if probe.is_extrusion() != kind {
                        break ;
                    }
                    *self = probe;
                },
            }
        }
        RangeInclusive::new(start, self.idx)
    }

    /// All shapes of the model in order, from the first line on. They divide
    /// the line indices without gap or overlap. The cursor ends on the last
    /// line.
    pub fn shapes(&mut self) -> (v: Vec<RangeInclusive<usize>>)
        ensures
            final(self)@.lines == old(self)@.lines,
            final(self)@.config == old(self)@.config,
            final(self)@.index == last_index(old(self)@.lines),
            spans_all(v@, shape_list(old(self)@.lines)),
            is_partition(shape_list(old(self)@.lines), old(self)@.lines.len() as int),
            is_alternating(old(self)@.lines, shape_list(old(self)@.lines)),
    {
        self.reset();
        let ghost lines = self@.lines;
        proof {
            lemma_shapes_partition(lines);
        }
        let mut shapes: Vec<RangeInclusive<usize>> = Vec::new();
        if self.parent.lines.len() == 0 {
            return shapes;
        }
        let n = self.parent.lines.len();
        loop
            invariant_except_break
                self@.index == 0 || extrudes(lines, self@.index) != extrudes(lines, self@.index - 1),
                spans_all(shapes@, shapes_upto(lines, self@.index as nat)),
            invariant
                n == lines.len(),
                n > 0,
                self@.lines == lines,
                lines == old(self)@.lines,
                self@.config == old(self)@.config,
                0 <= self@.index < n,
            ensures
                self@.lines == lines,
                self@.config == old(self)@.config,
                self@.index == n - 1,
                spans_all(shapes@, shapes_upto(lines, n as nat)),
            decreases n - self.idx,
        {
            let ghost a = self@.index;
            let shape = self.next_shape();
            proof {
                lemma_run_end(lines, a);
                lemma_shapes_grow(lines, a, run_end(lines, a));
            }
            shapes.push(shape);
            if self.next().is_err() {
                break ;
            }
        }
        shapes
    }
}

/// The range before the print proper: empty before a first shape that is
/// printed geometry, and up to the end of a first shape that is a purge line,
/// which is where the second shape begins.
pub open spec fn pre_print_end(lines: Seq<GCodeLine>, config: PurgeConfig) -> int {
    let first = shape_list(lines).first();
    if purge_line(lines, first.0, first.1, config.margin@, config.slope_tolerance_ppm as int) {
        first.1 + 1
    } else {
        first.0
    }
}

impl<'a> Cursor<'a> {
    /// Whether the cursor's line belongs to the first extrusion of the file.
    pub fn at_first_extrusion(&self) -> (r: bool)
        ensures
            r == first_extrusion(self@.lines, self@.index),
    {
        let target = self.index();
        if !self.is_extrusion() {
            return false;
        }
        let ghost lines = self@.lines;
        let mut probe = Cursor::with_config(self.parent, self.config);
        let mut seen = false;
        loop
            invariant_except_break
                seen ==> probe@.index > 0 && extrudes(lines, probe@.index - 1),
                !seen ==> forall|k: int| 0 <= k < probe@.index ==> !extrudes(lines, k),
            invariant
                lines == self@.lines,
                probe@.lines == lines,
                0 <= probe@.index <= target < lines.len(),
                target == self@.index,
                extrudes(lines, target as int),
                forall|k: int, j: int|
                    0 <= k <= j < probe@.index && #[trigger] extrudes(lines, k) ==> #[trigger] extrudes(
                        lines,
                        j,
                    ),
            ensures
                forall|k: int, j: int|
                    0 <= k <= j <= target && #[trigger] extrudes(lines, k) ==> #[trigger] extrudes(
                        lines,
                        j,
                    ),
            decreases target - probe.idx,
        {
            let here = probe.is_extrusion();
            if seen && !here {
                return false;
            }
            seen = seen || here;
            if probe.idx == target {
                break ;
            }
            let _ = probe.next();
        }
        true
    }

    /// Whether the lines of `shape` are a purge line rather than printed
    /// geometry. A range that does not lie inside the model is none.
    pub fn is_purge_line(&self, shape: &RangeInclusive<usize>) -> (r: bool)
        ensures
            r == purge_line(
                self@.lines,
                shape@.start as int,
                shape@.end as int,
                self@.config.margin@,
                self@.config.slope_tolerance_ppm as int,
            ),
    {
        let a = *shape.start();
        let b = *shape.end();
        let n = self.parent.lines.len();
        if a > b || b >= n {
            return false;
        }
        let mut probe = self.child_at(a);
        if !probe.at_first_extrusion() {
            return false;
        }
        let ghost lines = self@.lines;
        let margin = self.config.margin.0;
        let tolerance = self.config.slope_tolerance_ppm;
        let mut before: [Microns; 5] = probe.position();
        let mut before_that: [Microns; 5] = before;
        loop
            invariant
                lines == self@.lines,
                probe@.lines == lines,
                n == lines.len(),
                a == shape@.start,
                b == shape@.end,
                a <= probe@.index <= b < n,
                margin == self@.config.margin@,
                tolerance == self@.config.slope_tolerance_ppm,
                forall|i: int| a <= i < probe@.index ==> !beyond_margin(lines, i, margin as int),
                forall|i: int|
                    a <= i && i + 2 < probe@.index ==> #[trigger] straight_at(
                        lines,
                        i,
                        tolerance as int,
                    ),
                probe@.index >= a + 1 ==> stands_at(before, arrived(lines, probe@.index - 1)),
                probe@.index >= a + 2 ==> stands_at(before_that, arrived(lines, probe@.index - 2)),
            ensures
                !strays(lines, a as int, b as int, margin as int),
                collinear(lines, a as int, b as int, tolerance as int),
            decreases b - probe.idx,
        {
            let at = probe.position();
            let i = probe.index();
            if at[0].0 > margin && at[1].0 > margin {
                assert(beyond_margin(lines, i as int, margin as int));
                assert(strays(lines, a as int, b as int, margin as int));
                return false;
            }
            if i - a >= 2 {
                let agree = steps_agree(
                    before[0].0 as i64 - before_that[0].0 as i64,
                    before[1].0 as i64 - before_that[1].0 as i64,
                    at[0].0 as i64 - before[0].0 as i64,
                    at[1].0 as i64 - before[1].0 as i64,
                    tolerance,
                );
                assert(agree == straight_at(lines, i - 2, tolerance as int));
                if !agree {
                    assert(!collinear(lines, a as int, b as int, tolerance as int));
                    return false;
                }
            }
            if i == b {
                break ;
            }
            before_that = before;
            before = at;
            let _ = probe.next();
        }
        true
    }

    /// The lines before the print proper. With no shape there is no such
    /// range. The cursor ends on the last line.
    pub fn pre_print(&mut self) -> (r: Result<Range<usize>, ShapeError>)
        ensures
            final(self)@.lines == old(self)@.lines,
            final(self)@.config == old(self)@.config,
            final(self)@.index == last_index(old(self)@.lines),
            old(self)@.lines.len() == 0 <==> r is Err,
            r is Err ==> r->Err_0 == ShapeError::NoShapes,
            r is Ok ==> r->Ok_0.start == 0 && r->Ok_0.end == pre_print_end(
                old(self)@.lines,
                old(self)@.config,
            ),
    {
        let shapes = self.shapes();
        if shapes.len() == 0 {
            return Err(ShapeError::NoShapes);
        }
        let n = self.parent.lines.len();
        let first = &shapes[0];
        assert(spans(*first, shape_list(self@.lines)[0]));
        assert(first@.end < n);
        if self.is_purge_line(first) {
            Ok(0..*first.end() + 1)
        } else {
            Ok(0..*first.start())
        }
    }

    /// The lines after the last shape, up to the end of the file. With no
    /// shape there is no such range. The cursor ends on the last line.
    pub fn post_print(&mut self) -> (r: Result<Range<usize>, ShapeError>)
        ensures
            final(self)@.lines == old(self)@.lines,
            final(self)@.config == old(self)@.config,
            final(self)@.index == last_index(old(self)@.lines),
            old(self)@.lines.len() == 0 <==> r is Err,
            r is Err ==> r->Err_0 == ShapeError::NoShapes,
            r is Ok ==> r->Ok_0.start == shape_list(old(self)@.lines).last().1 + 1 && r->Ok_0.end
                == old(self)@.lines.len(),
    {
        let shapes = self.shapes();
        if shapes.len() == 0 {
            return Err(ShapeError::NoShapes);
        }
        let n = self.parent.lines.len();
        let last = &shapes[shapes.len() - 1];
        assert(spans(*last, shape_list(self@.lines)[shapes.len() - 1]));
        assert(last@.end == n - 1);
        Ok(*last.end() + 1..n)
    }
}

impl<'a> Cursor<'a> {
    /// Whether the print is planar from the cursor on: no line after the
    /// cursor's lays down material while it changes height. The cursor stops
    /// on the first line that does, or on the last line.
    pub fn is_planar(&mut self) -> (r: bool)
        ensures
            final(self)@.lines == old(self)@.lines,
            final(self)@.config == old(self)@.config,
            r == planar_after(old(self)@.lines, old(self)@.index),
            scan_ends(old(self)@.lines, old(self)@.index, final(self)@.index),
    {
        let ghost lines = self@.lines;
        let ghost from = self@.index;
        let n = self.parent.lines.len();
        proof {
            use_type_invariant(&*self);
        }
        loop
            invariant
                n == lines.len(),
                self@.lines == lines,
                lines == old(self)@.lines,
                from == old(self)@.index,
                self@.config == old(self)@.config,
                from <= self@.index <= last_index(lines),
                forall|j: int| from < j <= self@.index ==> !#[trigger] leaves_plane(lines, j),
            ensures
                self@.lines == lines,
                self@.config == old(self)@.config,
                self@.index == last_index(lines),
                planar_after(lines, from),
            decreases n - self.idx,
        {
            if self.next().is_err() {
                break ;
            }
            if self.nonplanar_extrusion() {
                assert(leaves_plane(lines, self@.index));
                return false;
            }
        }
        true
    }

    /// The height of the first layer and that of the layers after it, as the
    /// lines after the cursor's show them; both are zero where the print is
    /// not planar. The cursor stops where `is_planar` would.
    pub fn layer_height(&mut self) -> (r: (Microns, Microns))
        ensures
            final(self)@.lines == old(self)@.lines,
            final(self)@.config == old(self)@.config,
            (r.0@, r.1@) == layer_heights(old(self)@.lines, old(self)@.index),
            scan_ends(old(self)@.lines, old(self)@.index, final(self)@.index),
    {
        let ghost lines = self@.lines;
        let ghost from = self@.index;
        let n = self.parent.lines.len();
        let start = *self;
        if !self.is_planar() {
            return (Microns(0), Microns(0));
        }
        *self = start;
        proof {
            use_type_invariant(&*self);
        }
        let mut heights: Vec<i32> = Vec::new();
        assert(as_ints(heights@) =~= heights_between(lines, from + 1, from + 1));
        loop
            invariant
                n == lines.len(),
                self@.lines == lines,
                lines == old(self)@.lines,
                from == old(self)@.index,
                self@.config == old(self)@.config,
                from <= self@.index <= last_index(lines),
                as_ints(heights@) == heights_between(
                    lines,
                    from + 1,
                    self@.index + 1,
                ),
            ensures
                self@.lines == lines,
                self@.config == old(self)@.config,
                self@.index == last_index(lines),
                as_ints(heights@) == heights_between(lines, from + 1, n as int),
            decreases n - self.idx,
        {
            if self.next().is_err() {
                assert(heights_between(lines, from + 1, self@.index + 1) == heights_between(
                    lines,
                    from + 1,
                    n as int,
                ));
                break ;
            }
            if self.is_extrusion() {
                let ghost before = as_ints(heights@);
                let z = self.position()[2].0;
                heights.push(z);
                assert(as_ints(heights@) =~= before.push(z as int));
            }
        }
        let distinct = drop_repeats(&heights);
        let sorted = sort_ascending(&distinct);
        layers_of(&sorted)
    }
}

/// The position of a machine as five amounts.
pub closed spec fn pose(m: Machine) -> [Microns; 5] {
    [
        Microns(m.x as i32),
        Microns(m.y as i32),
        Microns(m.z as i32),
        Microns(m.e as i32),
        Microns(m.f as i32),
    ]
}

impl<'a> From<&'a GCodeModel> for Cursor<'a> {
    /// A cursor on the first line of `parent`, with the default limits.
    fn from(parent: &'a GCodeModel) -> (c: Cursor<'a>) {
        Cursor::with_config(parent, PurgeConfig::default())
    }
}

impl<'a> vstd::std_specs::convert::FromSpecImpl<&'a GCodeModel> for Cursor<'a> {
    open spec fn obeys_from_spec() -> bool {
        true
    }

    open spec fn from_spec(parent: &'a GCodeModel) -> Cursor<'a> {
        Cursor::begin(parent, PurgeConfig { margin: Microns(2000), slope_tolerance_ppm: 0 })
    }
}

/// A cursor at the beginning of a model stands on its first line.
pub proof fn lemma_begin(parent: &GCodeModel, config: PurgeConfig)
    ensures
        Cursor::begin(parent, config)@ == (CursorView {
            lines: parent.lines@,
            index: 0,
            config,
        }),
{
}

} // verus!
