//! The command model: lines of commands, their container, and the tagging of
//! linear moves.

use crate::microns::{clamp_i32, Microns};
use vstd::prelude::*;

verus! {

/// What a linear move does, as far as its own parameters tell.
#[derive(Copy, Clone, Debug, Default, PartialEq, Eq, Structural, Hash)]
pub enum Tag {
    Retraction,
    DeRetraction,
    Travel,
    RaiseZ,
    LowerZ,
    Wipe,
    Extrusion,
    Feedrate,
    #[default]
    Uninitialized,
}

/// The parameters of a linear move. An absent axis is left as it was.
#[derive(Clone, Debug, PartialEq, Eq, Structural, Hash)]
pub struct G1 {
    pub x: Option<Microns>,
    pub y: Option<Microns>,
    pub z: Option<Microns>,
    pub e: Option<Microns>,
    pub f: Option<Microns>,
    pub tag: Tag,
}

impl Default for G1 {
    fn default() -> (r: G1)
        ensures
            r == (G1 { x: None, y: None, z: None, e: None, f: None, tag: Tag::Uninitialized }),
    {
        G1 { x: None, y: None, z: None, e: None, f: None, tag: Tag::Uninitialized }
    }
}

/// The commands that are told apart. Anything else is kept as its text.
#[derive(Clone, Debug, PartialEq, Eq, Hash)]
pub enum Command {
    G1(G1),
    G90,
    G91,
    M82,
    M83,
    Home(String),
    Raw(String),
}

/// A command with its text as a sequence of characters.
pub enum CommandView {
    G1(G1),
    G90,
    G91,
    M82,
    M83,
    Home(Seq<char>),
    Raw(Seq<char>),
}

impl View for Command {
    type V = CommandView;

    open spec fn view(&self) -> CommandView {
        match self {
            Command::G1(g) => CommandView::G1(*g),
            Command::G90 => CommandView::G90,
            Command::G91 => CommandView::G91,
            Command::M82 => CommandView::M82,
            Command::M83 => CommandView::M83,
            Command::Home(s) => CommandView::Home(s@),
            Command::Raw(s) => CommandView::Raw(s@),
        }
    }
}

impl Command {
    /// The tag of a linear move; any other command has none.
    pub fn tag(&self) -> (t: Tag)
        ensures
            t == self.spec_tag(),
    {
        match self {
            Command::G1(g1) => g1.tag,
            _ => Tag::Uninitialized,
        }
    }

    pub open spec fn spec_tag(&self) -> Tag {
        match self {
            Command::G1(g1) => g1.tag,
            _ => Tag::Uninitialized,
        }
    }
}

/// The number of a line, in the order of reading.
#[derive(Clone, Copy, PartialEq, Eq, Structural, Hash, Debug, Default)]
pub struct Id(pub u32);

impl Id {
    pub fn get(&self) -> (n: u32)
        ensures
            n == self.0,
    {
        self.0
    }
}

/// Hands out line numbers, one after the other.
#[derive(Clone, Debug, Default, PartialEq, Eq, Structural)]
pub struct Counter {
    pub count: u32,
}

impl Counter {
    /// The next number. After `u32::MAX` the count starts again at zero.
    pub fn get(&mut self) -> (id: Id)
        ensures
            id == Id(old(self).count),
            final(self).count == if old(self).count == u32::MAX {
                0
            } else {
                old(self).count + 1
            },
    {
        let out = self.count;
        self.count = if out == u32::MAX {
            0
        } else {
            out + 1
        };
        Id(out)
    }
}

/// One line: its number, its command, and the comment behind it.
#[derive(Clone, Debug, PartialEq, Eq, Hash)]
pub struct GCodeLine {
    pub id: Id,
    pub command: Command,
    pub comments: String,
}

/// A line with its texts as sequences of characters.
pub struct LineView {
    pub id: Id,
    pub command: CommandView,
    pub comments: Seq<char>,
}

impl View for GCodeLine {
    type V = LineView;

    open spec fn view(&self) -> LineView {
        LineView { id: self.id, command: self.command@, comments: self.comments@ }
    }
}

/// All lines of a file in order, with the positioning modes that were set
/// last.
#[derive(Clone, Debug, PartialEq, Eq)]
pub struct GCodeModel {
    pub lines: Vec<GCodeLine>,
    pub rel_xyz: bool,
    pub rel_e: bool,
    pub id_counter: Counter,
}

/// A model with its lines as a sequence of line views.
pub struct ModelView {
    pub lines: Seq<LineView>,
    pub rel_xyz: bool,
    pub rel_e: bool,
    pub count: u32,
}

impl View for GCodeModel {
    type V = ModelView;

    open spec fn view(&self) -> ModelView {
        ModelView {
            lines: self.lines@.map_values(|l: GCodeLine| l@),
            rel_xyz: self.rel_xyz,
            rel_e: self.rel_e,
            count: self.id_counter.count,
        }
    }
}

impl Default for GCodeModel {
    fn default() -> (r: GCodeModel)
        ensures
            r.lines@.len() == 0,
            !r.rel_xyz,
            !r.rel_e,
            r.id_counter.count == 0,
    {
        GCodeModel { lines: Vec::new(), rel_xyz: false, rel_e: false, id_counter: Counter { count: 0 } }
    }
}

/// The amount that a parameter names; an absent one names none.
pub open spec fn amount(p: Option<Microns>) -> int {
    match p {
        Some(m) => m@,
        None => 0,
    }
}

/// The tag that belongs to a move by `dx`, `dy`, `dz` with extrusion `de` and
/// feedrate `f`.
pub open spec fn tag_for(dx: int, dy: int, dz: int, de: int, f: int) -> Tag {
    if de > 0 {
        if dx != 0 || dy != 0 {
            Tag::Extrusion
        } else {
            Tag::DeRetraction
        }
    } else if de == 0 {
        if dx != 0 || dy != 0 {
            Tag::Travel
        } else if dz > 0 {
            Tag::RaiseZ
        } else if dz < 0 {
            Tag::LowerZ
        } else if f > 0 {
            Tag::Feedrate
        } else {
            Tag::Uninitialized
        }
    } else if dx != 0 || dy != 0 {
        Tag::Wipe
    } else {
        Tag::Retraction
    }
}

/// Where the tagging stands before line `n`: the saturating sums of the X, Y
/// and Z parameters of the linear moves among the first `n` lines.
pub open spec fn tagging_origin(lines: Seq<GCodeLine>, n: nat) -> (int, int, int)
    decreases n,
{
    if n == 0 || n > lines.len() {
        (0, 0, 0)
    } else {
        let p = tagging_origin(lines, (n - 1) as nat);
        match lines[n - 1].command {
            Command::G1(g) => (
                clamp_i32(p.0 + amount(g.x)),
                clamp_i32(p.1 + amount(g.y)),
                clamp_i32(p.2 + amount(g.z)),
            ),
            _ => p,
        }
    }
}

/// The tag that the linear move `g` gets when the tagging stands at `p`.
pub open spec fn tag_from(p: (int, int, int), g: G1) -> Tag {
    tag_for(
        clamp_i32(clamp_i32(p.0 + amount(g.x)) - p.0),
        clamp_i32(clamp_i32(p.1 + amount(g.y)) - p.1),
        clamp_i32(clamp_i32(p.2 + amount(g.z)) - p.2),
        amount(g.e),
        amount(g.f),
    )
}

/// Line `i` of `lines` after tagging: a linear move carries its tag, any
/// other line is as before.
pub open spec fn tagged_line(lines: Seq<GCodeLine>, i: int) -> GCodeLine {
    let line = lines[i];
    match line.command {
        Command::G1(g) => GCodeLine {
            id: line.id,
            command: Command::G1(
                G1 {
                    x: g.x,
                    y: g.y,
                    z: g.z,
                    e: g.e,
                    f: g.f,
                    tag: tag_from(tagging_origin(lines, i as nat), g),
                },
            ),
            comments: line.comments,
        },
        _ => line,
    }
}

fn unwrap_or_zero(p: Option<Microns>) -> (m: Microns)
    ensures
        m@ == amount(p),
{
    match p {
        Some(m) => m,
        None => Microns(0),
    }
}

fn tag_of_move(dx: Microns, dy: Microns, dz: Microns, de: Microns, f: Microns) -> (t: Tag)
    ensures
        t == tag_for(dx@, dy@, dz@, de@, f@),
{
    let moved = dx.0 != 0 || dy.0 != 0;
    if de.0 > 0 {
        if moved {
            Tag::Extrusion
        } else {
            Tag::DeRetraction
        }
    } else if de.0 == 0 {
        if moved {
            Tag::Travel
        } else if dz.0 > 0 {
            Tag::RaiseZ
        } else if dz.0 < 0 {
            Tag::LowerZ
        } else if f.0 > 0 {
            Tag::Feedrate
        } else {
            Tag::Uninitialized
        }
    } else if moved {
        Tag::Wipe
    } else {
        Tag::Retraction
    }
}

impl GCodeModel {
    /// Gives every linear move its tag. The parameters of the moves are read
    /// as steps from where the one before ended, starting at zero; nothing
    /// but the tags changes.
    pub fn tag_g1(&mut self)
        ensures
            final(self).lines@.len() == old(self).lines@.len(),
            forall|i: int|
                0 <= i < old(self).lines@.len() ==> final(self).lines@[i] == tagged_line(
                    old(self).lines@,
                    i,
                ),
            final(self).rel_xyz == old(self).rel_xyz,
            final(self).rel_e == old(self).rel_e,
            final(self).id_counter == old(self).id_counter,
    {
        let mut prev: [Microns; 3] = [Microns(0), Microns(0), Microns(0)];
        let n = self.lines.len();
        let mut i: usize = 0;
        while i < n
            invariant
                i <= n,
                n == old(self).lines@.len(),
                self.lines@.len() == n,
                forall|k: int| 0 <= k < i ==> self.lines@[k] == tagged_line(old(self).lines@, k),
                forall|k: int| i <= k < n ==> self.lines@[k] == old(self).lines@[k],
                (prev[0]@, prev[1]@, prev[2]@) == tagging_origin(old(self).lines@, i as nat),
                self.rel_xyz == old(self).rel_xyz,
                self.rel_e == old(self).rel_e,
                self.id_counter == old(self).id_counter,
            decreases n - i,
        {
            let line = &mut self.lines[i];
            match &mut line.command {
                Command::G1(g) => {
                    let curr = [
                        prev[0] + unwrap_or_zero(g.x),
                        prev[1] + unwrap_or_zero(g.y),
                        prev[2] + unwrap_or_zero(g.z),
                    ];
                    let dx = curr[0] - prev[0];
                    let dy = curr[1] - prev[1];
                    let dz = curr[2] - prev[2];
                    g.tag = tag_of_move(dx, dy, dz, unwrap_or_zero(g.e), unwrap_or_zero(g.f));
                    prev = curr;
                },
                _ => {},
            }
            i += 1;
        }
    }
}

} // verus!
