//! The machine that the lines drive: five axes and two positioning modes, and
//! what each command does to them.

use crate::microns::{clamp_i32, Microns};
use crate::model::{Command, GCodeLine};
use vstd::prelude::*;

verus! {

/// The state of the machine: where it stands on the five axes, and how it
/// reads the parameters of the next move. The extrusion axis is kept like
/// the others, as the place where it stands, not as the step of the last
/// move.
pub struct Machine {
    pub x: int,
    pub y: int,
    pub z: int,
    pub e: int,
    pub f: int,
    pub rel_xyz: bool,
    pub rel_e: bool,
}

/// The machine before any line: no axis has a value yet, and parameters are
/// read as absolute.
pub open spec fn initial() -> Machine {
    Machine {
        x: i32::MIN as int,
        y: i32::MIN as int,
        z: i32::MIN as int,
        e: i32::MIN as int,
        f: i32::MIN as int,
        rel_xyz: false,
        rel_e: false,
    }
}

/// Where an axis stands after a move: as before when the move does not name
/// it, at the named value in absolute mode, and moved by the named amount
/// (saturating) in relative mode.
pub open spec fn moved(from: int, to: Option<Microns>, relative: bool) -> int {
    match to {
        None => from,
        Some(m) => if relative {
            clamp_i32(from + m@)
        } else {
            m@
        },
    }
}

/// The machine after one command.
pub open spec fn step(m: Machine, c: Command) -> Machine {
    match c {
        Command::G1(g) => Machine {
            x: moved(m.x, g.x, m.rel_xyz),
            y: moved(m.y, g.y, m.rel_xyz),
            z: moved(m.z, g.z, m.rel_xyz),
            e: moved(m.e, g.e, m.rel_e),
            f: moved(m.f, g.f, false),
            rel_xyz: m.rel_xyz,
            rel_e: m.rel_e,
        },
        Command::G90 => Machine { rel_xyz: false, ..m },
        Command::G91 => Machine { rel_xyz: true, ..m },
        Command::M82 => Machine { rel_e: false, ..m },
        Command::M83 => Machine { rel_e: true, ..m },
        Command::Home(_) => Machine { x: 0, y: 0, z: 0, e: 0, f: 0, ..m },
        Command::Raw(_) => m,
    }
}

/// The machine after the first `n` lines; past the last line nothing changes
/// any more.
pub open spec fn replay(lines: Seq<GCodeLine>, n: nat) -> Machine
    decreases n,
{
    if n == 0 {
        initial()
    } else if n > lines.len() {
        replay(lines, (n - 1) as nat)
    } else {
        step(replay(lines, (n - 1) as nat), lines[n - 1].command)
    }
}

/// The machine just before line `i` acts.
pub open spec fn departed(lines: Seq<GCodeLine>, i: int) -> Machine {
    replay(lines, i as nat)
}

/// The machine just after line `i` has acted.
pub open spec fn arrived(lines: Seq<GCodeLine>, i: int) -> Machine {
    replay(lines, (i + 1) as nat)
}

/// Line `i` lays down material: the extrusion axis ends higher than it began,
/// and the head is in another place.
pub open spec fn extrudes(lines: Seq<GCodeLine>, i: int) -> bool {
    let a = departed(lines, i);
    let b = arrived(lines, i);
    b.e > a.e && (b.x != a.x || b.y != a.y || b.z != a.z)
}

/// Line `i` lays down material while it changes height.
pub open spec fn leaves_plane(lines: Seq<GCodeLine>, i: int) -> bool {
    let a = departed(lines, i);
    let b = arrived(lines, i);
    b.e > a.e && b.z != a.z
}

/// A line that does not raise the extrusion axis lays down no material,
/// however far it moves the head.
pub proof fn lemma_no_gain_is_no_extrusion(lines: Seq<GCodeLine>, i: int)
    requires
        arrived(lines, i).e <= departed(lines, i).e,
    ensures
        !extrudes(lines, i),
        !leaves_plane(lines, i),
{
}

/// The five axes of `p` are those of `m`.
pub open spec fn stands_at(p: [Microns; 5], m: Machine) -> bool {
    &&& p@[0]@ == m.x
    &&& p@[1]@ == m.y
    &&& p@[2]@ == m.z
    &&& p@[3]@ == m.e
    &&& p@[4]@ == m.f
}

/// The machine that stands at `p` in the given modes.
pub open spec fn machine_at(p: [Microns; 5], rel_xyz: bool, rel_e: bool) -> Machine {
    Machine { x: p@[0]@, y: p@[1]@, z: p@[2]@, e: p@[3]@, f: p@[4]@, rel_xyz, rel_e }
}

fn move_axis(from: Microns, to: Option<Microns>, relative: bool) -> (r: Microns)
    ensures
        r@ == moved(from@, to, relative),
{
    match to {
        None => from,
        Some(m) => if relative {
            from + m
        } else {
            m
        },
    }
}

/// Applies one command to a position and its modes.
pub fn update(state: &[Microns; 5], rel_xyz: bool, rel_e: bool, command: &Command) -> (r: (
    [Microns; 5],
    bool,
    bool,
))
    ensures
        machine_at(r.0, r.1, r.2) == step(machine_at(*state, rel_xyz, rel_e), *command),
{
    match command {
        Command::G1(g) => (
            [
                move_axis(state[0], g.x, rel_xyz),
                move_axis(state[1], g.y, rel_xyz),
                move_axis(state[2], g.z, rel_xyz),
                move_axis(state[3], g.e, rel_e),
                move_axis(state[4], g.f, false),
            ],
            rel_xyz,
            rel_e,
        ),
        Command::G90 => (*state, false, rel_e),
        Command::G91 => (*state, true, rel_e),
        Command::M82 => (*state, rel_xyz, false),
        Command::M83 => (*state, rel_xyz, true),
        Command::Home(_) => (
            [Microns(0), Microns(0), Microns(0), Microns(0), Microns(0)],
            rel_xyz,
            rel_e,
        ),
        Command::Raw(_) => (*state, rel_xyz, rel_e),
    }
}

} // verus!
