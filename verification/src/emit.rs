//! The writing of commands as text.

use crate::microns::Microns;
use crate::model::{Command, GCodeLine, GCodeModel, G1};
use vstd::prelude::*;
use vstd::string::StringExecFns;

verus! {

/// The character that writes the digit `d`.
pub open spec fn digit_char(d: int) -> char {
    if d == 0 {
        '0'
    } else if d == 1 {
        '1'
    } else if d == 2 {
        '2'
    } else if d == 3 {
        '3'
    } else if d == 4 {
        '4'
    } else if d == 5 {
        '5'
    } else if d == 6 {
        '6'
    } else if d == 7 {
        '7'
    } else if d == 8 {
        '8'
    } else {
        '9'
    }
}

/// The digits that write the number `n`, without leading zeros.
pub open spec fn number_text(n: int) -> Seq<char>
    decreases n,
{
    if n < 10 {
        seq![digit_char(n)]
    } else {
        number_text(n / 10).push(digit_char(n % 10))
    }
}

/// The part behind the whole number for `f` thousandths: nothing for none,
/// else a point and up to three digits, without zeros at the end.
pub open spec fn fraction_text(f: int) -> Seq<char> {
    if f == 0 {
        Seq::empty()
    } else if f % 100 == 0 {
        seq!['.', digit_char(f / 100)]
    } else if f % 10 == 0 {
        seq!['.', digit_char(f / 100), digit_char(f / 10 % 10)]
    } else {
        seq!['.', digit_char(f / 100), digit_char(f / 10 % 10), digit_char(f % 10)]
    }
}

/// An amount of micrometers written in millimeters: a minus sign where it is
/// negative, the whole millimeters, and the thousandths as far as they are
/// not zero.
pub open spec fn amount_text(v: int) -> Seq<char> {
    let size = if v < 0 {
        -v
    } else {
        v
    };
    let sign = if v < 0 {
        seq!['-']
    } else {
        Seq::empty()
    };
    sign + number_text(size / 1000) + fraction_text(size % 1000)
}

/// One parameter of a linear move: nothing where it is absent, else a blank
/// before it or behind it, the letter and the amount.
pub open spec fn parameter_text(letter: char, p: Option<Microns>, blank_behind: bool) -> Seq<char> {
    match p {
        None => Seq::empty(),
        Some(m) => if blank_behind {
            seq![letter] + amount_text(m@) + seq![' ']
        } else {
            seq![' ', letter] + amount_text(m@)
        },
    }
}

/// All parameters of a linear move, in the order X, Y, Z, E, F.
pub open spec fn parameters_text(g: G1, blank_behind: bool) -> Seq<char> {
    parameter_text('X', g.x, blank_behind) + parameter_text('Y', g.y, blank_behind)
        + parameter_text('Z', g.z, blank_behind) + parameter_text('E', g.e, blank_behind)
        + parameter_text('F', g.f, blank_behind)
}

/// A linear move as text, each part followed by a blank.
pub open spec fn g1_emitted(g: G1) -> Seq<char> {
    seq!['G', '1', ' '] + parameters_text(g, true)
}

/// A linear move as text, the parts separated by blanks.
pub open spec fn g1_shown(g: G1) -> Seq<char> {
    seq!['G', '1'] + parameters_text(g, false)
}

/// A command as text. A linear move ends in a blank where `padded` is set.
pub open spec fn command_text(c: Command, padded: bool) -> Seq<char> {
    match c {
        Command::G1(g) => if padded {
            g1_emitted(g)
        } else {
            g1_shown(g)
        },
        Command::G90 => seq!['G', '9', '0'],
        Command::G91 => seq!['G', '9', '1'],
        Command::M82 => seq!['M', '8', '2'],
        Command::M83 => seq!['M', '8', '3'],
        Command::Home(s) => s@,
        Command::Raw(s) => s@,
    }
}

/// A line as text: the command, and behind a semicolon the comment where
/// there is one.
pub open spec fn line_text(l: GCodeLine, padded: bool) -> Seq<char> {
    command_text(l.command, padded) + if l.comments@.len() == 0 {
        Seq::empty()
    } else {
        seq![';'] + l.comments@
    }
}

/// The first `n` lines as text, each followed by a line feed.
pub open spec fn lines_text(lines: Seq<GCodeLine>, n: nat, padded: bool) -> Seq<char>
    decreases n,
{
    if n == 0 || n > lines.len() {
        Seq::empty()
    } else {
        lines_text(lines, (n - 1) as nat, padded) + line_text(lines[n - 1], padded) + seq!['\n']
    }
}

fn digit(d: u32) -> (c: char)
    requires
        d < 10,
    ensures
        c == digit_char(d as int),
{
    if d == 0 {
        '0'
    } else if d == 1 {
        '1'
    } else if d == 2 {
        '2'
    } else if d == 3 {
        '3'
    } else if d == 4 {
        '4'
    } else if d == 5 {
        '5'
    } else if d == 6 {
        '6'
    } else if d == 7 {
        '7'
    } else if d == 8 {
        '8'
    } else {
        '9'
    }
}

fn push_number(out: &mut String, n: u32)
    ensures
        final(out)@ == old(out)@ + number_text(n as int),
    decreases n,
{
    if n >= 10 {
        push_number(out, n / 10);
    }
    out.push(digit(n % 10));
}

/// Appends an amount, written in millimeters.
pub fn push_amount(out: &mut String, m: Microns)
    ensures
        final(out)@ == old(out)@ + amount_text(m@),
{
    let wide: i64 = m.0 as i64;
    let size: u32 = if wide < 0 {
        (-wide) as u32
    } else {
        wide as u32
    };
    if m.0 < 0 {
        out.push('-');
    }
    push_number(out, size / 1000);
    let f = size % 1000;
    if f != 0 {
        out.push('.');
        out.push(digit(f / 100));
        if f % 100 != 0 {
            out.push(digit(f / 10 % 10));
            if f % 10 != 0 {
                out.push(digit(f % 10));
            }
        }
    }
}

fn push_parameter(out: &mut String, letter: char, p: Option<Microns>, blank_behind: bool)
    ensures
        final(out)@ == old(out)@ + parameter_text(letter, p, blank_behind),
{
    match p {
        None => {
        },
        Some(m) => {
            if !blank_behind {
                out.push(' ');
            }
            out.push(letter);
            push_amount(out, m);
            if blank_behind {
                out.push(' ');
            }
        },
    }
}

fn push_parameters(out: &mut String, g: &G1, blank_behind: bool)
    ensures
        final(out)@ == old(out)@ + parameters_text(*g, blank_behind),
{
    push_parameter(out, 'X', g.x, blank_behind);
    push_parameter(out, 'Y', g.y, blank_behind);
    push_parameter(out, 'Z', g.z, blank_behind);
    push_parameter(out, 'E', g.e, blank_behind);
    push_parameter(out, 'F', g.f, blank_behind);
}

/// Appends a command as text.
pub fn push_command(out: &mut String, c: &Command, padded: bool)
    ensures
        final(out)@ == old(out)@ + command_text(*c, padded),
{
    match c {
        Command::G1(g) => {
            out.push('G');
            out.push('1');
            if padded {
                out.push(' ');
            }
            push_parameters(out, g, padded);
        },
        Command::G90 => {
            out.push('G');
            out.push('9');
            out.push('0');
        },
        Command::G91 => {
            out.push('G');
            out.push('9');
            out.push('1');
        },
        Command::M82 => {
            out.push('M');
            out.push('8');
            out.push('2');
        },
        Command::M83 => {
            out.push('M');
            out.push('8');
            out.push('3');
        },
        Command::Home(s) => {
            out.append(s.as_str());
        },
        Command::Raw(s) => {
            out.append(s.as_str());
        },
    }
}

/// Appends a line as text.
pub fn push_line(out: &mut String, l: &GCodeLine, padded: bool)
    ensures
        final(out)@ == old(out)@ + line_text(*l, padded),
{
    push_command(out, &l.command, padded);
    if l.comments.as_str().is_empty() {
    } else {
        out.push(';');
        out.append(l.comments.as_str());
    }
}

/// Appends all lines as text, each followed by a line feed.
pub fn push_lines(out: &mut String, lines: &Vec<GCodeLine>, padded: bool)
    ensures
        final(out)@ == old(out)@ + lines_text(lines@, lines@.len(), padded),
{
    let mut k: usize = 0;
    while k < lines.len()
        invariant
            k <= lines@.len(),
            out@ == old(out)@ + lines_text(lines@, k as nat, padded),
        decreases lines@.len() - k,
    {
        push_line(out, &lines[k], padded);
        out.push('\n');
        k += 1;
    }
}

/// What can be written as motion text.
pub trait Emit {
    /// The text that `emit` gives.
    spec fn emitted(&self, debug: bool) -> Seq<char>;

    /// The value as motion text. `debug` asks for notes on the lines, of
    /// which there are none so far.
    fn emit(&self, debug: bool) -> (s: String)
        ensures
            s@ == self.emitted(debug),
    ;
}

impl Emit for G1 {
    open spec fn emitted(&self, debug: bool) -> Seq<char> {
        g1_emitted(*self)
    }

    fn emit(&self, debug: bool) -> (s: String) {
        let mut out = String::new();
        out.push('G');
        out.push('1');
        out.push(' ');
        push_parameters(&mut out, self, true);
        out
    }
}

impl Emit for Command {
    open spec fn emitted(&self, debug: bool) -> Seq<char> {
        command_text(*self, true)
    }

    fn emit(&self, debug: bool) -> (s: String) {
        let mut out = String::new();
        push_command(&mut out, self, true);
        out
    }
}

impl Emit for GCodeLine {
    open spec fn emitted(&self, debug: bool) -> Seq<char> {
        line_text(*self, true)
    }

    fn emit(&self, debug: bool) -> (s: String) {
        let mut out = String::new();
        push_line(&mut out, self, true);
        out
    }
}

impl Emit for GCodeModel {
    open spec fn emitted(&self, debug: bool) -> Seq<char> {
        lines_text(self.lines@, self.lines@.len(), true)
    }

    fn emit(&self, debug: bool) -> (s: String) {
        let mut out = String::new();
        push_lines(&mut out, &self.lines, true);
        out
    }
}

/// A linear move written with a blank behind each part is the same move
/// written with blanks between the parts, and one blank more.
pub proof fn lemma_emitted_is_shown_and_blank(g: G1)
    ensures
        g1_emitted(g) == g1_shown(g) + seq![' '],
{
    let blank = seq![' '];
    let s0 = seq!['G', '1'];
    let s1 = s0 + parameter_text('X', g.x, false);
    let s2 = s1 + parameter_text('Y', g.y, false);
    let s3 = s2 + parameter_text('Z', g.z, false);
    let s4 = s3 + parameter_text('E', g.e, false);
    let s5 = s4 + parameter_text('F', g.f, false);
    let e0 = s0 + blank;
    let e1 = e0 + parameter_text('X', g.x, true);
    let e2 = e1 + parameter_text('Y', g.y, true);
    let e3 = e2 + parameter_text('Z', g.z, true);
    let e4 = e3 + parameter_text('E', g.e, true);
    let e5 = e4 + parameter_text('F', g.f, true);
    lemma_parameter_blank(s0, 'X', g.x);
    lemma_parameter_blank(s1, 'Y', g.y);
    lemma_parameter_blank(s2, 'Z', g.z);
    lemma_parameter_blank(s3, 'E', g.e);
    lemma_parameter_blank(s4, 'F', g.f);
    assert(g1_shown(g) == s5) by {
        lemma_sum_of_five(
            s0,
            parameter_text('X', g.x, false),
            parameter_text('Y', g.y, false),
            parameter_text('Z', g.z, false),
            parameter_text('E', g.e, false),
            parameter_text('F', g.f, false),
        );
    }
    assert(g1_emitted(g) == e5) by {
        lemma_sum_of_five(
            e0,
            parameter_text('X', g.x, true),
            parameter_text('Y', g.y, true),
            parameter_text('Z', g.z, true),
            parameter_text('E', g.e, true),
            parameter_text('F', g.f, true),
        );
    }
}

proof fn lemma_sum_of_five(
    a: Seq<char>,
    b: Seq<char>,
    c: Seq<char>,
    d: Seq<char>,
    e: Seq<char>,
    f: Seq<char>,
)
    ensures
        a + (b + c + d + e + f) == a + b + c + d + e + f,
{
}

proof fn lemma_parameter_blank(before: Seq<char>, letter: char, p: Option<Microns>)
    ensures
        before + seq![' '] + parameter_text(letter, p, true) == before + parameter_text(
            letter,
            p,
            false,
        ) + seq![' '],
{
}

} // verus!
