//! The reading of motion text: lines, their comments, and the commands that
//! are told apart. Text that is no such command is kept as it stands.

use crate::microns::Microns;
use crate::model::{Command, CommandView, GCodeLine, GCodeModel, Id, LineView, ModelView, Tag, G1};
use crate::numbers::{decimal_microns, parse_decimal};
use crate::scan::{
    copy_range, digits_end, find, first_index, in_digits, in_line, in_number, in_space,
    lemma_span_end, line_end, number_end, space_end, span_end, squeeze, squeezed,
};
use crate::text::{to_chars, to_string};
use vstd::prelude::*;

verus! {

/// Where the line after the one that begins at `i` begins: behind the end of
/// the line and all white space that follows it.
pub open spec fn next_line(s: Seq<char>, i: int) -> int {
    span_end(s, span_end(s, i, in_line()), in_space())
}

/// The line after a line begins further on.
pub proof fn lemma_next_line_advances(s: Seq<char>, i: int)
    requires
        0 <= i < s.len(),
    ensures
        i < next_line(s, i) <= s.len(),
{
    lemma_span_end(s, i, in_line());
    lemma_span_end(s, span_end(s, i, in_line()), in_space());
}

/// The lines of `s` from index `i` on. A line ends before a line feed or a
/// carriage return; the white space behind it, blank lines and the indent of
/// the next line with it, belongs to no line.
pub open spec fn split_lines(s: Seq<char>, i: int) -> Seq<Seq<char>>
    decreases s.len() - i,
{
    if 0 <= i < s.len() {
        proof {
            lemma_next_line_advances(s, i);
        }
        seq![s.subrange(i, span_end(s, i, in_line()))] + split_lines(s, next_line(s, i))
    } else {
        Seq::empty()
    }
}

/// The part of a line before its first semicolon.
pub open spec fn code_part(line: Seq<char>) -> Seq<char> {
    line.subrange(0, first_index(line, ';'))
}

/// The part of a line behind its first semicolon; nothing where it has none.
pub open spec fn comment_part(line: Seq<char>) -> Seq<char> {
    let semi = first_index(line, ';');
    if semi < line.len() {
        line.subrange(semi + 1, line.len() as int)
    } else {
        Seq::empty()
    }
}

/// A letter that names an axis of a linear move.
pub open spec fn is_axis(c: char) -> bool {
    c == 'X' || c == 'Y' || c == 'Z' || c == 'E' || c == 'F'
}

/// A linear move that names no axis.
pub open spec fn no_parameters() -> G1 {
    G1 { x: None, y: None, z: None, e: None, f: None, tag: Tag::Uninitialized }
}

/// The move `g` with the axis `axis` set to `v`.
pub open spec fn with_axis(g: G1, axis: char, v: Microns) -> G1 {
    if axis == 'X' {
        G1 { x: Some(v), ..g }
    } else if axis == 'Y' {
        G1 { y: Some(v), ..g }
    } else if axis == 'Z' {
        G1 { z: Some(v), ..g }
    } else if axis == 'E' {
        G1 { e: Some(v), ..g }
    } else if axis == 'F' {
        G1 { f: Some(v), ..g }
    } else {
        g
    }
}

/// Reads parameters from `s` at index `i` on into `g`: pairs of an axis
/// letter and a decimal number, a later pair for an axis replacing an
/// earlier one. The reading stops at the first thing that is no such pair,
/// and gives the move with the index where it stopped.
pub open spec fn g1_scan(s: Seq<char>, i: int, g: G1) -> (G1, int)
    decreases s.len() - i,
{
    if 0 <= i < s.len() && is_axis(s[i]) {
        proof {
            lemma_span_end(s, i + 1, in_number());
        }
        let j = span_end(s, i + 1, in_number());
        match decimal_microns(s.subrange(i + 1, j)) {
            Some(v) => g1_scan(s, j, with_axis(g, s[i], Microns(v as i32))),
            None => (g, i),
        }
    } else {
        (g, i)
    }
}

/// The word that `w` begins with is `letter` followed by exactly the numeric
/// characters `digits`.
pub open spec fn begins_with(w: Seq<char>, letter: char, digits: Seq<char>) -> bool {
    w.len() > 0 && w[0] == letter && w.subrange(1, span_end(w, 1, in_digits())) == digits
}

/// The command that the text `code` stands for. The text is read without its
/// white space. `G1` with parameters that can all be read is a linear move;
/// `G90`, `G91`, `M82` and `M83` are the mode switches, whatever follows
/// them; anything else is kept as the text.
pub open spec fn command_of(code: Seq<char>) -> CommandView {
    let w = squeeze(code);
    if begins_with(w, 'G', seq!['1']) {
        let (g, stop) = g1_scan(w, 2, no_parameters());
        if stop == w.len() {
            CommandView::G1(g)
        } else {
            CommandView::Raw(code)
        }
    } else if begins_with(w, 'G', seq!['9', '0']) {
        CommandView::G90
    } else if begins_with(w, 'G', seq!['9', '1']) {
        CommandView::G91
    } else if begins_with(w, 'M', seq!['8', '2']) {
        CommandView::M82
    } else if begins_with(w, 'M', seq!['8', '3']) {
        CommandView::M83
    } else {
        CommandView::Raw(code)
    }
}

/// Line `k` of a model, read from the text `line`. Line numbers start again
/// at zero after `u32::MAX`.
pub open spec fn parsed_line(line: Seq<char>, k: int) -> LineView {
    LineView {
        id: Id((k % 0x1_0000_0000) as u32),
        command: command_of(code_part(line)),
        comments: comment_part(line),
    }
}

/// Whether the first `n` lines leave X, Y and Z in relative mode: the last
/// of `G90` and `G91` among them decides, and without any the mode is
/// absolute.
pub open spec fn xyz_mode(lines: Seq<LineView>, n: nat) -> bool
    decreases n,
{
    if n == 0 || n > lines.len() {
        false
    } else {
        match lines[n - 1].command {
            CommandView::G90 => false,
            CommandView::G91 => true,
            _ => xyz_mode(lines, (n - 1) as nat),
        }
    }
}

/// Whether the first `n` lines leave the extrusion axis in relative mode: the
/// last of `M82` and `M83` among them decides, and without any the mode is
/// absolute.
pub open spec fn e_mode(lines: Seq<LineView>, n: nat) -> bool
    decreases n,
{
    if n == 0 || n > lines.len() {
        false
    } else {
        match lines[n - 1].command {
            CommandView::M82 => false,
            CommandView::M83 => true,
            _ => e_mode(lines, (n - 1) as nat),
        }
    }
}

/// The lines of a model that is read from the line texts `texts`.
pub open spec fn parsed_lines(texts: Seq<Seq<char>>) -> Seq<LineView> {
    Seq::new(texts.len(), |k: int| parsed_line(texts[k], k))
}

/// The model that the text `s` stands for.
pub open spec fn parsed_model(s: Seq<char>) -> ModelView {
    let lines = parsed_lines(split_lines(s, 0));
    ModelView {
        lines,
        rel_xyz: xyz_mode(lines, lines.len()),
        rel_e: e_mode(lines, lines.len()),
        count: (lines.len() % 0x1_0000_0000) as u32,
    }
}

/// The texts that the vectors of `v` hold.
pub open spec fn texts_of(v: Seq<Vec<char>>) -> Seq<Seq<char>> {
    v.map_values(|t: Vec<char>| t@)
}

/// The texts that the strings of `v` hold.
pub open spec fn strings_of(v: Seq<String>) -> Seq<Seq<char>> {
    v.map_values(|t: String| t@)
}

fn lines_of(s: &[char]) -> (out: Vec<Vec<char>>)
    ensures
        texts_of(out@) == split_lines(s@, 0),
{
    let mut out: Vec<Vec<char>> = Vec::new();
    let mut i: usize = 0;
    assert(texts_of(out@) =~= Seq::<Seq<char>>::empty());
    while i < s.len()
        invariant
            i <= s@.len(),
            texts_of(out@) + split_lines(s@, i as int) == split_lines(s@, 0),
        decreases s@.len() - i,
    {
        let e = line_end(s, i);
        let line = copy_range(s, i, e);
        let next = space_end(s, e);
        proof {
            lemma_next_line_advances(s@, i as int);
            let before = texts_of(out@);
            let rest = split_lines(s@, next as int);
            assert(split_lines(s@, i as int) == seq![line@] + rest);
            assert(before.push(line@) + rest =~= before + (seq![line@] + rest));
            assert(texts_of(out@.push(line)) =~= before.push(line@));
        }
        out.push(line);
        i = next;
    }
    assert(texts_of(out@) + Seq::<Seq<char>>::empty() =~= texts_of(out@));
    out
}

fn set_axis(g: G1, axis: char, v: Microns) -> (r: G1)
    ensures
        r == with_axis(g, axis, v),
{
    let G1 { x, y, z, e, f, tag } = g;
    if axis == 'X' {
        G1 { x: Some(v), y, z, e, f, tag }
    } else if axis == 'Y' {
        G1 { x, y: Some(v), z, e, f, tag }
    } else if axis == 'Z' {
        G1 { x, y, z: Some(v), e, f, tag }
    } else if axis == 'E' {
        G1 { x, y, z, e: Some(v), f, tag }
    } else if axis == 'F' {
        G1 { x, y, z, e, f: Some(v), tag }
    } else {
        G1 { x, y, z, e, f, tag }
    }
}

fn axis_letter(c: char) -> (b: bool)
    ensures
        b == is_axis(c),
{
    c == 'X' || c == 'Y' || c == 'Z' || c == 'E' || c == 'F'
}

/// Reads the parameters of a linear move from `s` at index `from` on.
fn scan_g1(s: &[char], from: usize) -> (r: (G1, usize))
    requires
        from <= s@.len(),
    ensures
        (r.0, r.1 as int) == g1_scan(s@, from as int, no_parameters()),
        from <= r.1 <= s@.len(),
{
    let mut g = G1::default();
    let mut i = from;
    while i < s.len() && axis_letter(s[i])
        invariant
            from <= i <= s@.len(),
            g1_scan(s@, i as int, g) == g1_scan(s@, from as int, no_parameters()),
        decreases s@.len() - i,
    {
        let j = number_end(s, i + 1);
        let number = copy_range(s, i + 1, j);
        match parse_decimal(number.as_slice()) {
            None => {
                return (g, i);
            },
            Some(v) => {
                assert(Microns(v@ as i32) == v);
                g = set_axis(g, s[i], v);
                i = j;
            },
        }
    }
    (g, i)
}

/// Whether `w` begins with `letter` and then exactly the numeric characters
/// `first`, `second`.
fn word_is_two(w: &[char], d: usize, letter: char, first: char, second: char) -> (b: bool)
    requires
        w@.len() > 0,
        d == span_end(w@, 1, in_digits()),
        1 <= d <= w@.len(),
    ensures
        b == begins_with(w@, letter, seq![first, second]),
{
    let b = w[0] == letter && d == 3 && w[1] == first && w[2] == second;
    proof {
        let digits = w@.subrange(1, d as int);
        if b {
            assert(digits =~= seq![first, second]);
        } else if w[0] == letter {
            if digits == seq![first, second] {
                assert(digits.len() == 2);
                assert(digits[0] == first);
                assert(digits[1] == second);
            }
        }
    }
    b
}

/// Reads the command of a line from the text before its comment.
pub fn parse_command(code: &[char]) -> (c: Command)
    ensures
        c@ == command_of(code@),
{
    let w = squeezed(code);
    if w.len() == 0 {
        let raw = to_string(code, 0, code.len());
        assert(code@.subrange(0, code@.len() as int) =~= code@);
        return Command::Raw(raw);
    }
    let d = digits_end(w.as_slice(), 1);
    let is_move = w[0] == 'G' && d == 2 && w[1] == '1';
    proof {
        let digits = w@.subrange(1, d as int);
        if is_move {
            assert(digits =~= seq!['1']);
        } else if w[0] == 'G' {
            if digits == seq!['1'] {
                assert(digits.len() == 1);
                assert(digits[0] == '1');
            }
        }
    }
    if is_move {
        let (g, stop) = scan_g1(w.as_slice(), 2);
        if stop == w.len() {
            return Command::G1(g);
        }
    } else if word_is_two(w.as_slice(), d, 'G', '9', '0') {
        return Command::G90;
    } else if word_is_two(w.as_slice(), d, 'G', '9', '1') {
        return Command::G91;
    } else if word_is_two(w.as_slice(), d, 'M', '8', '2') {
        return Command::M82;
    } else if word_is_two(w.as_slice(), d, 'M', '8', '3') {
        return Command::M83;
    }
    let raw = to_string(code, 0, code.len());
    assert(code@.subrange(0, code@.len() as int) =~= code@);
    Command::Raw(raw)
}

/// Whether a command switches X, Y and Z to relative mode, to absolute mode,
/// or leaves the mode as it is.
fn switched(command: &Command, rel_xyz: bool, rel_e: bool) -> (r: (bool, bool))
    ensures
        r.0 == match command@ {
            CommandView::G90 => false,
            CommandView::G91 => true,
            _ => rel_xyz,
        },
        r.1 == match command@ {
            CommandView::M82 => false,
            CommandView::M83 => true,
            _ => rel_e,
        },
{
    match command {
        Command::G90 => (false, rel_e),
        Command::G91 => (true, rel_e),
        Command::M82 => (rel_xyz, false),
        Command::M83 => (rel_xyz, true),
        _ => (rel_xyz, rel_e),
    }
}

/// Reads a whole text into a model. Every text can be read: a line that is
/// none of the commands told apart is kept as it stands.
pub fn gcode_parser(input: &str) -> (r: Result<GCodeModel, crate::errors::GCodeParseError>)
    ensures
        r is Ok,
        r->Ok_0@ == parsed_model(input@),
{
    let chars = to_chars(input);
    let texts = lines_of(chars.as_slice());
    let ghost all = split_lines(input@, 0);
    let ghost lines = parsed_lines(all);
    let mut model = GCodeModel::default();
    let mut k: usize = 0;
    while k < texts.len()
        invariant
            k <= texts@.len(),
            texts_of(texts@) == all,
            lines == parsed_lines(all),
            model.lines@.len() == k,
            forall|j: int| 0 <= j < k ==> (#[trigger] model.lines@[j])@ == parsed_line(all[j], j),
            model.rel_xyz == xyz_mode(lines, k as nat),
            model.rel_e == e_mode(lines, k as nat),
            model.id_counter.count == (k as int) % 0x1_0000_0000,
        decreases texts@.len() - k,
    {
        let line = &texts[k];
        assert(line@ == all[k as int]);
        let semi = find(line.as_slice(), ';');
        let code = copy_range(line.as_slice(), 0, semi);
        let comments = if semi < line.len() {
            to_string(line.as_slice(), semi + 1, line.len())
        } else {
            String::new()
        };
        let command = parse_command(code.as_slice());
        let (rel_xyz, rel_e) = switched(&command, model.rel_xyz, model.rel_e);
        model.rel_xyz = rel_xyz;
        model.rel_e = rel_e;
        let id = model.id_counter.get();
        assert(lines[k as int] == parsed_line(all[k as int], k as int));
        model.lines.push(GCodeLine { id, command, comments });
        k += 1;
    }
    assert(model@.lines =~= lines);
    Ok(model)
}

impl core::str::FromStr for GCodeModel {
    type Err = crate::errors::GCodeParseError;

    /// Reads a text into a model, as `gcode_parser` does.
    fn from_str(s: &str) -> (r: Result<Self, Self::Err>)
        ensures
            r is Ok,
            r->Ok_0@ == parsed_model(s@),
    {
        gcode_parser(s)
    }
}

/// The first line of `input`, and what follows the white space behind it.
pub fn parse_line(input: &str) -> (r: (String, String))
    ensures
        r.0@ == input@.subrange(0, span_end(input@, 0, in_line())),
        r.1@ == input@.subrange(next_line(input@, 0), input@.len() as int),
{
    let chars = to_chars(input);
    let e = line_end(chars.as_slice(), 0);
    let next = space_end(chars.as_slice(), e);
    (to_string(chars.as_slice(), 0, e), to_string(chars.as_slice(), next, chars.len()))
}

/// The lines of `input`.
pub fn parse_lines(input: &str) -> (v: Vec<String>)
    ensures
        strings_of(v@) == split_lines(input@, 0),
{
    let chars = to_chars(input);
    let texts = lines_of(chars.as_slice());
    let mut out: Vec<String> = Vec::new();
    let mut k: usize = 0;
    while k < texts.len()
        invariant
            k <= texts@.len(),
            out@.len() == k,
            forall|j: int| 0 <= j < k ==> (#[trigger] out@[j])@ == texts@[j]@,
        decreases texts@.len() - k,
    {
        let line = &texts[k];
        let text = to_string(line.as_slice(), 0, line.len());
        assert(line@.subrange(0, line@.len() as int) =~= line@);
        out.push(text);
        k += 1;
    }
    assert(strings_of(out@) =~= texts_of(texts@));
    out
}

/// The word that `input` begins with: its first character, the numeric
/// characters that follow it, and the rest. An empty text has no word.
pub fn parse_word(input: &str) -> (r: Option<(String, String, String)>)
    ensures
        r is None <==> input@.len() == 0,
        r is Some ==> ({
            let d = span_end(input@, 1, in_digits());
            &&& r->Some_0.0@ == input@.subrange(0, 1)
            &&& r->Some_0.1@ == input@.subrange(1, d)
            &&& r->Some_0.2@ == input@.subrange(d, input@.len() as int)
        }),
{
    let chars = to_chars(input);
    if chars.len() == 0 {
        return None;
    }
    let d = digits_end(chars.as_slice(), 1);
    Some(
        (
            to_string(chars.as_slice(), 0, 1),
            to_string(chars.as_slice(), 1, d),
            to_string(chars.as_slice(), d, chars.len()),
        ),
    )
}

/// Reads the parameters of a linear move from the front of `input`, and
/// gives the move with what was left unread.
pub fn g1_parameter_parse(input: &str) -> (r: (G1, String))
    ensures
        r.0 == g1_scan(input@, 0, no_parameters()).0,
        r.1@ == input@.subrange(g1_scan(input@, 0, no_parameters()).1, input@.len() as int),
{
    let chars = to_chars(input);
    let (g, stop) = scan_g1(chars.as_slice(), 0);
    (g, to_string(chars.as_slice(), stop, chars.len()))
}

} // verus!
