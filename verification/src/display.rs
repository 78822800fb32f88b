//! Commands, lines and models as the text that they are read from.

use crate::emit::{command_text, line_text, lines_text, push_command, push_line, push_lines};
use crate::model::{Command, GCodeLine, GCodeModel};
use vstd::prelude::*;

verus! {

impl Command {
    /// The command as it is written in a file: a linear move as `G1` and its
    /// parameters with blanks between them, a mode switch as its word, and
    /// any other command as the text it was read from.
    pub fn to_string(&self) -> (s: String)
        ensures
            s@ == command_text(*self, false),
    {
        let mut out = String::new();
        push_command(&mut out, self, false);
        out
    }
}

impl GCodeLine {
    /// The line as it is written in a file: the command, and behind a
    /// semicolon the comment where there is one.
    pub fn to_string(&self) -> (s: String)
        ensures
            s@ == line_text(*self, false),
    {
        let mut out = String::new();
        push_line(&mut out, self, false);
        out
    }
}

impl GCodeModel {
    /// The model as a file: every line, followed by a line feed.
    pub fn to_string(&self) -> (s: String)
        ensures
            s@ == lines_text(self.lines@, self.lines@.len(), false),
    {
        let mut out = String::new();
        push_lines(&mut out, &self.lines, false);
        out
    }
}

} // verus!
