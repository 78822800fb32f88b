//! The error of reading: a message and the place in the input that it is
//! about.

use core::ops::Range;
use vstd::prelude::*;
use vstd::string::StringSliceAdditionalSpecFns;
use vstd::utf8::is_char_boundary;

verus! {

/// A message about a span of bytes of the input.
#[derive(Debug, PartialEq)]
pub struct GCodeParseError {
    pub message: String,
    pub span: Range<usize>,
    pub input: String,
}

/// The first character boundary of `bytes` at or after `e`, where there is
/// one.
pub open spec fn boundary_from(bytes: Seq<u8>, e: int) -> Option<int>
    decreases bytes.len() - e,
{
    if e < 0 || e > bytes.len() {
        None
    } else if is_char_boundary(bytes, e) {
        Some(e)
    } else if e == bytes.len() {
        None
    } else {
        boundary_from(bytes, e + 1)
    }
}

/// Where the span of one character that begins at `start` ends: at the next
/// character boundary behind `start`, or at `start` itself where none
/// follows.
pub open spec fn one_char_end(bytes: Seq<u8>, start: int) -> int {
    match boundary_from(bytes, start + 1) {
        Some(e) => e,
        None => start,
    }
}

/// How many bytes of the line that holds byte `n` stand before it.
pub open spec fn column(bytes: Seq<u8>, n: int) -> int
    decreases n,
{
    if n <= 0 || n > bytes.len() {
        0
    } else if bytes[n - 1] == 10 {
        0
    } else {
        column(bytes, n - 1) + 1
    }
}

/// No line of `bytes` is longer than `limit` bytes.
pub open spec fn lines_within(bytes: Seq<u8>, limit: int) -> bool {
    forall|n: int| 0 <= n <= bytes.len() ==> #[trigger] column(bytes, n) <= limit
}

/// The text that `annotate_snippets` renders, without styling, for an error
/// with the title `message` and the source `input`, folded to the lines
/// around the span of bytes from `start` to `end`.
pub uninterp spec fn rendered_error(
    message: Seq<char>,
    input: Seq<char>,
    start: int,
    end: int,
) -> Seq<char>;

/// `annotate_snippets::Renderer::render` on a message of level error with
/// one folded snippet and one annotation without label. The text depends on
/// the arguments alone and is given the name `rendered_error`. Left out are
/// the spans for which the renderer cuts the source inside a character or
/// past its end, and the sources with lines long enough for its margins to
/// be cut to the width of a terminal.
#[verifier::external_body]
fn render(message: &str, input: &str, start: usize, end: usize) -> (text: String)
    requires
        start <= end <= input.spec_bytes().len(),
        is_char_boundary(input.spec_bytes(), start as int),
        is_char_boundary(input.spec_bytes(), end as int),
        end == start || end == one_char_end(input.spec_bytes(), start as int),
        lines_within(input.spec_bytes(), 100),
    ensures
        text@ == rendered_error(message@, input@, start as int, end as int),
{
    let snippet = annotate_snippets::Snippet::source(input).fold(true).annotation(
        annotate_snippets::Level::Error.span(start..end),
    );
    let message = annotate_snippets::Level::Error.title(message).snippet(snippet);
    format!("{}", annotate_snippets::Renderer::plain().render(message))
}

fn short_lines(input: &str) -> (b: bool)
    ensures
        b == lines_within(input.spec_bytes(), 100),
{
    let bytes = input.as_bytes();
    let mut n: usize = 0;
    let mut run: usize = 0;
    while n < bytes.len()
        invariant
            n <= bytes@.len(),
            bytes@ == input.spec_bytes(),
            run == column(bytes@, n as int),
            run <= 100,
            forall|k: int| 0 <= k <= n ==> #[trigger] column(bytes@, k) <= 100,
        decreases bytes@.len() - n,
    {
        run = if bytes[n] == 10 {
            0
        } else {
            run + 1
        };
        n += 1;
        if run > 100 {
            assert(column(bytes@, n as int) > 100);
            return false;
        }
    }
    true
}

impl GCodeParseError {
    /// An error with the message `message` about the character of `input`
    /// that begins at byte `offset`.
    pub fn from_parse(message: String, offset: usize, input: &str) -> (r: GCodeParseError)
        ensures
            r.message == message,
            r.input@ == input@,
            r.span.start == offset,
            r.span.end == one_char_end(input.spec_bytes(), offset as int),
    {
        let n = input.as_bytes().len();
        let mut end = offset;
        if offset < n {
            let mut e = offset + 1;
            while e <= n
                invariant_except_break
                    end == offset,
                invariant
                    offset < e <= n,
                    n == input.spec_bytes().len(),
                    boundary_from(input.spec_bytes(), offset + 1) == boundary_from(
                        input.spec_bytes(),
                        e as int,
                    ),
                ensures
                    end == one_char_end(input.spec_bytes(), offset as int),
                decreases n + 1 - e,
            {
                if input.is_char_boundary(e) {
                    end = e;
                    break ;
                }
                if e == n {
                    break ;
                }
                e += 1;
            }
        }
        GCodeParseError { message, span: offset..end, input: input.to_owned() }
    }

    /// The error can be rendered: its span is empty or one character of the
    /// input, and no line of the input is longer than 100 bytes.
    pub open spec fn renderable(&self) -> bool {
        let b = vstd::utf8::encode_utf8(self.input@);
        &&& self.span.start <= self.span.end <= b.len()
        &&& is_char_boundary(b, self.span.start as int)
        &&& is_char_boundary(b, self.span.end as int)
        &&& (self.span.end == self.span.start || self.span.end == one_char_end(
            b,
            self.span.start as int,
        ))
        &&& lines_within(b, 100)
    }

    /// Whether the error can be rendered.
    pub fn can_render(&self) -> (b: bool)
        ensures
            b == self.renderable(),
    {
        let input = self.input.as_str();
        let start = self.span.start;
        let end = self.span.end;
        if start > end || end > input.as_bytes().len() {
            return false;
        }
        if !input.is_char_boundary(start) || !input.is_char_boundary(end) {
            return false;
        }
        if end != start {
            let probe = GCodeParseError::from_parse(String::new(), start, input);
            if probe.span.end != end {
                return false;
            }
        }
        short_lines(input)
    }

    /// The error as text: the message, and the line of the input with a mark
    /// under the span.
    pub fn to_string(&self) -> (text: String)
        requires
            self.renderable(),
        ensures
            text@ == rendered_error(
                self.message@,
                self.input@,
                self.span.start as int,
                self.span.end as int,
            ),
    {
        render(self.message.as_str(), self.input.as_str(), self.span.start, self.span.end)
    }
}

} // verus!
