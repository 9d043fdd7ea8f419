//! Showing where in the source an error lies.
use vstd::prelude::*;
use vstd::string::StringExecFns;
use vstd::string::StringSliceAdditionalSpecFns;
use vstd::utf8::{
    decode_utf8, encode_utf8, encode_utf8_decode_utf8, encode_utf8_valid_utf8, is_char_boundary,
    is_char_boundary_start_end_of_seq, valid_utf8, valid_utf8_split,
};
use crate::error::{Error, Failure};
use crate::text::{lemma_boundary_after_ascii, lemma_boundary_at_ascii, lemma_valid_between_boundaries};

verus! {

/// The widest line, in columns, that is shown with an error.
pub const MAX_WIDTH: usize = 60;

/// Whether a byte ends a line: a line feed or a carriage return.
pub open spec fn is_line_break(byte: u8) -> bool {
    byte == 0x0a || byte == 0x0d
}

/// The offset at which the line that holds `position` starts: behind the last line
/// break before `position`, or at the start of the source.
pub open spec fn line_start_of(source: Seq<u8>, position: int) -> int
    decreases position,
{
    if position <= 0 {
        0
    } else if is_line_break(source[position - 1]) {
        position
    } else {
        line_start_of(source, position - 1)
    }
}

/// The offset at which the line that holds `position` ends: at the first line break at
/// or behind `position`, or at the end of the source.
pub open spec fn line_end_of(source: Seq<u8>, position: int) -> int
    decreases source.len() - position,
{
    if position >= source.len() {
        source.len() as int
    } else if is_line_break(source[position]) {
        position
    } else {
        line_end_of(source, position + 1)
    }
}

/// The text that the bytes from `start` up to `end` of a text decode to.
pub open spec fn text_between(source: Seq<char>, start: int, end: int) -> Seq<char> {
    decode_utf8(encode_utf8(source).subrange(start, end))
}

/// The number of columns that a text takes when displayed, as the crate
/// `unicode-width` counts them.
pub uninterp spec fn display_width(text: Seq<char>) -> usize;

/// Calls `UnicodeWidthStr::width` of the crate `unicode-width`, which gives the
/// displayed width of a string in columns.
///
/// Trusted: the result is a function of the text alone, which this crate names
/// [`display_width`].
#[verifier::external_body]
fn width_of(text: &str) -> (width: usize)
    ensures
        width == display_width(text@),
{
    unicode_width::UnicodeWidthStr::width(text)
}

/// A line starts at or before the position, at the start of the source or behind a
/// line break.
pub proof fn lemma_line_start(source: Seq<u8>, position: int)
    requires
        0 <= position <= source.len(),
    ensures
        0 <= line_start_of(source, position) <= position,
        line_start_of(source, position) > 0 ==> is_line_break(
            source[line_start_of(source, position) - 1],
        ),
    decreases position,
{
    if position > 0 && !is_line_break(source[position - 1]) {
        lemma_line_start(source, position - 1);
    }
}

/// A line ends at or behind the position, at a line break or at the end of the source.
pub proof fn lemma_line_end(source: Seq<u8>, position: int)
    requires
        0 <= position <= source.len(),
    ensures
        position <= line_end_of(source, position) <= source.len(),
        line_end_of(source, position) < source.len() ==> is_line_break(
            source[line_end_of(source, position)],
        ),
    decreases source.len() - position,
{
    if position < source.len() && !is_line_break(source[position]) {
        lemma_line_end(source, position + 1);
    }
}

/// The lines of a text start and end at character boundaries.
pub proof fn lemma_line_boundaries(source: Seq<u8>, position: int)
    requires
        valid_utf8(source),
        0 <= position <= source.len(),
    ensures
        is_char_boundary(source, line_start_of(source, position)),
        is_char_boundary(source, line_end_of(source, position)),
{
    lemma_line_start(source, position);
    lemma_line_end(source, position);
    is_char_boundary_start_end_of_seq(source);
    let start = line_start_of(source, position);
    if start > 0 {
        lemma_boundary_after_ascii(source, start - 1);
    }
    let end = line_end_of(source, position);
    if end < source.len() {
        lemma_boundary_at_ascii(source, end);
    }
}

/// Find the start of the line that holds the given position.
pub fn line_start(source: &str, position: usize) -> (start: usize)
    requires
        position <= encode_utf8(source@).len(),
    ensures
        start == line_start_of(encode_utf8(source@), position as int),
{
    let bytes = source.as_bytes();
    let mut start: usize = position;
    while start > 0 && bytes[start - 1] != 0x0a && bytes[start - 1] != 0x0d
        invariant
            start <= position <= bytes@.len(),
            line_start_of(bytes@, position as int) == line_start_of(bytes@, start as int),
        decreases start,
    {
        start -= 1;
    }
    start
}

/// Find the end of the line that holds the given position.
pub fn line_end(source: &str, position: usize) -> (end: usize)
    requires
        position <= encode_utf8(source@).len(),
    ensures
        end == line_end_of(encode_utf8(source@), position as int),
{
    let bytes = source.as_bytes();
    let mut end: usize = position;
    while end < bytes.len() && bytes[end] != 0x0a && bytes[end] != 0x0d
        invariant
            position <= end <= bytes@.len(),
            line_end_of(bytes@, position as int) == line_end_of(bytes@, end as int),
        decreases bytes@.len() - end,
    {
        end += 1;
    }
    end
}

/// Get the part of a text that stands between two character boundaries.
pub fn slice_text(source: &str, start: usize, end: usize) -> (part: &str)
    requires
        start <= end <= encode_utf8(source@).len(),
        is_char_boundary(encode_utf8(source@), start as int),
        is_char_boundary(encode_utf8(source@), end as int),
    ensures
        part@ == text_between(source@, start as int, end as int),
{
    let ghost bytes = encode_utf8(source@);
    proof {
        encode_utf8_valid_utf8(source@);
        valid_utf8_split(bytes, start as int);
    }
    let (_, tail) = source.split_at(start);
    proof {
        let rest = bytes.subrange(start as int, bytes.len() as int);
        lemma_valid_between_boundaries(bytes, start as int, end as int);
        assert(rest.subrange(0, end - start) =~= bytes.subrange(start as int, end as int));
        lemma_boundary_within(rest, end - start);
    }
    let (part, _) = tail.split_at(end - start);
    proof {
        encode_utf8_decode_utf8(part@);
    }
    part
}

/// An offset behind a valid prefix of valid UTF-8 is a character boundary.
proof fn lemma_boundary_within(bytes: Seq<u8>, index: int)
    requires
        valid_utf8(bytes),
        0 <= index <= bytes.len(),
        valid_utf8(bytes.subrange(0, index)),
    ensures
        is_char_boundary(bytes, index),
    decreases bytes.len(),
{
    if index > 0 {
        let prefix = bytes.subrange(0, index);
        let first = vstd::utf8::length_of_first_scalar(bytes);
        let rest = vstd::utf8::pop_first_scalar(bytes);
        assert(rest.subrange(0, index - first) =~= vstd::utf8::pop_first_scalar(prefix));
        lemma_boundary_within(rest, index - first);
    }
}

/// The highlighting for a line, given the widths that go into it.
///
/// A line of more than [`MAX_WIDTH`] columns is not shown: the highlighting is empty.
/// Else it is the line behind two spaces, and below it as many spaces as the error is
/// columns from the start of the line, then one `^` for each column of the error.
pub open spec fn rendering(line: Seq<char>, line_width: usize, spaces: usize, carets: usize) -> Seq<
    char,
> {
    if line_width > MAX_WIDTH {
        Seq::empty()
    } else {
        "  "@ + line + "\n  "@ + Seq::new(spaces as nat, |i: int| ' ') + Seq::new(
            carets as nat,
            |i: int| '^',
        ) + "\n"@
    }
}

/// The highlighting of an error in the source that it was reported for.
///
/// The line is the one in which the error starts. The marks reach to the end of the
/// error or to the end of that line, whichever comes first.
pub open spec fn highlighting(error: Failure, source: Seq<char>) -> Seq<char> {
    let bytes = encode_utf8(source);
    let start = error.spec_start();
    let end = error.spec_end();
    let line_start = line_start_of(bytes, start);
    let line_end = line_end_of(bytes, start);
    let stop = if end < line_end {
        end
    } else {
        line_end
    };
    rendering(
        text_between(source, line_start, line_end),
        display_width(text_between(source, line_start, line_end)),
        display_width(text_between(source, line_start, start)),
        display_width(text_between(source, start, stop)),
    )
}

/// Whether an error lies in a source: it starts and ends at character boundaries of
/// the source, and its offsets are such as a machine can hold.
pub open spec fn located_in(error: Failure, source: Seq<char>) -> bool {
    &&& 0 <= error.spec_start() <= error.spec_end() <= encode_utf8(source).len()
    &&& error.spec_end() <= usize::MAX
    &&& is_char_boundary(encode_utf8(source), error.spec_start())
    &&& is_char_boundary(encode_utf8(source), error.spec_end())
}

/// Add a character to a text a number of times.
fn push_repeated(text: &mut String, c: char, count: usize)
    ensures
        final(text)@ == old(text)@ + Seq::new(count as nat, |i: int| c),
{
    let mut done: usize = 0;
    while done < count
        invariant
            done <= count,
            text@ == old(text)@ + Seq::new(done as nat, |i: int| c),
        decreases count - done,
    {
        text.push(c);
        done += 1;
    }
}

/// Lay out the highlighting for a line, given the widths that go into it.
///
/// The result ends with a newline, unless it is empty because the line is too wide.
pub fn render_highlighting(line: &str, line_width: usize, spaces: usize, carets: usize) -> (text:
    String)
    ensures
        text@ == rendering(line@, line_width, spaces, carets),
{
    if line_width > MAX_WIDTH {
        return String::new();
    }
    let mut text = String::from_str("  ");
    text.append(line);
    text.append("\n  ");
    push_repeated(&mut text, ' ', spaces);
    push_repeated(&mut text, '^', carets);
    text.append("\n");
    text
}

impl Error {
    /// Get the line of source that contains the start of the error.
    ///
    /// The error must start inside the source.
    pub fn source_line<'a>(&self, source: &'a str) -> (line: &'a str)
        requires
            self@.spec_start() <= encode_utf8(source@).len(),
        ensures
            line@ == text_between(
                source@,
                line_start_of(encode_utf8(source@), self@.spec_start()),
                line_end_of(encode_utf8(source@), self@.spec_start()),
            ),
    {
        let position = self.position();
        let start = line_start(source, position);
        let end = line_end(source, position);
        proof {
            encode_utf8_valid_utf8(source@);
            lemma_line_start(encode_utf8(source@), position as int);
            lemma_line_end(encode_utf8(source@), position as int);
            lemma_line_boundaries(encode_utf8(source@), position as int);
        }
        slice_text(source, start, end)
    }

    /// Tell whether the error lies in the given source: whether it starts and ends at
    /// character boundaries of the source.
    ///
    /// This is what [`Self::source_highlighting()`] asks of its arguments.
    pub fn lies_in(&self, source: &str) -> (located: bool)
        ensures
            located == located_in(self@, source@),
    {
        let length = source.as_bytes().len();
        let start = self.position();
        match start.checked_add(self.span()) {
            Some(end) => end <= length && source.is_char_boundary(start) && source.is_char_boundary(
                end,
            ),
            None => false,
        }
    }

    /// Get source highlighting for the error location as a string.
    ///
    /// The highlighting ends with a newline. It is empty if the source line is more
    /// than 60 columns wide.
    ///
    /// The error must lie in the source, as every error does in the source that it
    /// was reported for.
    pub fn source_highlighting(&self, source: &str) -> (text: String)
        requires
            located_in(self@, source@),
        ensures
            text@ == highlighting(self@, source@),
    {
        let range = self.source_range();
        let start = line_start(source, range.start);
        let end = line_end(source, range.start);
        let stop = if range.end < end {
            range.end
        } else {
            end
        };
        proof {
            encode_utf8_valid_utf8(source@);
            lemma_line_start(encode_utf8(source@), range.start as int);
            lemma_line_end(encode_utf8(source@), range.start as int);
            lemma_line_boundaries(encode_utf8(source@), range.start as int);
        }
        let line = slice_text(source, start, end);
        let before = slice_text(source, start, range.start);
        let marked = slice_text(source, range.start, stop);
        render_highlighting(line, width_of(line), width_of(before), width_of(marked))
    }
}

} // verus!
