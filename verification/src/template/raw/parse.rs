//! Parsing a source into a template.
use vstd::prelude::*;
use crate::error::{
    expected_after_name, ExpectedCharacter, InvalidEscapeSequence, MissingClosingBrace,
    MissingVariableName, ParseError, UnexpectedCharacter,
};
use crate::scan::{
    closing_brace, find_closing_brace_in, find_literal_end, find_name_end, is_escapable,
    lemma_closing_brace, lemma_literal_end, lemma_literal_end_found, lemma_name_end, literal_end,
    name_end, BACKSLASH, CLOSE_BRACE, COLON, DOLLAR, OPEN_BRACE,
};
use crate::template::raw::{
    lemma_parts_view_empty, lemma_parts_view_push, part_view, parts_view, EscapedByte, Literal,
    Part, PartSpec, Template, Variable,
};
use crate::template::raw::expand::{part_within, parts_within};
use crate::template::raw::layout::{lemma_parse_tiles, tiles};
use crate::text::{char_or_byte_at, get_maybe_char_in};

verus! {

/// The outcome for a part followed by the outcome for what stands behind it.
pub open spec fn after(
    part: PartSpec,
    rest: Result<Seq<PartSpec>, ParseError>,
) -> Result<Seq<PartSpec>, ParseError> {
    match rest {
        Ok(parts) => Ok(seq![part] + parts),
        Err(error) => Err(error),
    }
}

/// The offset just behind the variable whose `$` stands at `dollar` in `source[..to]`,
/// where the variable is well formed.
///
/// A short variable ends with its name. A braced variable ends with its closing brace:
/// the one right behind the name, or the one that matches the opening brace where a
/// default stands in between.
pub open spec fn variable_end(source: Seq<u8>, dollar: int, to: int) -> int {
    if dollar + 1 < to && source[dollar + 1] == OPEN_BRACE {
        let name_stop = name_end(source, dollar + 2, to);
        if name_stop < to && source[name_stop] == COLON {
            match closing_brace(source, name_stop + 1, to, 1) {
                Some(end) => end + 1,
                None => to,
            }
        } else if name_stop < to {
            name_stop + 1
        } else {
            to
        }
    } else {
        name_end(source, dollar + 1, to)
    }
}

/// A variable ends behind its `$` and inside the source.
pub proof fn lemma_variable_end(source: Seq<u8>, dollar: int, to: int)
    requires
        dollar < to,
    ensures
        dollar < variable_end(source, dollar, to) <= to,
{
    if dollar + 1 < to && source[dollar + 1] == OPEN_BRACE {
        lemma_name_end(source, dollar + 2, to);
        let name_stop = name_end(source, dollar + 2, to);
        if name_stop < to && source[name_stop] == COLON {
            lemma_closing_brace(source, name_stop + 1, to, 1);
        }
    } else {
        lemma_name_end(source, dollar + 1, to);
    }
}

/// The outcome of parsing `source[from..to]` as a template.
///
/// The source is read from left to right. Bytes up to the next `$` or `\` form a
/// literal; a `\` starts an escape sequence and a `$` a variable. The first fault ends
/// the parse, and its position counts from the start of the source.
pub open spec fn parse_parts(source: Seq<u8>, from: int, to: int) -> Result<Seq<PartSpec>, ParseError>
    decreases to - from, 2int,
{
    if from >= to {
        Ok(Seq::empty())
    } else if literal_end(source, from, to) > from {
        let next = literal_end(source, from, to);
        proof {
            lemma_literal_end(source, from, to);
        }
        after(PartSpec::Literal { start: from, end: next }, parse_parts(source, next, to))
    } else if source[from] == BACKSLASH {
        match parse_escape(source, from, to) {
            Ok(value) => after(PartSpec::EscapedByte { value }, parse_parts(source, from + 2, to)),
            Err(error) => Err(error),
        }
    } else {
        proof {
            lemma_variable_end(source, from, to);
        }
        match parse_variable(source, from, to) {
            Ok(variable) => after(variable, parse_parts(source, variable_end(source, from, to), to)),
            Err(error) => Err(error),
        }
    }
}

/// The outcome of reading the escape sequence whose backslash stands at `position` in
/// `source[..to]`: the escaped byte, if it is one of `\`, `$`, `{`, `}` and `:`.
pub open spec fn parse_escape(source: Seq<u8>, position: int, to: int) -> Result<u8, ParseError> {
    if position + 1 >= to {
        Err(
            ParseError::InvalidEscapeSequence(
                InvalidEscapeSequence { position: position as usize, character: None },
            ),
        )
    } else if is_escapable(source[position + 1]) {
        Ok(source[position + 1])
    } else {
        Err(
            ParseError::InvalidEscapeSequence(
                InvalidEscapeSequence {
                    position: position as usize,
                    character: Some(char_or_byte_at(source, position + 1, to)),
                },
            ),
        )
    }
}

/// The outcome of reading the variable whose `$` stands at `dollar` in `source[..to]`.
pub open spec fn parse_variable(source: Seq<u8>, dollar: int, to: int) -> Result<PartSpec, ParseError>
    decreases to - dollar, 1int,
{
    if dollar + 1 >= to {
        Err(
            ParseError::MissingVariableName(
                MissingVariableName { position: dollar as usize, len: 1 },
            ),
        )
    } else if source[dollar + 1] == OPEN_BRACE {
        parse_braced(source, dollar, to)
    } else if name_end(source, dollar + 1, to) == dollar + 1 {
        Err(
            ParseError::MissingVariableName(
                MissingVariableName { position: dollar as usize, len: 1 },
            ),
        )
    } else {
        Ok(
            PartSpec::Variable {
                name_start: dollar + 1,
                name_end: name_end(source, dollar + 1, to),
                default: None,
            },
        )
    }
}

/// The outcome of reading the braced variable whose `$` stands at `dollar` in
/// `source[..to]`, in the form `${NAME}` or `${NAME:default}`.
///
/// The default reaches from behind the colon to the closing brace that matches the
/// opening one, and is parsed as a template of its own.
pub open spec fn parse_braced(source: Seq<u8>, dollar: int, to: int) -> Result<PartSpec, ParseError>
    decreases to - dollar, 0int,
{
    let name_start = dollar + 2;
    let name_stop = name_end(source, name_start, to);
    if name_start >= to || name_stop == name_start {
        Err(
            ParseError::MissingVariableName(
                MissingVariableName { position: dollar as usize, len: 2 },
            ),
        )
    } else if name_stop >= to {
        Err(
            ParseError::MissingClosingBrace(
                MissingClosingBrace { position: (dollar + 1) as usize },
            ),
        )
    } else if source[name_stop] == CLOSE_BRACE {
        Ok(PartSpec::Variable { name_start, name_end: name_stop, default: None })
    } else if source[name_stop] != COLON {
        Err(
            ParseError::UnexpectedCharacter(
                UnexpectedCharacter {
                    position: name_stop as usize,
                    character: char_or_byte_at(source, name_stop, to),
                    expected: ExpectedCharacter { message: expected_after_name() },
                },
            ),
        )
    } else {
        match closing_brace(source, name_stop + 1, to, 1) {
            None => Err(
                ParseError::MissingClosingBrace(
                    MissingClosingBrace { position: (dollar + 1) as usize },
                ),
            ),
            Some(end) => {
                proof {
                    lemma_name_end(source, name_start, to);
                    lemma_closing_brace(source, name_stop + 1, to, 1);
                }
                match parse_parts(source, name_stop + 1, end) {
                    Ok(parts) => Ok(
                        PartSpec::Variable { name_start, name_end: name_stop, default: Some(parts) },
                    ),
                    Err(error) => Err(error),
                }
            },
        }
    }
}

/// The outcome of a parse, with the template taken by its content.
pub open spec fn parsed(result: Result<Template, ParseError>) -> Result<Seq<PartSpec>, ParseError> {
    match result {
        Ok(template) => Ok(template@),
        Err(error) => Err(error),
    }
}

/// The outcome of reading a variable, with the variable taken by its content.
pub open spec fn parsed_variable(result: Result<(Variable, usize), ParseError>) -> Result<
    PartSpec,
    ParseError,
> {
    match result {
        Ok((variable, end)) => Ok(variable@),
        Err(error) => Err(error),
    }
}

/// The parts read so far, followed by the outcome for the rest of the source.
pub open spec fn continued(
    parts: Seq<PartSpec>,
    rest: Result<Seq<PartSpec>, ParseError>,
) -> Result<Seq<PartSpec>, ParseError> {
    match rest {
        Ok(more) => Ok(parts + more),
        Err(error) => Err(error),
    }
}

/// Reading one more part and then the rest is reading the rest behind what was read.
pub proof fn lemma_continued_after(
    parts: Seq<PartSpec>,
    part: PartSpec,
    rest: Result<Seq<PartSpec>, ParseError>,
)
    ensures
        continued(parts, after(part, rest)) == continued(parts.push(part), rest),
{
    if let Ok(more) = rest {
        assert(parts + (seq![part] + more) =~= parts.push(part) + more);
    }
}

/// Unescape a single escape sequence in `source[..to]`.
///
/// The `position` is that of the backslash. Only the escape sequences `\\`, `\$`,
/// `\{`, `\}` and `\:` are accepted: any other is an error.
pub fn unescape_one(source: &[u8], position: usize, to: usize) -> (result: Result<u8, ParseError>)
    requires
        position < to <= source@.len(),
    ensures
        result == parse_escape(source@, position as int, to as int),
{
    if position + 1 >= to {
        return Err(
            ParseError::InvalidEscapeSequence(InvalidEscapeSequence { position, character: None }),
        );
    }
    let byte = source[position + 1];
    if byte == BACKSLASH || byte == DOLLAR || byte == OPEN_BRACE || byte == CLOSE_BRACE || byte == COLON {
        Ok(byte)
    } else {
        Err(
            ParseError::InvalidEscapeSequence(
                InvalidEscapeSequence {
                    position,
                    character: Some(get_maybe_char_in(source, position + 1, to)),
                },
            ),
        )
    }
}

impl Template {
    /// Parse the template from a source slice starting at the given position.
    ///
    /// The whole source is passed together with the offset at which to start, so that
    /// the positions in errors count from the start of the source.
    pub fn parse(source: &[u8], start: usize) -> (result: Result<Template, ParseError>)
        ensures
            parsed(result) == parse_parts(source@, start as int, source@.len() as int),
            result matches Ok(template) ==> parts_within(template@, source@),
            result matches Ok(template) ==> start <= source@.len() ==> tiles(
                template@,
                source@,
                start as int,
                source@.len() as int,
            ),
    {
        Template::parse_range(source, start, source.len())
    }

    /// Parse the template that stands in `source[start..to]`.
    ///
    /// The positions in the template and in errors count from the start of the source.
    pub fn parse_range(source: &[u8], start: usize, to: usize) -> (result: Result<
        Template,
        ParseError,
    >)
        requires
            to <= source@.len(),
        ensures
            parsed(result) == parse_parts(source@, start as int, to as int),
            result matches Ok(template) ==> parts_within(template@, source@),
            result matches Ok(template) ==> start <= to ==> tiles(
                template@,
                source@,
                start as int,
                to as int,
            ),
        decreases to - start, 2int,
    {
        let mut parts: Vec<Part> = Vec::with_capacity(1);
        let mut finger: usize = start;
        proof {
            lemma_parts_view_empty();
            lemma_parse_within(source@, start as int, to as int);
            if start <= to {
                lemma_parse_tiles(source@, start as int, to as int);
            }
        }
        while finger < to
            invariant
                start <= finger,
                to <= source@.len(),
                parse_parts(source@, start as int, to as int) == continued(
                    parts_view(parts@),
                    parse_parts(source@, finger as int, to as int),
                ),
            ensures
                finger >= to,
            decreases to - finger,
        {
            let ghost before = parts_view(parts@);
            let next = find_literal_end(source, finger, to);
            proof {
                lemma_literal_end(source@, finger as int, to as int);
            }

            // What stands before the next backslash or dollar is a piece of literal text.
            if next != finger {
                let part = Part::Literal(Literal { range: std::ops::Range { start: finger, end: next } });
                proof {
                    lemma_parts_view_push(parts@, part);
                    lemma_continued_after(
                        before,
                        part_view(part),
                        parse_parts(source@, next as int, to as int),
                    );
                }
                parts.push(part);
            }
            // At the end of the source, the template is complete.
            if next == to {
                finger = next;
                break ;
            }
            proof {
                lemma_literal_end_found(source@, next as int, to as int, next as int);
            }
            let ghost middle = parts_view(parts@);

            if source[next] == BACKSLASH {
                let value = match unescape_one(source, next, to) {
                    Ok(value) => value,
                    Err(error) => {
                        return Err(error);
                    },
                };
                let part = Part::EscapedByte(EscapedByte { value });
                proof {
                    lemma_parts_view_push(parts@, part);
                    lemma_continued_after(
                        middle,
                        part_view(part),
                        parse_parts(source@, next + 2, to as int),
                    );
                }
                parts.push(part);
                finger = next + 2;
            } else {
                let (variable, end) = match Variable::parse(source, next, to) {
                    Ok(found) => found,
                    Err(error) => {
                        return Err(error);
                    },
                };
                let part = Part::Variable(variable);
                proof {
                    lemma_parts_view_push(parts@, part);
                    lemma_continued_after(
                        middle,
                        part_view(part),
                        parse_parts(source@, end as int, to as int),
                    );
                }
                parts.push(part);
                finger = end;
            }
        }
        Ok(Template { parts })
    }
}

impl Variable {
    /// Parse a variable from `source[..to]`.
    ///
    /// The finger is the position of the dollar sign in the source.
    ///
    /// Returns the parsed variable and the index of the byte after the variable.
    pub fn parse(source: &[u8], finger: usize, to: usize) -> (result: Result<
        (Variable, usize),
        ParseError,
    >)
        requires
            finger < to <= source@.len(),
        ensures
            parsed_variable(result) == parse_variable(source@, finger as int, to as int),
            result matches Ok((variable, end)) ==> end == variable_end(
                source@,
                finger as int,
                to as int,
            ) && finger < end <= to,
        decreases to - finger, 1int,
    {
        if finger + 1 >= to {
            return Err(
                ParseError::MissingVariableName(MissingVariableName { position: finger, len: 1 }),
            );
        }
        if source[finger + 1] == OPEN_BRACE {
            return Variable::parse_braced(source, finger, to);
        }
        let name_stop = find_name_end(source, finger + 1, to);
        if name_stop == finger + 1 {
            return Err(
                ParseError::MissingVariableName(MissingVariableName { position: finger, len: 1 }),
            );
        }
        let variable = Variable {
            name: std::ops::Range { start: finger + 1, end: name_stop },
            default: None,
        };
        Ok((variable, name_stop))
    }

    /// Parse a braced variable, in the form `${name}` or `${name:default}`, from
    /// `source[..to]`.
    ///
    /// The finger is the position of the dollar sign in the source, and an opening
    /// brace stands behind it.
    ///
    /// Returns the parsed variable and the index of the byte after the variable.
    pub fn parse_braced(source: &[u8], finger: usize, to: usize) -> (result: Result<
        (Variable, usize),
        ParseError,
    >)
        requires
            finger + 1 < to <= source@.len(),
            source@[finger + 1] == OPEN_BRACE,
        ensures
            parsed_variable(result) == parse_braced(source@, finger as int, to as int),
            result matches Ok((variable, end)) ==> end == variable_end(
                source@,
                finger as int,
                to as int,
            ) && finger < end <= to,
        decreases to - finger, 0int,
    {
        let name_start = finger + 2;
        if name_start >= to {
            return Err(
                ParseError::MissingVariableName(MissingVariableName { position: finger, len: 2 }),
            );
        }
        // The name is the first run of letters, digits and underscores.
        let name_stop = find_name_end(source, name_start, to);
        if name_stop == name_start {
            return Err(
                ParseError::MissingVariableName(MissingVariableName { position: finger, len: 2 }),
            );
        }
        // If the name extends to the end, the closing brace is missing.
        if name_stop == to {
            return Err(
                ParseError::MissingClosingBrace(MissingClosingBrace { position: finger + 1 }),
            );
        }
        // With a closing brace right behind the name, there is no default.
        if source[name_stop] == CLOSE_BRACE {
            let variable = Variable {
                name: std::ops::Range { start: name_start, end: name_stop },
                default: None,
            };
            return Ok((variable, name_stop + 1));
        }
        // Anything but a closing brace or a colon behind the name is an error.
        if source[name_stop] != COLON {
            return Err(
                ParseError::UnexpectedCharacter(
                    UnexpectedCharacter {
                        position: name_stop,
                        character: get_maybe_char_in(source, name_stop, to),
                        expected: ExpectedCharacter { message: "a closing brace ('}') or colon (':')" },
                    },
                ),
            );
        }
        // The default ends at the matching closing brace that is not escaped.
        let end = match find_closing_brace_in(source, name_stop + 1, to, 1) {
            Some(end) => end,
            None => {
                return Err(
                    ParseError::MissingClosingBrace(MissingClosingBrace { position: finger + 1 }),
                );
            },
        };
        proof {
            lemma_closing_brace(source@, name_stop + 1, to as int, 1);
        }
        let default = match Template::parse_range(source, name_stop + 1, end) {
            Ok(template) => template,
            Err(error) => {
                return Err(error);
            },
        };
        let variable = Variable {
            name: std::ops::Range { start: name_start, end: name_stop },
            default: Some(default),
        };
        Ok((variable, end + 1))
    }
}

/// A template that was parsed from a source refers to bytes of that source only, and
/// the names of its variables are proper names.
pub proof fn lemma_parse_within(source: Seq<u8>, from: int, to: int)
    requires
        0 <= from,
        to <= source.len(),
    ensures
        parse_parts(source, from, to) matches Ok(parts) ==> parts_within(parts, source),
    decreases to - from, 1int,
{
    if from < to {
        lemma_literal_end(source, from, to);
        let next = literal_end(source, from, to);
        if next > from {
            lemma_parse_within(source, next, to);
            if let Ok(rest) = parse_parts(source, next, to) {
                let part = PartSpec::Literal { start: from, end: next };
                lemma_within_after(part, rest, source);
            }
        } else if source[from] == BACKSLASH {
            if let Ok(value) = parse_escape(source, from, to) {
                lemma_parse_within(source, from + 2, to);
                if let Ok(rest) = parse_parts(source, from + 2, to) {
                    lemma_within_after(PartSpec::EscapedByte { value }, rest, source);
                }
            }
        } else {
            lemma_variable_end(source, from, to);
            lemma_variable_within(source, from, to);
            if let Ok(variable) = parse_variable(source, from, to) {
                let end = variable_end(source, from, to);
                lemma_parse_within(source, end, to);
                if let Ok(rest) = parse_parts(source, end, to) {
                    lemma_within_after(variable, rest, source);
                }
            }
        }
    }
}

/// A part that lies within the source, before parts that do, makes parts that do.
proof fn lemma_within_after(part: PartSpec, rest: Seq<PartSpec>, source: Seq<u8>)
    requires
        part_within(part, source),
        parts_within(rest, source),
    ensures
        parts_within(seq![part] + rest, source),
{
    let parts = seq![part] + rest;
    assert forall|i: int| 0 <= i < parts.len() implies part_within(#[trigger] parts[i], source) by {
        if i > 0 {
            assert(parts[i] == rest[i - 1]);
        }
    }
}

/// A variable that was parsed from a source refers to bytes of that source only, and
/// its name is a proper name.
pub proof fn lemma_variable_within(source: Seq<u8>, dollar: int, to: int)
    requires
        0 <= dollar < to <= source.len(),
    ensures
        parse_variable(source, dollar, to) matches Ok(variable) ==> part_within(variable, source),
    decreases to - dollar, 0int,
{
    if dollar + 1 < to {
        if source[dollar + 1] == OPEN_BRACE {
            let name_start = dollar + 2;
            if name_start < to {
                lemma_name_end(source, name_start, to);
                let name_stop = name_end(source, name_start, to);
                if name_stop < to && source[name_stop] == COLON {
                    lemma_closing_brace(source, name_stop + 1, to, 1);
                    if let Some(end) = closing_brace(source, name_stop + 1, to, 1) {
                        lemma_parse_within(source, name_stop + 1, end);
                    }
                }
            }
        } else {
            lemma_name_end(source, dollar + 1, to);
        }
    }
}

} // verus!
