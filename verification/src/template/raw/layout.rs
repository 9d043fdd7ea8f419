//! How the parts of a parsed template lie in the source.
use vstd::prelude::*;
use crate::scan::{
    closing_brace, is_escapable, is_name_byte, is_special, lemma_closing_brace, lemma_literal_end,
    lemma_name_end, literal_end, name_end, BACKSLASH, CLOSE_BRACE, COLON, DOLLAR, OPEN_BRACE,
};
use crate::template::raw::parse::{
    lemma_variable_end, parse_escape, parse_parts, parse_variable, variable_end,
};
use crate::template::raw::PartSpec;

verus! {

/// The offset just behind a part that starts at `from` in `source[..to]`.
pub open spec fn part_end(part: PartSpec, source: Seq<u8>, from: int, to: int) -> int {
    match part {
        PartSpec::Literal { start, end } => end,
        PartSpec::EscapedByte { value } => from + 2,
        PartSpec::Variable { name_start, name_end, default } => variable_end(source, from, to),
    }
}

/// Whether a part is what stands at `from` in `source[..to]`.
///
/// A literal starts at `from` and holds bytes that are neither `$` nor `\`. An escaped
/// byte stands behind a backslash at `from`. A variable starts with a `$` at `from`; its
/// name follows the `$` or the `${`, and its default, if it has one, fills what lies
/// between the colon and the closing brace.
pub open spec fn stands_at(part: PartSpec, source: Seq<u8>, from: int, to: int) -> bool
    decreases part, 0int,
{
    match part {
        PartSpec::Literal { start, end } => {
            &&& start == from
            &&& from < end <= to
            &&& forall|i: int| start <= i < end ==> !is_special(#[trigger] source[i])
        },
        PartSpec::EscapedByte { value } => {
            &&& from + 2 <= to
            &&& source[from] == BACKSLASH
            &&& source[from + 1] == value
            &&& is_escapable(value)
        },
        PartSpec::Variable { name_start, name_end, default } => {
            let end = variable_end(source, from, to);
            &&& source[from] == DOLLAR
            &&& from < name_start < name_end <= end <= to
            &&& forall|i: int| name_start <= i < name_end ==> is_name_byte(#[trigger] source[i])
            &&& if name_start == from + 1 {
                default is None && end == name_end
            } else {
                &&& name_start == from + 2
                &&& source[from + 1] == OPEN_BRACE
                &&& source[end - 1] == CLOSE_BRACE
                &&& match default {
                    Some(parts) => source[name_end] == COLON && tiles(
                        parts,
                        source,
                        name_end + 1,
                        end - 1,
                    ),
                    None => end == name_end + 1,
                }
            }
        },
    }
}

/// Whether the parts fill `source[from..to]`: each part starts where the one before it
/// ends, the first one at `from`, and the last one ends at `to`.
///
/// So no two parts overlap, the parts stand in the order of the source, and every
/// byte between `from` and `to` belongs to exactly one part.
pub open spec fn tiles(parts: Seq<PartSpec>, source: Seq<u8>, from: int, to: int) -> bool
    decreases parts, 1int,
{
    if parts.len() == 0 {
        from == to
    } else {
        &&& from < to
        &&& stands_at(parts[0], source, from, to)
        &&& tiles(
            parts.subrange(1, parts.len() as int),
            source,
            part_end(parts[0], source, from, to),
            to,
        )
    }
}

/// The parts that a source parses to fill what was parsed.
pub proof fn lemma_parse_tiles(source: Seq<u8>, from: int, to: int)
    requires
        0 <= from <= to <= source.len(),
    ensures
        parse_parts(source, from, to) matches Ok(parts) ==> tiles(parts, source, from, to),
    decreases to - from, 1int,
{
    if from < to {
        lemma_literal_end(source, from, to);
        let next = literal_end(source, from, to);
        if next > from {
            lemma_parse_tiles(source, next, to);
            if let Ok(rest) = parse_parts(source, next, to) {
                let part = PartSpec::Literal { start: from, end: next };
                lemma_tiles_after(part, rest, source, from, to);
            }
        } else if source[from] == BACKSLASH {
            if let Ok(value) = parse_escape(source, from, to) {
                lemma_parse_tiles(source, from + 2, to);
                if let Ok(rest) = parse_parts(source, from + 2, to) {
                    lemma_tiles_after(PartSpec::EscapedByte { value }, rest, source, from, to);
                }
            }
        } else {
            lemma_variable_end(source, from, to);
            lemma_variable_stands(source, from, to);
            if let Ok(variable) = parse_variable(source, from, to) {
                let end = variable_end(source, from, to);
                lemma_parse_tiles(source, end, to);
                if let Ok(rest) = parse_parts(source, end, to) {
                    lemma_tiles_after(variable, rest, source, from, to);
                }
            }
        }
    }
}

/// A part that stands at `from`, before parts that fill the rest, makes parts that
/// fill the whole.
proof fn lemma_tiles_after(part: PartSpec, rest: Seq<PartSpec>, source: Seq<u8>, from: int, to: int)
    requires
        from < to,
        stands_at(part, source, from, to),
        tiles(rest, source, part_end(part, source, from, to), to),
    ensures
        tiles(seq![part] + rest, source, from, to),
{
    let parts = seq![part] + rest;
    assert(parts.subrange(1, parts.len() as int) =~= rest);
}

/// The variable that is parsed at a `$` stands there.
pub proof fn lemma_variable_stands(source: Seq<u8>, dollar: int, to: int)
    requires
        0 <= dollar < to <= source.len(),
        source[dollar] == DOLLAR,
    ensures
        parse_variable(source, dollar, to) matches Ok(variable) ==> stands_at(
            variable,
            source,
            dollar,
            to,
        ),
    decreases to - dollar, 0int,
{
    if dollar + 1 < to {
        if source[dollar + 1] == OPEN_BRACE {
            let name_start = dollar + 2;
            if name_start < to {
                lemma_name_end(source, name_start, to);
                let name_stop = name_end(source, name_start, to);
                if name_stop < to && source[name_stop] == COLON {
                    lemma_closing_brace(source, name_stop + 1, to, 1);
                    if let Some(end) = closing_brace(source, name_stop + 1, to, 1) {
                        lemma_parse_tiles(source, name_stop + 1, end);
                    }
                }
            }
        } else {
            lemma_name_end(source, dollar + 1, to);
        }
    }
}

} // verus!
