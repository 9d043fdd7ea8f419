//! Templates of text expand to text.
use vstd::prelude::*;
use vstd::utf8::{is_char_boundary, valid_utf8, valid_utf8_concat};
use crate::scan::{
    closing_brace, lemma_closing_brace, lemma_literal_end, lemma_name_end, literal_end, name_end,
    BACKSLASH, CLOSE_BRACE, COLON, OPEN_BRACE,
};
use crate::template::raw::expand::{expand_part, expand_parts, OnMissing};
use crate::template::raw::parse::{
    lemma_variable_end, parse_escape, parse_parts, parse_variable, variable_end,
};
use crate::template::raw::PartSpec;
use crate::text::{
    lemma_ascii_is_utf8, lemma_boundary_after_ascii, lemma_boundary_at_ascii,
    lemma_valid_between_boundaries,
};

verus! {

/// Whether every value that the lookup function gives is valid UTF-8.
pub open spec fn gives_text(lookup: spec_fn(Seq<char>) -> Option<Seq<u8>>) -> bool {
    forall|key: Seq<char>| (#[trigger] lookup(key)) matches Some(value) ==> valid_utf8(value)
}

/// Where the source is valid UTF-8 and every value is, the expansion of what stands
/// between two character boundaries of the source is valid UTF-8 too.
pub proof fn lemma_expansion_is_text(
    source: Seq<u8>,
    from: int,
    to: int,
    lookup: spec_fn(Seq<char>) -> Option<Seq<u8>>,
    on_missing: OnMissing,
)
    requires
        valid_utf8(source),
        0 <= from <= to <= source.len(),
        is_char_boundary(source, from),
        is_char_boundary(source, to),
        gives_text(lookup),
    ensures
        parse_parts(source, from, to) matches Ok(parts) ==> (expand_parts(
            parts,
            source,
            lookup,
            on_missing,
        ) matches Ok(bytes) ==> valid_utf8(bytes)),
    decreases to - from, 1int,
{
    if from < to {
        lemma_literal_end(source, from, to);
        let next = literal_end(source, from, to);
        if next > from {
            if next < to {
                lemma_boundary_at_ascii(source, next);
            }
            lemma_expansion_is_text(source, next, to, lookup, on_missing);
            if let Ok(rest) = parse_parts(source, next, to) {
                let part = PartSpec::Literal { start: from, end: next };
                lemma_valid_between_boundaries(source, from, next);
                lemma_text_after(part, rest, source, lookup, on_missing);
            }
        } else if source[from] == BACKSLASH {
            if let Ok(value) = parse_escape(source, from, to) {
                lemma_boundary_after_ascii(source, from + 1);
                lemma_expansion_is_text(source, from + 2, to, lookup, on_missing);
                if let Ok(rest) = parse_parts(source, from + 2, to) {
                    lemma_ascii_is_utf8(seq![value]);
                    lemma_text_after(PartSpec::EscapedByte { value }, rest, source, lookup, on_missing);
                }
            }
        } else {
            lemma_variable_end(source, from, to);
            lemma_variable_is_text(source, from, to, lookup, on_missing);
            if let Ok(variable) = parse_variable(source, from, to) {
                let end = variable_end(source, from, to);
                lemma_expansion_is_text(source, end, to, lookup, on_missing);
                if let Ok(rest) = parse_parts(source, end, to) {
                    lemma_text_after(variable, rest, source, lookup, on_missing);
                }
            }
        }
    }
}

/// A part that expands to valid UTF-8, before parts that do, makes parts that do.
proof fn lemma_text_after(
    part: PartSpec,
    rest: Seq<PartSpec>,
    source: Seq<u8>,
    lookup: spec_fn(Seq<char>) -> Option<Seq<u8>>,
    on_missing: OnMissing,
)
    requires
        expand_part(part, source, lookup, on_missing) matches Ok(bytes) ==> valid_utf8(bytes),
        expand_parts(rest, source, lookup, on_missing) matches Ok(bytes) ==> valid_utf8(bytes),
    ensures
        expand_parts(seq![part] + rest, source, lookup, on_missing) matches Ok(bytes) ==> valid_utf8(bytes),
{
    let parts = seq![part] + rest;
    assert(parts.subrange(1, parts.len() as int) =~= rest);
    if let Ok(head) = expand_part(part, source, lookup, on_missing) {
        if let Ok(tail) = expand_parts(rest, source, lookup, on_missing) {
            valid_utf8_concat(head, tail);
        }
    }
}

/// Where the source is valid UTF-8 and every value is, a variable expands to valid
/// UTF-8 and ends at a character boundary.
pub proof fn lemma_variable_is_text(
    source: Seq<u8>,
    dollar: int,
    to: int,
    lookup: spec_fn(Seq<char>) -> Option<Seq<u8>>,
    on_missing: OnMissing,
)
    requires
        valid_utf8(source),
        0 <= dollar < to <= source.len(),
        is_char_boundary(source, to),
        gives_text(lookup),
    ensures
        parse_variable(source, dollar, to) matches Ok(variable) ==> {
            &&& is_char_boundary(source, variable_end(source, dollar, to))
            &&& expand_part(variable, source, lookup, on_missing) matches Ok(bytes) ==> valid_utf8(bytes)
        },
    decreases to - dollar, 0int,
{
    if dollar + 1 < to {
        if source[dollar + 1] == OPEN_BRACE {
            let name_start = dollar + 2;
            if name_start < to {
                lemma_name_end(source, name_start, to);
                let name_stop = name_end(source, name_start, to);
                if name_stop < to && name_stop > name_start {
                    if source[name_stop] == COLON {
                        lemma_closing_brace(source, name_stop + 1, to, 1);
                        if let Some(end) = closing_brace(source, name_stop + 1, to, 1) {
                            lemma_boundary_after_ascii(source, name_stop);
                            lemma_boundary_at_ascii(source, end);
                            lemma_expansion_is_text(source, name_stop + 1, end, lookup, on_missing);
                            lemma_boundary_after_ascii(source, end);
                        }
                    } else if source[name_stop] == CLOSE_BRACE {
                        lemma_boundary_after_ascii(source, name_stop);
                    }
                }
            }
        } else {
            lemma_name_end(source, dollar + 1, to);
            let name_stop = name_end(source, dollar + 1, to);
            if name_stop > dollar + 1 {
                lemma_boundary_after_ascii(source, name_stop - 1);
            }
        }
    }
}

/// In a text, a variable ends at a character boundary.
pub proof fn lemma_variable_ends_at_boundary(source: Seq<u8>, dollar: int, to: int)
    requires
        valid_utf8(source),
        0 <= dollar < to <= source.len(),
        is_char_boundary(source, to),
    ensures
        parse_variable(source, dollar, to) is Ok ==> is_char_boundary(
            source,
            variable_end(source, dollar, to),
        ),
{
    lemma_variable_is_text(source, dollar, to, |key: Seq<char>| None::<Seq<u8>>, OnMissing::Fail);
}

} // verus!
