//! Errors lie in the source that they are reported for.
use vstd::prelude::*;
use vstd::utf8::{
    decode_first_scalar, decode_utf8_encode_utf8, decode_utf8_first_scalar, encode_utf8,
    encode_utf8_valid_utf8, is_char_boundary, is_char_boundary_iff_not_is_continuation_byte,
    is_char_boundary_start_end_of_seq, length_of_first_scalar, pop_first_scalar, valid_utf8,
};
use crate::error::{Failure, ParseError};
use crate::highlight::located_in;
use crate::scan::{
    closing_brace, is_name_byte, lemma_closing_brace, lemma_literal_end, lemma_name_end, literal_end,
    name_end, BACKSLASH, COLON, OPEN_BRACE,
};
use crate::substitution;
use crate::template::raw::expand::{
    expand_part, expand_parts, lemma_name_is_utf8, part_within, parts_within, OnMissing,
};
use crate::template::raw::parse::{
    lemma_parse_within, lemma_variable_end, parse_escape, parse_parts, parse_variable, variable_end,
};
use crate::template::raw::PartSpec;
use crate::text::{
    char_or_byte_at, lemma_boundary_after_ascii, lemma_boundary_at_ascii, lemma_char_or_byte_at,
    lemma_char_or_byte_fits, lemma_source_len_is_encoded_len, lemma_valid_between_boundaries,
};

verus! {

/// Whether an error spans bytes of the source, at offsets such as a machine can hold.
pub open spec fn lies_within(error: Failure, source: Seq<u8>) -> bool {
    0 <= error.spec_start() < error.spec_end() <= source.len() <= usize::MAX
}

/// Whether an error starts and ends between `from` and `to`.
pub open spec fn spans_within(error: ParseError, from: int, to: int) -> bool {
    from <= error.spec_start() < error.spec_end() <= to
}

/// An error of the parser lies in the part of the source that was parsed.
pub proof fn lemma_parse_error_within(source: Seq<u8>, from: int, to: int)
    requires
        0 <= from <= to <= source.len() <= usize::MAX,
    ensures
        parse_parts(source, from, to) matches Err(error) ==> spans_within(error, from, to),
    decreases to - from, 1int,
{
    if from < to {
        lemma_literal_end(source, from, to);
        let next = literal_end(source, from, to);
        if next > from {
            lemma_parse_error_within(source, next, to);
        } else if source[from] == BACKSLASH {
            if from + 1 < to {
                lemma_char_or_byte_fits(source, from + 1, to);
                lemma_parse_error_within(source, from + 2, to);
            }
        } else {
            lemma_variable_end(source, from, to);
            lemma_variable_error_within(source, from, to);
            lemma_parse_error_within(source, variable_end(source, from, to), to);
        }
    }
}

/// An error in a variable lies between its `$` and the end of what was parsed.
pub proof fn lemma_variable_error_within(source: Seq<u8>, dollar: int, to: int)
    requires
        0 <= dollar < to <= source.len() <= usize::MAX,
    ensures
        parse_variable(source, dollar, to) matches Err(error) ==> spans_within(error, dollar, to),
    decreases to - dollar, 0int,
{
    if dollar + 1 < to {
        if source[dollar + 1] == OPEN_BRACE {
            let name_start = dollar + 2;
            if name_start < to {
                lemma_name_end(source, name_start, to);
                let name_stop = name_end(source, name_start, to);
                if name_stop < to {
                    lemma_char_or_byte_fits(source, name_stop, to);
                    if source[name_stop] == COLON {
                        lemma_closing_brace(source, name_stop + 1, to, 1);
                        if let Some(end) = closing_brace(source, name_stop + 1, to, 1) {
                            lemma_parse_error_within(source, name_stop + 1, end);
                        }
                    }
                }
            }
        } else {
            lemma_name_end(source, dollar + 1, to);
        }
    }
}

/// In a text, what is read at a character boundary is a character, and it ends at a
/// character boundary.
pub proof fn lemma_char_at_boundary(source: Seq<u8>, index: int, to: int)
    requires
        valid_utf8(source),
        0 <= index < to <= source.len(),
        is_char_boundary(source, index),
        is_char_boundary(source, to),
    ensures
        char_or_byte_at(source, index, to) is Char,
        is_char_boundary(source, index + char_or_byte_at(source, index, to).spec_source_len()),
{
    // What stands between the two boundaries is valid, so it starts with a character,
    // and that character is what is read.
    let middle = source.subrange(index, to);
    lemma_valid_between_boundaries(source, index, to);
    lemma_char_or_byte_at(source, index, to);
    decode_utf8_first_scalar(middle);
    lemma_source_len_is_encoded_len(decode_first_scalar(middle) as char);
    // Behind the character, the source ends or goes on with another character.
    let end = index + length_of_first_scalar(middle);
    if end == source.len() {
        is_char_boundary_start_end_of_seq(source);
    } else if end < to {
        assert(valid_utf8(pop_first_scalar(middle)));
        is_char_boundary_iff_not_is_continuation_byte(source, end);
    }
}

/// Whether an error starts and ends at character boundaries between `from` and `to`.
pub open spec fn lies_between(error: ParseError, source: Seq<u8>, from: int, to: int) -> bool {
    &&& spans_within(error, from, to)
    &&& is_char_boundary(source, error.spec_start())
    &&& is_char_boundary(source, error.spec_end())
}

/// In a text, an error of the parser starts and ends at character boundaries.
pub proof fn lemma_parse_error_located(source: Seq<u8>, from: int, to: int)
    requires
        valid_utf8(source),
        0 <= from <= to <= source.len() <= usize::MAX,
        is_char_boundary(source, from),
        is_char_boundary(source, to),
    ensures
        parse_parts(source, from, to) matches Err(error) ==> lies_between(error, source, from, to),
    decreases to - from, 1int,
{
    if from < to {
        lemma_literal_end(source, from, to);
        let next = literal_end(source, from, to);
        if next > from {
            if next < to {
                lemma_boundary_at_ascii(source, next);
            }
            lemma_parse_error_located(source, next, to);
        } else if source[from] == BACKSLASH {
            lemma_boundary_after_ascii(source, from);
            if from + 1 < to {
                lemma_char_at_boundary(source, from + 1, to);
                lemma_char_or_byte_fits(source, from + 1, to);
                if parse_escape(source, from, to) is Ok {
                    lemma_boundary_after_ascii(source, from + 1);
                    lemma_parse_error_located(source, from + 2, to);
                }
            }
        } else {
            lemma_variable_end(source, from, to);
            lemma_variable_error_located(source, from, to);
            if parse_variable(source, from, to) is Ok {
                crate::template::raw::unicode::lemma_variable_ends_at_boundary(source, from, to);
                lemma_parse_error_located(source, variable_end(source, from, to), to);
            }
        }
    }
}

/// In a text, an error in a variable starts and ends at character boundaries.
pub proof fn lemma_variable_error_located(source: Seq<u8>, dollar: int, to: int)
    requires
        valid_utf8(source),
        0 <= dollar < to <= source.len() <= usize::MAX,
        source[dollar] == crate::scan::DOLLAR,
        is_char_boundary(source, to),
    ensures
        parse_variable(source, dollar, to) matches Err(error) ==> lies_between(
            error,
            source,
            dollar,
            to,
        ),
    decreases to - dollar, 0int,
{
    lemma_boundary_at_ascii(source, dollar);
    lemma_boundary_after_ascii(source, dollar);
    if dollar + 1 < to {
        if source[dollar + 1] == OPEN_BRACE {
            lemma_boundary_at_ascii(source, dollar + 1);
            lemma_boundary_after_ascii(source, dollar + 1);
            let name_start = dollar + 2;
            if name_start < to {
                lemma_name_end(source, name_start, to);
                let name_stop = name_end(source, name_start, to);
                if name_start < name_stop < to {
                    lemma_boundary_after_ascii(source, name_stop - 1);
                    lemma_char_at_boundary(source, name_stop, to);
                    lemma_char_or_byte_fits(source, name_stop, to);
                    if source[name_stop] == COLON {
                        lemma_closing_brace(source, name_stop + 1, to, 1);
                        if let Some(end) = closing_brace(source, name_stop + 1, to, 1) {
                            lemma_boundary_after_ascii(source, name_stop);
                            lemma_boundary_at_ascii(source, end);
                            lemma_parse_error_located(source, name_stop + 1, end);
                        }
                    }
                }
            }
        } else {
            lemma_name_end(source, dollar + 1, to);
        }
    }
}

/// Whether a missing variable is reported at a name that stands in the source between
/// character boundaries.
pub open spec fn names_source(error: crate::error::MissingVariable, source: Seq<u8>) -> bool {
    let failure = Failure::Missing(error);
    &&& 0 <= failure.spec_start() < failure.spec_end() <= source.len()
    &&& is_char_boundary(source, failure.spec_start())
    &&& is_char_boundary(source, failure.spec_end())
}

/// In a text, a variable that is found missing is reported where its name stands.
pub proof fn lemma_missing_located(
    parts: Seq<PartSpec>,
    source: Seq<u8>,
    lookup: spec_fn(Seq<char>) -> Option<Seq<u8>>,
    on_missing: OnMissing,
)
    requires
        valid_utf8(source),
        source.len() <= usize::MAX,
        parts_within(parts, source),
    ensures
        expand_parts(parts, source, lookup, on_missing) matches Err(error) ==> names_source(error, source),
    decreases parts, 1int,
{
    if parts.len() > 0 {
        lemma_missing_part_located(parts[0], source, lookup, on_missing);
        let rest = parts.subrange(1, parts.len() as int);
        assert forall|i: int| 0 <= i < rest.len() implies part_within(#[trigger] rest[i], source) by {
            assert(rest[i] == parts[i + 1]);
        }
        lemma_missing_located(rest, source, lookup, on_missing);
    }
}

/// In a text, a variable that is found missing is reported where its name stands.
pub proof fn lemma_missing_part_located(
    part: PartSpec,
    source: Seq<u8>,
    lookup: spec_fn(Seq<char>) -> Option<Seq<u8>>,
    on_missing: OnMissing,
)
    requires
        valid_utf8(source),
        source.len() <= usize::MAX,
        part_within(part, source),
    ensures
        expand_part(part, source, lookup, on_missing) matches Err(error) ==> names_source(error, source),
    decreases part, 0int,
{
    if let PartSpec::Variable { name_start, name_end, default } = part {
        match default {
            Some(parts) => {
                lemma_missing_located(parts, source, lookup, on_missing);
            },
            None => {
                let name = source.subrange(name_start, name_end);
                assert forall|i: int| 0 <= i < name.len() implies is_name_byte(#[trigger] name[i]) by {
                    assert(name[i] == source[name_start + i]);
                }
                lemma_name_is_utf8(name);
                decode_utf8_encode_utf8(name);
                lemma_boundary_at_ascii(source, name_start);
                lemma_boundary_after_ascii(source, name_end - 1);
            },
        }
    }
}

/// An error of a substitution in a text lies in that text: it starts and ends at
/// character boundaries of the text.
pub proof fn law_error_lies_in_source(source: Seq<char>, lookup: spec_fn(Seq<char>) -> Option<Seq<u8>>)
    requires
        encode_utf8(source).len() <= usize::MAX,
    ensures
        substitution(encode_utf8(source), lookup) matches Err(error) ==> located_in(error, source),
{
    let bytes = encode_utf8(source);
    let len = bytes.len() as int;
    encode_utf8_valid_utf8(source);
    is_char_boundary_start_end_of_seq(bytes);
    lemma_parse_error_located(bytes, 0, len);
    lemma_parse_within(bytes, 0, len);
    if let Ok(parts) = parse_parts(bytes, 0, len) {
        lemma_missing_located(parts, bytes, lookup, OnMissing::Fail);
    }
}

/// An error of a substitution in a byte string lies inside that byte string.
pub proof fn law_error_lies_within_bytes(
    source: Seq<u8>,
    lookup: spec_fn(Seq<char>) -> Option<Seq<u8>>,
)
    requires
        source.len() <= usize::MAX,
    ensures
        substitution(source, lookup) matches Err(error) ==> lies_within(error, source),
{
    let len = source.len() as int;
    lemma_parse_error_within(source, 0, len);
    lemma_parse_within(source, 0, len);
    if let Ok(parts) = parse_parts(source, 0, len) {
        lemma_missing_within(parts, source, lookup, OnMissing::Fail);
    }
}

/// A variable that is found missing is reported where its name stands in the source.
pub proof fn lemma_missing_within(
    parts: Seq<PartSpec>,
    source: Seq<u8>,
    lookup: spec_fn(Seq<char>) -> Option<Seq<u8>>,
    on_missing: OnMissing,
)
    requires
        source.len() <= usize::MAX,
        parts_within(parts, source),
    ensures
        expand_parts(parts, source, lookup, on_missing) matches Err(error) ==> lies_within(
            Failure::Missing(error),
            source,
        ),
    decreases parts, 1int,
{
    if parts.len() > 0 {
        lemma_missing_part_within(parts[0], source, lookup, on_missing);
        let rest = parts.subrange(1, parts.len() as int);
        assert forall|i: int| 0 <= i < rest.len() implies part_within(#[trigger] rest[i], source) by {
            assert(rest[i] == parts[i + 1]);
        }
        lemma_missing_within(rest, source, lookup, on_missing);
    }
}

/// A variable that is found missing is reported where its name stands in the source.
pub proof fn lemma_missing_part_within(
    part: PartSpec,
    source: Seq<u8>,
    lookup: spec_fn(Seq<char>) -> Option<Seq<u8>>,
    on_missing: OnMissing,
)
    requires
        source.len() <= usize::MAX,
        part_within(part, source),
    ensures
        expand_part(part, source, lookup, on_missing) matches Err(error) ==> lies_within(
            Failure::Missing(error),
            source,
        ),
    decreases part, 0int,
{
    if let PartSpec::Variable { name_start, name_end, default } = part {
        match default {
            Some(parts) => {
                lemma_missing_within(parts, source, lookup, on_missing);
            },
            None => {
                let name = source.subrange(name_start, name_end);
                assert forall|i: int| 0 <= i < name.len() implies is_name_byte(#[trigger] name[i]) by {
                    assert(name[i] == source[name_start + i]);
                }
                lemma_name_is_utf8(name);
                decode_utf8_encode_utf8(name);
            },
        }
    }
}

} // verus!
