//! What holds of substitution in general.
use vstd::prelude::*;
use vstd::utf8::{decode_utf8, encode_utf8};
use crate::error::{Failure, MissingVariable, ParseError};
use crate::scan::{
    is_name_byte, is_special, lemma_literal_end_found, lemma_name_end_found, CLOSE_BRACE, DOLLAR,
    OPEN_BRACE,
};
use crate::{substitution, substitution_with};
use crate::template::raw::expand::{expand_part, expand_parts, OnMissing};
use crate::template::raw::parse::{parse_parts, parse_variable};
use crate::template::raw::PartSpec;
use crate::template::{expand_source, ByteTemplateBuf, TemplateBuf};

verus! {

/// A source that holds neither `$` nor `\` is substituted by itself, whatever the
/// variables are.
pub proof fn law_plain_source_is_kept(
    source: Seq<u8>,
    lookup: spec_fn(Seq<char>) -> Option<Seq<u8>>,
    on_missing: OnMissing,
)
    requires
        forall|i: int| 0 <= i < source.len() ==> !is_special(#[trigger] source[i]),
    ensures
        substitution_with(source, lookup, on_missing) == Ok::<Seq<u8>, Failure>(source),
{
    let len = source.len() as int;
    if len == 0 {
        assert(source =~= Seq::<u8>::empty());
    } else {
        // The whole source is one literal.
        lemma_literal_end_found(source, 0, len, len);
        let literal = PartSpec::Literal { start: 0, end: len };
        let parts = seq![literal] + Seq::<PartSpec>::empty();
        assert(parse_parts(source, len, len) == Ok::<Seq<PartSpec>, ParseError>(Seq::empty()));
        assert(parts.subrange(1, parts.len() as int) =~= Seq::<PartSpec>::empty());
        // And the literal expands to the bytes of the source.
        assert(source.subrange(0, len) + Seq::<u8>::empty() =~= source);
        assert(expand_parts(Seq::<PartSpec>::empty(), source, lookup, on_missing) is Ok);
        assert(expand_part(literal, source, lookup, on_missing) is Ok);
    }
}

/// A source that is `$` and a name fails with the name and its position, where the
/// variables hold no value for the name.
pub proof fn law_missing_short_variable(name: Seq<u8>, lookup: spec_fn(Seq<char>) -> Option<Seq<u8>>)
    requires
        name.len() > 0,
        forall|i: int| 0 <= i < name.len() ==> is_name_byte(#[trigger] name[i]),
        lookup(decode_utf8(name)) is None,
    ensures
        substitution(seq![DOLLAR] + name, lookup) == Err::<Seq<u8>, Failure>(
            Failure::Missing(MissingVariable { position: 1, name: decode_utf8(name) }),
        ),
{
    let source = seq![DOLLAR] + name;
    let len = source.len() as int;
    // The name reaches from behind the `$` to the end of the source.
    assert(forall|i: int| 1 <= i < len ==> is_name_byte(#[trigger] source[i]));
    lemma_name_end_found(source, 1, len, len);
    assert(source.subrange(1, len) =~= name);
    // So the source parses to one variable without default, which is missing.
    let variable = PartSpec::Variable { name_start: 1, name_end: len, default: None };
    assert(parse_variable(source, 0, len) == Ok::<PartSpec, ParseError>(variable));
    assert(parse_parts(source, len, len) == Ok::<Seq<PartSpec>, ParseError>(Seq::empty()));
    assert(expand_part(variable, source, lookup, OnMissing::Fail) is Err);
}

/// A source that is a name between `${` and `}` fails with the name and its position,
/// where the variables hold no value for the name.
pub proof fn law_missing_braced_variable(name: Seq<u8>, lookup: spec_fn(Seq<char>) -> Option<Seq<u8>>)
    requires
        name.len() > 0,
        forall|i: int| 0 <= i < name.len() ==> is_name_byte(#[trigger] name[i]),
        lookup(decode_utf8(name)) is None,
    ensures
        substitution(seq![DOLLAR, OPEN_BRACE] + name + seq![CLOSE_BRACE], lookup) == Err::<
            Seq<u8>,
            Failure,
        >(Failure::Missing(MissingVariable { position: 2, name: decode_utf8(name) })),
{
    let source = seq![DOLLAR, OPEN_BRACE] + name + seq![CLOSE_BRACE];
    let len = source.len() as int;
    let stop = len - 1;
    // The name reaches from behind the `${` to the closing brace.
    assert(forall|i: int| 2 <= i < stop ==> is_name_byte(#[trigger] source[i]));
    lemma_name_end_found(source, 2, len, stop);
    assert(source.subrange(2, stop) =~= name);
    // So the source parses to one variable without default, which is missing.
    let variable = PartSpec::Variable { name_start: 2, name_end: stop, default: None };
    assert(parse_variable(source, 0, len) == Ok::<PartSpec, ParseError>(variable));
    assert(parse_parts(source, len, len) == Ok::<Seq<PartSpec>, ParseError>(Seq::empty()));
    assert(expand_part(variable, source, lookup, OnMissing::Fail) is Err);
}

/// Two template buffers with the same source expand alike, for every lookup function:
/// so a copy expands as the template that it was copied from.
pub proof fn law_copy_expands_alike(
    template: TemplateBuf,
    copy: TemplateBuf,
    lookup: spec_fn(Seq<char>) -> Option<Seq<u8>>,
    on_missing: OnMissing,
)
    requires
        copy@ == template@,
    ensures
        expand_source(encode_utf8(copy@), lookup, on_missing) == expand_source(
            encode_utf8(template@),
            lookup,
            on_missing,
        ),
{
}

/// Two byte template buffers with the same source expand alike, for every lookup
/// function: so a copy expands as the template that it was copied from.
pub proof fn law_byte_copy_expands_alike(
    template: ByteTemplateBuf,
    copy: ByteTemplateBuf,
    lookup: spec_fn(Seq<char>) -> Option<Seq<u8>>,
    on_missing: OnMissing,
)
    requires
        copy@ == template@,
    ensures
        expand_source(copy@, lookup, on_missing) == expand_source(template@, lookup, on_missing),
{
}

/// Where missing variables expand to nothing, no expansion fails.
pub proof fn law_empty_never_fails(
    parts: Seq<PartSpec>,
    source: Seq<u8>,
    lookup: spec_fn(Seq<char>) -> Option<Seq<u8>>,
)
    ensures
        expand_parts(parts, source, lookup, OnMissing::Empty) is Ok,
    decreases parts, 1int,
{
    if parts.len() > 0 {
        lemma_empty_part_never_fails(parts[0], source, lookup);
        law_empty_never_fails(parts.subrange(1, parts.len() as int), source, lookup);
    }
}

/// Where missing variables expand to nothing, no part fails to expand.
proof fn lemma_empty_part_never_fails(
    part: PartSpec,
    source: Seq<u8>,
    lookup: spec_fn(Seq<char>) -> Option<Seq<u8>>,
)
    ensures
        expand_part(part, source, lookup, OnMissing::Empty) is Ok,
    decreases part, 0int,
{
    if let PartSpec::Variable { name_start, name_end, default } = part {
        if let Some(parts) = default {
            law_empty_never_fails(parts, source, lookup);
        }
    }
}

/// An expansion that succeeds where missing variables fail is the same where they
/// expand to nothing.
pub proof fn law_empty_changes_failures_only(
    parts: Seq<PartSpec>,
    source: Seq<u8>,
    lookup: spec_fn(Seq<char>) -> Option<Seq<u8>>,
)
    ensures
        expand_parts(parts, source, lookup, OnMissing::Fail) is Ok ==> expand_parts(
            parts,
            source,
            lookup,
            OnMissing::Empty,
        ) == expand_parts(parts, source, lookup, OnMissing::Fail),
    decreases parts, 1int,
{
    if parts.len() > 0 {
        lemma_empty_changes_failed_parts_only(parts[0], source, lookup);
        law_empty_changes_failures_only(parts.subrange(1, parts.len() as int), source, lookup);
    }
}

/// A part that expands where missing variables fail expands to the same where they
/// expand to nothing.
proof fn lemma_empty_changes_failed_parts_only(
    part: PartSpec,
    source: Seq<u8>,
    lookup: spec_fn(Seq<char>) -> Option<Seq<u8>>,
)
    ensures
        expand_part(part, source, lookup, OnMissing::Fail) is Ok ==> expand_part(
            part,
            source,
            lookup,
            OnMissing::Empty,
        ) == expand_part(part, source, lookup, OnMissing::Fail),
    decreases part, 0int,
{
    if let PartSpec::Variable { name_start, name_end, default } = part {
        if let Some(parts) = default {
            law_empty_changes_failures_only(parts, source, lookup);
        }
    }
}

} // verus!
