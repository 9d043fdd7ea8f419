//! Expanding a parsed template against a variable map.
use vstd::prelude::*;
use vstd::string::StringSliceAdditionalSpecFns;
use vstd::utf8::{decode_utf8, encode_utf8_decode_utf8, valid_utf8};
use crate::error::{ExpandError, MissingVariable, NoSuchVariable};
use crate::map::{byte_lookup, AsBytes, VariableMap};
use crate::scan::is_name_byte;
use crate::template::raw::{Part, PartSpec, Template, Variable};
use crate::text::{is_ascii_byte, lemma_ascii_is_utf8, text_of};

verus! {

/// What to do with a variable that has neither a value nor a default.
#[derive(Debug, Clone, Copy, PartialEq, Eq)]
pub enum OnMissing {
    /// The expansion fails: it reports the variable as missing.
    Fail,
    /// The variable expands to nothing, as if its default were empty.
    Empty,
}

/// The name that stands in `source[start..end]`, as text.
pub open spec fn name_text(source: Seq<u8>, start: int, end: int) -> Seq<char> {
    decode_utf8(source.subrange(start, end))
}

/// What a part expands to, for a lookup function that gives the bytes of each variable
/// that has a value.
///
/// A literal expands to its bytes in the source and an escaped byte to itself. A
/// variable expands to its value; without a value, to what its default expands to; and
/// without a default, the expansion fails or the variable expands to nothing, as
/// `on_missing` says.
pub open spec fn expand_part(
    part: PartSpec,
    source: Seq<u8>,
    lookup: spec_fn(Seq<char>) -> Option<Seq<u8>>,
    on_missing: OnMissing,
) -> Result<Seq<u8>, MissingVariable>
    decreases part, 0int,
{
    match part {
        PartSpec::Literal { start, end } => Ok(source.subrange(start, end)),
        PartSpec::EscapedByte { value } => Ok(seq![value]),
        PartSpec::Variable { name_start, name_end, default } => match lookup(
            name_text(source, name_start, name_end),
        ) {
            Some(value) => Ok(value),
            None => match default {
                Some(parts) => expand_parts(parts, source, lookup, on_missing),
                None => match on_missing {
                    OnMissing::Fail => Err(
                        MissingVariable {
                            position: name_start as usize,
                            name: name_text(source, name_start, name_end),
                        },
                    ),
                    OnMissing::Empty => Ok(Seq::empty()),
                },
            },
        },
    }
}

/// What a sequence of parts expands to: what its parts expand to, one behind the
/// other, or the failure of the first part that fails.
pub open spec fn expand_parts(
    parts: Seq<PartSpec>,
    source: Seq<u8>,
    lookup: spec_fn(Seq<char>) -> Option<Seq<u8>>,
    on_missing: OnMissing,
) -> Result<Seq<u8>, MissingVariable>
    decreases parts, 1int,
{
    if parts.len() == 0 {
        Ok(Seq::empty())
    } else {
        match expand_part(parts[0], source, lookup, on_missing) {
            Ok(head) => match expand_parts(
                parts.subrange(1, parts.len() as int),
                source,
                lookup,
                on_missing,
            ) {
                Ok(tail) => Ok(head + tail),
                Err(error) => Err(error),
            },
            Err(error) => Err(error),
        }
    }
}

/// Whether a part refers to bytes of the source only, and to a proper name if it is a
/// variable.
pub open spec fn part_within(part: PartSpec, source: Seq<u8>) -> bool
    decreases part, 0int,
{
    match part {
        PartSpec::Literal { start, end } => 0 <= start <= end <= source.len(),
        PartSpec::EscapedByte { value } => true,
        PartSpec::Variable { name_start, name_end, default } => {
            &&& 0 <= name_start < name_end <= source.len()
            &&& forall|i: int| name_start <= i < name_end ==> is_name_byte(#[trigger] source[i])
            &&& match default {
                Some(parts) => parts_within(parts, source),
                None => true,
            }
        },
    }
}

/// Whether all parts refer to bytes of the source only, and all their names are proper
/// names.
pub open spec fn parts_within(parts: Seq<PartSpec>, source: Seq<u8>) -> bool
    decreases parts, 1int,
{
    forall|i: int| 0 <= i < parts.len() ==> part_within(#[trigger] parts[i], source)
}

/// The bytes written so far, followed by the outcome for the parts that are left.
pub open spec fn appended(
    written: Seq<u8>,
    rest: Result<Seq<u8>, MissingVariable>,
) -> Result<Seq<u8>, MissingVariable> {
    match rest {
        Ok(more) => Ok(written + more),
        Err(error) => Err(error),
    }
}

/// What an expansion into a buffer has to achieve: on success the buffer has grown by
/// the expansion, and on failure the error is that of the expansion.
pub open spec fn expanded_into(
    result: Result<(), ExpandError>,
    before: Seq<u8>,
    after: Seq<u8>,
    expansion: Result<Seq<u8>, MissingVariable>,
) -> bool {
    match result {
        Ok(()) => expansion matches Ok(bytes) && after == before + bytes,
        Err(error) => expansion == Err::<Seq<u8>, MissingVariable>(error@),
    }
}

/// A run of name bytes is valid UTF-8.
pub proof fn lemma_name_is_utf8(name: Seq<u8>)
    requires
        forall|i: int| 0 <= i < name.len() ==> is_name_byte(#[trigger] name[i]),
    ensures
        valid_utf8(name),
{
    assert forall|i: int| 0 <= i < name.len() implies is_ascii_byte(#[trigger] name[i]) by {
        assert(is_name_byte(name[i]));
    }
    lemma_ascii_is_utf8(name);
}

/// Common `expand` prototype for variables and templates.
pub trait Expand {
    /// What this expands to, for a source and a lookup function, where a variable
    /// without value and default makes the expansion fail.
    spec fn expansion(&self, source: Seq<u8>, lookup: spec_fn(Seq<char>) -> Option<Seq<u8>>) -> Result<
        Seq<u8>,
        MissingVariable,
    >;

    /// Whether this refers to bytes of the source only.
    spec fn within(&self, source: Seq<u8>) -> bool;

    /// Expand into the output vector.
    ///
    /// On failure, the output may hold a part of the expansion.
    fn expand<'a, M>(&self, output: &mut Vec<u8>, source: &[u8], variables: &'a M) -> (result: Result<
        (),
        ExpandError,
    >) where M: VariableMap<'a> + ?Sized, M::Value: AsBytes
        requires
            self.within(source@),
        ensures
            expanded_into(
                result,
                old(output)@,
                final(output)@,
                self.expansion(source@, byte_lookup(variables)),
            ),
    ;
}

impl Expand for Template {
    open spec fn expansion(
        &self,
        source: Seq<u8>,
        lookup: spec_fn(Seq<char>) -> Option<Seq<u8>>,
    ) -> Result<Seq<u8>, MissingVariable> {
        expand_parts(self@, source, lookup, OnMissing::Fail)
    }

    open spec fn within(&self, source: Seq<u8>) -> bool {
        parts_within(self@, source)
    }

    /// Expand the template into the output vector.
    fn expand<'a, M>(&self, output: &mut Vec<u8>, source: &[u8], variables: &'a M) -> (result: Result<
        (),
        ExpandError,
    >) where M: VariableMap<'a> + ?Sized, M::Value: AsBytes {
        expand_template(self, output, source, variables, OnMissing::Fail)
    }
}

impl Expand for Variable {
    open spec fn expansion(
        &self,
        source: Seq<u8>,
        lookup: spec_fn(Seq<char>) -> Option<Seq<u8>>,
    ) -> Result<Seq<u8>, MissingVariable> {
        expand_part(self@, source, lookup, OnMissing::Fail)
    }

    open spec fn within(&self, source: Seq<u8>) -> bool {
        part_within(self@, source)
    }

    /// Expand the variable into the output vector.
    fn expand<'a, M>(&self, output: &mut Vec<u8>, source: &[u8], variables: &'a M) -> (result: Result<
        (),
        ExpandError,
    >) where M: VariableMap<'a> + ?Sized, M::Value: AsBytes {
        expand_variable(self, output, source, variables, OnMissing::Fail)
    }
}

/// Append a copy of the given bytes to the output.
fn append(output: &mut Vec<u8>, bytes: &[u8])
    ensures
        final(output)@ == old(output)@ + bytes@,
{
    output.extend_from_slice(bytes);
}

/// Expand a template into the output vector, part by part.
pub fn expand_template<'a, M>(
    template: &Template,
    output: &mut Vec<u8>,
    source: &[u8],
    variables: &'a M,
    on_missing: OnMissing,
) -> (result: Result<(), ExpandError>) where M: VariableMap<'a> + ?Sized, M::Value: AsBytes
    requires
        parts_within(template@, source@),
    ensures
        expanded_into(
            result,
            old(output)@,
            final(output)@,
            expand_parts(template@, source@, byte_lookup(variables), on_missing),
        ),
    decreases template, 0int,
{
    let ghost all = template@;
    let ghost lookup = byte_lookup(variables);
    let ghost before = output@;
    let mut index: usize = 0;
    proof {
        assert(all.subrange(0, all.len() as int) =~= all);
    }
    let ghost mut written: Seq<u8> = Seq::empty();
    while index < template.parts.len()
        invariant
            index <= template.parts@.len(),
            all == template@,
            all.len() == template.parts@.len(),
            lookup == byte_lookup(variables),
            parts_within(all, source@),
            output@ == before + written,
            expand_parts(all, source@, lookup, on_missing) == appended(
                written,
                expand_parts(
                    all.subrange(index as int, all.len() as int),
                    source@,
                    lookup,
                    on_missing,
                ),
            ),
        decreases template.parts@.len() - index,
    {
        let ghost left = all.subrange(index as int, all.len() as int);
        let ghost rest = expand_parts(
            left.subrange(1, left.len() as int),
            source@,
            lookup,
            on_missing,
        );
        proof {
            assert(left.subrange(1, left.len() as int) =~= all.subrange(index + 1, all.len() as int));
        }
        let ghost piece: Seq<u8>;
        match &template.parts[index] {
            Part::Literal(literal) => {
                let bytes = vstd::slice::slice_subrange(source, literal.range.start, literal.range.end);
                append(output, bytes);
                proof {
                    piece = bytes@;
                }
            },
            Part::EscapedByte(escaped) => {
                output.push(escaped.value);
                proof {
                    piece = seq![escaped.value];
                }
            },
            Part::Variable(variable) => {
                match expand_variable(variable, output, source, variables, on_missing) {
                    Ok(()) => {
                        proof {
                            piece = expand_part(variable@, source@, lookup, on_missing)->Ok_0;
                        }
                    },
                    Err(error) => {
                        return Err(error);
                    },
                }
            },
        }
        proof {
            if let Ok(more) = rest {
                assert(written + (piece + more) =~= (written + piece) + more);
            }
            written = written + piece;
        }
        index += 1;
    }
    Ok(())
}

/// What a variable expands to once its value has been looked up: the value if there
/// is one, else what its default expands to, and without a default the expansion fails
/// or the variable expands to nothing, as `on_missing` says.
pub open spec fn expand_resolved(
    variable: PartSpec,
    value: Option<Seq<u8>>,
    source: Seq<u8>,
    lookup: spec_fn(Seq<char>) -> Option<Seq<u8>>,
    on_missing: OnMissing,
) -> Result<Seq<u8>, MissingVariable>
    recommends
        variable is Variable,
{
    match value {
        Some(bytes) => Ok(bytes),
        None => match variable->default {
            Some(parts) => expand_parts(parts, source, lookup, on_missing),
            None => match on_missing {
                OnMissing::Fail => Err(
                    MissingVariable {
                        position: variable->name_start as usize,
                        name: name_text(source, variable->name_start, variable->name_end),
                    },
                ),
                OnMissing::Empty => Ok(Seq::empty()),
            },
        },
    }
}

/// Expand a variable into the output vector: its value where the map holds one, else
/// its default.
pub fn expand_variable<'a, M>(
    variable: &Variable,
    output: &mut Vec<u8>,
    source: &[u8],
    variables: &'a M,
    on_missing: OnMissing,
) -> (result: Result<(), ExpandError>) where M: VariableMap<'a> + ?Sized, M::Value: AsBytes
    requires
        part_within(variable@, source@),
    ensures
        expanded_into(
            result,
            old(output)@,
            final(output)@,
            expand_part(variable@, source@, byte_lookup(variables), on_missing),
        ),
    decreases variable, 1int,
{
    let bytes = vstd::slice::slice_subrange(source, variable.name.start, variable.name.end);
    proof {
        lemma_name_is_utf8(bytes@);
    }
    // A name holds letters, digits and underscores only, so it is text.
    let name = match text_of(bytes) {
        Some(name) => name,
        None => vstd::pervasive::unreached(),
    };
    proof {
        encode_utf8_decode_utf8(name@);
    }
    match variables.get(name) {
        Some(value) => expand_found(
            variable,
            name,
            Some(value.as_byte_slice()),
            output,
            source,
            variables,
            on_missing,
        ),
        None => expand_found(variable, name, None, output, source, variables, on_missing),
    }
}

/// Expand a variable into the output vector, given its name and what the lookup of
/// that name gave.
///
/// With a value, the value is the expansion. Without one, the default is expanded, if
/// the variable has one; else the variable is reported as missing, or nothing is
/// written, as `on_missing` says.
pub fn expand_found<'a, M>(
    variable: &Variable,
    name: &str,
    value: Option<&[u8]>,
    output: &mut Vec<u8>,
    source: &[u8],
    variables: &'a M,
    on_missing: OnMissing,
) -> (result: Result<(), ExpandError>) where M: VariableMap<'a> + ?Sized, M::Value: AsBytes
    requires
        part_within(variable@, source@),
        name@ == name_text(source@, variable.name.start as int, variable.name.end as int),
    ensures
        expanded_into(
            result,
            old(output)@,
            final(output)@,
            expand_resolved(
                variable@,
                match value {
                    Some(bytes) => Some(bytes@),
                    None => None,
                },
                source@,
                byte_lookup(variables),
                on_missing,
            ),
        ),
    decreases variable, 0int,
{
    match value {
        // If the variable appears in the map, use the value from the map.
        Some(bytes) => {
            append(output, bytes);
            Ok(())
        },
        None => match &variable.default {
            // Otherwise, use the default, if the template gives one.
            Some(default) => expand_template(default, output, source, variables, on_missing),
            None => match on_missing {
                OnMissing::Fail => Err(
                    ExpandError::NoSuchVariable(
                        NoSuchVariable { position: variable.name.start, name: name.to_owned() },
                    ),
                ),
                OnMissing::Empty => Ok(()),
            },
        },
    }
}

} // verus!
