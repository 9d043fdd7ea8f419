//! Substitution in the strings of a document.
use vstd::prelude::*;
use vstd::utf8::encode_utf8;
use crate::error::{Error, Failure};
use crate::map::{byte_lookup, AsText, VariableMap};
use crate::{substitute, substitution};

verus! {

/// Whether a text is what a source turns into for a lookup function.
pub open spec fn substituted(
    source: Seq<char>,
    lookup: spec_fn(Seq<char>) -> Option<Seq<u8>>,
    text: Seq<char>,
) -> bool {
    substitution(encode_utf8(source), lookup) == Ok::<Seq<u8>, Failure>(encode_utf8(text))
}

/// Whether the first `count` strings have been substituted and the others are as they
/// were.
pub open spec fn substituted_up_to(
    before: Seq<String>,
    after: Seq<String>,
    lookup: spec_fn(Seq<char>) -> Option<Seq<u8>>,
    count: int,
) -> bool {
    &&& after.len() == before.len()
    &&& 0 <= count <= before.len()
    &&& forall|i: int| 0 <= i < count ==> substituted(before[i]@, lookup, #[trigger] after[i]@)
    &&& forall|i: int| count <= i < before.len() ==> #[trigger] after[i] == before[i]
}

/// Perform variable substitution on the string values of a document, given in the
/// order in which they stand in the document.
///
/// Each string is replaced by what it turns into. The first string that fails ends the
/// work with its error: the strings before it have been substituted then, and that
/// string and those behind it are as they were.
pub fn substitute_string_values<'a, M>(values: &mut Vec<String>, variables: &'a M) -> (result: Result<
    (),
    Error,
>) where M: VariableMap<'a> + ?Sized, M::Value: AsText
    ensures
        match result {
            Ok(()) => substituted_up_to(
                old(values)@,
                final(values)@,
                byte_lookup(variables),
                old(values)@.len() as int,
            ),
            Err(error) => exists|failed: int|
                {
                    &&& #[trigger] substituted_up_to(
                        old(values)@,
                        final(values)@,
                        byte_lookup(variables),
                        failed,
                    )
                    &&& failed < old(values)@.len()
                    &&& substitution(encode_utf8(old(values)@[failed]@), byte_lookup(variables))
                        == Err::<Seq<u8>, Failure>(error@)
                },
        },
{
    let mut index: usize = 0;
    while index < values.len()
        invariant
            substituted_up_to(old(values)@, values@, byte_lookup(variables), index as int),
        decreases values@.len() - index,
    {
        match substitute(values[index].as_str(), variables) {
            Ok(text) => {
                values.set(index, text);
            },
            Err(error) => {
                return Err(error);
            },
        }
        index += 1;
    }
    Ok(())
}

} // verus!
