//! Shell-like variable substitution for strings and byte strings.
//!
//! A template holds literal text, escape sequences (`\\`, `\$`, `\{`, `\}`, `\:`) and
//! placeholders of the form `$NAME`, `${NAME}` or `${NAME:default}`. A name is a
//! non-empty run of ASCII letters, digits and underscores; a default is itself a
//! template and may hold further placeholders.
//!
//! If you want to quickly perform substitution on a string, use [`substitute()`] or
//! [`substitute_bytes()`]. To expand one source many times, parse it once into one of
//! the template types:
//! * [`Template`]: borrows the source string.
//! * [`TemplateBuf`]: owns the source string.
//! * [`ByteTemplate`]: borrows the source bytes.
//! * [`ByteTemplateBuf`]: owns the source bytes.
//!
//! Every function of this crate is verified against a mathematical description of
//! the template language: [`template::raw::parse::parse_parts`] says what a source
//! parses to, and [`template::raw::expand::expand_parts`] says what a parsed
//! template expands to for a given lookup function. What holds of the two in general
//! is proved in [`laws`], [`located`], [`template::raw::layout`] and
//! [`template::raw::unicode`].
pub mod error;
pub mod highlight;
pub mod laws;
pub mod located;
pub mod map;
pub mod message;
pub mod scan;
pub mod text;
pub mod values;
pub mod template;

pub use error::Error;
pub use map::{
    fallback, from_fn, map_value, AsBytes, AsText, FallbackSubstitution, FnSubstitution,
    MapSubstitution, NeverValue, NoSubstitution, VariableMap,
};
pub use template::{ByteTemplate, ByteTemplateBuf, Template, TemplateBuf};

use vstd::prelude::*;
use vstd::utf8::encode_utf8;
use error::Failure;
use highlight::located_in;
use located::lies_within;
use map::byte_lookup;
use template::raw::expand::expand_parts;
pub use template::raw::expand::OnMissing;
use template::raw::parse::parse_parts;

verus! {

/// What a source turns into when it is parsed and then expanded, for a lookup function
/// that gives the bytes of each variable that has a value.
///
/// A source that does not parse fails with the parse error, whatever the lookup
/// function gives. A variable that has neither a value nor a default makes the
/// expansion fail, or expands to nothing, as `on_missing` says.
pub open spec fn substitution_with(
    source: Seq<u8>,
    lookup: spec_fn(Seq<char>) -> Option<Seq<u8>>,
    on_missing: OnMissing,
) -> Result<Seq<u8>, Failure> {
    match parse_parts(source, 0, source.len() as int) {
        Ok(parts) => match expand_parts(parts, source, lookup, on_missing) {
            Ok(bytes) => Ok(bytes),
            Err(missing) => Err(Failure::Missing(missing)),
        },
        Err(error) => Err(Failure::Parse(error)),
    }
}

/// What a source turns into when it is parsed and then expanded, where a variable that
/// has neither a value nor a default makes the expansion fail.
pub open spec fn substitution(source: Seq<u8>, lookup: spec_fn(Seq<char>) -> Option<Seq<u8>>) -> Result<
    Seq<u8>,
    Failure,
> {
    substitution_with(source, lookup, OnMissing::Fail)
}

/// Whether the outcome of a substitution in a text is the one that the text and the
/// lookup function call for, and an error lies in the text.
pub open spec fn substituted_text(
    result: Result<String, Error>,
    source: Seq<char>,
    expected: Result<Seq<u8>, Failure>,
) -> bool {
    match result {
        Ok(text) => expected == Ok::<Seq<u8>, Failure>(encode_utf8(text@)),
        Err(error) => expected == Err::<Seq<u8>, Failure>(error@) && located_in(error@, source),
    }
}

/// Whether the outcome of a substitution in a byte string is the one that the source
/// and the lookup function call for, and an error lies in the source.
pub open spec fn substituted_bytes(
    result: Result<Vec<u8>, Error>,
    source: Seq<u8>,
    expected: Result<Seq<u8>, Failure>,
) -> bool {
    match result {
        Ok(bytes) => expected == Ok::<Seq<u8>, Failure>(bytes@),
        Err(error) => expected == Err::<Seq<u8>, Failure>(error@) && lies_within(error@, source),
    }
}

/// Substitute variables in a string.
///
/// Variables have the form `$NAME`, `${NAME}` or `${NAME:default}`.
/// A variable name can only consist of ASCII letters, digits and underscores.
/// They are allowed to start with numbers.
///
/// You can escape dollar signs, backslashes, colons and braces with a backslash.
///
/// A variable that has neither a value nor a default is an error.
pub fn substitute<'a, M>(source: &str, variables: &'a M) -> (result: Result<String, Error>) where
    M: VariableMap<'a> + ?Sized,
    M::Value: AsText,

    ensures
        substituted_text(
            result,
            source@,
            substitution(encode_utf8(source@), byte_lookup(variables)),
        ),
{
    substitute_with(source, variables, OnMissing::Fail)
}

/// Substitute variables in a string, and say what to do with a variable that has
/// neither a value nor a default: fail, or put nothing in its place.
pub fn substitute_with<'a, M>(source: &str, variables: &'a M, on_missing: OnMissing) -> (result: Result<
    String,
    Error,
>) where M: VariableMap<'a> + ?Sized, M::Value: AsText
    ensures
        substituted_text(
            result,
            source@,
            substitution_with(encode_utf8(source@), byte_lookup(variables), on_missing),
        ),
{
    let template = match Template::from_str(source) {
        Ok(template) => template,
        Err(error) => {
            return Err(Error::from(error));
        },
    };
    match template.expand_with(variables, on_missing) {
        Ok(text) => Ok(text),
        Err(error) => Err(Error::from(error)),
    }
}

/// Substitute variables in a byte string.
///
/// Variables have the form `$NAME`, `${NAME}` or `${NAME:default}`.
/// A variable name can only consist of ASCII letters, digits and underscores.
/// They are allowed to start with numbers.
///
/// You can escape dollar signs, backslashes, colons and braces with a backslash.
///
/// A variable that has neither a value nor a default is an error.
pub fn substitute_bytes<'a, M>(source: &[u8], variables: &'a M) -> (result: Result<Vec<u8>, Error>) where
    M: VariableMap<'a> + ?Sized,
    M::Value: AsBytes,

    ensures
        substituted_bytes(result, source@, substitution(source@, byte_lookup(variables))),
{
    substitute_bytes_with(source, variables, OnMissing::Fail)
}

/// Substitute variables in a byte string, and say what to do with a variable that has
/// neither a value nor a default: fail, or put nothing in its place.
pub fn substitute_bytes_with<'a, M>(source: &[u8], variables: &'a M, on_missing: OnMissing) -> (result:
    Result<Vec<u8>, Error>) where M: VariableMap<'a> + ?Sized, M::Value: AsBytes
    ensures
        substituted_bytes(
            result,
            source@,
            substitution_with(source@, byte_lookup(variables), on_missing),
        ),
{
    let template = match ByteTemplate::from_slice(source) {
        Ok(template) => template,
        Err(error) => {
            return Err(Error::from(error));
        },
    };
    match template.expand_with(variables, on_missing) {
        Ok(bytes) => Ok(bytes),
        Err(error) => Err(Error::from(error)),
    }
}

} // verus!
