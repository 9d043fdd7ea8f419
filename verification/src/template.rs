//! Parsed templates that know their source.
use vstd::prelude::*;
use crate::error::{ExpandError, Failure, MissingVariable, ParseError};
use crate::highlight::located_in;
use crate::located::{
    lemma_missing_located, lemma_missing_within, lemma_parse_error_located, lemma_parse_error_within,
    lies_within,
};
use vstd::string::StringSliceAdditionalSpecFns;
use vstd::utf8::{encode_utf8, encode_utf8_valid_utf8, is_char_boundary_start_end_of_seq, valid_utf8};
use crate::map::{byte_lookup, AsBytes, AsText, VariableMap};
use crate::template::raw::unicode::{gives_text, lemma_expansion_is_text};
use crate::text::string_of;
use crate::template::raw::expand::{expand_parts, expand_template, OnMissing};
use crate::template::raw::parse::{lemma_parse_within, parse_parts};
use crate::template::raw::PartSpec;

pub mod raw;

verus! {

/// What a source expands to once it has been parsed, for a lookup function that gives
/// the bytes of each variable that has a value, and for what is to be done with a
/// variable that has neither a value nor a default.
pub open spec fn expand_source(
    source: Seq<u8>,
    lookup: spec_fn(Seq<char>) -> Option<Seq<u8>>,
    on_missing: OnMissing,
) -> Result<Seq<u8>, MissingVariable>
    recommends
        parse_parts(source, 0, source.len() as int) is Ok,
{
    expand_parts(parse_parts(source, 0, source.len() as int)->Ok_0, source, lookup, on_missing)
}

/// Whether the outcome of an expansion is the one that the source and the lookup
/// function call for.
pub open spec fn expands_to(
    result: Result<Vec<u8>, ExpandError>,
    expected: Result<Seq<u8>, MissingVariable>,
) -> bool {
    match result {
        Ok(output) => expected == Ok::<Seq<u8>, MissingVariable>(output@),
        Err(error) => expected == Err::<Seq<u8>, MissingVariable>(error@),
    }
}

/// In a text, an error of the parser starts and ends at character boundaries.
pub proof fn lemma_text_error_located(source: Seq<char>)
    requires
        encode_utf8(source).len() <= usize::MAX,
    ensures
        parse_parts(encode_utf8(source), 0, encode_utf8(source).len() as int) matches Err(error)
            ==> located_in(Failure::Parse(error), source),
{
    let bytes = encode_utf8(source);
    encode_utf8_valid_utf8(source);
    is_char_boundary_start_end_of_seq(bytes);
    lemma_parse_error_located(bytes, 0, bytes.len() as int);
}

/// The parts of a template: its own, or those of an owning template that it borrows.
#[derive(Debug)]
enum Parsed<'a> {
    /// The parts belong to the template.
    Owned(raw::Template),
    /// The parts belong to a template buffer.
    Borrowed(&'a raw::Template),
}

impl<'a> Parsed<'a> {
    /// The content of the parts.
    spec fn parts(&self) -> Seq<PartSpec> {
        match self {
            Parsed::Owned(template) => template@,
            Parsed::Borrowed(template) => template@,
        }
    }

    /// Borrow the parts.
    fn get(&self) -> (template: &raw::Template)
        ensures
            template@ == self.parts(),
    {
        match self {
            Parsed::Owned(template) => template,
            Parsed::Borrowed(template) => template,
        }
    }
}

/// The number of bytes to reserve for the expansion of a source of the given length:
/// a tenth more than the source, as far as a machine can count.
pub open spec fn reserved_for(source_len: usize) -> int {
    if source_len + source_len / 10 <= usize::MAX {
        source_len + source_len / 10
    } else {
        usize::MAX as int
    }
}

/// Tell how many bytes to reserve for the expansion of a source of the given length.
///
/// An expansion is mostly about as long as its source, so a tenth more than the
/// source is reserved as a guess.
pub fn expansion_capacity(source_len: usize) -> (capacity: usize)
    ensures
        capacity == reserved_for(source_len),
{
    source_len.saturating_add(source_len / 10)
}

/// Make the empty output buffer for the expansion of a source of the given length,
/// with room for [`expansion_capacity`] bytes.
fn output_buffer(source_len: usize) -> (output: Vec<u8>)
    ensures
        output@ == Seq::<u8>::empty(),
{
    Vec::with_capacity(expansion_capacity(source_len))
}

/// A parsed byte template that borrows the source slice.
///
/// You can parse the template once and call [`Self::expand()`] multiple times.
/// This is generally more efficient than calling
/// [`substitute_bytes()`][crate::substitute_bytes] multiple times on the same source.
///
/// This template borrows the source data.
/// You can use [`ByteTemplateBuf`] if you need a template that owns the source data.
#[derive(Debug)]
pub struct ByteTemplate<'a> {
    source: &'a [u8],
    raw: Parsed<'a>,
}

impl<'a> View for ByteTemplate<'a> {
    type V = Seq<u8>;

    /// The source of the template.
    closed spec fn view(&self) -> Seq<u8> {
        self.source@
    }
}

impl<'a> ByteTemplate<'a> {
    /// The parts are those that the source parses to.
    #[verifier::type_invariant]
    spec fn parsed_from_source(&self) -> bool {
        parse_parts(self.source@, 0, self.source@.len() as int) == Ok::<Seq<PartSpec>, ParseError>(
            self.raw.parts(),
        )
    }

    /// Parse a template from a byte slice.
    ///
    /// The source can contain variables to be substituted later,
    /// when you call [`Self::expand()`].
    ///
    /// Variables have the form `$NAME`, `${NAME}` or `${NAME:default}`.
    /// A variable name can only consist of ASCII letters, digits and underscores.
    /// They are allowed to start with numbers.
    ///
    /// You can escape dollar signs, backslashes, colons and braces with a backslash.
    pub fn from_slice(source: &'a [u8]) -> (result: Result<Self, ParseError>)
        ensures
            match result {
                Ok(template) => template@ == source@ && parse_parts(
                    source@,
                    0,
                    source@.len() as int,
                ) is Ok,
                Err(error) => parse_parts(source@, 0, source@.len() as int) == Err::<
                    Seq<PartSpec>,
                    ParseError,
                >(error) && lies_within(Failure::Parse(error), source@),
            },
    {
        proof {
            assert(source@.len() == source.len());
            lemma_parse_error_within(source@, 0, source@.len() as int);
        }
        match raw::Template::parse(source, 0) {
            Ok(template) => Ok(ByteTemplate { source, raw: Parsed::Owned(template) }),
            Err(error) => Err(error),
        }
    }

    /// Get the source slice that the template was parsed from.
    pub fn source(&self) -> (source: &[u8])
        ensures
            source@ == self@,
    {
        self.source
    }

    /// Expand the template.
    ///
    /// This will substitute all variables in the template with the values from the
    /// given map. A variable that has neither a value nor a default is an error.
    pub fn expand<'b, M>(&self, variables: &'b M) -> (result: Result<Vec<u8>, ExpandError>) where
        M: VariableMap<'b> + ?Sized,
        M::Value: AsBytes,

        ensures
            parse_parts(self@, 0, self@.len() as int) is Ok,
            expands_to(result, expand_source(self@, byte_lookup(variables), OnMissing::Fail)),
            result matches Err(error) ==> lies_within(Failure::Missing(error@), self@),
    {
        self.expand_with(variables, OnMissing::Fail)
    }

    /// Expand the template, and say what to do with a variable that has neither a
    /// value nor a default: fail, or put nothing in its place.
    pub fn expand_with<'b, M>(&self, variables: &'b M, on_missing: OnMissing) -> (result: Result<
        Vec<u8>,
        ExpandError,
    >) where M: VariableMap<'b> + ?Sized, M::Value: AsBytes
        ensures
            parse_parts(self@, 0, self@.len() as int) is Ok,
            expands_to(result, expand_source(self@, byte_lookup(variables), on_missing)),
            result matches Err(error) ==> lies_within(Failure::Missing(error@), self@),
    {
        proof {
            use_type_invariant(self);
            lemma_parse_within(self.source@, 0, self.source@.len() as int);
            assert(self.source@.len() == self.source.len());
            lemma_missing_within(
                self.raw.parts(),
                self.source@,
                byte_lookup(variables),
                on_missing,
            );
        }
        let mut output = output_buffer(self.source.len());
        match expand_template(self.raw.get(), &mut output, self.source, variables, on_missing) {
            Ok(()) => Ok(output),
            Err(error) => Err(error),
        }
    }
}

/// A parsed byte template that owns the source vector.
///
/// You can parse the template once and call [`Self::expand()`] multiple times.
/// This is generally more efficient than calling
/// [`substitute_bytes()`][crate::substitute_bytes] multiple times on the same source.
///
/// This template takes ownership of the source data. It keeps the source and the
/// offsets of the parts in it side by side, so it can be moved and copied freely.
/// If you do not need ownership, you can also use [`ByteTemplate`] to borrow it instead.
#[derive(Debug)]
pub struct ByteTemplateBuf {
    source: Vec<u8>,
    raw: raw::Template,
}

impl View for ByteTemplateBuf {
    type V = Seq<u8>;

    /// The source of the template.
    closed spec fn view(&self) -> Seq<u8> {
        self.source@
    }
}

impl Clone for ByteTemplateBuf {
    /// Copy the template together with its source: the two share nothing.
    fn clone(&self) -> (copy: Self)
        ensures
            copy@ == self@,
    {
        proof {
            use_type_invariant(self);
        }
        let source = self.source.clone();
        ByteTemplateBuf { source, raw: self.raw.clone() }
    }
}

impl ByteTemplateBuf {
    /// The parts are those that the source parses to.
    #[verifier::type_invariant]
    spec fn parsed_from_source(&self) -> bool {
        parse_parts(self.source@, 0, self.source@.len() as int) == Ok::<Seq<PartSpec>, ParseError>(
            self.raw@,
        )
    }

    /// Parse a template from a vector of bytes.
    ///
    /// This takes ownership of the vector.
    ///
    /// Variables have the form `$NAME`, `${NAME}` or `${NAME:default}`.
    /// A variable name can only consist of ASCII letters, digits and underscores.
    /// They are allowed to start with numbers.
    ///
    /// You can escape dollar signs, backslashes, colons and braces with a backslash.
    pub fn from_vec(source: Vec<u8>) -> (result: Result<Self, ParseError>)
        ensures
            match result {
                Ok(template) => template@ == source@ && parse_parts(
                    source@,
                    0,
                    source@.len() as int,
                ) is Ok,
                Err(error) => parse_parts(source@, 0, source@.len() as int) == Err::<
                    Seq<PartSpec>,
                    ParseError,
                >(error) && lies_within(Failure::Parse(error), source@),
            },
    {
        proof {
            assert(source@.len() == source.len());
            lemma_parse_error_within(source@, 0, source@.len() as int);
        }
        match raw::Template::parse(source.as_slice(), 0) {
            Ok(template) => Ok(ByteTemplateBuf { source, raw: template }),
            Err(error) => Err(error),
        }
    }

    /// Consume the template to get back the source vector.
    pub fn into_source(self) -> (source: Vec<u8>)
        ensures
            source@ == self@,
    {
        self.source
    }

    /// Borrow the template.
    pub fn as_template<'a>(&'a self) -> (template: ByteTemplate<'a>)
        ensures
            template@ == self@,
    {
        proof {
            use_type_invariant(self);
        }
        ByteTemplate { source: self.source.as_slice(), raw: Parsed::Borrowed(&self.raw) }
    }

    /// Expand the template.
    ///
    /// This will substitute all variables in the template with the values from the
    /// given map. A variable that has neither a value nor a default is an error.
    pub fn expand<'b, M>(&self, variables: &'b M) -> (result: Result<Vec<u8>, ExpandError>) where
        M: VariableMap<'b> + ?Sized,
        M::Value: AsBytes,

        ensures
            parse_parts(self@, 0, self@.len() as int) is Ok,
            expands_to(result, expand_source(self@, byte_lookup(variables), OnMissing::Fail)),
            result matches Err(error) ==> lies_within(Failure::Missing(error@), self@),
    {
        self.expand_with(variables, OnMissing::Fail)
    }

    /// Expand the template, and say what to do with a variable that has neither a
    /// value nor a default: fail, or put nothing in its place.
    pub fn expand_with<'b, M>(&self, variables: &'b M, on_missing: OnMissing) -> (result: Result<
        Vec<u8>,
        ExpandError,
    >) where M: VariableMap<'b> + ?Sized, M::Value: AsBytes
        ensures
            parse_parts(self@, 0, self@.len() as int) is Ok,
            expands_to(result, expand_source(self@, byte_lookup(variables), on_missing)),
            result matches Err(error) ==> lies_within(Failure::Missing(error@), self@),
    {
        self.as_template().expand_with(variables, on_missing)
    }
}

/// Whether the outcome of an expansion to text is the one that the source and the
/// lookup function call for.
pub open spec fn expands_to_text(
    result: Result<String, ExpandError>,
    expected: Result<Seq<u8>, MissingVariable>,
) -> bool {
    match result {
        Ok(output) => expected == Ok::<Seq<u8>, MissingVariable>(encode_utf8(output@)),
        Err(error) => expected == Err::<Seq<u8>, MissingVariable>(error@),
    }
}

/// A map whose values are text gives valid UTF-8 only.
pub proof fn lemma_text_values<'a, M>(variables: &M) where M: VariableMap<'a> + ?Sized, M::Value: AsText
    ensures
        gives_text(byte_lookup(variables)),
{
    let lookup = byte_lookup(variables);
    assert forall|key: Seq<char>| (#[trigger] lookup(key)) is Some implies valid_utf8(
        lookup(key)->Some_0,
    ) by {
        let value = variables.lookup(key)->Some_0;
        value.lemma_bytes_encode_text();
        encode_utf8_valid_utf8(value.text());
    }
}

/// Expand parts that were parsed from text, and hand the expansion back as text.
fn expand_text<'b, M>(
    source: &str,
    parts: &raw::Template,
    variables: &'b M,
    on_missing: OnMissing,
) -> (result: Result<String, ExpandError>) where M: VariableMap<'b> + ?Sized, M::Value: AsText
    requires
        parse_parts(encode_utf8(source@), 0, encode_utf8(source@).len() as int) == Ok::<
            Seq<PartSpec>,
            ParseError,
        >(parts@),
    ensures
        expands_to_text(
            result,
            expand_source(encode_utf8(source@), byte_lookup(variables), on_missing),
        ),
        result matches Err(error) ==> located_in(Failure::Missing(error@), source@),
{
    let bytes = source.as_bytes();
    proof {
        lemma_parse_within(bytes@, 0, bytes@.len() as int);
        encode_utf8_valid_utf8(source@);
        assert(bytes@.len() == bytes.len());
        lemma_missing_located(parts@, bytes@, byte_lookup(variables), on_missing);
    }
    let mut output = output_buffer(bytes.len());
    match expand_template(parts, &mut output, bytes, variables, on_missing) {
        Ok(()) => {
            proof {
                encode_utf8_valid_utf8(source@);
                is_char_boundary_start_end_of_seq(bytes@);
                lemma_text_values(variables);
                lemma_expansion_is_text(
                    bytes@,
                    0,
                    bytes@.len() as int,
                    byte_lookup(variables),
                    on_missing,
                );
            }
            // The source is text and so is every value, hence so is the expansion.
            match string_of(output) {
                Some(text) => Ok(text),
                None => vstd::pervasive::unreached(),
            }
        },
        Err(error) => Err(error),
    }
}

/// A parsed string template that borrows the source string.
///
/// You can parse the template once and call [`Self::expand()`] multiple times.
/// This is generally more efficient than calling [`substitute()`][crate::substitute]
/// multiple times on the same string.
///
/// This template borrows the source string.
/// You can use [`TemplateBuf`] if you need a template that owns the source string.
///
/// If you have a byte slice or vector instead of a string,
/// you can use [`ByteTemplate`] or [`ByteTemplateBuf`].
#[derive(Debug)]
pub struct Template<'a> {
    source: &'a str,
    raw: Parsed<'a>,
}

impl<'a> View for Template<'a> {
    type V = Seq<char>;

    /// The source of the template.
    closed spec fn view(&self) -> Seq<char> {
        self.source@
    }
}

impl<'a> Template<'a> {
    /// The parts are those that the source parses to.
    #[verifier::type_invariant]
    spec fn parsed_from_source(&self) -> bool {
        parse_parts(encode_utf8(self.source@), 0, encode_utf8(self.source@).len() as int) == Ok::<
            Seq<PartSpec>,
            ParseError,
        >(self.raw.parts())
    }

    /// Parse a template from a string slice.
    ///
    /// The source can contain variables to be substituted later,
    /// when you call [`Self::expand()`].
    ///
    /// Variables have the form `$NAME`, `${NAME}` or `${NAME:default}`.
    /// A variable name can only consist of ASCII letters, digits and underscores.
    /// They are allowed to start with numbers.
    ///
    /// You can escape dollar signs, backslashes, colons and braces with a backslash.
    pub fn from_str(source: &'a str) -> (result: Result<Self, ParseError>)
        ensures
            match result {
                Ok(template) => template@ == source@ && parse_parts(
                    encode_utf8(source@),
                    0,
                    encode_utf8(source@).len() as int,
                ) is Ok,
                Err(error) => parse_parts(
                    encode_utf8(source@),
                    0,
                    encode_utf8(source@).len() as int,
                ) == Err::<Seq<PartSpec>, ParseError>(error) && located_in(
                    Failure::Parse(error),
                    source@,
                ),
            },
    {
        let bytes = source.as_bytes();
        proof {
            assert(bytes@.len() == bytes.len());
            lemma_text_error_located(source@);
        }
        match raw::Template::parse(bytes, 0) {
            Ok(template) => Ok(Template { source, raw: Parsed::Owned(template) }),
            Err(error) => Err(error),
        }
    }

    /// Get the source string that the template was parsed from.
    pub fn source(&self) -> (source: &str)
        ensures
            source@ == self@,
    {
        self.source
    }

    /// Expand the template.
    ///
    /// This will substitute all variables in the template with the values from the
    /// given map. The expansion of text with values that are text is text. A variable
    /// that has neither a value nor a default is an error.
    pub fn expand<'b, M>(&self, variables: &'b M) -> (result: Result<String, ExpandError>) where
        M: VariableMap<'b> + ?Sized,
        M::Value: AsText,

        ensures
            parse_parts(encode_utf8(self@), 0, encode_utf8(self@).len() as int) is Ok,
            expands_to_text(
                result,
                expand_source(encode_utf8(self@), byte_lookup(variables), OnMissing::Fail),
            ),
            result matches Err(error) ==> located_in(Failure::Missing(error@), self@),
    {
        self.expand_with(variables, OnMissing::Fail)
    }

    /// Expand the template, and say what to do with a variable that has neither a
    /// value nor a default: fail, or put nothing in its place.
    pub fn expand_with<'b, M>(&self, variables: &'b M, on_missing: OnMissing) -> (result: Result<
        String,
        ExpandError,
    >) where M: VariableMap<'b> + ?Sized, M::Value: AsText
        ensures
            parse_parts(encode_utf8(self@), 0, encode_utf8(self@).len() as int) is Ok,
            expands_to_text(
                result,
                expand_source(encode_utf8(self@), byte_lookup(variables), on_missing),
            ),
            result matches Err(error) ==> located_in(Failure::Missing(error@), self@),
    {
        proof {
            use_type_invariant(self);
        }
        expand_text(self.source, self.raw.get(), variables, on_missing)
    }
}

/// A parsed string template that owns the source string.
///
/// You can parse the template once and call [`Self::expand()`] multiple times.
/// This is generally more efficient than calling [`substitute()`][crate::substitute]
/// multiple times on the same string.
///
/// This template owns the source string. It keeps the source and the offsets of the
/// parts in it side by side, so it can be moved and copied freely.
/// If you do not need ownership, you can also use [`Template`] to borrow it instead.
#[derive(Debug)]
pub struct TemplateBuf {
    source: String,
    raw: raw::Template,
}

impl View for TemplateBuf {
    type V = Seq<char>;

    /// The source of the template.
    closed spec fn view(&self) -> Seq<char> {
        self.source@
    }
}

impl Clone for TemplateBuf {
    /// Copy the template together with its source: the two share nothing.
    fn clone(&self) -> (copy: Self)
        ensures
            copy@ == self@,
    {
        proof {
            use_type_invariant(self);
        }
        TemplateBuf { source: self.source.clone(), raw: self.raw.clone() }
    }
}

impl TemplateBuf {
    /// The parts are those that the source parses to.
    #[verifier::type_invariant]
    spec fn parsed_from_source(&self) -> bool {
        parse_parts(encode_utf8(self.source@), 0, encode_utf8(self.source@).len() as int) == Ok::<
            Seq<PartSpec>,
            ParseError,
        >(self.raw@)
    }

    /// Parse a template from a string.
    ///
    /// This takes ownership of the string.
    ///
    /// Variables have the form `$NAME`, `${NAME}` or `${NAME:default}`.
    /// A variable name can only consist of ASCII letters, digits and underscores.
    /// They are allowed to start with numbers.
    ///
    /// You can escape dollar signs, backslashes, colons and braces with a backslash.
    pub fn from_string(source: String) -> (result: Result<Self, ParseError>)
        ensures
            match result {
                Ok(template) => template@ == source@ && parse_parts(
                    encode_utf8(source@),
                    0,
                    encode_utf8(source@).len() as int,
                ) is Ok,
                Err(error) => parse_parts(
                    encode_utf8(source@),
                    0,
                    encode_utf8(source@).len() as int,
                ) == Err::<Seq<PartSpec>, ParseError>(error) && located_in(
                    Failure::Parse(error),
                    source@,
                ),
            },
    {
        let bytes = source.as_str().as_bytes();
        proof {
            assert(bytes@.len() == bytes.len());
            lemma_text_error_located(source@);
        }
        match raw::Template::parse(bytes, 0) {
            Ok(template) => Ok(TemplateBuf { source, raw: template }),
            Err(error) => Err(error),
        }
    }

    /// Consume the template to get back the source string.
    pub fn into_source(self) -> (source: String)
        ensures
            source@ == self@,
    {
        self.source
    }

    /// Borrow the template.
    pub fn as_template<'a>(&'a self) -> (template: Template<'a>)
        ensures
            template@ == self@,
    {
        proof {
            use_type_invariant(self);
        }
        Template { source: self.source.as_str(), raw: Parsed::Borrowed(&self.raw) }
    }

    /// Expand the template.
    ///
    /// This will substitute all variables in the template with the values from the
    /// given map. The expansion of text with values that are text is text. A variable
    /// that has neither a value nor a default is an error.
    pub fn expand<'b, M>(&self, variables: &'b M) -> (result: Result<String, ExpandError>) where
        M: VariableMap<'b> + ?Sized,
        M::Value: AsText,

        ensures
            parse_parts(encode_utf8(self@), 0, encode_utf8(self@).len() as int) is Ok,
            expands_to_text(
                result,
                expand_source(encode_utf8(self@), byte_lookup(variables), OnMissing::Fail),
            ),
            result matches Err(error) ==> located_in(Failure::Missing(error@), self@),
    {
        self.expand_with(variables, OnMissing::Fail)
    }

    /// Expand the template, and say what to do with a variable that has neither a
    /// value nor a default: fail, or put nothing in its place.
    pub fn expand_with<'b, M>(&self, variables: &'b M, on_missing: OnMissing) -> (result: Result<
        String,
        ExpandError,
    >) where M: VariableMap<'b> + ?Sized, M::Value: AsText
        ensures
            parse_parts(encode_utf8(self@), 0, encode_utf8(self@).len() as int) is Ok,
            expands_to_text(
                result,
                expand_source(encode_utf8(self@), byte_lookup(variables), on_missing),
            ),
            result matches Err(error) ==> located_in(Failure::Missing(error@), self@),
    {
        proof {
            use_type_invariant(self);
        }
        expand_text(self.source.as_str(), &self.raw, variables, on_missing)
    }
}

impl<'a> Parsed<'a> {
    /// Copy the parts, or the reference to them where they are borrowed.
    fn copy(&self) -> (copy: Self)
        ensures
            copy.parts() == self.parts(),
    {
        match self {
            Parsed::Owned(template) => Parsed::Owned(template.clone()),
            Parsed::Borrowed(template) => Parsed::Borrowed(template),
        }
    }
}

impl<'a> Clone for Template<'a> {
    /// Copy the template: the copy borrows the same source.
    fn clone(&self) -> (copy: Self)
        ensures
            copy@ == self@,
    {
        proof {
            use_type_invariant(self);
        }
        Template { source: self.source, raw: self.raw.copy() }
    }
}

impl<'a> Clone for ByteTemplate<'a> {
    /// Copy the template: the copy borrows the same source.
    fn clone(&self) -> (copy: Self)
        ensures
            copy@ == self@,
    {
        proof {
            use_type_invariant(self);
        }
        ByteTemplate { source: self.source, raw: self.raw.copy() }
    }
}

impl<'a> Parsed<'a> {
    /// Turn the parts into parts of their own, copying them where they are borrowed.
    fn into_owned(self) -> (template: raw::Template)
        ensures
            template@ == self.parts(),
    {
        match self {
            Parsed::Owned(template) => template,
            Parsed::Borrowed(template) => template.clone(),
        }
    }
}

impl<'a> From<&'a TemplateBuf> for Template<'a> {
    /// Borrow the template.
    fn from(other: &'a TemplateBuf) -> (template: Self)
        ensures
            template@ == other@,
    {
        other.as_template()
    }
}

impl<'a> vstd::std_specs::convert::FromSpecImpl<&'a TemplateBuf> for Template<'a> {
    open spec fn obeys_from_spec() -> bool {
        false
    }

    open spec fn from_spec(other: &'a TemplateBuf) -> Self {
        arbitrary()
    }
}

impl<'a> From<Template<'a>> for TemplateBuf {
    /// Copy the source of the template into a buffer that the result owns.
    fn from(other: Template<'a>) -> (buffer: Self)
        ensures
            buffer@ == other@,
    {
        proof {
            use_type_invariant(&other);
        }
        let source = other.source.to_owned();
        TemplateBuf { source, raw: other.raw.into_owned() }
    }
}

impl<'a> vstd::std_specs::convert::FromSpecImpl<Template<'a>> for TemplateBuf {
    open spec fn obeys_from_spec() -> bool {
        false
    }

    open spec fn from_spec(other: Template<'a>) -> Self {
        arbitrary()
    }
}

impl<'a> From<&'a ByteTemplateBuf> for ByteTemplate<'a> {
    /// Borrow the template.
    fn from(other: &'a ByteTemplateBuf) -> (template: Self)
        ensures
            template@ == other@,
    {
        other.as_template()
    }
}

impl<'a> vstd::std_specs::convert::FromSpecImpl<&'a ByteTemplateBuf> for ByteTemplate<'a> {
    open spec fn obeys_from_spec() -> bool {
        false
    }

    open spec fn from_spec(other: &'a ByteTemplateBuf) -> Self {
        arbitrary()
    }
}

impl<'a> From<ByteTemplate<'a>> for ByteTemplateBuf {
    /// Copy the source of the template into a buffer that the result owns.
    fn from(other: ByteTemplate<'a>) -> (buffer: Self)
        ensures
            buffer@ == other@,
    {
        proof {
            use_type_invariant(&other);
        }
        let source = vstd::slice::slice_to_vec(other.source);
        ByteTemplateBuf { source, raw: other.raw.into_owned() }
    }
}

impl<'a> vstd::std_specs::convert::FromSpecImpl<ByteTemplate<'a>> for ByteTemplateBuf {
    open spec fn obeys_from_spec() -> bool {
        false
    }

    open spec fn from_spec(other: ByteTemplate<'a>) -> Self {
        arbitrary()
    }
}

} // verus!
