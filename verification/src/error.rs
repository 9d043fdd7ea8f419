//! Error details: what went wrong, and where in the source.
use vstd::prelude::*;

verus! {

/// A character or byte from the input.
#[derive(Copy, Clone, Debug, PartialEq, Eq)]
pub enum CharOrByte {
    /// A unicode character.
    Char(char),
    /// A byte value.
    Byte(u8),
}

/// The input contains an invalid escape sequence.
#[derive(Debug, Clone, PartialEq, Eq)]
pub struct InvalidEscapeSequence {
    /// The byte offset of the backslash within the input.
    pub position: usize,
    /// The character after the backslash, or the byte there if no character can be
    /// decoded; `None` if the backslash is the last byte of the input.
    pub character: Option<CharOrByte>,
}

/// The input contains a placeholder without a variable name, such as `${}`.
#[derive(Debug, Clone, PartialEq, Eq)]
pub struct MissingVariableName {
    /// The byte offset of the `$` sign within the input.
    pub position: usize,
    /// The length of the placeholder opening in bytes: 1 for `$`, 2 for `${`.
    pub len: usize,
}

/// A description of what was expected in place of an unexpected character.
#[derive(Debug, Clone, PartialEq, Eq)]
pub struct ExpectedCharacter {
    /// A human readable message to describe what is expected.
    pub message: &'static str,
}

/// The input contains an unexpected character.
#[derive(Debug, Clone, PartialEq, Eq)]
pub struct UnexpectedCharacter {
    /// The byte offset of the unexpected character within the input.
    pub position: usize,
    /// The unexpected character, or the byte there if no character can be decoded.
    pub character: CharOrByte,
    /// What was expected instead.
    pub expected: ExpectedCharacter,
}

/// The input contains a placeholder that is never closed.
#[derive(Debug, Clone, PartialEq, Eq)]
pub struct MissingClosingBrace {
    /// The byte offset of the unmatched `{` within the input.
    pub position: usize,
}

/// The input names a variable that the variable map does not hold.
#[derive(Debug, Clone, PartialEq, Eq)]
pub struct NoSuchVariable {
    /// The byte offset of the first byte of the name within the input.
    pub position: usize,
    /// The name of the variable.
    pub name: String,
}

/// An error that can occur while parsing a template.
#[derive(Debug, Clone, PartialEq, Eq)]
pub enum ParseError {
    /// The input contains an invalid escape sequence.
    InvalidEscapeSequence(InvalidEscapeSequence),
    /// The input contains a placeholder without a variable name.
    MissingVariableName(MissingVariableName),
    /// The input contains an unexpected character.
    UnexpectedCharacter(UnexpectedCharacter),
    /// The input contains a placeholder that is never closed.
    MissingClosingBrace(MissingClosingBrace),
}

/// An error that can occur while expanding a template.
#[derive(Debug, Clone, PartialEq, Eq)]
pub enum ExpandError {
    /// The template names a variable that the variable map does not hold.
    NoSuchVariable(NoSuchVariable),
}

/// An error that can occur during variable substitution.
#[derive(Debug, Clone, PartialEq, Eq)]
pub enum Error {
    /// The input contains an invalid escape sequence.
    InvalidEscapeSequence(InvalidEscapeSequence),
    /// The input contains a placeholder without a variable name.
    MissingVariableName(MissingVariableName),
    /// The input contains an unexpected character.
    UnexpectedCharacter(UnexpectedCharacter),
    /// The input contains a placeholder that is never closed.
    MissingClosingBrace(MissingClosingBrace),
    /// The input names a variable that the variable map does not hold.
    NoSuchVariable(NoSuchVariable),
}

/// The mathematical content of a [`NoSuchVariable`]: the name as a sequence of characters.
pub struct MissingVariable {
    /// The byte offset of the first byte of the name within the input.
    pub position: usize,
    /// The name of the variable.
    pub name: Seq<char>,
}

/// The mathematical content of an [`Error`].
pub enum Failure {
    /// A failure to parse the template.
    Parse(ParseError),
    /// A failure to find a variable.
    Missing(MissingVariable),
}

impl View for NoSuchVariable {
    type V = MissingVariable;

    open spec fn view(&self) -> MissingVariable {
        MissingVariable { position: self.position, name: self.name@ }
    }
}

impl View for ExpandError {
    type V = MissingVariable;

    open spec fn view(&self) -> MissingVariable {
        match self {
            ExpandError::NoSuchVariable(e) => e@,
        }
    }
}

impl View for Error {
    type V = Failure;

    open spec fn view(&self) -> Failure {
        match self {
            Error::InvalidEscapeSequence(e) => Failure::Parse(ParseError::InvalidEscapeSequence(*e)),
            Error::MissingVariableName(e) => Failure::Parse(ParseError::MissingVariableName(*e)),
            Error::UnexpectedCharacter(e) => Failure::Parse(ParseError::UnexpectedCharacter(*e)),
            Error::MissingClosingBrace(e) => Failure::Parse(ParseError::MissingClosingBrace(*e)),
            Error::NoSuchVariable(e) => Failure::Missing(e@),
        }
    }
}

/// The text of [`ExpectedCharacter::message`] after a variable name in braces.
pub open spec fn expected_after_name() -> &'static str {
    "a closing brace ('}') or colon (':')"
}

impl CharOrByte {
    /// The number of bytes that the character or byte takes in the source.
    pub open spec fn spec_source_len(&self) -> int {
        match self {
            CharOrByte::Char(c) => {
                if (*c as u32) < 0x80 {
                    1
                } else if (*c as u32) < 0x800 {
                    2
                } else if (*c as u32) < 0x10000 {
                    3
                } else {
                    4
                }
            },
            CharOrByte::Byte(_) => 1,
        }
    }

    /// Get the byte length of the character in the source.
    ///
    /// For [`Self::Char`], this is the length of the character in UTF-8.
    /// For [`Self::Byte`], this is always 1.
    pub fn source_len(&self) -> (len: usize)
        ensures
            len == self.spec_source_len(),
            1 <= len <= 4,
    {
        match self {
            CharOrByte::Char(c) => {
                let code: u32 = *c as u32;
                if code < 0x80 {
                    1
                } else if code < 0x800 {
                    2
                } else if code < 0x10000 {
                    3
                } else {
                    4
                }
            },
            CharOrByte::Byte(_) => 1,
        }
    }
}

impl ExpectedCharacter {
    /// Get a human readable message to describe what was expected.
    pub fn message(&self) -> (message: &str)
        ensures
            message == self.message,
    {
        self.message
    }
}

impl ParseError {
    /// The byte offset at which the error starts.
    pub open spec fn spec_start(&self) -> int {
        match self {
            ParseError::InvalidEscapeSequence(e) => e.position as int,
            ParseError::MissingVariableName(e) => e.position as int,
            ParseError::UnexpectedCharacter(e) => e.position as int,
            ParseError::MissingClosingBrace(e) => e.position as int,
        }
    }

    /// The number of bytes of the source that the error spans.
    pub open spec fn spec_len(&self) -> int {
        match self {
            ParseError::InvalidEscapeSequence(e) => match e.character {
                Some(c) => 1 + c.spec_source_len(),
                None => 1,
            },
            ParseError::MissingVariableName(e) => e.len as int,
            ParseError::UnexpectedCharacter(e) => e.character.spec_source_len(),
            ParseError::MissingClosingBrace(e) => 1,
        }
    }

    /// The byte offset just after the error.
    pub open spec fn spec_end(&self) -> int {
        self.spec_start() + self.spec_len()
    }
}

impl Failure {
    /// The byte offset at which the error starts.
    pub open spec fn spec_start(&self) -> int {
        match self {
            Failure::Parse(e) => e.spec_start(),
            Failure::Missing(e) => e.position as int,
        }
    }

    /// The number of bytes of the source that the error spans.
    pub open spec fn spec_len(&self) -> int {
        match self {
            Failure::Parse(e) => e.spec_len(),
            Failure::Missing(e) => vstd::utf8::encode_utf8(e.name).len() as int,
        }
    }

    /// The byte offset just after the error.
    pub open spec fn spec_end(&self) -> int {
        self.spec_start() + self.spec_len()
    }
}

impl Error {
    /// Get the number of bytes of the source that the error spans.
    pub fn span(&self) -> (len: usize)
        ensures
            len == self@.spec_len(),
    {
        match self {
            Error::InvalidEscapeSequence(e) => match &e.character {
                Some(c) => 1 + c.source_len(),
                None => 1,
            },
            Error::MissingVariableName(e) => e.len,
            Error::UnexpectedCharacter(e) => e.character.source_len(),
            Error::MissingClosingBrace(e) => 1,
            Error::NoSuchVariable(e) => e.name.as_str().as_bytes().len(),
        }
    }

    /// Get the byte offset at which the error starts.
    pub fn position(&self) -> (position: usize)
        ensures
            position == self@.spec_start(),
    {
        match self {
            Error::InvalidEscapeSequence(e) => e.position,
            Error::MissingVariableName(e) => e.position,
            Error::UnexpectedCharacter(e) => e.position,
            Error::MissingClosingBrace(e) => e.position,
            Error::NoSuchVariable(e) => e.position,
        }
    }

    /// Get the range in the source text that contains the error.
    ///
    /// The range must end within the address space, as it does for every error that
    /// this crate reports for a source.
    pub fn source_range(&self) -> (range: std::ops::Range<usize>)
        requires
            self@.spec_end() <= usize::MAX,
        ensures
            range.start == self@.spec_start(),
            range.end == self@.spec_end(),
    {
        let start = self.position();
        std::ops::Range { start, end: start + self.span() }
    }
}

impl From<InvalidEscapeSequence> for Error {
    /// Wrap the details in the error that they belong to.
    fn from(other: InvalidEscapeSequence) -> (error: Self) {
        Error::InvalidEscapeSequence(other)
    }
}

impl vstd::std_specs::convert::FromSpecImpl<InvalidEscapeSequence> for Error {
    open spec fn obeys_from_spec() -> bool {
        true
    }

    open spec fn from_spec(other: InvalidEscapeSequence) -> Self {
        Error::InvalidEscapeSequence(other)
    }
}

impl From<MissingVariableName> for Error {
    /// Wrap the details in the error that they belong to.
    fn from(other: MissingVariableName) -> (error: Self) {
        Error::MissingVariableName(other)
    }
}

impl vstd::std_specs::convert::FromSpecImpl<MissingVariableName> for Error {
    open spec fn obeys_from_spec() -> bool {
        true
    }

    open spec fn from_spec(other: MissingVariableName) -> Self {
        Error::MissingVariableName(other)
    }
}

impl From<UnexpectedCharacter> for Error {
    /// Wrap the details in the error that they belong to.
    fn from(other: UnexpectedCharacter) -> (error: Self) {
        Error::UnexpectedCharacter(other)
    }
}

impl vstd::std_specs::convert::FromSpecImpl<UnexpectedCharacter> for Error {
    open spec fn obeys_from_spec() -> bool {
        true
    }

    open spec fn from_spec(other: UnexpectedCharacter) -> Self {
        Error::UnexpectedCharacter(other)
    }
}

impl From<MissingClosingBrace> for Error {
    /// Wrap the details in the error that they belong to.
    fn from(other: MissingClosingBrace) -> (error: Self) {
        Error::MissingClosingBrace(other)
    }
}

impl vstd::std_specs::convert::FromSpecImpl<MissingClosingBrace> for Error {
    open spec fn obeys_from_spec() -> bool {
        true
    }

    open spec fn from_spec(other: MissingClosingBrace) -> Self {
        Error::MissingClosingBrace(other)
    }
}

impl From<NoSuchVariable> for Error {
    /// Wrap the details in the error that they belong to.
    fn from(other: NoSuchVariable) -> (error: Self) {
        Error::NoSuchVariable(other)
    }
}

impl vstd::std_specs::convert::FromSpecImpl<NoSuchVariable> for Error {
    open spec fn obeys_from_spec() -> bool {
        true
    }

    open spec fn from_spec(other: NoSuchVariable) -> Self {
        Error::NoSuchVariable(other)
    }
}

impl From<InvalidEscapeSequence> for ParseError {
    /// Wrap the details in the error that they belong to.
    fn from(other: InvalidEscapeSequence) -> (error: Self) {
        ParseError::InvalidEscapeSequence(other)
    }
}

impl vstd::std_specs::convert::FromSpecImpl<InvalidEscapeSequence> for ParseError {
    open spec fn obeys_from_spec() -> bool {
        true
    }

    open spec fn from_spec(other: InvalidEscapeSequence) -> Self {
        ParseError::InvalidEscapeSequence(other)
    }
}

impl From<MissingVariableName> for ParseError {
    /// Wrap the details in the error that they belong to.
    fn from(other: MissingVariableName) -> (error: Self) {
        ParseError::MissingVariableName(other)
    }
}

impl vstd::std_specs::convert::FromSpecImpl<MissingVariableName> for ParseError {
    open spec fn obeys_from_spec() -> bool {
        true
    }

    open spec fn from_spec(other: MissingVariableName) -> Self {
        ParseError::MissingVariableName(other)
    }
}

impl From<UnexpectedCharacter> for ParseError {
    /// Wrap the details in the error that they belong to.
    fn from(other: UnexpectedCharacter) -> (error: Self) {
        ParseError::UnexpectedCharacter(other)
    }
}

impl vstd::std_specs::convert::FromSpecImpl<UnexpectedCharacter> for ParseError {
    open spec fn obeys_from_spec() -> bool {
        true
    }

    open spec fn from_spec(other: UnexpectedCharacter) -> Self {
        ParseError::UnexpectedCharacter(other)
    }
}

impl From<MissingClosingBrace> for ParseError {
    /// Wrap the details in the error that they belong to.
    fn from(other: MissingClosingBrace) -> (error: Self) {
        ParseError::MissingClosingBrace(other)
    }
}

impl vstd::std_specs::convert::FromSpecImpl<MissingClosingBrace> for ParseError {
    open spec fn obeys_from_spec() -> bool {
        true
    }

    open spec fn from_spec(other: MissingClosingBrace) -> Self {
        ParseError::MissingClosingBrace(other)
    }
}

impl From<NoSuchVariable> for ExpandError {
    /// Wrap the details in the error that they belong to.
    fn from(other: NoSuchVariable) -> (error: Self) {
        ExpandError::NoSuchVariable(other)
    }
}

impl vstd::std_specs::convert::FromSpecImpl<NoSuchVariable> for ExpandError {
    open spec fn obeys_from_spec() -> bool {
        true
    }

    open spec fn from_spec(other: NoSuchVariable) -> Self {
        ExpandError::NoSuchVariable(other)
    }
}

impl From<ParseError> for Error {
    /// A failure to parse is a failure to substitute, of the same kind.
    fn from(other: ParseError) -> (error: Self) {
        match other {
            ParseError::InvalidEscapeSequence(e) => Error::InvalidEscapeSequence(e),
            ParseError::MissingVariableName(e) => Error::MissingVariableName(e),
            ParseError::UnexpectedCharacter(e) => Error::UnexpectedCharacter(e),
            ParseError::MissingClosingBrace(e) => Error::MissingClosingBrace(e),
        }
    }
}

impl vstd::std_specs::convert::FromSpecImpl<ParseError> for Error {
    open spec fn obeys_from_spec() -> bool {
        true
    }

    open spec fn from_spec(other: ParseError) -> Self {
        match other {
            ParseError::InvalidEscapeSequence(e) => Error::InvalidEscapeSequence(e),
            ParseError::MissingVariableName(e) => Error::MissingVariableName(e),
            ParseError::UnexpectedCharacter(e) => Error::UnexpectedCharacter(e),
            ParseError::MissingClosingBrace(e) => Error::MissingClosingBrace(e),
        }
    }
}

impl From<ExpandError> for Error {
    /// A failure to expand is a failure to substitute, of the same kind.
    fn from(other: ExpandError) -> (error: Self) {
        match other {
            ExpandError::NoSuchVariable(e) => Error::NoSuchVariable(e),
        }
    }
}

impl vstd::std_specs::convert::FromSpecImpl<ExpandError> for Error {
    open spec fn obeys_from_spec() -> bool {
        true
    }

    open spec fn from_spec(other: ExpandError) -> Self {
        match other {
            ExpandError::NoSuchVariable(e) => Error::NoSuchVariable(e),
        }
    }
}

} // verus!
