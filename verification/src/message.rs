//! The messages of the errors, as text.
use vstd::prelude::*;
use vstd::string::StringExecFns;
use crate::error::{
    CharOrByte, Error, ExpandError, InvalidEscapeSequence, MissingClosingBrace, MissingVariable,
    MissingVariableName, NoSuchVariable, ParseError, UnexpectedCharacter,
};

verus! {

/// What `{:?}` prints for a character: the character between single quotes, with an
/// escape sequence in its place where std's `char::escape_debug` calls for one.
pub uninterp spec fn quoted_char(c: char) -> Seq<char>;

/// Formats a character with `{:?}`, which calls `<char as Debug>::fmt` of std.
///
/// Trusted: the result is a function of the character alone, which this crate names
/// [`quoted_char`].
#[verifier::external_body]
fn quote_char(c: char) -> (text: String)
    ensures
        text@ == quoted_char(c),
{
    format!("{:?}", c)
}

/// Specifies `String::push` of std: the character is added at the end of the string.
pub assume_specification[ String::push ](text: &mut String, c: char)
    ensures
        final(text)@ == old(text)@.push(c),
;

/// The upper case hexadecimal digit for a number below 16.
pub open spec fn hex_digit(digit: u8) -> char {
    if digit < 10 {
        (0x30 + digit) as u8 as char
    } else {
        (0x41 + digit - 10) as u8 as char
    }
}

/// The two upper case hexadecimal digits of a byte.
pub open spec fn hex_byte(byte: u8) -> Seq<char> {
    seq![hex_digit(byte / 16), hex_digit(byte % 16)]
}

/// Give the upper case hexadecimal digit for a number below 16.
fn to_hex_digit(digit: u8) -> (c: char)
    requires
        digit < 16,
    ensures
        c == hex_digit(digit),
{
    if digit < 10 {
        (0x30 + digit) as char
    } else {
        (0x41 + digit - 10) as char
    }
}

/// Add the two upper case hexadecimal digits of a byte to a text.
fn push_hex_byte(text: &mut String, byte: u8)
    ensures
        final(text)@ == old(text)@ + hex_byte(byte),
{
    text.push(to_hex_digit(byte / 16));
    text.push(to_hex_digit(byte % 16));
}

/// Put together the message for an unexpected character, given how the character is
/// shown and what was expected in its place.
pub fn unexpected_character_message(shown: &str, expected: &str) -> (text: String)
    ensures
        text@ == "Unexpected character: "@ + shown@ + ", expected "@ + expected@,
{
    let mut text = String::from_str("Unexpected character: ");
    text.append(shown);
    text.append(", expected ");
    text.append(expected);
    text
}

impl CharOrByte {
    /// The text that stands for the character or byte in a message: the character
    /// itself, or `0x` and two hexadecimal digits for a byte that is no ASCII character.
    pub open spec fn plain_text(&self) -> Seq<char> {
        match self {
            CharOrByte::Char(c) => seq![*c],
            CharOrByte::Byte(byte) => if *byte < 0x80 {
                seq![*byte as char]
            } else {
                "0x"@ + hex_byte(*byte)
            },
        }
    }

    /// The text that stands for the character or byte between quotes: as `{:?}` prints
    /// the character, or `'\x` with two hexadecimal digits and `'` for a byte that is no
    /// ASCII character.
    pub open spec fn quoted_text(&self) -> Seq<char> {
        match self {
            CharOrByte::Char(c) => quoted_char(*c),
            CharOrByte::Byte(byte) => if *byte < 0x80 {
                quoted_char(*byte as char)
            } else {
                "'\\x"@ + hex_byte(*byte) + "'"@
            },
        }
    }

    /// Get the character or byte as text for a message.
    pub fn to_string(&self) -> (text: String)
        ensures
            text@ == self.plain_text(),
    {
        match self {
            CharOrByte::Char(c) => {
                let mut text = String::new();
                text.push(*c);
                text
            },
            CharOrByte::Byte(byte) => {
                if *byte < 0x80 {
                    let mut text = String::new();
                    text.push(*byte as char);
                    text
                } else {
                    let mut text = String::from_str("0x");
                    push_hex_byte(&mut text, *byte);
                    text
                }
            },
        }
    }

    /// Return a printable version of `self` for error messages, between quotes.
    pub fn quoted_printable(&self) -> (text: String)
        ensures
            text@ == self.quoted_text(),
    {
        match self {
            CharOrByte::Char(c) => quote_char(*c),
            CharOrByte::Byte(byte) => {
                if *byte < 0x80 {
                    quote_char(*byte as char)
                } else {
                    let mut text = String::from_str("'\\x");
                    push_hex_byte(&mut text, *byte);
                    text.append("'");
                    text
                }
            },
        }
    }
}

impl InvalidEscapeSequence {
    /// The message of the error.
    pub open spec fn message_text(&self) -> Seq<char> {
        match self.character {
            Some(c) => "Invalid escape sequence: \\"@ + c.plain_text(),
            None => "Invalid escape sequence: missing escape character"@,
        }
    }

    /// Get the message of the error.
    pub fn to_string(&self) -> (text: String)
        ensures
            text@ == self.message_text(),
    {
        match &self.character {
            Some(c) => {
                let mut text = String::from_str("Invalid escape sequence: \\");
                let shown = c.to_string();
                text.append(shown.as_str());
                text
            },
            None => String::from_str("Invalid escape sequence: missing escape character"),
        }
    }
}

impl MissingVariableName {
    /// The message of the error.
    pub open spec fn message_text(&self) -> Seq<char> {
        "Missing variable name"@
    }

    /// Get the message of the error.
    pub fn to_string(&self) -> (text: String)
        ensures
            text@ == self.message_text(),
    {
        String::from_str("Missing variable name")
    }
}

impl UnexpectedCharacter {
    /// The message of the error.
    pub open spec fn message_text(&self) -> Seq<char> {
        "Unexpected character: "@ + self.character.quoted_text() + ", expected "@
            + self.expected.message@
    }

    /// Get the message of the error.
    pub fn to_string(&self) -> (text: String)
        ensures
            text@ == self.message_text(),
    {
        let shown = self.character.quoted_printable();
        unexpected_character_message(shown.as_str(), self.expected.message())
    }
}

impl MissingClosingBrace {
    /// The message of the error.
    pub open spec fn message_text(&self) -> Seq<char> {
        "Missing closing brace"@
    }

    /// Get the message of the error.
    pub fn to_string(&self) -> (text: String)
        ensures
            text@ == self.message_text(),
    {
        String::from_str("Missing closing brace")
    }
}

impl MissingVariable {
    /// The message of the error.
    pub open spec fn message_text(&self) -> Seq<char> {
        "No such variable: $"@ + self.name
    }
}

impl NoSuchVariable {
    /// Get the message of the error.
    pub fn to_string(&self) -> (text: String)
        ensures
            text@ == self@.message_text(),
    {
        let mut text = String::from_str("No such variable: $");
        text.append(self.name.as_str());
        text
    }
}

impl ParseError {
    /// The message of the error.
    pub open spec fn message_text(&self) -> Seq<char> {
        match self {
            ParseError::InvalidEscapeSequence(e) => e.message_text(),
            ParseError::MissingVariableName(e) => e.message_text(),
            ParseError::UnexpectedCharacter(e) => e.message_text(),
            ParseError::MissingClosingBrace(e) => e.message_text(),
        }
    }

    /// Get the message of the error.
    pub fn to_string(&self) -> (text: String)
        ensures
            text@ == self.message_text(),
    {
        match self {
            ParseError::InvalidEscapeSequence(e) => e.to_string(),
            ParseError::MissingVariableName(e) => e.to_string(),
            ParseError::UnexpectedCharacter(e) => e.to_string(),
            ParseError::MissingClosingBrace(e) => e.to_string(),
        }
    }
}

impl ExpandError {
    /// Get the message of the error.
    pub fn to_string(&self) -> (text: String)
        ensures
            text@ == self@.message_text(),
    {
        match self {
            ExpandError::NoSuchVariable(e) => e.to_string(),
        }
    }
}

impl crate::error::Failure {
    /// The message of the error.
    pub open spec fn message_text(&self) -> Seq<char> {
        match self {
            crate::error::Failure::Parse(e) => e.message_text(),
            crate::error::Failure::Missing(e) => e.message_text(),
        }
    }
}

impl Error {
    /// Get the message of the error.
    pub fn to_string(&self) -> (text: String)
        ensures
            text@ == self@.message_text(),
    {
        match self {
            Error::InvalidEscapeSequence(e) => e.to_string(),
            Error::MissingVariableName(e) => e.to_string(),
            Error::UnexpectedCharacter(e) => e.to_string(),
            Error::MissingClosingBrace(e) => e.to_string(),
            Error::NoSuchVariable(e) => e.to_string(),
        }
    }
}

} // verus!
