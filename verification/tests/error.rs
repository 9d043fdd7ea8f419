use subst::error::CharOrByte::{Byte, Char};
use subst::error::{
    ExpandError, ExpectedCharacter, InvalidEscapeSequence, MissingClosingBrace, MissingVariableName,
    NoSuchVariable, ParseError, UnexpectedCharacter,
};
use subst::highlight::{line_end, line_start, render_highlighting, slice_text};
use subst::{substitute, Error, NoSubstitution};

#[test]
fn test_char_or_byte_quoated_printable() {
    assert!(Byte(0x81).quoted_printable().to_string() == r"'\x81'");
    assert!(Byte(0x79).quoted_printable().to_string() == r"'y'");
    assert!(Char('\x79').quoted_printable().to_string() == r"'y'");

    assert!(Byte(0).quoted_printable().to_string() == r"'\0'");
    assert!(Char('\0').quoted_printable().to_string() == r"'\0'");
}

#[test]
fn char_or_byte_as_text() {
    assert_eq!(Char('w').to_string(), "w");
    assert_eq!(Char('❤').to_string(), "❤");
    assert_eq!(Byte(b'w').to_string(), "w");
    assert_eq!(Byte(0x80).to_string(), "0x80");
    assert_eq!(Byte(0xAF).to_string(), "0xAF");
    assert_eq!(Byte(0xff).to_string(), "0xFF");
    assert_eq!(Byte(0xff).quoted_printable(), r"'\xFF'");
    assert_eq!(Byte(0x9d).quoted_printable(), r"'\x9D'");
    assert_eq!(Char('\n').quoted_printable(), r"'\n'");
    assert_eq!(Char('\'').quoted_printable(), r"'\''");
}

#[test]
fn source_len_is_encoded_len() {
    assert_eq!(Char('a').source_len(), 1);
    assert_eq!(Char('\x7f').source_len(), 1);
    assert_eq!(Char('\u{80}').source_len(), 2);
    assert_eq!(Char('\u{7ff}').source_len(), 2);
    assert_eq!(Char('\u{800}').source_len(), 3);
    assert_eq!(Char('❤').source_len(), 3);
    assert_eq!(Char('\u{ffff}').source_len(), 3);
    assert_eq!(Char('\u{10000}').source_len(), 4);
    assert_eq!(Char('\u{10ffff}').source_len(), 4);
    assert_eq!(Byte(0xff).source_len(), 1);
    for c in ['a', 'é', '❤', '𝄞'] {
        assert_eq!(Char(c).source_len(), c.len_utf8());
    }
}

#[test]
fn source_range_of_each_kind() {
    let e = Error::InvalidEscapeSequence(InvalidEscapeSequence { position: 7, character: None });
    assert_eq!(e.source_range(), 7..8);
    let e = Error::InvalidEscapeSequence(InvalidEscapeSequence {
        position: 7,
        character: Some(Char('❤')),
    });
    assert_eq!(e.source_range(), 7..11);
    let e = Error::InvalidEscapeSequence(InvalidEscapeSequence {
        position: 7,
        character: Some(Byte(0xE2)),
    });
    assert_eq!(e.source_range(), 7..9);
    let e = Error::MissingVariableName(MissingVariableName { position: 3, len: 2 });
    assert_eq!(e.source_range(), 3..5);
    let e = Error::MissingVariableName(MissingVariableName { position: 3, len: 1 });
    assert_eq!(e.source_range(), 3..4);
    let e = Error::UnexpectedCharacter(UnexpectedCharacter {
        position: 5,
        character: Char('é'),
        expected: ExpectedCharacter { message: "something else" },
    });
    assert_eq!(e.source_range(), 5..7);
    let e = Error::MissingClosingBrace(MissingClosingBrace { position: 9 });
    assert_eq!(e.source_range(), 9..10);
    let e = Error::NoSuchVariable(NoSuchVariable { position: 2, name: String::from("name") });
    assert_eq!(e.source_range(), 2..6);
    assert_eq!(e.position(), 2);
}

#[test]
fn messages_of_each_kind() {
    let e = InvalidEscapeSequence { position: 0, character: Some(Byte(0xE2)) };
    assert_eq!(e.to_string(), r"Invalid escape sequence: \0xE2");
    let e = InvalidEscapeSequence { position: 0, character: None };
    assert_eq!(e.to_string(), "Invalid escape sequence: missing escape character");
    let e = MissingVariableName { position: 0, len: 1 };
    assert_eq!(e.to_string(), "Missing variable name");
    let e = MissingClosingBrace { position: 0 };
    assert_eq!(e.to_string(), "Missing closing brace");
    let e = NoSuchVariable { position: 0, name: String::from("x_1") };
    assert_eq!(e.to_string(), "No such variable: $x_1");
    assert_eq!(ExpandError::NoSuchVariable(e.clone()).to_string(), "No such variable: $x_1");
    assert_eq!(Error::from(e).to_string(), "No such variable: $x_1");
    let e = UnexpectedCharacter {
        position: 0,
        character: Char('\t'),
        expected: ExpectedCharacter { message: "better" },
    };
    assert_eq!(e.expected.message(), "better");
    assert_eq!(e.to_string(), r"Unexpected character: '\t', expected better");
    assert_eq!(
        ParseError::from(e.clone()).to_string(),
        r"Unexpected character: '\t', expected better"
    );
    assert_eq!(
        Error::from(ParseError::from(e)).to_string(),
        r"Unexpected character: '\t', expected better"
    );
}

#[test]
fn errors_convert_by_kind() {
    let missing = MissingVariableName { position: 1, len: 2 };
    assert_eq!(Error::from(missing.clone()), Error::MissingVariableName(missing.clone()));
    assert_eq!(
        Error::from(ParseError::MissingVariableName(missing.clone())),
        Error::MissingVariableName(missing)
    );
    let brace = MissingClosingBrace { position: 1 };
    assert_eq!(ParseError::from(brace.clone()), ParseError::MissingClosingBrace(brace.clone()));
    assert_eq!(Error::from(brace.clone()), Error::MissingClosingBrace(brace));
    let escape = InvalidEscapeSequence { position: 1, character: None };
    assert_eq!(ParseError::from(escape.clone()), ParseError::InvalidEscapeSequence(escape.clone()));
    assert_eq!(Error::from(escape.clone()), Error::InvalidEscapeSequence(escape));
    let name = NoSuchVariable { position: 1, name: String::from("n") };
    assert_eq!(ExpandError::from(name.clone()), ExpandError::NoSuchVariable(name.clone()));
    assert_eq!(
        Error::from(ExpandError::NoSuchVariable(name.clone())),
        Error::NoSuchVariable(name)
    );
}

#[test]
fn lines_are_found() {
    let source = "one\ntwo $\r\nthree";
    assert_eq!(line_start(source, 0), 0);
    assert_eq!(line_start(source, 3), 0);
    assert_eq!(line_start(source, 4), 4);
    assert_eq!(line_start(source, 8), 4);
    assert_eq!(line_start(source, 10), 10);
    assert_eq!(line_start(source, 11), 11);
    assert_eq!(line_start(source, 16), 11);
    assert_eq!(line_end(source, 0), 3);
    assert_eq!(line_end(source, 3), 3);
    assert_eq!(line_end(source, 4), 9);
    assert_eq!(line_end(source, 9), 9);
    assert_eq!(line_end(source, 10), 10);
    assert_eq!(line_end(source, 11), 16);
    assert_eq!(line_end(source, 16), 16);
    assert_eq!(slice_text(source, 4, 9), "two $");
    assert_eq!(slice_text("a❤b", 1, 4), "❤");
    assert_eq!(slice_text("a❤b", 4, 4), "");
}

#[test]
fn highlighting_on_later_line() {
    let source = "first line\nsecond ${}\nthird";
    let e = substitute(source, &NoSubstitution).unwrap_err();
    assert_eq!(e, Error::MissingVariableName(MissingVariableName { position: 18, len: 2 }));
    assert_eq!(e.source_line(source), "second ${}");
    assert_eq!(e.source_highlighting(source), "  second ${}\n         ^^\n");
}

#[test]
fn highlighting_stops_at_line_end() {
    let source = "ab \\\ncd";
    let e = substitute(source, &NoSubstitution).unwrap_err();
    assert_eq!(
        e,
        Error::InvalidEscapeSequence(InvalidEscapeSequence {
            position: 3,
            character: Some(Char('\n')),
        })
    );
    assert_eq!(e.source_range(), 3..5);
    assert_eq!(e.source_line(source), "ab \\");
    assert_eq!(e.source_highlighting(source), "  ab \\\n     ^\n");
}

#[test]
fn wide_lines_are_not_shown() {
    let mut source = "x".repeat(59);
    source.push('$');
    let e = substitute(&source, &NoSubstitution).unwrap_err();
    assert_eq!(e.source_highlighting(&source), format!("  {}\n  {}^\n", source, " ".repeat(59)));

    let mut source = "x".repeat(60);
    source.push('$');
    let e = substitute(&source, &NoSubstitution).unwrap_err();
    assert_eq!(e.source_highlighting(&source), "");

    // Thirty characters of two columns each and the dollar make 61 columns.
    let mut source = "　".repeat(30);
    source.push('$');
    let e = substitute(&source, &NoSubstitution).unwrap_err();
    assert_eq!(e.source_highlighting(&source), "");
}

#[test]
fn rendering_lays_out_widths() {
    assert_eq!(render_highlighting("line", 4, 1, 2), "  line\n   ^^\n");
    assert_eq!(render_highlighting("line", 60, 0, 0), "  line\n  \n");
    assert_eq!(render_highlighting("line", 61, 1, 2), "");
    assert_eq!(render_highlighting("", 0, 0, 1), "  \n  ^\n");
}
