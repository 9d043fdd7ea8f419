use subst::error::CharOrByte::{Byte, Char};
use subst::error::{
    InvalidEscapeSequence, MissingClosingBrace, MissingVariableName, ParseError, UnexpectedCharacter,
};
use subst::scan::{find_closing_brace, find_literal_end, find_name_end};
use subst::template::raw::parse::unescape_one;
use subst::template::raw::{Part, Template, Variable};
use subst::text::{get_maybe_char_at, valid_utf8_prefix};

#[test]
fn test_get_maybe_char_at() {
    assert!(get_maybe_char_at(b"hello", 0) == Char('h'));
    assert!(get_maybe_char_at(b"he", 0) == Char('h'));
    assert!(get_maybe_char_at(b"hello", 1) == Char('e'));
    assert!(get_maybe_char_at(b"he", 1) == Char('e'));
    assert!(get_maybe_char_at(b"hello\x80", 1) == Char('e'));
    assert!(get_maybe_char_at(b"he\x80llo\x80", 1) == Char('e'));

    assert!(get_maybe_char_at(b"h\x79", 1) == Char('\x79'));
    assert!(get_maybe_char_at(b"h\x80llo", 1) == Byte(0x80));

    // The UTF-8 sequence for '❤' is [0xE2, 0x9D, 0xA4]".
    assert!(get_maybe_char_at("h❤ll❤".as_bytes(), 0) == Char('h'));
    assert!(get_maybe_char_at("h❤ll❤".as_bytes(), 1) == Char('❤'));
    assert!(get_maybe_char_at("h❤ll❤".as_bytes(), 2) == Byte(0x9d));
    assert!(get_maybe_char_at("h❤ll❤".as_bytes(), 3) == Byte(0xA4));
    assert!(get_maybe_char_at("h❤ll❤".as_bytes(), 4) == Char('l'));
    assert!(get_maybe_char_at("h❤ll❤".as_bytes(), 5) == Char('l'));
    assert!(get_maybe_char_at("h❤ll❤".as_bytes(), 6) == Char('❤'));
    assert!(get_maybe_char_at("h❤ll❤".as_bytes(), 7) == Byte(0x9d));
    assert!(get_maybe_char_at("h❤ll❤".as_bytes(), 8) == Byte(0xA4));
}

#[test]
fn test_find_closing_brace() {
    assert!(find_closing_brace(b"${foo}") == Some(5));
    assert!(find_closing_brace(b"{\\{}foo") == Some(3));
    assert!(find_closing_brace(b"{{}}foo $bar") == Some(3));
    assert!(find_closing_brace(b"foo{\\}}bar") == Some(6));
}

#[test]
fn closing_brace_is_missing() {
    assert_eq!(find_closing_brace(b""), None);
    assert_eq!(find_closing_brace(b"{"), None);
    assert_eq!(find_closing_brace(b"{{}"), None);
    assert_eq!(find_closing_brace(b"{\\}"), None);
    assert_eq!(find_closing_brace(b"{\\"), None);
    assert_eq!(find_closing_brace(b"no braces"), None);
}

#[test]
fn valid_prefix_is_longest() {
    assert_eq!(valid_utf8_prefix(b"abc"), "abc");
    assert_eq!(valid_utf8_prefix(b"ab\x80c"), "ab");
    assert_eq!(valid_utf8_prefix(b"\x80abc"), "");
    assert_eq!(valid_utf8_prefix(b"a\xE2\x9D"), "a");
    assert_eq!(valid_utf8_prefix("a❤".as_bytes()), "a❤");
    assert_eq!(valid_utf8_prefix(b""), "");
}

#[test]
fn literal_ends_at_special_byte() {
    assert_eq!(find_literal_end(b"abc$def", 0, 7), 3);
    assert_eq!(find_literal_end(b"abc\\def", 0, 7), 3);
    assert_eq!(find_literal_end(b"abc$def", 4, 7), 7);
    assert_eq!(find_literal_end(b"abc$def", 3, 7), 3);
    assert_eq!(find_literal_end(b"abc$def$", 4, 6), 6);
}

#[test]
fn name_ends_at_other_byte() {
    assert_eq!(find_name_end(b"$a_Z09-x", 1, 8), 6);
    assert_eq!(find_name_end(b"$abc", 1, 4), 4);
    assert_eq!(find_name_end(b"$abc", 1, 3), 3);
    assert_eq!(find_name_end(b"$-", 1, 2), 1);
    assert_eq!(find_name_end(b"$*", 1, 2), 1);
}

#[test]
fn escapes_are_the_five() {
    assert_eq!(unescape_one(b"\\\\", 0, 2), Ok(b'\\'));
    assert_eq!(unescape_one(b"\\$", 0, 2), Ok(b'$'));
    assert_eq!(unescape_one(b"\\{", 0, 2), Ok(b'{'));
    assert_eq!(unescape_one(b"\\}", 0, 2), Ok(b'}'));
    assert_eq!(unescape_one(b"\\:", 0, 2), Ok(b':'));
    assert_eq!(
        unescape_one(b"a\\n", 1, 3),
        Err(ParseError::InvalidEscapeSequence(InvalidEscapeSequence {
            position: 1,
            character: Some(Char('n')),
        }))
    );
    assert_eq!(
        unescape_one(b"a\\", 1, 2),
        Err(ParseError::InvalidEscapeSequence(InvalidEscapeSequence { position: 1, character: None }))
    );
    assert_eq!(
        unescape_one(b"\\\xff", 0, 2),
        Err(ParseError::InvalidEscapeSequence(InvalidEscapeSequence {
            position: 0,
            character: Some(Byte(0xff)),
        }))
    );
}

fn parts_of(source: &[u8]) -> Vec<Part> {
    Template::parse(source, 0).unwrap().parts
}

#[test]
fn parts_keep_offsets() {
    let parts = parts_of(b"ab\\$cd${e_1:f$g}h$i");
    assert_eq!(parts.len(), 6);
    match &parts[0] {
        Part::Literal(literal) => assert_eq!(literal.range, 0..2),
        _ => panic!("a literal comes first"),
    }
    match &parts[1] {
        Part::EscapedByte(escaped) => assert_eq!(escaped.value, b'$'),
        _ => panic!("an escaped byte comes second"),
    }
    match &parts[2] {
        Part::Literal(literal) => assert_eq!(literal.range, 4..6),
        _ => panic!("a literal comes third"),
    }
    match &parts[3] {
        Part::Variable(variable) => {
            assert_eq!(variable.name, 8..11);
            let default = variable.default.as_ref().unwrap();
            assert_eq!(default.parts.len(), 2);
            match &default.parts[0] {
                Part::Literal(literal) => assert_eq!(literal.range, 12..13),
                _ => panic!("the default starts with a literal"),
            }
            match &default.parts[1] {
                Part::Variable(inner) => {
                    assert_eq!(inner.name, 14..15);
                    assert!(inner.default.is_none());
                },
                _ => panic!("the default ends with a variable"),
            }
        },
        _ => panic!("a variable comes fourth"),
    }
    match &parts[4] {
        Part::Literal(literal) => assert_eq!(literal.range, 16..17),
        _ => panic!("a literal comes fifth"),
    }
    match &parts[5] {
        Part::Variable(variable) => {
            assert_eq!(variable.name, 18..19);
            assert!(variable.default.is_none());
        },
        _ => panic!("a variable comes last"),
    }
}

#[test]
fn parse_starts_at_offset() {
    let parts = Template::parse(b"$$$ab", 3).unwrap().parts;
    assert_eq!(parts.len(), 1);
    match &parts[0] {
        Part::Literal(literal) => assert_eq!(literal.range, 3..5),
        _ => panic!("a literal"),
    }
    assert!(Template::parse(b"abc", 3).unwrap().parts.is_empty());
    assert!(Template::parse(b"abc", 7).unwrap().parts.is_empty());
    assert!(Template::parse(b"", 0).unwrap().parts.is_empty());
}

fn parse_error(source: &[u8]) -> ParseError {
    match Template::parse(source, 0) {
        Ok(_) => panic!("the source parses"),
        Err(error) => error,
    }
}

#[test]
fn parse_errors_are_located() {
    assert_eq!(
        parse_error(b"ab $"),
        ParseError::MissingVariableName(MissingVariableName { position: 3, len: 1 })
    );
    assert_eq!(
        parse_error(b"ab $-"),
        ParseError::MissingVariableName(MissingVariableName { position: 3, len: 1 })
    );
    assert_eq!(
        parse_error(b"ab ${"),
        ParseError::MissingVariableName(MissingVariableName { position: 3, len: 2 })
    );
    assert_eq!(
        parse_error(b"ab ${}"),
        ParseError::MissingVariableName(MissingVariableName { position: 3, len: 2 })
    );
    assert_eq!(
        parse_error(b"ab ${:x}"),
        ParseError::MissingVariableName(MissingVariableName { position: 3, len: 2 })
    );
    assert_eq!(
        parse_error(b"ab ${x"),
        ParseError::MissingClosingBrace(MissingClosingBrace { position: 4 })
    );
    assert_eq!(
        parse_error(b"ab ${x:${y}"),
        ParseError::MissingClosingBrace(MissingClosingBrace { position: 4 })
    );
    assert_eq!(
        parse_error(b"ab ${x:\\}"),
        ParseError::MissingClosingBrace(MissingClosingBrace { position: 4 })
    );
    match parse_error(b"ab ${x y}") {
        ParseError::UnexpectedCharacter(UnexpectedCharacter { position, character, expected }) => {
            assert_eq!(position, 6);
            assert_eq!(character, Char(' '));
            assert_eq!(expected.message(), "a closing brace ('}') or colon (':')");
        },
        other => panic!("unexpected: {other:?}"),
    }
    assert_eq!(
        parse_error(b"${a:${b:\\x}}"),
        ParseError::InvalidEscapeSequence(InvalidEscapeSequence {
            position: 8,
            character: Some(Char('x')),
        })
    );
    assert_eq!(
        parse_error(b"${a:${b:$}}"),
        ParseError::MissingVariableName(MissingVariableName { position: 8, len: 1 })
    );
}

#[test]
fn variable_ends_behind_itself() {
    let (variable, end) = Variable::parse(b"x$ab-", 1, 5).unwrap();
    assert_eq!(variable.name, 2..4);
    assert!(variable.default.is_none());
    assert_eq!(end, 4);

    let (variable, end) = Variable::parse(b"x${ab}-", 1, 7).unwrap();
    assert_eq!(variable.name, 3..5);
    assert!(variable.default.is_none());
    assert_eq!(end, 6);

    let (variable, end) = Variable::parse_braced(b"x${ab:{\\}}}-", 1, 12).unwrap();
    assert_eq!(variable.name, 3..5);
    assert_eq!(variable.default.unwrap().parts.len(), 3);
    assert_eq!(end, 11);
}
