use std::cell::RefCell;
use std::collections::BTreeMap;
use subst::error::CharOrByte::{Byte, Char};
use subst::error::{
    InvalidEscapeSequence, MissingClosingBrace, MissingVariableName, NoSuchVariable,
};
use subst::map::from_fn;
use subst::{
    substitute, substitute_bytes, substitute_bytes_with, substitute_with, ByteTemplate,
    ByteTemplateBuf, Error, NoSubstitution, OnMissing, Template, TemplateBuf,
};

fn map_of(pairs: &[(&'static str, &'static str)]) -> BTreeMap<&'static str, &'static str> {
    pairs.iter().copied().collect()
}

#[test]
fn plain_sources_are_kept() {
    let map = map_of(&[("name", "world")]);
    for source in ["", "plain", "a{b}c:d", "multi\nline ❤ text", "}{"] {
        assert_eq!(substitute(source, &map).as_deref(), Ok(source));
        assert_eq!(substitute(source, &NoSubstitution).as_deref(), Ok(source));
        assert_eq!(substitute_bytes(source.as_bytes(), &map).as_deref(), Ok(source.as_bytes()));
    }
    assert_eq!(substitute_bytes(b"\xff\x00\xfe", &map).as_deref(), Ok(&b"\xff\x00\xfe"[..]));
}

#[test]
fn variables_in_each_form() {
    let map = map_of(&[("name", "world")]);
    assert_eq!(substitute("Hello $name!", &map).as_deref(), Ok("Hello world!"));
    assert_eq!(substitute("Hello ${name}!", &map).as_deref(), Ok("Hello world!"));
    assert_eq!(substitute("Hello ${name:fallback}!", &map).as_deref(), Ok("Hello world!"));
    assert_eq!(substitute("Hello ${missing:world}!", &map).as_deref(), Ok("Hello world!"));
    assert_eq!(substitute("$name$name", &map).as_deref(), Ok("worldworld"));
    assert_eq!(substitute("$name_", &map_of(&[("name_", "x")])).as_deref(), Ok("x"));
    assert_eq!(substitute("$0a-$9", &map_of(&[("0a", "x"), ("9", "y")])).as_deref(), Ok("x-y"));
    assert_eq!(substitute("${name:}", &NoSubstitution).as_deref(), Ok(""));
}

#[test]
fn escapes_and_trailing_backslash() {
    assert_eq!(substitute("a\\$b", &NoSubstitution).as_deref(), Ok("a$b"));
    assert_eq!(substitute(r"\\\$\{\}\:", &NoSubstitution).as_deref(), Ok(r"\${}:"));
    assert_eq!(substitute(r"${a:\}\$b}", &NoSubstitution).as_deref(), Ok("}$b"));
    assert_eq!(
        substitute("abc\\", &NoSubstitution),
        Err(Error::InvalidEscapeSequence(InvalidEscapeSequence { position: 3, character: None }))
    );
    assert_eq!(
        substitute_bytes(b"\xff\xfe\\", &NoSubstitution),
        Err(Error::InvalidEscapeSequence(InvalidEscapeSequence { position: 2, character: None }))
    );
}

#[test]
fn missing_variables_are_named() {
    assert_eq!(
        substitute("$name", &NoSubstitution),
        Err(Error::NoSuchVariable(NoSuchVariable { position: 1, name: String::from("name") }))
    );
    assert_eq!(
        substitute("${name}", &NoSubstitution),
        Err(Error::NoSuchVariable(NoSuchVariable { position: 2, name: String::from("name") }))
    );
    assert_eq!(
        substitute("ab $x_1 $y", &map_of(&[("y", "z")])),
        Err(Error::NoSuchVariable(NoSuchVariable { position: 4, name: String::from("x_1") }))
    );
    assert_eq!(
        substitute("${a:${b}}", &NoSubstitution),
        Err(Error::NoSuchVariable(NoSuchVariable { position: 6, name: String::from("b") }))
    );
}

#[test]
fn defaults_are_expanded_when_needed() {
    let source = "${a:cruel ${b:world}}";
    assert_eq!(substitute(source, &NoSubstitution).as_deref(), Ok("cruel world"));
    assert_eq!(substitute(source, &map_of(&[("b", "planet")])).as_deref(), Ok("cruel planet"));
    assert_eq!(substitute(source, &map_of(&[("a", "x")])).as_deref(), Ok("x"));

    let asked = RefCell::new(Vec::new());
    let values = map_of(&[("a", "x")]);
    let map = from_fn(|key| {
        asked.borrow_mut().push(key.to_string());
        values.get(key).copied()
    });
    assert_eq!(substitute(source, &map).as_deref(), Ok("x"));
    assert_eq!(*asked.borrow(), ["a"]);

    let asked = RefCell::new(Vec::new());
    let values = map_of(&[("b", "planet")]);
    let map = from_fn(|key| {
        asked.borrow_mut().push(key.to_string());
        values.get(key).copied()
    });
    assert_eq!(substitute(source, &map).as_deref(), Ok("cruel planet"));
    assert_eq!(*asked.borrow(), ["a", "b"]);

    // A parse error is found before any variable is looked up.
    let asked = RefCell::new(Vec::new());
    let map = from_fn(|key| {
        asked.borrow_mut().push(key.to_string());
        None::<&str>
    });
    assert!(substitute("$a ${b", &map).is_err());
    assert!(asked.borrow().is_empty());
}

#[test]
fn names_can_be_missing() {
    for source in ["${}", "${:fallback}"] {
        assert_eq!(
            substitute(source, &NoSubstitution),
            Err(Error::MissingVariableName(MissingVariableName { position: 0, len: 2 }))
        );
    }
    assert_eq!(
        substitute("$", &NoSubstitution),
        Err(Error::MissingVariableName(MissingVariableName { position: 0, len: 1 }))
    );
    assert_eq!(
        substitute("price: $", &NoSubstitution),
        Err(Error::MissingVariableName(MissingVariableName { position: 7, len: 1 }))
    );
    assert_eq!(
        substitute("$*", &NoSubstitution),
        Err(Error::MissingVariableName(MissingVariableName { position: 0, len: 1 }))
    );
}

#[test]
fn unexpected_character_is_reported() {
    match substitute("${name)", &NoSubstitution) {
        Err(Error::UnexpectedCharacter(e)) => {
            assert_eq!(e.position, 6);
            assert_eq!(e.character, Char(')'));
            assert!(e.expected.message().contains('}'));
            assert!(e.expected.message().contains(':'));
        },
        other => panic!("unexpected: {other:?}"),
    }
}

#[test]
fn unterminated_brace_is_reported() {
    assert_eq!(
        substitute("${name", &NoSubstitution),
        Err(Error::MissingClosingBrace(MissingClosingBrace { position: 1 }))
    );
    assert_eq!(
        substitute("ab ${name:${x}", &map_of(&[("name", "n"), ("x", "y")])),
        Err(Error::MissingClosingBrace(MissingClosingBrace { position: 4 }))
    );
}

#[test]
fn invalid_utf8_is_handled() {
    let map: BTreeMap<&str, &[u8]> = [("name", &b"\xf0\x90"[..])].into_iter().collect();
    assert_eq!(
        substitute_bytes(b"\xe2\x98 $name \x80${name:x}\xff", &map).as_deref(),
        Ok(&b"\xe2\x98 \xf0\x90 \x80\xf0\x90\xff"[..])
    );
    match substitute_bytes(b"\xE2\x98Hello ${name\xE2\x98", &map) {
        Err(Error::UnexpectedCharacter(e)) => {
            assert_eq!(e.position, 14);
            assert_eq!(e.character, Byte(0xE2));
        },
        other => panic!("unexpected: {other:?}"),
    }
    assert_eq!(
        substitute_bytes(b"\x80\\\x9d\xa4", &map),
        Err(Error::InvalidEscapeSequence(InvalidEscapeSequence {
            position: 1,
            character: Some(Byte(0x9d)),
        }))
    );
    assert_eq!(
        substitute_bytes(b"\x80\\\xe2\x9d\xa4", &map),
        Err(Error::InvalidEscapeSequence(InvalidEscapeSequence {
            position: 1,
            character: Some(Char('❤')),
        }))
    );
    let e = substitute_bytes(b"\x80\\\xe2\x9d\xa4", &map).unwrap_err();
    assert_eq!(e.source_range(), 1..5);
    assert_eq!(e.to_string(), "Invalid escape sequence: \\❤");
}

#[test]
fn copies_expand_alike() {
    let map = map_of(&[("name", "world")]);
    let first = TemplateBuf::from_string(String::from("Hello ${name:x} ${other:$name}!")).unwrap();
    let copy = first.clone();
    assert_eq!(first.expand(&map), copy.expand(&map));
    assert_eq!(first.expand(&NoSubstitution), copy.expand(&NoSubstitution));
    let mut buffer = first.into_source();
    buffer.clear();
    buffer.push_str("$gone");
    assert_eq!(copy.expand(&map).as_deref(), Ok("Hello world world!"));
    assert_eq!(copy.as_template().source(), "Hello ${name:x} ${other:$name}!");

    let first = ByteTemplateBuf::from_vec(b"\xff${name}".to_vec()).unwrap();
    let copy = first.clone();
    assert_eq!(first.expand(&map), copy.expand(&map));
    drop(first);
    assert_eq!(copy.expand(&map).as_deref(), Ok(&b"\xffworld"[..]));
    assert!(ByteTemplateBuf::from_vec(b"${".to_vec()).is_err());
    assert!(TemplateBuf::from_string(String::from("${")).is_err());
}

#[test]
fn missing_variables_can_be_left_empty() {
    let map = map_of(&[("name", "world")]);
    assert_eq!(
        substitute_with("Hello $name$other ${third}!", &map, OnMissing::Empty).as_deref(),
        Ok("Hello world !")
    );
    assert_eq!(
        substitute_with("${a:${b}} ${c:d}", &NoSubstitution, OnMissing::Empty).as_deref(),
        Ok(" d")
    );
    assert_eq!(
        substitute_bytes_with(b"\xff$a\xfe", &NoSubstitution, OnMissing::Empty).as_deref(),
        Ok(&b"\xff\xfe"[..])
    );
    // It is not the default, and it does not hide errors in the source.
    assert!(substitute("$other", &map).is_err());
    assert!(substitute_with("$other", &map, OnMissing::Fail).is_err());
    assert_eq!(
        substitute_with("${", &map, OnMissing::Empty),
        Err(Error::MissingVariableName(MissingVariableName { position: 0, len: 2 }))
    );
    // Where nothing is missing, it makes no difference.
    for source in ["", "plain", "$name", "${name:x} ${y:z}", "\\$name"] {
        assert_eq!(substitute_with(source, &map, OnMissing::Empty), substitute(source, &map));
    }

    let template = Template::from_str("<$a>").unwrap();
    assert_eq!(template.expand_with(&map, OnMissing::Empty).as_deref(), Ok("<>"));
    assert!(template.expand_with(&map, OnMissing::Fail).is_err());
    let template = TemplateBuf::from_string(String::from("<$a>")).unwrap();
    assert_eq!(template.expand_with(&map, OnMissing::Empty).as_deref(), Ok("<>"));
    let template = ByteTemplate::from_slice(b"<$a>").unwrap();
    assert_eq!(template.expand_with(&map, OnMissing::Empty).as_deref(), Ok(&b"<>"[..]));
    let template = ByteTemplateBuf::from_vec(b"<$a>".to_vec()).unwrap();
    assert_eq!(template.expand_with(&map, OnMissing::Empty).as_deref(), Ok(&b"<>"[..]));
    assert!(template.expand(&map).is_err());
}
