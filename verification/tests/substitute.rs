use std::collections::BTreeMap;
use subst::{substitute, substitute_bytes, VariableMap};

#[test]
fn lib_test_substitute() {
    let mut map: BTreeMap<String, String> = BTreeMap::new();
    map.insert("name".into(), "world".into());
    assert_eq!(substitute("Hello $name!", &map).as_deref(), Ok("Hello world!"));
    assert_eq!(substitute("Hello ${name}!", &map).as_deref(), Ok("Hello world!"));
    assert_eq!(substitute("Hello ${name:not-world}!", &map).as_deref(), Ok("Hello world!"));
    assert_eq!(substitute("Hello ${not_name:world}!", &map).as_deref(), Ok("Hello world!"));

    let mut map: BTreeMap<&str, &str> = BTreeMap::new();
    map.insert("name", "world");
    assert_eq!(substitute("Hello $name!", &map).as_deref(), Ok("Hello world!"));
    assert_eq!(substitute("Hello ${name}!", &map).as_deref(), Ok("Hello world!"));
    assert_eq!(substitute("Hello ${name:not-world}!", &map).as_deref(), Ok("Hello world!"));
    assert_eq!(substitute("Hello ${not_name:world}!", &map).as_deref(), Ok("Hello world!"));
}

#[test]
fn substitution_in_default_value() {
    let mut map = BTreeMap::new();
    map.insert("name", "world");
    assert_eq!(
        substitute("Hello ${not_name:cruel $name}!", &map).as_deref(),
        Ok("Hello cruel world!")
    );
}

#[test]
fn recursive_substitution_in_default_value() {
    let mut map: BTreeMap<&str, &str> = BTreeMap::new();
    assert_eq!(
        substitute("Hello ${a:cruel ${b:world}}!", &map).as_deref(),
        Ok("Hello cruel world!")
    );
    assert_eq!(
        substitute("Hello ${a:cruel ${b:round ${c:world}}}!", &map).as_deref(),
        Ok("Hello cruel round world!")
    );

    map.insert("c", "planet");
    assert_eq!(
        substitute("Hello ${a:cruel ${b:round ${c:world}}}!", &map).as_deref(),
        Ok("Hello cruel round planet!")
    );

    map.insert("b", "sphere");
    assert_eq!(
        substitute("Hello ${a:cruel ${b:round ${c:world}}}!", &map).as_deref(),
        Ok("Hello cruel sphere!")
    );

    map.insert("a", "spaceship");
    assert_eq!(
        substitute("Hello ${a:cruel ${b:round ${c:world}}}!", &map).as_deref(),
        Ok("Hello spaceship!")
    );
}

#[test]
fn lib_test_substitute_bytes() {
    let mut map: BTreeMap<String, Vec<u8>> = BTreeMap::new();
    map.insert("name".into(), b"world"[..].into());
    assert_eq!(substitute_bytes(b"Hello $name!", &map).as_deref(), Ok(&b"Hello world!"[..]));
    assert_eq!(substitute_bytes(b"Hello ${name}!", &map).as_deref(), Ok(&b"Hello world!"[..]));
    assert_eq!(
        substitute_bytes(b"Hello ${name:not-world}!", &map).as_deref(),
        Ok(&b"Hello world!"[..])
    );
    assert_eq!(
        substitute_bytes(b"Hello ${not_name:world}!", &map).as_deref(),
        Ok(&b"Hello world!"[..])
    );

    let mut map: BTreeMap<&str, &[u8]> = BTreeMap::new();
    map.insert("name", b"world");
    assert_eq!(substitute_bytes(b"Hello $name!", &map).as_deref(), Ok(&b"Hello world!"[..]));
    assert_eq!(substitute_bytes(b"Hello ${name}!", &map).as_deref(), Ok(&b"Hello world!"[..]));
    assert_eq!(
        substitute_bytes(b"Hello ${name:not-world}!", &map).as_deref(),
        Ok(&b"Hello world!"[..])
    );
    assert_eq!(
        substitute_bytes(b"Hello ${not_name:world}!", &map).as_deref(),
        Ok(&b"Hello world!"[..])
    );
}

#[test]
fn test_invalid_escape_sequence() {
    let map: BTreeMap<String, String> = BTreeMap::new();

    let source = r"Hello \world!";
    let e = substitute(source, &map).unwrap_err();
    assert!(e.to_string() == r"Invalid escape sequence: \w");
    assert!(e.source_highlighting(source) == format!("{}\n{}\n", r"  Hello \world!", r"        ^^"));

    let source = r"Hello \❤❤";
    let e = substitute(source, &map).unwrap_err();
    assert!(e.to_string() == r"Invalid escape sequence: \❤");
    assert!(e.source_highlighting(source) == format!("{}\n{}\n", r"  Hello \❤❤", r"        ^^"));

    let source = r"Hello world!\";
    let e = substitute(source, &map).unwrap_err();
    assert!(e.to_string() == r"Invalid escape sequence: missing escape character");
    assert!(
        e.source_highlighting(source) == format!("{}\n{}\n", r"  Hello world!\", r"              ^")
    );
}

#[test]
fn test_missing_variable_name() {
    let map: BTreeMap<String, String> = BTreeMap::new();

    let source = r"Hello $!";
    let e = substitute(source, &map).unwrap_err();
    assert!(e.to_string() == r"Missing variable name");
    assert!(e.source_highlighting(source) == format!("{}\n{}\n", r"  Hello $!", r"        ^"));

    let source = r"Hello ${}!";
    let e = substitute(source, &map).unwrap_err();
    assert!(e.to_string() == r"Missing variable name");
    assert!(e.source_highlighting(source) == format!("{}\n{}\n", r"  Hello ${}!", r"        ^^"));

    let source = r"Hello ${:fallback}!";
    let e = substitute(source, &map).unwrap_err();
    assert!(e.to_string() == r"Missing variable name");
    assert!(
        e.source_highlighting(source) == format!("{}\n{}\n", r"  Hello ${:fallback}!", r"        ^^")
    );

    let source = r"Hello 　$❤";
    let e = substitute(source, &map).unwrap_err();
    assert!(e.to_string() == r"Missing variable name");
    assert!(e.source_highlighting(source) == format!("{}\n{}\n", r"  Hello 　$❤", r"          ^"));

    let source = r"Hello 　$";
    let e = substitute(source, &map).unwrap_err();
    assert!(e.to_string() == r"Missing variable name");
    assert!(e.source_highlighting(source) == format!("{}\n{}\n", r"  Hello 　$", r"          ^"));
}

#[test]
fn test_unexpected_character() {
    let map: BTreeMap<String, String> = BTreeMap::new();

    let source = "Hello ${name)!";
    let e = substitute(source, &map).unwrap_err();
    assert!(
        e.to_string() == "Unexpected character: ')', expected a closing brace ('}') or colon (':')"
    );
    assert!(e.source_highlighting(source) == format!("{}{}", "  Hello ${name)!\n", "              ^\n"));

    let source = "Hello ${name❤";
    let e = substitute(source, &map).unwrap_err();
    assert!(
        e.to_string() == "Unexpected character: '❤', expected a closing brace ('}') or colon (':')"
    );
    assert!(e.source_highlighting(source) == format!("{}{}", "  Hello ${name❤\n", "              ^\n"));

    let source = b"\xE2\x98Hello ${name\xE2\x98";
    let e = substitute_bytes(source, &map).unwrap_err();
    assert!(
        e.to_string()
            == "Unexpected character: '\\xE2', expected a closing brace ('}') or colon (':')"
    );
}

#[test]
fn test_missing_closing_brace() {
    let map: BTreeMap<String, String> = BTreeMap::new();

    let source = "Hello ${name";
    let e = substitute(source, &map).unwrap_err();
    assert!(e.to_string() == "Missing closing brace");
    assert!(e.source_highlighting(source) == format!("{}{}", "  Hello ${name\n", "         ^\n"));

    let source = "Hello ${name:fallback";
    let e = substitute(source, &map).unwrap_err();
    assert!(e.to_string() == "Missing closing brace");
    assert!(
        e.source_highlighting(source) == format!("{}{}", "  Hello ${name:fallback\n", "         ^\n")
    );
}

#[test]
fn test_substitute_no_such_variable() {
    let map: BTreeMap<String, String> = BTreeMap::new();

    let source = "Hello ${name}!";
    let e = substitute(source, &map).unwrap_err();
    assert!(e.to_string() == "No such variable: $name");
    assert!(e.source_highlighting(source) == format!("{}{}", "  Hello ${name}!\n", "          ^^^^\n"));

    let source = "Hello $name!";
    let e = substitute(source, &map).unwrap_err();
    assert!(e.to_string() == "No such variable: $name");
    assert!(e.source_highlighting(source) == format!("{}{}", "  Hello $name!\n", "         ^^^^\n"));
}

#[test]
fn lib_test_dyn_variable_map() {
    let mut variables = BTreeMap::new();
    variables.insert(String::from("aap"), String::from("noot"));
    let variables: &dyn VariableMap<Value = &String> = &variables;

    let expanded = substitute("one ${aap}", variables).unwrap();
    assert!(expanded == "one noot");
}

#[test]
fn test_unicode_invalid_escape_sequence() {
    let mut variables = BTreeMap::new();
    variables.insert(String::from("aap"), String::from("noot"));

    let source = r"emoticon: \（ ^▽^ ）/";
    let e = substitute(source, &variables).unwrap_err();
    assert!(
        e.source_highlighting(source)
            == format!("{}\n{}\n", r"  emoticon: \（ ^▽^ ）/", r"            ^^^")
    );
}
