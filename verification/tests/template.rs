use std::collections::BTreeMap;
use subst::template::expansion_capacity;
use subst::{ByteTemplate, ByteTemplateBuf, Template, TemplateBuf};

#[test]
fn test_clone_template_buf() {
    let mut map: BTreeMap<String, String> = BTreeMap::new();
    map.insert("name".into(), "world".into());
    let source = "Hello ${name}!";
    let buf1 = TemplateBuf::from_string(source.into()).unwrap();
    let buf2 = buf1.clone();
    let mut string = buf1.into_source();
    string.as_mut_str()[..5].make_ascii_uppercase();
    assert_eq!(buf2.expand(&map).as_deref(), Ok("Hello world!"));
    assert!(buf2.as_template().source() == source);
    assert!(buf2.into_source() == source);
}

#[test]
fn test_clone_byte_template_buf() {
    let mut map: BTreeMap<String, String> = BTreeMap::new();
    map.insert("name".into(), "world".into());
    let source = b"Hello ${name}!";
    let buf1 = ByteTemplateBuf::from_vec(source.into()).unwrap();
    let buf2 = buf1.clone();
    let mut string = buf1.into_source();
    string.as_mut_slice()[..5].make_ascii_uppercase();
    assert_eq!(buf2.expand(&map).as_deref(), Ok(&b"Hello world!"[..]));
    assert!(buf2.as_template().source() == source);
    assert!(buf2.into_source() == source);
}

fn check_template(buf: TemplateBuf) {
    let mut map: BTreeMap<String, String> = BTreeMap::new();
    map.insert("name".into(), "world".into());
    assert!(buf.as_template().source() == "Hello ${name}!");
    let expanded = buf.as_template().expand(&map).unwrap();
    assert!(expanded == "Hello world!");
}

#[test]
fn test_move_template_buf() {
    let source = "Hello ${name}!";
    let buf1 = TemplateBuf::from_string(source.into()).unwrap();
    check_template(buf1);
}

fn check_byte_template(buf: ByteTemplateBuf) {
    let mut map: BTreeMap<String, String> = BTreeMap::new();
    map.insert("name".into(), "world".into());
    assert!(buf.as_template().source() == b"Hello ${name}!");
    let expanded = buf.as_template().expand(&map).unwrap();
    assert!(expanded == b"Hello world!");
}

#[test]
fn test_move_byte_template_buf() {
    let source = b"Hello ${name}!";
    let buf1 = ByteTemplateBuf::from_vec(source.into()).unwrap();
    check_byte_template(buf1);
}

#[test]
fn template_expands_many_times() {
    let template = Template::from_str("Welcome to our hair salon, $name!").unwrap();
    for name in ["Scrappy", "Coco"] {
        let variables = [("name", name)];
        let message = template.expand(&variables).unwrap();
        assert_eq!(message, format!("Welcome to our hair salon, {name}!"));
    }
    assert_eq!(template.source(), "Welcome to our hair salon, $name!");
}

#[test]
fn byte_template_keeps_source() {
    let template = ByteTemplate::from_slice(b"\xff $x \xfe").unwrap();
    assert_eq!(template.source(), b"\xff $x \xfe");
    let variables = [("x", &b"\x80"[..])];
    assert_eq!(template.expand(&variables).unwrap(), b"\xff \x80 \xfe");
}

#[test]
fn clone_outlives_template() {
    let first = TemplateBuf::from_string(String::from("${a:$b}")).unwrap();
    let copy = first.clone();
    drop(first);
    let variables = [("b", "value")];
    assert_eq!(copy.expand(&variables).unwrap(), "value");
}

#[test]
fn a_tenth_more_is_reserved() {
    assert_eq!(expansion_capacity(0), 0);
    assert_eq!(expansion_capacity(9), 9);
    assert_eq!(expansion_capacity(10), 11);
    assert_eq!(expansion_capacity(1000), 1100);
    assert_eq!(expansion_capacity(1234), 1357);
    assert_eq!(expansion_capacity(usize::MAX), usize::MAX);
    assert_eq!(expansion_capacity(usize::MAX - usize::MAX / 11), usize::MAX);
}
