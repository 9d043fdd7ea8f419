use subst::error::{ExpandError, NoSuchVariable};
use subst::message::unexpected_character_message;
use subst::template::raw::expand::{
    expand_found, expand_template, expand_variable, Expand, OnMissing,
};
use subst::template::raw::{Part, Template, Variable};
use subst::NoSubstitution;

fn variable_of(source: &[u8]) -> Variable {
    let mut parts = Template::parse(source, 0).unwrap().parts;
    match parts.remove(0) {
        Part::Variable(variable) => variable,
        _ => panic!("the source starts with a variable"),
    }
}

#[test]
fn found_values_are_appended() {
    let source = b"${name:some $other}";
    let variable = variable_of(source);
    let variables = [("other", "thing")];
    let mut output = b"so far: ".to_vec();
    assert_eq!(
        expand_found(&variable, "name", Some(b"value"), &mut output, source, &variables, OnMissing::Fail),
        Ok(())
    );
    assert_eq!(output, b"so far: value");
    assert_eq!(expand_found(&variable, "name", Some(b""), &mut output, source, &variables, OnMissing::Fail), Ok(()));
    assert_eq!(output, b"so far: value");
}

#[test]
fn defaults_stand_in_for_missing_values() {
    let source = b"${name:some $other}";
    let variable = variable_of(source);
    let variables = [("other", "thing")];
    let mut output = b"so far: ".to_vec();
    assert_eq!(expand_found(&variable, "name", None, &mut output, source, &variables, OnMissing::Fail), Ok(()));
    assert_eq!(output, b"so far: some thing");

    let mut output = Vec::new();
    assert_eq!(
        expand_found(&variable, "name", None, &mut output, source, &NoSubstitution, OnMissing::Fail),
        Err(ExpandError::NoSuchVariable(NoSuchVariable { position: 13, name: String::from("other") }))
    );
}

#[test]
fn missing_values_without_default_fail() {
    let source = b"$name";
    let variable = variable_of(source);
    let mut output = Vec::new();
    assert_eq!(
        expand_found(&variable, "name", None, &mut output, source, &NoSubstitution, OnMissing::Fail),
        Err(ExpandError::NoSuchVariable(NoSuchVariable { position: 1, name: String::from("name") }))
    );
    assert!(output.is_empty());
    assert_eq!(
        expand_variable(&variable, &mut output, source, &NoSubstitution, OnMissing::Fail),
        Err(ExpandError::NoSuchVariable(NoSuchVariable { position: 1, name: String::from("name") }))
    );
    assert_eq!(expand_variable(&variable, &mut output, source, &[("name", "x")], OnMissing::Fail), Ok(()));
    assert_eq!(output, b"x");
}

#[test]
fn templates_expand_into_the_output() {
    let source = b"a\\$b $c ${d:e}";
    let template = Template::parse(source, 0).unwrap();
    let variables = [("c", &b"\xff"[..])];
    let mut output = b"> ".to_vec();
    assert_eq!(expand_template(&template, &mut output, source, &variables, OnMissing::Fail), Ok(()));
    assert_eq!(output, b"> a$b \xff e");
    assert_eq!(template.expand(&mut output, source, &variables), Ok(()));
    assert_eq!(output, b"> a$b \xff ea$b \xff e");
    let variable = variable_of(b"${d:e}");
    let mut output = Vec::new();
    assert_eq!(variable.expand(&mut output, b"${d:e}", &variables), Ok(()));
    assert_eq!(output, b"e");
}

#[test]
fn copies_of_parts_are_alike() {
    let source = b"a ${b:c ${d}} e";
    let template = Template::parse(source, 0).unwrap();
    let copy = template.clone();
    let variables = [("d", "x")];
    let mut first = Vec::new();
    let mut second = Vec::new();
    assert_eq!(template.expand(&mut first, source, &variables), Ok(()));
    drop(template);
    assert_eq!(copy.expand(&mut second, source, &variables), Ok(()));
    assert_eq!(first, second);
    assert_eq!(first, b"a c x e");
    let variable = variable_of(b"${b:c}");
    assert_eq!(variable.clone().name, 2..3);
}

#[test]
fn unexpected_character_message_is_put_together() {
    assert_eq!(
        unexpected_character_message("')'", "a closing brace ('}') or colon (':')"),
        "Unexpected character: ')', expected a closing brace ('}') or colon (':')"
    );
    assert_eq!(unexpected_character_message("", ""), "Unexpected character: , expected ");
}

#[test]
fn missing_values_can_expand_to_nothing() {
    let source = b"$name";
    let variable = variable_of(source);
    let mut output = b"> ".to_vec();
    assert_eq!(
        expand_found(&variable, "name", None, &mut output, source, &NoSubstitution, OnMissing::Empty),
        Ok(())
    );
    assert_eq!(output, b"> ");
    assert_eq!(
        expand_variable(&variable, &mut output, source, &NoSubstitution, OnMissing::Empty),
        Ok(())
    );
    assert_eq!(output, b"> ");

    let source = b"a $b ${c} ${d:e $f}!";
    let template = Template::parse(source, 0).unwrap();
    assert_eq!(
        expand_template(&template, &mut output, source, &NoSubstitution, OnMissing::Empty),
        Ok(())
    );
    assert_eq!(output, b"> a   e !");
    let mut output = Vec::new();
    assert_eq!(
        expand_template(&template, &mut output, source, &[("f", "g"), ("c", "h")], OnMissing::Empty),
        Ok(())
    );
    assert_eq!(output, b"a  h e g!");
}
