//! Templates that keep offsets into a source without holding the source itself.
use vstd::prelude::*;

pub mod expand;
pub mod layout;
pub mod parse;
pub mod unicode;

verus! {

/// A parsed template: the parts of a source, in the order in which they stand there.
///
/// A template holds no text, only byte offsets into the source that it was parsed from.
#[derive(Debug)]
pub struct Template {
    /// The individual parts that make up the template.
    pub parts: Vec<Part>,
}

/// One piece of a parsed template.
#[derive(Debug)]
pub enum Part {
    /// A literal string to be used verbatim from the source.
    Literal(Literal),
    /// An escaped byte.
    EscapedByte(EscapedByte),
    /// A variable to be substituted at expansion time.
    Variable(Variable),
}

/// A literal string to be used verbatim from the source.
#[derive(Debug)]
pub struct Literal {
    /// The range of the literal in the source.
    ///
    /// A literal holds neither `$` nor `\`.
    pub range: std::ops::Range<usize>,
}

/// An escaped byte.
#[derive(Debug)]
pub struct EscapedByte {
    /// The byte that stood behind the backslash.
    pub value: u8,
}

/// A variable to be substituted at expansion time.
#[derive(Debug)]
pub struct Variable {
    /// The range in the source that holds the name of the variable.
    pub name: std::ops::Range<usize>,
    /// The default, used where the variable map does not hold the name.
    pub default: Option<Template>,
}

/// The mathematical content of a [`Part`].
pub enum PartSpec {
    /// The bytes of the source from `start` up to `end`.
    Literal { start: int, end: int },
    /// A single byte that was written with a backslash before it.
    EscapedByte { value: u8 },
    /// A variable whose name stands in the source from `name_start` up to `name_end`,
    /// and the parts of its default if it has one.
    Variable { name_start: int, name_end: int, default: Option<Seq<PartSpec>> },
}

/// The mathematical content of a sequence of parts.
pub open spec fn parts_view(parts: Seq<Part>) -> Seq<PartSpec>
    decreases parts, 1int,
{
    Seq::new(
        parts.len(),
        |i: int|
            if 0 <= i < parts.len() {
                part_view(parts[i])
            } else {
                arbitrary()
            },
    )
}

/// The mathematical content of a part.
pub open spec fn part_view(part: Part) -> PartSpec
    decreases part, 0int,
{
    match part {
        Part::Literal(literal) => PartSpec::Literal {
            start: literal.range.start as int,
            end: literal.range.end as int,
        },
        Part::EscapedByte(escaped) => PartSpec::EscapedByte { value: escaped.value },
        Part::Variable(variable) => PartSpec::Variable {
            name_start: variable.name.start as int,
            name_end: variable.name.end as int,
            default: match variable.default {
                Some(template) => Some(parts_view(template.parts@)),
                None => None,
            },
        },
    }
}

impl View for Template {
    type V = Seq<PartSpec>;

    open spec fn view(&self) -> Seq<PartSpec> {
        parts_view(self.parts@)
    }
}

impl View for Part {
    type V = PartSpec;

    open spec fn view(&self) -> PartSpec {
        part_view(*self)
    }
}

impl View for Variable {
    type V = PartSpec;

    open spec fn view(&self) -> PartSpec {
        part_view(Part::Variable(*self))
    }
}

/// Adding a part at the end of a sequence adds its content at the end of the content.
pub proof fn lemma_parts_view_push(parts: Seq<Part>, part: Part)
    ensures
        parts_view(parts.push(part)) == parts_view(parts).push(part_view(part)),
{
}

/// The content of no parts is empty.
pub proof fn lemma_parts_view_empty()
    ensures
        parts_view(Seq::<Part>::empty()) == Seq::<PartSpec>::empty(),
{
}

/// Copy a template, part by part.
pub fn clone_template(template: &Template) -> (copy: Template)
    ensures
        copy@ == template@,
    decreases template,
{
    let mut parts: Vec<Part> = Vec::with_capacity(template.parts.len());
    let mut index: usize = 0;
    while index < template.parts.len()
        invariant
            index <= template.parts@.len(),
            parts@.len() == index,
            forall|i: int| 0 <= i < index ==> part_view(#[trigger] parts@[i]) == part_view(template.parts@[i]),
        decreases template.parts@.len() - index,
    {
        let part = match &template.parts[index] {
            Part::Literal(literal) => Part::Literal(
                Literal { range: std::ops::Range { start: literal.range.start, end: literal.range.end } },
            ),
            Part::EscapedByte(escaped) => Part::EscapedByte(EscapedByte { value: escaped.value }),
            Part::Variable(variable) => Part::Variable(clone_variable(variable)),
        };
        parts.push(part);
        index += 1;
    }
    let copy = Template { parts };
    copy
}

/// Copy a variable and its default.
pub fn clone_variable(variable: &Variable) -> (copy: Variable)
    ensures
        copy@ == variable@,
    decreases variable,
{
    Variable {
        name: std::ops::Range { start: variable.name.start, end: variable.name.end },
        default: match &variable.default {
            Some(template) => Some(clone_template(template)),
            None => None,
        },
    }
}

impl Clone for Template {
    /// Copy the template: the copy has the same content.
    fn clone(&self) -> (copy: Self)
        ensures
            copy@ == self@,
    {
        clone_template(self)
    }
}

impl Clone for Variable {
    /// Copy the variable: the copy has the same content.
    fn clone(&self) -> (copy: Self)
        ensures
            copy@ == self@,
    {
        clone_variable(self)
    }
}

} // verus!
