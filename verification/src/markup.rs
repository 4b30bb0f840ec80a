//! The markup that an axis is lowered to, and the calls that build it.
//!
//! [`Markup`] is the model: a tree of named elements with attributes, and
//! text. The elements themselves are those of the `svg` crate; the functions
//! here make its calls and say, over the model, what each call returns.

use vstd::prelude::*;

verus! {

/// A node of markup: an element or a run of text.
pub ghost enum Markup {
    Element { name: Seq<char>, attributes: Map<Seq<char>, Seq<char>>, children: Seq<Markup> },
    Text(Seq<char>),
}

impl Markup {
    /// An element without attributes and children.
    pub open spec fn empty(name: Seq<char>) -> Markup {
        Markup::Element { name, attributes: Map::empty(), children: Seq::empty() }
    }

    /// The element with the attribute set, replacing the value it had.
    pub open spec fn with(self, name: Seq<char>, value: Seq<char>) -> Markup {
        Markup::Element {
            name: self->name,
            attributes: self->attributes.insert(name, value),
            children: self->children,
        }
    }

    /// The element with one more child at the end.
    pub open spec fn with_child(self, child: Markup) -> Markup {
        Markup::Element {
            name: self->name,
            attributes: self->attributes,
            children: self->children.push(child),
        }
    }
}

#[verifier::external_type_specification]
#[verifier::external_body]
pub struct ExLine(svg::node::element::Line);

#[verifier::external_type_specification]
#[verifier::external_body]
pub struct ExGroup(svg::node::element::Group);

#[verifier::external_type_specification]
#[verifier::external_body]
pub struct ExText(svg::node::element::Text);

/// What a `line` element holds.
pub uninterp spec fn line_markup(line: svg::node::element::Line) -> Markup;

/// What a `g` element holds.
pub uninterp spec fn group_markup(group: svg::node::element::Group) -> Markup;

/// What a `text` element holds.
pub uninterp spec fn text_markup(text: svg::node::element::Text) -> Markup;

/// `svg::node::element::Line::new`: an element named `line`, with no attribute and no child.
#[verifier::external_body]
pub(crate) fn line_new() -> (line: svg::node::element::Line)
    ensures
        line_markup(line) == Markup::empty("line"@),
{
    svg::node::element::Line::new()
}

/// `svg::node::element::Line::set`: the same element with the attribute inserted under its name.
#[verifier::external_body]
pub(crate) fn line_set(line: svg::node::element::Line, name: &str, value: &str) -> (out:
    svg::node::element::Line)
    ensures
        line_markup(out) == line_markup(line).with(name@, value@),
{
    line.set(name, value)
}

/// `svg::node::element::Text::new`: an element named `text`, with no attribute and one child,
/// the text node of the content.
#[verifier::external_body]
pub(crate) fn text_new(content: &str) -> (text: svg::node::element::Text)
    ensures
        text_markup(text) == Markup::empty("text"@).with_child(Markup::Text(content@)),
{
    svg::node::element::Text::new(content)
}

/// `svg::node::element::Text::set`: the same element with the attribute inserted under its name.
#[verifier::external_body]
pub(crate) fn text_set(text: svg::node::element::Text, name: &str, value: &str) -> (out:
    svg::node::element::Text)
    ensures
        text_markup(out) == text_markup(text).with(name@, value@),
{
    text.set(name, value)
}

/// `svg::node::element::Group::new`: an element named `g`, with no attribute and no child.
#[verifier::external_body]
pub(crate) fn group_new() -> (group: svg::node::element::Group)
    ensures
        group_markup(group) == Markup::empty("g"@),
{
    svg::node::element::Group::new()
}

/// `svg::node::element::Group::set`: the same element with the attribute inserted under its name.
#[verifier::external_body]
pub(crate) fn group_set(group: svg::node::element::Group, name: &str, value: &str) -> (out:
    svg::node::element::Group)
    ensures
        group_markup(out) == group_markup(group).with(name@, value@),
{
    group.set(name, value)
}

/// `svg::node::element::Group::add` of a line: the same element with the line as its last child.
#[verifier::external_body]
pub(crate) fn group_add_line(
    group: svg::node::element::Group,
    line: svg::node::element::Line,
) -> (out: svg::node::element::Group)
    ensures
        group_markup(out) == group_markup(group).with_child(line_markup(line)),
{
    group.add(line)
}

/// `svg::node::element::Group::add` of a text element: the same element with it as its last child.
#[verifier::external_body]
pub(crate) fn group_add_text(
    group: svg::node::element::Group,
    text: svg::node::element::Text,
) -> (out: svg::node::element::Group)
    ensures
        group_markup(out) == group_markup(group).with_child(text_markup(text)),
{
    group.add(text)
}

/// `svg::node::element::Group::add` of a group: the same element with it as its last child.
#[verifier::external_body]
pub(crate) fn group_add_group(
    group: svg::node::element::Group,
    child: svg::node::element::Group,
) -> (out: svg::node::element::Group)
    ensures
        group_markup(out) == group_markup(group).with_child(group_markup(child)),
{
    group.add(child)
}

} // verus!
