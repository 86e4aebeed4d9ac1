//! The reconstructed markup tree.

use vstd::prelude::*;
pub use crate::document::{MxmlDoc, MxmlDocView, WriterEvents};

verus! {

/// A simple attribute: its name and its value.
#[derive(Debug, PartialEq)]
pub struct ElemAttribute(pub String, pub String);

/// A nested element that is the value of a named property: the qualified
/// property name and the element.
#[derive(Debug, PartialEq)]
pub struct AttributeChild(pub String, pub MxmlElement);

/// An element of the markup tree.
#[derive(Debug, PartialEq)]
pub struct MxmlElement {
    /// The namespace prefix of the tag.
    pub namespace: String,
    /// The local name of the tag.
    pub class_name: String,
    pub attributes: Vec<ElemAttribute>,
    pub attribute_children: Vec<AttributeChild>,
    pub children: Vec<MxmlElement>,
}

/// An element as a mathematical value.
pub struct MxmlElementView {
    pub namespace: Seq<char>,
    pub class_name: Seq<char>,
    pub attributes: Seq<(Seq<char>, Seq<char>)>,
    pub attribute_children: Seq<(Seq<char>, MxmlElementView)>,
    pub children: Seq<MxmlElementView>,
}

impl View for ElemAttribute {
    type V = (Seq<char>, Seq<char>);

    open spec fn view(&self) -> (Seq<char>, Seq<char>) {
        (self.0@, self.1@)
    }
}

/// The attributes of a list, each as a pair of name and value.
pub open spec fn attributes_view(attributes: Vec<ElemAttribute>) -> Seq<(Seq<char>, Seq<char>)> {
    Seq::new(attributes.len() as nat, |i: int| attributes[i]@)
}

/// The elements of a list, each as a mathematical value.
pub open spec fn children_view(children: Vec<MxmlElement>) -> Seq<MxmlElementView>
    decreases children,
{
    Seq::new(
        children.len() as nat,
        |i: int|
            if 0 <= i < children.len() {
                element_view(children[i])
            } else {
                arbitrary()
            },
    )
}

/// The attribute children of a list, each as a pair of its qualified
/// property name and its element.
pub open spec fn attribute_children_view(children: Vec<AttributeChild>) -> Seq<
    (Seq<char>, MxmlElementView),
>
    decreases children,
{
    Seq::new(
        children.len() as nat,
        |i: int|
            if 0 <= i < children.len() {
                (children[i].0@, element_view(children[i].1))
            } else {
                arbitrary()
            },
    )
}

/// The element `e` as a mathematical value.
pub open spec fn element_view(e: MxmlElement) -> MxmlElementView
    decreases e,
{
    MxmlElementView {
        namespace: e.namespace@,
        class_name: e.class_name@,
        attributes: attributes_view(e.attributes),
        attribute_children: attribute_children_view(e.attribute_children),
        children: children_view(e.children),
    }
}

impl View for MxmlElement {
    type V = MxmlElementView;

    open spec fn view(&self) -> MxmlElementView {
        element_view(*self)
    }
}

impl View for AttributeChild {
    type V = (Seq<char>, MxmlElementView);

    open spec fn view(&self) -> (Seq<char>, MxmlElementView) {
        (self.0@, self.1@)
    }
}

} // verus!
