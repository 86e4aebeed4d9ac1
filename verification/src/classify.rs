//! The rules that decide what one top-level statement of a factory function
//! contributes to its element.

use vstd::prelude::*;
use crate::encode::{is_blocked, spec_is_blocked};
use crate::lookup::spec_get_function;
use crate::syntax::{CompiledClass, Expr, Statement};
use crate::text::{contains, same_text, spec_contains, starts_with};
use crate::transpiler::MxmlTranspiler;

verus! {

/// What the assignment of a value to a property of the element contributes.
#[derive(Debug, Clone, Copy, PartialEq, Eq, Structural)]
pub enum Classification {
    /// Nothing.
    Dropped,
    /// The elements that the entries of an array build, as children.
    ChildrenBatch,
    /// The element that the factory function of this index builds, as the
    /// value of the property.
    AttributeChild(usize),
    /// A simple attribute.
    Attribute,
}

/// The index of the factory function that `value` calls: `value` is a call
/// without arguments of a member whose name a function of the class has.
pub open spec fn spec_factory_call(class: CompiledClass, value: Expr) -> Option<usize> {
    match value {
        Expr::Call { callee, arguments } => match *callee {
            Expr::Member { base, name } => if arguments@.len() == 0 {
                spec_get_function(class, name@)
            } else {
                None
            },
            _ => None,
        },
        _ => None,
    }
}

/// Whether `base` is the object that the function builds: `this` where
/// `receiver` is `None`, else the variable of that name.
pub open spec fn spec_is_receiver(base: Expr, receiver: Option<Seq<char>>) -> bool {
    match receiver {
        None => base is This,
        Some(variable) => base.spec_identifier() == Some(variable),
    }
}

/// The property and the value, where `statement` assigns to a member of the
/// object that the function builds.
pub open spec fn spec_assigned_property(statement: Statement, receiver: Option<Seq<char>>) -> Option<
    (Seq<char>, Expr),
> {
    match statement {
        Statement::Expression(Expr::Assignment { left, right }) => match *left {
            Expr::Member { base, name } => if spec_is_receiver(*base, receiver) {
                Some((name@, *right))
            } else {
                None
            },
            _ => None,
        },
        _ => None,
    }
}

/// Whether the assignment sets an `id` that the compiler made up: a string
/// literal that the name of the enclosing function starts with.
pub open spec fn spec_is_synthetic_id(function_name: Seq<char>, name: Seq<char>, value: Expr) -> bool {
    &&& name == "id"@
    &&& value matches Expr::StringLiteral(id)
    &&& id@.is_prefix_of(function_name)
}

/// What the assignment of `value` to the property `name` contributes, in a
/// function called `function_name`. The first rule that applies decides:
/// a blocked name is dropped; `mxmlContent` with an array literal is a batch
/// of children; a name that holds `_embed_mxml_` is dropped; a call of a
/// factory function is an attribute child; a made-up `id` is dropped;
/// anything else is an attribute.
pub open spec fn spec_classify(
    class: CompiledClass,
    function_name: Seq<char>,
    name: Seq<char>,
    value: Expr,
) -> Classification {
    if spec_is_blocked(name) {
        Classification::Dropped
    } else if name == "mxmlContent"@ && value is ArrayLiteral {
        Classification::ChildrenBatch
    } else if spec_contains(name, "_embed_mxml_"@) {
        Classification::Dropped
    } else if spec_factory_call(class, value) is Some {
        Classification::AttributeChild(spec_factory_call(class, value)->Some_0)
    } else if spec_is_synthetic_id(function_name, name, value) {
        Classification::Dropped
    } else {
        Classification::Attribute
    }
}

/// Whether `base` is the object that the function builds.
pub fn is_receiver(base: &Expr, receiver: Option<&String>) -> (r: bool)
    ensures
        r == spec_is_receiver(
            *base,
            match receiver {
                Some(variable) => Some(variable@),
                None => None,
            },
        ),
{
    match receiver {
        None => match base {
            Expr::This => true,
            _ => false,
        },
        Some(variable) => match base {
            Expr::Identifier(name) => same_text(name.as_str(), variable.as_str()),
            _ => false,
        },
    }
}

/// The property and the value, where `statement` assigns to a member of the
/// object that the function builds.
pub fn assigned_property<'s>(statement: &'s Statement, receiver: Option<&String>) -> (r: Option<
    (&'s String, &'s Expr),
>)
    ensures
        match r {
            Some((name, value)) => spec_assigned_property(
                *statement,
                match receiver {
                    Some(variable) => Some(variable@),
                    None => None,
                },
            ) == Some((name@, *value)),
            None => spec_assigned_property(
                *statement,
                match receiver {
                    Some(variable) => Some(variable@),
                    None => None,
                },
            ) is None,
        },
{
    match statement {
        Statement::Expression(Expr::Assignment { left, right }) => match &**left {
            Expr::Member { base, name } => if is_receiver(base, receiver) {
                Some((name, &**right))
            } else {
                None
            },
            _ => None,
        },
        _ => None,
    }
}

impl<'a> MxmlTranspiler<'a> {
    /// The index of the factory function that `value` calls, if it calls one.
    pub fn factory_call(&self, value: &Expr) -> (r: Option<usize>)
        ensures
            r == spec_factory_call(*self.class, *value),
            r matches Some(i) ==> i < self.class.functions.len(),
    {
        match value {
            Expr::Call { callee, arguments } => match &**callee {
                Expr::Member { base, name } => if arguments.len() == 0 {
                    self.get_function(name)
                } else {
                    None
                },
                _ => None,
            },
            _ => None,
        }
    }

    /// What the assignment of `value` to the property `name` contributes, in
    /// the function called `function_name`.
    pub fn classify(&self, function_name: &String, name: &String, value: &Expr) -> (r:
        Classification)
        ensures
            r == spec_classify(*self.class, function_name@, name@, *value),
            r matches Classification::AttributeChild(i) ==> i < self.class.functions.len(),
    {
        if is_blocked(name.as_str()) {
            return Classification::Dropped;
        }
        let is_array = match value {
            Expr::ArrayLiteral(_) => true,
            _ => false,
        };
        if is_array && same_text(name.as_str(), "mxmlContent") {
            return Classification::ChildrenBatch;
        }
        if contains(name.as_str(), "_embed_mxml_") {
            return Classification::Dropped;
        }
        match self.factory_call(value) {
            Some(index) => {
                return Classification::AttributeChild(index);
            },
            None => {},
        }
        let synthetic = match value {
            Expr::StringLiteral(id) => same_text(name.as_str(), "id") && starts_with(
                function_name.as_str(),
                id.as_str(),
            ),
            _ => false,
        };
        if synthetic {
            Classification::Dropped
        } else {
            Classification::Attribute
        }
    }
}

} // verus!
