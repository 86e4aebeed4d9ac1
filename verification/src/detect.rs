//! The test that admits a class as a document class.

use vstd::prelude::*;
use crate::syntax::{Expr, FunctionDefinition, Statement};
use crate::text::same_text;

verus! {

/// Whether `statement` is the assignment `mx_internal::_document = this`.
pub open spec fn spec_marks_document(statement: Statement) -> bool {
    &&& statement matches Statement::Expression(Expr::Assignment { left, right })
    &&& *left matches Expr::Qualified { qualifier, name }
    &&& qualifier@ == "mx_internal"@
    &&& name@ == "_document"@
    &&& *right is This
}

/// Whether `statement` is the assignment `mx_internal::_document = this`.
pub fn marks_document(statement: &Statement) -> (r: bool)
    ensures
        r == spec_marks_document(*statement),
{
    match statement {
        Statement::Expression(Expr::Assignment { left, right }) => {
            let target_matches = match &**left {
                Expr::Qualified { qualifier, name } => same_text(qualifier.as_str(), "mx_internal")
                    && same_text(name.as_str(), "_document"),
                _ => false,
            };
            let value_matches = match &**right {
                Expr::This => true,
                _ => false,
            };
            target_matches && value_matches
        },
        _ => false,
    }
}

impl FunctionDefinition {
    /// Whether the function has a block body with the assignment
    /// `mx_internal::_document = this` among its top-level statements.
    pub open spec fn spec_is_doc_elem(&self) -> bool {
        match self.body {
            Some(statements) => exists|i: int|
                0 <= i < statements@.len() && spec_marks_document(#[trigger] statements@[i]),
            None => false,
        }
    }

    /// Whether the function is the constructor of a document class: its body
    /// is a block that assigns `this` to `mx_internal::_document` at the top
    /// level.
    pub fn is_doc_elem(&self) -> (r: bool)
        ensures
            r == self.spec_is_doc_elem(),
    {
        match &self.body {
            None => false,
            Some(statements) => {
                let mut i: usize = 0;
                while i < statements.len()
                    invariant
                        i <= statements.len(),
                        self.body == Some(*statements),
                        forall|k: int| 0 <= k < i ==> !spec_marks_document(#[trigger] statements@[k]),
                    decreases statements.len() - i,
                {
                    if marks_document(&statements[i]) {
                        assert(self.body matches Some(found) && spec_marks_document(
                            found@[i as int],
                        ));
                        return true;
                    }
                    i += 1;
                }
                false
            },
        }
    }
}

} // verus!
