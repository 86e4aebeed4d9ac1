//! The syntax tree of a compiled class, reduced to the shapes that the
//! reconstruction reads.

use vstd::prelude::*;

verus! {

/// An expression.
#[derive(Debug, PartialEq)]
pub enum Expr {
    /// A string literal, with its value.
    StringLiteral(String),
    /// A numeric literal, with its text as written.
    NumericLiteral(String),
    /// `true` or `false`.
    BooleanLiteral(bool),
    /// Unary minus applied to an operand.
    Negate(Box<Expr>),
    /// `this`.
    This,
    /// A bare identifier.
    Identifier(String),
    /// A name qualified by a namespace identifier: `qualifier::name`.
    Qualified { qualifier: String, name: String },
    /// Access to a plainly named member: `base.name`.
    Member { base: Box<Expr>, name: String },
    /// A call of `callee` with its arguments.
    Call { callee: Box<Expr>, arguments: Vec<Expr> },
    /// An array literal, with its elements.
    ArrayLiteral(Vec<Expr>),
    /// An assignment of `right` to `left`.
    Assignment { left: Box<Expr>, right: Box<Expr> },
    /// Any other expression.
    Other,
}

/// A statement at the top level of a function body.
#[derive(Debug, PartialEq)]
pub enum Statement {
    /// An expression statement.
    Expression(Expr),
    /// A variable definition, with the target of each binding in order.
    VariableDefinition(Vec<Expr>),
    /// Any other statement.
    Other,
}

/// A member function of the class.
#[derive(Debug, PartialEq)]
pub struct FunctionDefinition {
    pub name: String,
    /// The declared result type, where there is one.
    pub result_type: Option<Expr>,
    /// The statements of the body; `None` where the body is not a block.
    pub body: Option<Vec<Statement>>,
}

/// What an import directive brings in.
#[derive(Debug, PartialEq)]
pub enum ImportSpecifier {
    /// `import a.b.*`
    Wildcard,
    /// `import a.b.**`
    Recursive,
    /// `import a.b.Name`
    Identifier(String),
}

/// An import directive.
#[derive(Debug, PartialEq)]
pub struct Import {
    /// The segments of the package path.
    pub package_name: Vec<String>,
    pub specifier: ImportSpecifier,
}

/// A compiled class with the imports and the package of its file.
#[derive(Debug, PartialEq)]
pub struct CompiledClass {
    /// The segments of the package that the file declares.
    pub package: Vec<String>,
    /// The imports of the file, in source order.
    pub imports: Vec<Import>,
    pub name: String,
    pub extends_clause: Option<Expr>,
    /// The member functions, in source order.
    pub functions: Vec<FunctionDefinition>,
}

impl Expr {
    /// The name, where the expression is a bare identifier.
    pub open spec fn spec_identifier(self) -> Option<Seq<char>> {
        match self {
            Expr::Identifier(name) => Some(name@),
            _ => None,
        }
    }

    /// The name, where the expression is a bare identifier.
    pub fn identifier(&self) -> (r: Option<&String>)
        ensures
            r matches Some(name) ==> self.spec_identifier() == Some(name@),
            r is None ==> self.spec_identifier() is None,
    {
        match self {
            Expr::Identifier(name) => Some(name),
            _ => None,
        }
    }
}

} // verus!
