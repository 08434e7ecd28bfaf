//! The syntax trees the parser produces: headers, statements and
//! expressions of one dialogue node.

use vstd::prelude::*;
use crate::types::Value;

verus! {

/// One `key: value` metadata pair declared at the top of a node.
/// Duplicate keys are permitted and declaration order is preserved.
#[derive(Debug, Clone)]
pub struct Header {
    /// The key of the header.
    pub key: String,

    /// The value of the header; possibly empty.
    pub value: String,
}

/// A binary operator of the expression language.
#[derive(Debug, Clone, Copy, PartialEq, Eq, Structural)]
pub enum BinaryOperator {
    /// Numeric addition, or string concatenation when both sides are strings.
    Add,

    /// Numeric subtraction.
    Subtract,

    /// Numeric multiplication.
    Multiply,

    /// Numeric division.
    Divide,

    /// Equality of two values of the same type.
    EqualTo,

    /// Inequality of two values of the same type.
    NotEqualTo,

    /// Numeric strict order.
    LessThan,

    /// Numeric non-strict order.
    LessThanOrEqualTo,

    /// Numeric strict order.
    GreaterThan,

    /// Numeric non-strict order.
    GreaterThanOrEqualTo,

    /// Boolean conjunction.
    And,

    /// Boolean disjunction.
    Or,
}

/// An expression of the dialogue language.
#[derive(Debug)]
pub enum Expression {
    /// A literal value.
    Literal(Value),

    /// A reference to the variable of the given name.
    Variable(String),

    /// The application of a binary operator to two operands.
    Binary { operator: BinaryOperator, left: Box<Expression>, right: Box<Expression> },

    /// A call of the named library function with the given arguments.
    FunctionCall { function: String, arguments: Vec<Expression> },
}

/// A statement of a node body that opens no block of its own.
#[derive(Debug)]
pub enum BasicStatement {
    /// Deliver a line of dialogue to the host. `substitutions` names the
    /// variables whose values the line interpolates, in order.
    Line { text: String, substitutions: Vec<String>, line_tag: Option<String> },

    /// Offer an option that jumps to the named destination node when chosen.
    OptionLine { text: String, destination: String, line_tag: Option<String> },

    /// Store the value of an expression in a variable.
    SetCommand { variable: String, expression: Expression },

    /// Declare a variable explicitly, with its default value.
    DeclareCommand { variable: String, value: Value },

    /// Jump to the named node, abandoning the current node's frame.
    JumpCommand { destination: String },

    /// Dispatch a raw command to the host.
    CommandText { text: String },

    /// Stop the dialogue.
    StopCommand,
}

/// One `if` or `elseif` arm: a condition and the statements run when it is
/// the first arm whose condition holds.
#[derive(Debug)]
pub struct IfBranch {
    /// The condition of the arm.
    pub condition: Expression,

    /// The statements of the arm.
    pub body: Vec<BasicStatement>,
}

/// A statement of a node body.
#[derive(Debug)]
pub enum Statement {
    /// A statement that opens no block.
    Basic(BasicStatement),

    /// An `if` construct: its arms in order, and the statements run when
    /// no arm's condition holds.
    If { branches: Vec<IfBranch>, else_body: Vec<BasicStatement> },
}

/// One parsed node: its name, its headers in declaration order, its tag
/// set, and the statements of its body.
#[derive(Debug)]
pub struct ParsedNode {
    /// The name of the node: the value of its `title` header.
    pub name: String,

    /// The headers of the node, in declaration order, duplicates kept.
    pub headers: Vec<Header>,

    /// The tags of the node: the value of its first `tags` header, split
    /// on whitespace; empty when the node has no `tags` header.
    pub tags: Vec<String>,

    /// The statements of the node body, in order.
    pub body: Vec<Statement>,

    /// The zero-indexed source line the node's first header stands on;
    /// diagnostics about the node point here.
    pub line: usize,
}

} // verus!
