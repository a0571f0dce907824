//! The abstract syntax tree and its operator enumerations.
//!
//! A tree is built once, bottom-up, by the parser, and is read-only
//! thereafter: every node owns its children outright, so no sharing and
//! no cycles are possible by construction.

use vstd::prelude::*;

verus! {

/// The unary operators, each with a canonical display token.
#[derive(Debug, PartialEq, Eq, PartialOrd, Ord, Copy, Clone, Hash)]
pub enum UnaryOp {
    Not,
}

/// The binary operators, each with a canonical display token.
#[derive(Debug, PartialEq, Eq, PartialOrd, Ord, Copy, Clone, Hash)]
pub enum BinaryOp {
    Add,
    Sub,
    Mult,
    Div,
    Mod,
    Equal,
    LessThan,
    OrElse,
    AndAlso,
}

/// A parsed expression.
#[derive(Debug, PartialEq)]
pub enum Expr {
    /// A leaf referencing an identifier.
    Var(String),
    /// A leaf wrapping a literal's textual rendering.
    Lit(String),
    /// One operator applied to one owned child.
    Unary { operation: UnaryOp, child: Box<Expr> },
    /// One operator between two owned children, in textual order.
    Binary { left: Box<Expr>, operation: BinaryOp, right: Box<Expr> },
    /// Three owned children in fixed order.
    IfThenElse { condition: Box<Expr>, if_branch: Box<Expr>, else_branch: Box<Expr> },
    /// Binds `name` to the value of `binder` within the scope of `child`.
    Let { name: String, binder: Box<Expr>, child: Box<Expr> },
}

/// The display token of a unary operator.
pub open spec fn spec_unary_label(op: UnaryOp) -> Seq<char> {
    match op {
        UnaryOp::Not => "not"@,
    }
}

/// The display token of a binary operator.
pub open spec fn spec_binary_label(op: BinaryOp) -> Seq<char> {
    match op {
        BinaryOp::Add => "(+)"@,
        BinaryOp::Sub => "(-)"@,
        BinaryOp::Mult => "(*)"@,
        BinaryOp::Div => "div"@,
        BinaryOp::Mod => "mod"@,
        BinaryOp::Equal => "(=)"@,
        BinaryOp::LessThan => "(<)"@,
        BinaryOp::OrElse => "orelse"@,
        BinaryOp::AndAlso => "andalso"@,
    }
}

impl UnaryOp {
    /// The canonical display token of this operator.
    pub fn label(self) -> (r: &'static str)
        ensures
            r@ == spec_unary_label(self),
    {
        match self {
            UnaryOp::Not => "not",
        }
    }
}

impl BinaryOp {
    /// The canonical display token of this operator.
    pub fn label(self) -> (r: &'static str)
        ensures
            r@ == spec_binary_label(self),
    {
        match self {
            BinaryOp::Add => "(+)",
            BinaryOp::Sub => "(-)",
            BinaryOp::Mult => "(*)",
            BinaryOp::Div => "div",
            BinaryOp::Mod => "mod",
            BinaryOp::Equal => "(=)",
            BinaryOp::LessThan => "(<)",
            BinaryOp::OrElse => "orelse",
            BinaryOp::AndAlso => "andalso",
        }
    }
}

} // verus!
