//! The expressions in which test values are declared, as the parser hands
//! them over: literals, paths, calls, struct literals and unary operators.

use crate::error::Span;
use vstd::prelude::*;

verus! {

/// What a literal holds. Numbers come as their decimal digits, without a type suffix.
#[derive(Debug)]
pub enum LitKind {
    Str(String),
    Int(String),
    Float(String),
    Bool(bool),
    /// A literal of any other kind: a character, a byte string, and so on.
    Other,
}

/// A literal and where it stands.
#[derive(Debug)]
pub struct Lit {
    pub kind: LitKind,
    pub span: Span,
}

/// A unary operator.
#[derive(Clone, Copy, PartialEq, Eq, Debug, Structural)]
pub enum UnOp {
    Neg,
    Not,
    Deref,
}

/// The name of a field in a struct literal.
#[derive(Debug)]
pub enum Member {
    Named(String),
    Unnamed(u32),
}

/// An expression that declares a test value.
#[derive(Debug)]
pub enum Expr {
    /// A literal.
    Lit { lit: Lit },
    /// A path such as `None` or `Color::Red`, by the names of its segments.
    Path { segments: Vec<String>, span: Span },
    /// A call such as `Some(1)` or `Shape::Circle(2)`.
    Call { func: Box<Expr>, args: Vec<Expr>, span: Span },
    /// A struct literal such as `Point { x: 1, y: 2 }`; each field comes
    /// with the location of its name.
    Struct { path: Vec<String>, fields: Vec<(Member, Span, Expr)>, span: Span },
    /// A unary operator applied to an expression.
    Unary { op: UnOp, operand: Box<Expr>, span: Span },
    /// Any other expression.
    Other { span: Span },
}

/// Where an expression stands in the source.
pub open spec fn expr_span(e: Expr) -> Span {
    match e {
        Expr::Lit { lit } => lit.span,
        Expr::Path { span, .. } => span,
        Expr::Call { span, .. } => span,
        Expr::Struct { span, .. } => span,
        Expr::Unary { span, .. } => span,
        Expr::Other { span } => span,
    }
}

impl Expr {
    /// Where the expression stands in the source.
    pub fn span(&self) -> (s: Span)
        ensures
            s == expr_span(*self),
    {
        match self {
            Expr::Lit { lit } => lit.span,
            Expr::Path { span, .. } => *span,
            Expr::Call { span, .. } => *span,
            Expr::Struct { span, .. } => *span,
            Expr::Unary { span, .. } => *span,
            Expr::Other { span } => *span,
        }
    }
}

} // verus!
