//! The syntax tree: every node carries the span where it was read.
use vstd::prelude::*;

use crate::diagnostics::Span;

verus! {

#[derive(Debug, Clone, PartialEq, Eq)]
pub struct Ident {
    pub name: String,
    pub span: Span,
}

/// A type as written in the source.
#[derive(Debug, PartialEq, Eq)]
pub enum Type {
    Int { span: Span },
    Bool { span: Span },
    Unit { span: Span },
    Secret { inner: Box<Type>, span: Span },
    Named { name: String, span: Span },
}

impl Type {
    pub open spec fn spec_span(&self) -> Span {
        match self {
            Type::Int { span } => *span,
            Type::Bool { span } => *span,
            Type::Unit { span } => *span,
            Type::Secret { span, .. } => *span,
            Type::Named { span, .. } => *span,
        }
    }

    pub fn span(&self) -> (r: &Span)
        ensures
            *r == self.spec_span(),
    {
        match self {
            Type::Int { span } => span,
            Type::Bool { span } => span,
            Type::Unit { span } => span,
            Type::Secret { span, .. } => span,
            Type::Named { span, .. } => span,
        }
    }
}

/// The side-effect categories that a signature may declare.
#[derive(Debug, Clone, Copy, PartialEq, Eq, Structural, PartialOrd, Ord, Hash)]
pub enum Effect {
    Io,
    Net,
    Time,
    Rand,
}

#[derive(Debug, Clone, PartialEq, Eq)]
pub struct EffectSpec {
    pub effect: Effect,
    pub span: Span,
}

#[derive(Debug, PartialEq, Eq)]
pub struct Program {
    pub funcs: Vec<FnDecl>,
    pub protocols: Vec<ProtocolDecl>,
    pub span: Span,
}

#[derive(Debug, PartialEq, Eq)]
pub struct FnDecl {
    pub name: Ident,
    pub params: Vec<Param>,
    pub ret: Type,
    /// The declared effect row; a function without one is pure.
    pub effects: Vec<EffectSpec>,
    pub body: Block,
    pub span: Span,
}

#[derive(Debug, PartialEq, Eq)]
pub struct Param {
    pub name: Ident,
    pub ty: Type,
    pub span: Span,
}

#[derive(Debug, PartialEq, Eq)]
pub struct Block {
    pub stmts: Vec<Stmt>,
    pub span: Span,
}

#[derive(Debug, PartialEq, Eq)]
pub enum Stmt {
    Let { name: Ident, ty: Option<Type>, expr: Expr, span: Span },
    Return { expr: Option<Expr>, span: Span },
    If { cond: Expr, then_blk: Block, else_blk: Option<Block>, span: Span },
    Expr { expr: Expr, span: Span },
}

#[derive(Debug, PartialEq, Eq)]
pub enum Expr {
    IntLit { value: i64, span: Span },
    BoolLit { value: bool, span: Span },
    StrLit { value: String, span: Span },
    Var { name: Ident, span: Span },
    Move { name: Ident, span: Span },
    Call { callee: Ident, args: Vec<Expr>, span: Span },
}

impl Expr {
    pub open spec fn spec_span(&self) -> Span {
        match self {
            Expr::IntLit { span, .. } => *span,
            Expr::BoolLit { span, .. } => *span,
            Expr::StrLit { span, .. } => *span,
            Expr::Var { span, .. } => *span,
            Expr::Move { span, .. } => *span,
            Expr::Call { span, .. } => *span,
        }
    }

    pub fn span(&self) -> (r: &Span)
        ensures
            *r == self.spec_span(),
    {
        match self {
            Expr::IntLit { span, .. } => span,
            Expr::BoolLit { span, .. } => span,
            Expr::StrLit { span, .. } => span,
            Expr::Var { span, .. } => span,
            Expr::Move { span, .. } => span,
            Expr::Call { span, .. } => span,
        }
    }
}

/// One `state` line of a protocol, `final` or not.
#[derive(Debug, Clone, PartialEq, Eq)]
pub struct StateDecl {
    pub name: Ident,
    pub is_final: bool,
    pub span: Span,
}

/// One `transition from -> to` line of a protocol.
#[derive(Debug, Clone, PartialEq, Eq)]
pub struct TransitionDecl {
    pub from: Ident,
    pub to: Ident,
    pub span: Span,
}

#[derive(Debug, PartialEq, Eq)]
pub struct ProtocolDecl {
    pub name: Ident,
    pub states: Vec<StateDecl>,
    pub transitions: Vec<TransitionDecl>,
    pub span: Span,
}

pub fn ty_int(span: Span) -> (r: Type)
    ensures
        r == (Type::Int { span }),
{
    Type::Int { span }
}

pub fn ty_bool(span: Span) -> (r: Type)
    ensures
        r == (Type::Bool { span }),
{
    Type::Bool { span }
}

pub fn ty_unit(span: Span) -> (r: Type)
    ensures
        r == (Type::Unit { span }),
{
    Type::Unit { span }
}

} // verus!
