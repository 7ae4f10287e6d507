//! The type-checked function bodies that lowering consumes.
use vstd::prelude::*;

use crate::strukt::StructDef;
use crate::ty::TyId;

verus! {

/// An interned source identifier.
#[derive(Debug, Clone, Copy, PartialEq, Eq, Hash, Structural)]
pub struct IdentId(pub usize);

/// A resolved function signature: its name and its result type.
#[derive(Debug, Clone, Copy, PartialEq, Eq, Hash, Structural)]
pub struct Sig {
    pub name: IdentId,
    pub ty: TyId,
}

#[derive(Debug, Clone, Copy, PartialEq, Eq, Structural)]
pub enum BinOpKind {
    /// Field projection `lhs.rhs`, where `rhs` names the field.
    Field,
    Add,
    Sub,
    Mul,
}

#[derive(Debug)]
pub struct BinOp {
    pub kind: BinOpKind,
    pub lhs: Expr,
    pub rhs: Expr,
}

/// An enum variant literal; lowering does not support these yet.
#[derive(Debug, Clone, Copy, PartialEq, Eq, Structural)]
pub struct EnumDef {
    pub name: IdentId,
    pub variant: IdentId,
}

#[derive(Debug)]
pub enum Expr {
    /// An integer literal.
    Lit(i64),
    Ident(IdentId),
    Bin(Box<BinOp>),
    /// A call of a resolved function.
    Call(Sig),
    Struct(StructDef),
    Enum(EnumDef),
}

/// `name: ty = rhs;`
#[derive(Debug)]
pub struct Let {
    pub name: IdentId,
    pub ty: TyId,
    pub rhs: Expr,
}

#[derive(Debug, Clone, Copy, PartialEq, Eq, Structural)]
pub enum AssignKind {
    /// `=`
    Equals,
    /// `+=`
    Add,
}

/// `lhs = rhs;` or `lhs += rhs;`, where `lhs` is an identifier or a chain of
/// field projections.
#[derive(Debug)]
pub struct Assign {
    pub kind: AssignKind,
    pub lhs: Expr,
    pub rhs: Expr,
}

/// A statement terminated by a semicolon.
#[derive(Debug)]
pub enum Stmt {
    Let(Let),
    Assign(Assign),
    Call(Sig),
    Bin(BinOp),
    /// An explicit `return`, with or without a value.
    Ret(Option<Expr>),
}

#[derive(Debug)]
pub struct Block {
    pub stmts: Vec<Stmt>,
    /// The trailing expression, returned implicitly.
    pub end: Option<Expr>,
}

#[derive(Debug)]
pub struct Func {
    pub sig: Sig,
    pub block: Block,
}

} // verus!
