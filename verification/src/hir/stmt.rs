//! HIR statements.
use vstd::prelude::*;
use crate::base::{LocalId, TypeId};
use crate::hir::decl::HirDecl;
use crate::hir::expr::HirExpr;


verus! {

#[derive(Debug, PartialEq, Eq, Hash)]
pub enum HirStmt {
    Block(Vec<HirStmt>),
    Let { id: LocalId, name: String, ty: TypeId, init: Option<HirExpr> },
    Expr { expr: HirExpr },
    If { cond: HirExpr, then: Box<HirStmt>, otherwise: Option<Box<HirStmt>> },
    While { cond: HirExpr, body: Box<HirStmt> },
    DoWhile { body: Box<HirStmt>, cond: HirExpr },
    ForOf { binding: LocalId, iter: HirExpr, body: Box<HirStmt> },
    ForAwaitOf { binding: LocalId, iter: HirExpr, body: Box<HirStmt> },
    ForIn { binding: LocalId, iter: HirExpr, body: Box<HirStmt> },
    Switch { disc: HirExpr, cases: Vec<HirSwitchCase> },
    Return { value: Option<HirExpr> },
    Break { label: Option<String> },
    Continue { label: Option<String> },
    Throw { expr: HirExpr },
    Try { body: Box<HirStmt>, catch: Option<HirCatchClause>, finally: Option<Box<HirStmt>> },
    Decl(HirDecl),
}

/// One `case` (or `default`, when `test` is `None`) of a `switch`.
#[derive(Debug, PartialEq, Eq, Hash)]
pub struct HirSwitchCase {
    pub test: Option<HirExpr>,
    pub body: Vec<HirStmt>,
}

/// The `catch` part of a `try`, with its optional binding.
#[derive(Debug, PartialEq, Eq, Hash)]
pub struct HirCatchClause {
    pub binding: Option<(LocalId, String)>,
    pub body: Box<HirStmt>,
}

impl HirSwitchCase {
    pub fn new(test: Option<HirExpr>, body: Vec<HirStmt>) -> (c: HirSwitchCase)
        ensures
            c.test == test,
            c.body == body,
    {
        HirSwitchCase { test, body }
    }
}

impl HirCatchClause {
    pub fn new(binding: Option<(LocalId, String)>, body: Box<HirStmt>) -> (c: HirCatchClause)
        ensures
            c.binding == binding,
            c.body == body,
    {
        HirCatchClause { binding, body }
    }
}

impl HirStmt {
    /// `return value;`
    pub fn ret(value: Option<HirExpr>) -> (s: HirStmt)
        ensures
            s == (HirStmt::Return { value }),
    {
        HirStmt::Return { value }
    }

    /// `let name (id): ty = init;`
    pub fn let_(id: LocalId, name: String, ty: TypeId, init: Option<HirExpr>) -> (s: HirStmt)
        ensures
            s == (HirStmt::Let { id, name, ty, init }),
    {
        HirStmt::Let { id, name, ty, init }
    }

    /// An expression statement.
    pub fn expr(expr: HirExpr) -> (s: HirStmt)
        ensures
            s == (HirStmt::Expr { expr }),
    {
        HirStmt::Expr { expr }
    }
}

} // verus!
