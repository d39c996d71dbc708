//! Traversals of HIR bodies for passes to build on. A pass implements
//! `visit_stmt` and `visit_expr` (most by calling the matching `walk_`
//! function to descend, after or before looking at the node); the
//! `walk_` functions call the visitor's hook on each direct child of a node
//! in source order: `visit_block` for a block, `visit_switch_case` for a
//! case, `visit_stmt` or `visit_expr` for the rest.
//!
//! The traversal is described by a log of events that the visitor keeps
//! (`visits`) and that the walks write through `record`: around each hook
//! call on a child, the walk records the child's entry, with the child as it
//! stands before the call, and its leave, with the child as it stands after.
//! A hook may descend further through the walks; what it adds to the log in
//! between is then itself well nested.
use vstd::prelude::*;
use crate::base::Span;
use crate::hir::expr::{HirCallee, HirExpr};
use crate::hir::stmt::{HirStmt, HirSwitchCase};
use crate::hir::view::{CaseV, CatchV, ExprV, OFieldV, StmtV};
pub use crate::hir::visit_log::{
    balanced, calls, calls_with, depth, ev_step, is_call, logged, nested, VisitEv, VisitV,
};
use crate::hir::visit_log::{lemma_call_logged, lemma_logged_nested, lemma_logged_refl, lemma_nested_trans};

verus! {

broadcast use crate::hir::visit_log::lemma_logged_trans;

/// Visits of each statement of `s`, in order.
pub open spec fn stmt_visits(s: Seq<StmtV>) -> Seq<VisitV> {
    s.map_values(|x: StmtV| VisitV::Stmt(x))
}

/// Visits of each expression of `s`, in order.
pub open spec fn expr_visits(s: Seq<ExprV>) -> Seq<VisitV> {
    s.map_values(|x: ExprV| VisitV::Expr(x))
}

/// Visits of each case of `s`, in order.
pub open spec fn case_visits(s: Seq<CaseV>) -> Seq<VisitV> {
    s.map_values(|x: CaseV| VisitV::Case(x))
}

/// A visit of the expression, where there is one.
pub open spec fn opt_expr_visit(o: Option<ExprV>) -> Seq<VisitV> {
    match o {
        Some(e) => seq![VisitV::Expr(e)],
        None => Seq::empty(),
    }
}

/// A visit of the boxed expression, where there is one.
pub open spec fn opt_box_expr_visit(o: Option<Box<ExprV>>) -> Seq<VisitV> {
    match o {
        Some(e) => seq![VisitV::Expr(*e)],
        None => Seq::empty(),
    }
}

/// A visit of the boxed statement, where there is one.
pub open spec fn opt_box_stmt_visit(o: Option<Box<StmtV>>) -> Seq<VisitV> {
    match o {
        Some(s) => seq![VisitV::Stmt(*s)],
        None => Seq::empty(),
    }
}

/// A visit of the body of a `catch` clause, where there is one.
pub open spec fn opt_catch_visit(o: Option<CatchV>) -> Seq<VisitV> {
    match o {
        Some(c) => seq![VisitV::Stmt(*c.body)],
        None => Seq::empty(),
    }
}

/// The hook calls that the walk of a statement makes, in source order:
/// the block hook for a block, the case hook for each case of a `switch`,
/// and the statement or expression hook for its other children; a nested
/// declaration is not entered.
pub open spec fn stmt_children(s: StmtV) -> Seq<VisitV> {
    match s {
        StmtV::Block(ss) => seq![VisitV::Block(ss)],
        StmtV::Let { init, .. } => opt_expr_visit(init),
        StmtV::Expr { expr } => seq![VisitV::Expr(expr)],
        StmtV::If { cond, then, otherwise } => seq![VisitV::Expr(cond), VisitV::Stmt(*then)] + opt_box_stmt_visit(
            otherwise,
        ),
        StmtV::While { cond, body } => seq![VisitV::Expr(cond), VisitV::Stmt(*body)],
        StmtV::DoWhile { body, cond } => seq![VisitV::Stmt(*body), VisitV::Expr(cond)],
        StmtV::ForOf { iter, body, .. } => seq![VisitV::Expr(iter), VisitV::Stmt(*body)],
        StmtV::ForAwaitOf { iter, body, .. } => seq![VisitV::Expr(iter), VisitV::Stmt(*body)],
        StmtV::ForIn { iter, body, .. } => seq![VisitV::Expr(iter), VisitV::Stmt(*body)],
        StmtV::Switch { disc, cases } => seq![VisitV::Expr(disc)] + case_visits(cases),
        StmtV::Return { value } => opt_expr_visit(value),
        StmtV::Throw { expr } => seq![VisitV::Expr(expr)],
        StmtV::Try { body, catch, finally } => seq![VisitV::Stmt(*body)] + opt_catch_visit(catch)
            + opt_box_stmt_visit(finally),
        _ => Seq::empty(),
    }
}

/// The hook calls that the walk of an expression makes, in source order:
/// its direct subexpressions, and the block hook on a closure's body after
/// its captures.
pub open spec fn expr_children(e: ExprV) -> Seq<VisitV> {
    match e {
        ExprV::Field { owner, .. } => seq![VisitV::Expr(*owner)],
        ExprV::Index { owner, index, .. } => seq![VisitV::Expr(*owner), VisitV::Expr(*index)],
        ExprV::Call { callee, args, .. } => expr_visits(args) + callee_visit(callee),
        ExprV::Binary { lhs, rhs, .. } => seq![VisitV::Expr(*lhs), VisitV::Expr(*rhs)],
        ExprV::Unary { expr, .. } => seq![VisitV::Expr(*expr)],
        ExprV::StructLiteral { fields, .. } => sfield_visits(fields),
        ExprV::ObjectLiteral { fields, .. } => ofield_visits(fields),
        ExprV::Ternary { cond, then_branch, else_branch, .. } => seq![
            VisitV::Expr(*cond),
            VisitV::Expr(*then_branch),
            VisitV::Expr(*else_branch),
        ],
        ExprV::ArrayLiteral { elements, .. } => expr_visits(elements),
        ExprV::Closure { captures, body, .. } => expr_visits(captures) + seq![VisitV::Block(body)],
        ExprV::Await { expr, .. } => seq![VisitV::Expr(*expr)],
        ExprV::Yield { expr, .. } => opt_box_expr_visit(expr),
        ExprV::Template { tag, expressions, .. } => opt_box_expr_visit(tag) + expr_visits(expressions),
        ExprV::New { callee, args, .. } => seq![VisitV::Expr(*callee)] + expr_visits(args),
        ExprV::OptionalChain { base, .. } => seq![VisitV::Expr(*base)],
        ExprV::TypeAssertion { expr, .. } => seq![VisitV::Expr(*expr)],
        ExprV::Assignment { target, value, .. } => seq![VisitV::Expr(*target), VisitV::Expr(*value)],
        ExprV::CompoundUpdate { target, rhs, .. } => seq![VisitV::Expr(*target), VisitV::Expr(*rhs)],
        ExprV::Sequence { exprs, .. } => expr_visits(exprs),
        ExprV::Import { source, .. } => seq![VisitV::Expr(*source)],
        _ => Seq::empty(),
    }
}

/// A read-only traversal of statements and expressions. `visits` is the
/// log of the traversal so far, written through `record`; each hook may
/// look at its node and descend through the walks, and what it adds to the
/// log is well nested.
pub trait Visitor {
    /// The events of the traversal so far.
    spec fn visits(&self) -> Seq<VisitEv>;

    /// Adds an event to the log; it does nothing at run time.
    fn record(&mut self, ev: Ghost<VisitEv>)
        ensures
            final(self).visits() == old(self).visits().push(ev@),
    ;

    /// Visits a statement; [`walk_stmt`] calls the hooks on its children.
    fn visit_stmt(&mut self, stmt: &HirStmt)
        ensures
            nested(old(self).visits(), final(self).visits()),
    ;

    /// Visits an expression; [`walk_expr`] calls the hooks on its children.
    fn visit_expr(&mut self, expr: &HirExpr)
        ensures
            nested(old(self).visits(), final(self).visits()),
    ;

    /// Visits the statements of a block; by default, calls the statement
    /// hook on each in order.
    fn visit_block(&mut self, stmts: &Vec<HirStmt>)
        ensures
            nested(old(self).visits(), final(self).visits()),
    {
        let ghost sv = crate::hir::view::stmts_v(stmts@);
        proof {
            lemma_logged_refl(self.visits());
            assert(stmt_visits(sv.subrange(0, 0)) =~= Seq::<VisitV>::empty());
        }
        let mut i: usize = 0;
        while i < stmts.len()
            invariant
                0 <= i <= stmts@.len(),
                sv == crate::hir::view::stmts_v(stmts@),
                logged(old(self).visits(), self.visits(), stmt_visits(sv.subrange(0, i as int)), stmt_visits(sv.subrange(0, i as int))),
            decreases stmts@.len() - i,
        {
            let ghost a = self.visits();
            self.record(Ghost(VisitEv::Enter(VisitV::Stmt(sv[i as int]))));
            self.visit_stmt(&stmts[i]);
            let ghost b = self.visits();
            self.record(Ghost(VisitEv::Leave(VisitV::Stmt(sv[i as int]))));
            proof {
                lemma_call_logged(a, b, self.visits(), VisitV::Stmt(sv[i as int]), VisitV::Stmt(sv[i as int]));
                assert(stmt_visits(sv.subrange(0, i + 1)) =~= stmt_visits(sv.subrange(0, i as int)) + seq![VisitV::Stmt(sv[i as int])]);
            }
            i += 1;
        }
        proof {
            lemma_logged_nested(
                old(self).visits(),
                self.visits(),
                stmt_visits(sv.subrange(0, i as int)),
                stmt_visits(sv.subrange(0, i as int)),
            );
        }
    }

    /// Visits a `switch` case; by default, calls the expression hook on its
    /// test, then the statement hook on each of its statements.
    fn visit_switch_case(&mut self, case: &HirSwitchCase)
        ensures
            nested(old(self).visits(), final(self).visits()),
    {
        let ghost s0 = self.visits();
        match &case.test {
            Some(t) => {
                self.record(Ghost(VisitEv::Enter(VisitV::Expr(t@))));
                self.visit_expr(t);
                let ghost b = self.visits();
                self.record(Ghost(VisitEv::Leave(VisitV::Expr(t@))));
                proof {
                    lemma_call_logged(s0, b, self.visits(), VisitV::Expr(t@), VisitV::Expr(t@));
                    lemma_logged_nested(s0, self.visits(), seq![VisitV::Expr(t@)], seq![VisitV::Expr(t@)]);
                }
            },
            None => {
                proof {
                    lemma_logged_refl(s0);
                    lemma_logged_nested(s0, s0, Seq::empty(), Seq::empty());
                }
            },
        }
        let ghost s1 = self.visits();
        let ghost sv = crate::hir::view::stmts_v(case.body@);
        proof {
            lemma_logged_refl(s1);
            assert(stmt_visits(sv.subrange(0, 0)) =~= Seq::<VisitV>::empty());
        }
        let mut i: usize = 0;
        while i < case.body.len()
            invariant
                0 <= i <= case.body@.len(),
                sv == crate::hir::view::stmts_v(case.body@),
                logged(s1, self.visits(), stmt_visits(sv.subrange(0, i as int)), stmt_visits(sv.subrange(0, i as int))),
            decreases case.body@.len() - i,
        {
            let ghost a = self.visits();
            self.record(Ghost(VisitEv::Enter(VisitV::Stmt(sv[i as int]))));
            self.visit_stmt(&case.body[i]);
            let ghost b = self.visits();
            self.record(Ghost(VisitEv::Leave(VisitV::Stmt(sv[i as int]))));
            proof {
                lemma_call_logged(a, b, self.visits(), VisitV::Stmt(sv[i as int]), VisitV::Stmt(sv[i as int]));
                assert(stmt_visits(sv.subrange(0, i + 1)) =~= stmt_visits(sv.subrange(0, i as int)) + seq![VisitV::Stmt(sv[i as int])]);
            }
            i += 1;
        }
        proof {
            lemma_logged_nested(s1, self.visits(), stmt_visits(sv.subrange(0, i as int)), stmt_visits(sv.subrange(0, i as int)));
            lemma_nested_trans(s0, s1, self.visits());
        }
    }
}

/// Calls the statement hook on `s`, between its entry and its leave.
fn call_stmt<V: Visitor + ?Sized>(v: &mut V, s: &HirStmt)
    ensures
        logged(old(v).visits(), final(v).visits(), seq![VisitV::Stmt(s@)], seq![VisitV::Stmt(s@)]),
{
    let ghost a = v.visits();
    v.record(Ghost(VisitEv::Enter(VisitV::Stmt(s@))));
    v.visit_stmt(s);
    let ghost b = v.visits();
    v.record(Ghost(VisitEv::Leave(VisitV::Stmt(s@))));
    proof {
        lemma_call_logged(a, b, v.visits(), VisitV::Stmt(s@), VisitV::Stmt(s@));
    }
}

/// Calls the expression hook on `e`, between its entry and its leave.
fn call_expr<V: Visitor + ?Sized>(v: &mut V, e: &HirExpr)
    ensures
        logged(old(v).visits(), final(v).visits(), seq![VisitV::Expr(e@)], seq![VisitV::Expr(e@)]),
{
    let ghost a = v.visits();
    v.record(Ghost(VisitEv::Enter(VisitV::Expr(e@))));
    v.visit_expr(e);
    let ghost b = v.visits();
    v.record(Ghost(VisitEv::Leave(VisitV::Expr(e@))));
    proof {
        lemma_call_logged(a, b, v.visits(), VisitV::Expr(e@), VisitV::Expr(e@));
    }
}

/// Calls the block hook on `stmts`, between its entry and its leave.
fn call_block<V: Visitor + ?Sized>(v: &mut V, stmts: &Vec<HirStmt>)
    ensures
        logged(
            old(v).visits(),
            final(v).visits(),
            seq![VisitV::Block(crate::hir::view::stmts_v(stmts@))],
            seq![VisitV::Block(crate::hir::view::stmts_v(stmts@))],
        ),
{
    let ghost x = VisitV::Block(crate::hir::view::stmts_v(stmts@));
    let ghost a = v.visits();
    v.record(Ghost(VisitEv::Enter(x)));
    v.visit_block(stmts);
    let ghost b = v.visits();
    v.record(Ghost(VisitEv::Leave(x)));
    proof {
        lemma_call_logged(a, b, v.visits(), x, x);
    }
}

/// Calls the case hook on `c`, between its entry and its leave.
fn call_case<V: Visitor + ?Sized>(v: &mut V, c: &HirSwitchCase)
    ensures
        logged(
            old(v).visits(),
            final(v).visits(),
            seq![VisitV::Case(crate::hir::view::case_v(*c))],
            seq![VisitV::Case(crate::hir::view::case_v(*c))],
        ),
{
    let ghost x = VisitV::Case(crate::hir::view::case_v(*c));
    let ghost a = v.visits();
    v.record(Ghost(VisitEv::Enter(x)));
    v.visit_switch_case(c);
    let ghost b = v.visits();
    v.record(Ghost(VisitEv::Leave(x)));
    proof {
        lemma_call_logged(a, b, v.visits(), x, x);
    }
}

/// Calls the expression hook on the expression, where there is one.
fn call_opt_expr<V: Visitor + ?Sized>(v: &mut V, o: &Option<HirExpr>)
    ensures
        logged(
            old(v).visits(),
            final(v).visits(),
            opt_expr_visit(crate::hir::view::opt_expr_v(*o)),
            opt_expr_visit(crate::hir::view::opt_expr_v(*o)),
        ),
{
    proof {
        crate::hir::view::lemma_opt_expr_v(*o);
        lemma_logged_refl(v.visits());
    }
    match o {
        Some(e) => call_expr(v, e),
        None => {},
    }
}

/// Calls the expression hook on the boxed expression, where there is one.
fn call_opt_box_expr<V: Visitor + ?Sized>(v: &mut V, o: &Option<Box<HirExpr>>)
    ensures
        logged(
            old(v).visits(),
            final(v).visits(),
            opt_box_expr_visit(crate::hir::view::opt_box_expr_v(*o)),
            opt_box_expr_visit(crate::hir::view::opt_box_expr_v(*o)),
        ),
{
    proof {
        crate::hir::view::lemma_opt_box_expr_v(*o);
        lemma_logged_refl(v.visits());
    }
    match o {
        Some(e) => call_expr(v, e),
        None => {},
    }
}

/// Calls the statement hook on the boxed statement, where there is one.
fn call_opt_box_stmt<V: Visitor + ?Sized>(v: &mut V, o: &Option<Box<HirStmt>>)
    ensures
        logged(
            old(v).visits(),
            final(v).visits(),
            opt_box_stmt_visit(crate::hir::view::opt_box_stmt_v(*o)),
            opt_box_stmt_visit(crate::hir::view::opt_box_stmt_v(*o)),
        ),
{
    proof {
        crate::hir::view::lemma_opt_box_stmt_v(*o);
        lemma_logged_refl(v.visits());
    }
    match o {
        Some(s) => call_stmt(v, s),
        None => {},
    }
}

/// Calls the statement hook on the body of the `catch` clause, where there
/// is one.
fn call_catch<V: Visitor + ?Sized>(v: &mut V, o: &Option<crate::hir::stmt::HirCatchClause>)
    ensures
        logged(
            old(v).visits(),
            final(v).visits(),
            opt_catch_visit(crate::hir::view::opt_catch_v(*o)),
            opt_catch_visit(crate::hir::view::opt_catch_v(*o)),
        ),
{
    proof {
        crate::hir::view::lemma_opt_catch_v(*o);
        lemma_logged_refl(v.visits());
    }
    match o {
        Some(c) => call_stmt(v, &c.body),
        None => {},
    }
}

/// Calls the expression hook on each expression of `exprs` in order.
fn call_all<V: Visitor + ?Sized>(v: &mut V, exprs: &Vec<HirExpr>)
    ensures
        logged(
            old(v).visits(),
            final(v).visits(),
            expr_visits(crate::hir::view::exprs_v(exprs@)),
            expr_visits(crate::hir::view::exprs_v(exprs@)),
        ),
{
    let ghost ev = crate::hir::view::exprs_v(exprs@);
    proof {
        lemma_logged_refl(v.visits());
        assert(expr_visits(ev.subrange(0, 0)) =~= Seq::<VisitV>::empty());
    }
    let mut i: usize = 0;
    while i < exprs.len()
        invariant
            0 <= i <= exprs@.len(),
            ev == crate::hir::view::exprs_v(exprs@),
            logged(old(v).visits(), v.visits(), expr_visits(ev.subrange(0, i as int)), expr_visits(ev.subrange(0, i as int))),
        decreases exprs@.len() - i,
    {
        call_expr(v, &exprs[i]);
        proof {
            assert(ev[i as int] == exprs@[i as int]@);
            assert(expr_visits(ev.subrange(0, i + 1)) =~= expr_visits(ev.subrange(0, i as int)) + seq![VisitV::Expr(ev[i as int])]);
        }
        i += 1;
    }
    proof {
        assert(ev.subrange(0, ev.len() as int) =~= ev);
    }
}

/// Calls the case hook on each case of `cases` in order.
fn call_cases<V: Visitor + ?Sized>(v: &mut V, cases: &Vec<HirSwitchCase>)
    ensures
        logged(
            old(v).visits(),
            final(v).visits(),
            case_visits(crate::hir::view::cases_v(cases@)),
            case_visits(crate::hir::view::cases_v(cases@)),
        ),
{
    let ghost cv = crate::hir::view::cases_v(cases@);
    proof {
        lemma_logged_refl(v.visits());
        assert(case_visits(cv.subrange(0, 0)) =~= Seq::<VisitV>::empty());
    }
    let mut i: usize = 0;
    while i < cases.len()
        invariant
            0 <= i <= cases@.len(),
            cv == crate::hir::view::cases_v(cases@),
            logged(old(v).visits(), v.visits(), case_visits(cv.subrange(0, i as int)), case_visits(cv.subrange(0, i as int))),
        decreases cases@.len() - i,
    {
        call_case(v, &cases[i]);
        proof {
            assert(cv[i as int] == crate::hir::view::case_v(cases@[i as int]));
            assert(case_visits(cv.subrange(0, i + 1)) =~= case_visits(cv.subrange(0, i as int)) + seq![VisitV::Case(cv[i as int])]);
        }
        i += 1;
    }
    proof {
        assert(cv.subrange(0, cv.len() as int) =~= cv);
    }
}

/// Calls the hooks on the children of a statement, in source order: the
/// block hook on a block's statements, the case hook on each case of a
/// `switch`, the statement or expression hook on the other children. A
/// nested declaration is not entered.
pub fn walk_stmt<V: Visitor + ?Sized>(v: &mut V, stmt: &HirStmt)
    ensures
        logged(old(v).visits(), final(v).visits(), stmt_children(stmt@), stmt_children(stmt@)),
{
    let ghost s0 = v.visits();
    match stmt {
        HirStmt::Block(stmts) => call_block(v, stmts),
        HirStmt::Let { init, .. } => call_opt_expr(v, init),
        HirStmt::Expr { expr } => call_expr(v, expr),
        HirStmt::If { cond, then, otherwise } => {
            call_expr(v, cond);
            call_stmt(v, then);
            call_opt_box_stmt(v, otherwise);
        },
        HirStmt::While { cond, body } => {
            call_expr(v, cond);
            call_stmt(v, body);
        },
        HirStmt::DoWhile { body, cond } => {
            call_stmt(v, body);
            call_expr(v, cond);
        },
        HirStmt::ForOf { iter, body, .. } | HirStmt::ForAwaitOf { iter, body, .. } | HirStmt::ForIn { iter, body, .. } => {
            call_expr(v, iter);
            call_stmt(v, body);
        },
        HirStmt::Switch { disc, cases } => {
            call_expr(v, disc);
            call_cases(v, cases);
        },
        HirStmt::Return { value } => call_opt_expr(v, value),
        HirStmt::Throw { expr } => call_expr(v, expr),
        HirStmt::Try { body, catch, finally } => {
            call_stmt(v, body);
            call_catch(v, catch);
            call_opt_box_stmt(v, finally);
        },
        HirStmt::Break { .. } | HirStmt::Continue { .. } | HirStmt::Decl(_) => {
            proof {
                lemma_logged_refl(s0);
            }
        },
    }
    proof {
        lemma_stmt_children_parts(stmt@);
    }
}

/// The hook calls of a statement, spelled out as the walk makes them.
proof fn lemma_stmt_children_parts(s: StmtV)
    ensures
        match s {
            StmtV::Block(ss) => stmt_children(s) == seq![VisitV::Block(ss)],
            StmtV::If { cond, then, otherwise } => stmt_children(s) == (seq![VisitV::Expr(cond)] + seq![VisitV::Stmt(*then)])
                + opt_box_stmt_visit(otherwise),
            StmtV::While { cond, body } => stmt_children(s) == seq![VisitV::Expr(cond)] + seq![VisitV::Stmt(*body)],
            StmtV::DoWhile { body, cond } => stmt_children(s) == seq![VisitV::Stmt(*body)] + seq![VisitV::Expr(cond)],
            StmtV::ForOf { iter, body, .. } => stmt_children(s) == seq![VisitV::Expr(iter)] + seq![VisitV::Stmt(*body)],
            StmtV::ForAwaitOf { iter, body, .. } => stmt_children(s) == seq![VisitV::Expr(iter)] + seq![VisitV::Stmt(*body)],
            StmtV::ForIn { iter, body, .. } => stmt_children(s) == seq![VisitV::Expr(iter)] + seq![VisitV::Stmt(*body)],
            StmtV::Break { .. } | StmtV::Continue { .. } | StmtV::Decl(_) => stmt_children(s) == Seq::<VisitV>::empty(),
            _ => true,
        },
{
    match s {
        StmtV::If { cond, then, otherwise } => {
            assert(stmt_children(s) =~= (seq![VisitV::Expr(cond)] + seq![VisitV::Stmt(*then)]) + opt_box_stmt_visit(otherwise));
        },
        StmtV::While { cond, body } => {
            assert(stmt_children(s) =~= seq![VisitV::Expr(cond)] + seq![VisitV::Stmt(*body)]);
        },
        StmtV::DoWhile { body, cond } => {
            assert(stmt_children(s) =~= seq![VisitV::Stmt(*body)] + seq![VisitV::Expr(cond)]);
        },
        StmtV::ForOf { iter, body, .. } => {
            assert(stmt_children(s) =~= seq![VisitV::Expr(iter)] + seq![VisitV::Stmt(*body)]);
        },
        StmtV::ForAwaitOf { iter, body, .. } => {
            assert(stmt_children(s) =~= seq![VisitV::Expr(iter)] + seq![VisitV::Stmt(*body)]);
        },
        StmtV::ForIn { iter, body, .. } => {
            assert(stmt_children(s) =~= seq![VisitV::Expr(iter)] + seq![VisitV::Stmt(*body)]);
        },
        _ => {},
    }
}

/// Calls the hooks on the children of an expression, in source order: the
/// expression hook on its direct subexpressions, and the block hook on a
/// closure's body after its captures.
pub fn walk_expr<V: Visitor + ?Sized>(v: &mut V, expr: &HirExpr)
    ensures
        logged(old(v).visits(), final(v).visits(), expr_children(expr@), expr_children(expr@)),
{
    let ghost s0 = v.visits();
    match expr {
        HirExpr::Field { owner, .. } => call_expr(v, owner),
        HirExpr::Index { owner, index, .. } => {
            call_expr(v, owner);
            call_expr(v, index);
        },
        HirExpr::Call { callee, args, .. } => {
            call_all(v, args);
            let ghost s1 = v.visits();
            match callee {
                HirCallee::Indirect(inner) => call_expr(v, inner),
                _ => {
                    proof {
                        lemma_logged_refl(s1);
                    }
                },
            }
            proof {
                crate::hir::view::lemma_callee_v(*callee);
            }
        },
        HirExpr::Binary { lhs, rhs, .. } => {
            call_expr(v, lhs);
            call_expr(v, rhs);
        },
        HirExpr::Unary { expr: x, .. } => call_expr(v, x),
        HirExpr::StructLiteral { fields, .. } => {
            let ghost fv = crate::hir::view::sfields_v(fields@);
            proof {
                lemma_logged_refl(s0);
                assert(sfield_visits(fv.subrange(0, 0)) =~= Seq::<VisitV>::empty());
            }
            let mut i: usize = 0;
            while i < fields.len()
                invariant
                    0 <= i <= fields@.len(),
                    fv == crate::hir::view::sfields_v(fields@),
                    logged(
                        s0,
                        v.visits(),
                        sfield_visits(fv.subrange(0, i as int)),
                        sfield_visits(fv.subrange(0, i as int)),
                    ),
                decreases fields@.len() - i,
            {
                call_expr(v, &fields[i].1);
                proof {
                    assert(fv[i as int].1 == fields@[i as int].1@);
                    assert(sfield_visits(fv.subrange(0, i + 1)) =~= sfield_visits(fv.subrange(
                        0,
                        i as int,
                    )) + seq![VisitV::Expr(fv[i as int].1)]);
                }
                i += 1;
            }
            proof {
                assert(fv.subrange(0, fv.len() as int) =~= fv);
            }
        },
        HirExpr::ObjectLiteral { fields, .. } => {
            let ghost fv = crate::hir::view::ofields_v(fields@);
            proof {
                lemma_logged_refl(s0);
                assert(ofield_visits(fv.subrange(0, 0)) =~= Seq::<VisitV>::empty());
            }
            let mut i: usize = 0;
            while i < fields.len()
                invariant
                    0 <= i <= fields@.len(),
                    fv == crate::hir::view::ofields_v(fields@),
                    logged(
                        s0,
                        v.visits(),
                        ofield_visits(fv.subrange(0, i as int)),
                        ofield_visits(fv.subrange(0, i as int)),
                    ),
                decreases fields@.len() - i,
            {
                let x = fields[i].value();
                call_expr(v, x);
                proof {
                    assert(crate::hir::view::ofield_value(fv[i as int]) == x@);
                    assert(ofield_visits(fv.subrange(0, i + 1))
                        =~= ofield_visits(fv.subrange(0, i as int))
                        + seq![VisitV::Expr(crate::hir::view::ofield_value(fv[i as int]))]);
                }
                i += 1;
            }
            proof {
                assert(fv.subrange(0, fv.len() as int) =~= fv);
            }
        },
        HirExpr::Ternary { cond, then_branch, else_branch, .. } => {
            call_expr(v, cond);
            call_expr(v, then_branch);
            call_expr(v, else_branch);
        },
        HirExpr::ArrayLiteral { elements, .. } => call_all(v, elements),
        HirExpr::Closure { captures, body, .. } => {
            call_all(v, captures);
            call_block(v, body);
        },
        HirExpr::Await { expr: x, .. } => call_expr(v, x),
        HirExpr::Yield { expr: x, .. } => call_opt_box_expr(v, x),
        HirExpr::Template { tag, expressions, .. } => {
            call_opt_box_expr(v, tag);
            call_all(v, expressions);
        },
        HirExpr::New { callee, args, .. } => {
            call_expr(v, callee);
            call_all(v, args);
        },
        HirExpr::OptionalChain { base, .. } => call_expr(v, base),
        HirExpr::TypeAssertion { expr: x, .. } => call_expr(v, x),
        HirExpr::Assignment { target, value, .. } => {
            call_expr(v, target);
            call_expr(v, value);
        },
        HirExpr::CompoundUpdate { target, rhs, .. } => {
            call_expr(v, target);
            call_expr(v, rhs);
        },
        HirExpr::Sequence { exprs, .. } => call_all(v, exprs),
        HirExpr::Import { source, .. } => call_expr(v, source),
        HirExpr::Unit(_) | HirExpr::Bool(_, _) | HirExpr::Int(_, _) | HirExpr::Float(_, _) | HirExpr::String(_, _)
        | HirExpr::Null(_) | HirExpr::Undefined(_) | HirExpr::RegExp { .. } | HirExpr::BigInt { .. }
        | HirExpr::Local { .. } | HirExpr::Global { .. } => {
            proof {
                lemma_logged_refl(s0);
            }
        },
    }
    proof {
        lemma_expr_children_parts(expr@);
    }
}

/// The hook calls of an expression, spelled out as the walk makes them.
proof fn lemma_expr_children_parts(e: ExprV)
    ensures
        match e {
            ExprV::Index { owner, index, .. } => expr_children(e) == seq![VisitV::Expr(*owner)] + seq![VisitV::Expr(*index)],
            ExprV::Binary { lhs, rhs, .. } => expr_children(e) == seq![VisitV::Expr(*lhs)] + seq![VisitV::Expr(*rhs)],
            ExprV::Ternary { cond, then_branch, else_branch, .. } => expr_children(e) == (seq![VisitV::Expr(*cond)]
                + seq![VisitV::Expr(*then_branch)]) + seq![VisitV::Expr(*else_branch)],
            ExprV::Assignment { target, value, .. } => expr_children(e) == seq![VisitV::Expr(*target)] + seq![VisitV::Expr(*value)],
            ExprV::CompoundUpdate { target, rhs, .. } => expr_children(e) == seq![VisitV::Expr(*target)] + seq![VisitV::Expr(*rhs)],
            ExprV::Unit(..) | ExprV::Bool(..) | ExprV::Int(..) | ExprV::Float(..) | ExprV::String(..) | ExprV::Null(..)
            | ExprV::Undefined(..) | ExprV::RegExp { .. } | ExprV::BigInt { .. } | ExprV::Local { .. }
            | ExprV::Global { .. } => expr_children(e) == Seq::<VisitV>::empty(),
            ExprV::Call { callee, args, .. } => match callee {
                crate::hir::view::CalleeV::Indirect(inner) => true,
                _ => expr_children(e) == expr_visits(args) + Seq::<VisitV>::empty(),
            },
            _ => true,
        },
{
    match e {
        ExprV::Index { owner, index, .. } => {
            assert(expr_children(e) =~= seq![VisitV::Expr(*owner)] + seq![VisitV::Expr(*index)]);
        },
        ExprV::Binary { lhs, rhs, .. } => {
            assert(expr_children(e) =~= seq![VisitV::Expr(*lhs)] + seq![VisitV::Expr(*rhs)]);
        },
        ExprV::Ternary { cond, then_branch, else_branch, .. } => {
            assert(expr_children(e) =~= (seq![VisitV::Expr(*cond)] + seq![VisitV::Expr(*then_branch)]) + seq![
                VisitV::Expr(*else_branch),
            ]);
        },
        ExprV::Assignment { target, value, .. } => {
            assert(expr_children(e) =~= seq![VisitV::Expr(*target)] + seq![VisitV::Expr(*value)]);
        },
        ExprV::CompoundUpdate { target, rhs, .. } => {
            assert(expr_children(e) =~= seq![VisitV::Expr(*target)] + seq![VisitV::Expr(*rhs)]);
        },
        _ => {},
    }
}


/// The placeholder that stands for a child expression in a frame.
pub open spec fn dummy_expr() -> ExprV {
    ExprV::Unit(Span { start: 0, end: 0 })
}

/// The placeholder that stands for a child statement in a frame.
pub open spec fn dummy_stmt() -> StmtV {
    StmtV::Block(Seq::empty())
}

/// A placeholder for each expression of `s`.
pub open spec fn blank_exprs(s: Seq<ExprV>) -> Seq<ExprV> {
    s.map_values(|x: ExprV| dummy_expr())
}

/// A placeholder for the boxed expression, where there is one.
pub open spec fn blank_box_expr(o: Option<Box<ExprV>>) -> Option<Box<ExprV>> {
    match o {
        Some(_) => Some(Box::new(dummy_expr())),
        None => None,
    }
}

/// A placeholder for the expression, where there is one.
pub open spec fn blank_opt_expr(o: Option<ExprV>) -> Option<ExprV> {
    match o {
        Some(_) => Some(dummy_expr()),
        None => None,
    }
}

/// A placeholder for the boxed statement, where there is one.
pub open spec fn blank_box_stmt(o: Option<Box<StmtV>>) -> Option<Box<StmtV>> {
    match o {
        Some(_) => Some(Box::new(dummy_stmt())),
        None => None,
    }
}

/// An expression with each child that its walk calls a hook on replaced by
/// a placeholder: what an in-place walk leaves as it was.
pub open spec fn expr_frame(e: ExprV) -> ExprV {
    match e {
        ExprV::Field { field, field_name, ty, span, .. } => ExprV::Field {
            owner: Box::new(dummy_expr()),
            field,
            field_name,
            ty,
            span,
        },
        ExprV::Index { ty, span, .. } => ExprV::Index {
            owner: Box::new(dummy_expr()),
            index: Box::new(dummy_expr()),
            ty,
            span,
        },
        ExprV::Call { callee, args, type_args, ty, span } => ExprV::Call {
            callee: callee_blank(callee),
            args: blank_exprs(args),
            type_args,
            ty,
            span,
        },
        ExprV::Binary { op, ty, span, .. } => ExprV::Binary {
            op,
            lhs: Box::new(dummy_expr()),
            rhs: Box::new(dummy_expr()),
            ty,
            span,
        },
        ExprV::Unary { op, ty, span, .. } => ExprV::Unary { op, expr: Box::new(dummy_expr()), ty, span },
        ExprV::StructLiteral { ty, fields, span } => ExprV::StructLiteral {
            ty,
            fields: sfields_blank(fields),
            span,
        },
        ExprV::ObjectLiteral { fields, ty, span } => ExprV::ObjectLiteral {
            fields: ofields_blank(fields),
            ty,
            span,
        },
        ExprV::Ternary { ty, span, .. } => ExprV::Ternary {
            cond: Box::new(dummy_expr()),
            then_branch: Box::new(dummy_expr()),
            else_branch: Box::new(dummy_expr()),
            ty,
            span,
        },
        ExprV::ArrayLiteral { elements, ty, span } => ExprV::ArrayLiteral { elements: blank_exprs(elements), ty, span },
        ExprV::Closure { id, params, captures, ty, span, .. } => ExprV::Closure {
            id,
            params,
            captures: blank_exprs(captures),
            body: Seq::empty(),
            ty,
            span,
        },
        ExprV::Await { ty, span, .. } => ExprV::Await { expr: Box::new(dummy_expr()), ty, span },
        ExprV::Yield { expr, ty, span } => ExprV::Yield { expr: blank_box_expr(expr), ty, span },
        ExprV::Template { tag, expressions, cooked_parts, raw_parts, ty, span } => ExprV::Template {
            tag: blank_box_expr(tag),
            expressions: blank_exprs(expressions),
            cooked_parts,
            raw_parts,
            ty,
            span,
        },
        ExprV::New { args, ty, span, .. } => ExprV::New { callee: Box::new(dummy_expr()), args: blank_exprs(args), ty, span },
        ExprV::OptionalChain { ty, span, .. } => ExprV::OptionalChain { base: Box::new(dummy_expr()), ty, span },
        ExprV::TypeAssertion { target, span, .. } => ExprV::TypeAssertion { expr: Box::new(dummy_expr()), target, span },
        ExprV::Assignment { ty, span, .. } => ExprV::Assignment {
            target: Box::new(dummy_expr()),
            value: Box::new(dummy_expr()),
            ty,
            span,
        },
        ExprV::CompoundUpdate { op, post, ty, span, .. } => ExprV::CompoundUpdate {
            target: Box::new(dummy_expr()),
            op,
            rhs: Box::new(dummy_expr()),
            post,
            ty,
            span,
        },
        ExprV::Sequence { exprs, ty, span } => ExprV::Sequence { exprs: blank_exprs(exprs), ty, span },
        ExprV::Import { ty, span, .. } => ExprV::Import { source: Box::new(dummy_expr()), ty, span },
        _ => e,
    }
}

/// A statement with each child that its walk calls a hook on replaced by
/// a placeholder: what an in-place walk leaves as it was.
pub open spec fn stmt_frame(s: StmtV) -> StmtV {
    match s {
        StmtV::Block(_) => StmtV::Block(Seq::empty()),
        StmtV::Let { id, name, ty, init } => StmtV::Let { id, name, ty, init: blank_opt_expr(init) },
        StmtV::Expr { .. } => StmtV::Expr { expr: dummy_expr() },
        StmtV::If { otherwise, .. } => StmtV::If {
            cond: dummy_expr(),
            then: Box::new(dummy_stmt()),
            otherwise: blank_box_stmt(otherwise),
        },
        StmtV::While { .. } => StmtV::While { cond: dummy_expr(), body: Box::new(dummy_stmt()) },
        StmtV::DoWhile { .. } => StmtV::DoWhile { body: Box::new(dummy_stmt()), cond: dummy_expr() },
        StmtV::ForOf { binding, .. } => StmtV::ForOf { binding, iter: dummy_expr(), body: Box::new(dummy_stmt()) },
        StmtV::ForAwaitOf { binding, .. } => StmtV::ForAwaitOf { binding, iter: dummy_expr(), body: Box::new(dummy_stmt()) },
        StmtV::ForIn { binding, .. } => StmtV::ForIn { binding, iter: dummy_expr(), body: Box::new(dummy_stmt()) },
        StmtV::Switch { cases, .. } => StmtV::Switch {
            disc: dummy_expr(),
            cases: cases_blank(cases),
        },
        StmtV::Return { value } => StmtV::Return { value: blank_opt_expr(value) },
        StmtV::Throw { .. } => StmtV::Throw { expr: dummy_expr() },
        StmtV::Try { catch, finally, .. } => StmtV::Try {
            body: Box::new(dummy_stmt()),
            catch: match catch {
                Some(c) => Some(CatchV { binding: c.binding, body: Box::new(dummy_stmt()) }),
                None => None,
            },
            finally: blank_box_stmt(finally),
        },
        _ => s,
    }
}

/// An in-place traversal of statements and expressions. `visits` is the
/// log of the traversal so far, written through `record`; each hook may
/// change its node and descend through the walks, and what it adds to the
/// log is well nested. The log records each child as it stood before its
/// hook call and as it stands after.
pub trait VisitorMut {
    /// The events of the traversal so far.
    spec fn visits(&self) -> Seq<VisitEv>;

    /// Adds an event to the log; it does nothing at run time.
    fn record(&mut self, ev: Ghost<VisitEv>)
        ensures
            final(self).visits() == old(self).visits().push(ev@),
    ;

    /// Visits a statement in place; [`walk_stmt_mut`] calls the hooks on
    /// its children.
    fn visit_stmt_mut(&mut self, stmt: &mut HirStmt)
        ensures
            nested(old(self).visits(), final(self).visits()),
    ;

    /// Visits an expression in place; [`walk_expr_mut`] calls the hooks on
    /// its children.
    fn visit_expr_mut(&mut self, expr: &mut HirExpr)
        ensures
            nested(old(self).visits(), final(self).visits()),
    ;

    /// Visits the statements of a block in place, keeping their number; by
    /// default, calls the statement hook on each in order.
    fn visit_block_mut(&mut self, stmts: &mut Vec<HirStmt>)
        ensures
            nested(old(self).visits(), final(self).visits()),
            final(stmts)@.len() == old(stmts)@.len(),
    {
        proof {
            lemma_logged_refl(self.visits());
            lemma_logged_nested(self.visits(), self.visits(), Seq::empty(), Seq::empty());
        }
        let ghost n = stmts@.len();
        let mut i: usize = 0;
        while i < stmts.len()
            invariant
                0 <= i <= stmts@.len(),
                stmts@.len() == n,
                nested(old(self).visits(), self.visits()),
            decreases stmts@.len() - i,
        {
            let ghost a = self.visits();
            self.record(Ghost(VisitEv::Enter(VisitV::Stmt(stmts@[i as int]@))));
            let ghost x0 = stmts@[i as int]@;
            self.visit_stmt_mut(&mut stmts[i]);
            let ghost b = self.visits();
            self.record(Ghost(VisitEv::Leave(VisitV::Stmt(stmts@[i as int]@))));
            proof {
                lemma_call_logged(a, b, self.visits(), VisitV::Stmt(x0), VisitV::Stmt(stmts@[i as int]@));
                lemma_logged_nested(a, self.visits(), seq![VisitV::Stmt(x0)], seq![VisitV::Stmt(stmts@[i as int]@)]);
                lemma_nested_trans(old(self).visits(), a, self.visits());
            }
            i += 1;
        }
    }

    /// Visits a `switch` case in place; by default, calls the expression
    /// hook on its test, then the statement hook on each of its statements.
    fn visit_switch_case_mut(&mut self, case: &mut HirSwitchCase)
        ensures
            nested(old(self).visits(), final(self).visits()),
    {
        proof {
            lemma_logged_refl(self.visits());
            lemma_logged_nested(self.visits(), self.visits(), Seq::empty(), Seq::empty());
        }
        match &mut case.test {
            Some(t) => {
                let ghost a = self.visits();
                let ghost x0 = t@;
                self.record(Ghost(VisitEv::Enter(VisitV::Expr(x0))));
                self.visit_expr_mut(t);
                let ghost b = self.visits();
                self.record(Ghost(VisitEv::Leave(VisitV::Expr(t@))));
                proof {
                    lemma_call_logged(a, b, self.visits(), VisitV::Expr(x0), VisitV::Expr(t@));
                    lemma_logged_nested(a, self.visits(), seq![VisitV::Expr(x0)], seq![VisitV::Expr(t@)]);
                }
            },
            None => {},
        }
        let ghost s1 = self.visits();
        self.visit_block_mut(&mut case.body);
        proof {
            lemma_nested_trans(old(self).visits(), s1, self.visits());
        }
    }
}

/// Calls the statement hook on `s` in place, between its entry and its
/// leave.
fn call_stmt_mut<V: VisitorMut + ?Sized>(v: &mut V, s: &mut HirStmt)
    ensures
        logged(old(v).visits(), final(v).visits(), seq![VisitV::Stmt(old(s)@)], seq![VisitV::Stmt(final(s)@)]),
{
    let ghost a = v.visits();
    v.record(Ghost(VisitEv::Enter(VisitV::Stmt(s@))));
    v.visit_stmt_mut(s);
    let ghost b = v.visits();
    v.record(Ghost(VisitEv::Leave(VisitV::Stmt(s@))));
    proof {
        lemma_call_logged(a, b, v.visits(), VisitV::Stmt(old(s)@), VisitV::Stmt(s@));
    }
}

/// Calls the expression hook on `e` in place, between its entry and its
/// leave.
fn call_expr_mut<V: VisitorMut + ?Sized>(v: &mut V, e: &mut HirExpr)
    ensures
        logged(old(v).visits(), final(v).visits(), seq![VisitV::Expr(old(e)@)], seq![VisitV::Expr(final(e)@)]),
{
    let ghost a = v.visits();
    v.record(Ghost(VisitEv::Enter(VisitV::Expr(e@))));
    v.visit_expr_mut(e);
    let ghost b = v.visits();
    v.record(Ghost(VisitEv::Leave(VisitV::Expr(e@))));
    proof {
        lemma_call_logged(a, b, v.visits(), VisitV::Expr(old(e)@), VisitV::Expr(e@));
    }
}

/// Calls the block hook on `stmts` in place, between its entry and its
/// leave.
fn call_block_mut<V: VisitorMut + ?Sized>(v: &mut V, stmts: &mut Vec<HirStmt>)
    ensures
        logged(
            old(v).visits(),
            final(v).visits(),
            seq![VisitV::Block(crate::hir::view::stmts_v(old(stmts)@))],
            seq![VisitV::Block(crate::hir::view::stmts_v(final(stmts)@))],
        ),
        final(stmts)@.len() == old(stmts)@.len(),
{
    let ghost a = v.visits();
    v.record(Ghost(VisitEv::Enter(VisitV::Block(crate::hir::view::stmts_v(stmts@)))));
    v.visit_block_mut(stmts);
    let ghost b = v.visits();
    v.record(Ghost(VisitEv::Leave(VisitV::Block(crate::hir::view::stmts_v(stmts@)))));
    proof {
        lemma_call_logged(
            a,
            b,
            v.visits(),
            VisitV::Block(crate::hir::view::stmts_v(old(stmts)@)),
            VisitV::Block(crate::hir::view::stmts_v(stmts@)),
        );
    }
}

/// Calls the case hook on `c` in place, between its entry and its leave.
fn call_case_mut<V: VisitorMut + ?Sized>(v: &mut V, c: &mut HirSwitchCase)
    ensures
        logged(
            old(v).visits(),
            final(v).visits(),
            seq![VisitV::Case(crate::hir::view::case_v(*old(c)))],
            seq![VisitV::Case(crate::hir::view::case_v(*final(c)))],
        ),
{
    let ghost a = v.visits();
    v.record(Ghost(VisitEv::Enter(VisitV::Case(crate::hir::view::case_v(*c)))));
    v.visit_switch_case_mut(c);
    let ghost b = v.visits();
    v.record(Ghost(VisitEv::Leave(VisitV::Case(crate::hir::view::case_v(*c)))));
    proof {
        lemma_call_logged(
            a,
            b,
            v.visits(),
            VisitV::Case(crate::hir::view::case_v(*old(c))),
            VisitV::Case(crate::hir::view::case_v(*c)),
        );
    }
}

/// Calls the expression hook in place on the expression, where there is
/// one.
fn call_opt_expr_mut<V: VisitorMut + ?Sized>(v: &mut V, o: &mut Option<HirExpr>)
    ensures
        logged(
            old(v).visits(),
            final(v).visits(),
            opt_expr_visit(crate::hir::view::opt_expr_v(*old(o))),
            opt_expr_visit(crate::hir::view::opt_expr_v(*final(o))),
        ),
        blank_opt_expr(crate::hir::view::opt_expr_v(*final(o))) == blank_opt_expr(crate::hir::view::opt_expr_v(*old(o))),
{
    proof {
        crate::hir::view::lemma_opt_expr_v(*o);
        lemma_logged_refl(v.visits());
    }
    match o {
        Some(e) => call_expr_mut(v, e),
        None => {},
    }
    proof {
        crate::hir::view::lemma_opt_expr_v(*o);
    }
}

/// Calls the expression hook in place on the boxed expression, where there
/// is one.
fn call_opt_box_expr_mut<V: VisitorMut + ?Sized>(v: &mut V, o: &mut Option<Box<HirExpr>>)
    ensures
        logged(
            old(v).visits(),
            final(v).visits(),
            opt_box_expr_visit(crate::hir::view::opt_box_expr_v(*old(o))),
            opt_box_expr_visit(crate::hir::view::opt_box_expr_v(*final(o))),
        ),
        blank_box_expr(crate::hir::view::opt_box_expr_v(*final(o))) == blank_box_expr(crate::hir::view::opt_box_expr_v(*old(o))),
{
    proof {
        crate::hir::view::lemma_opt_box_expr_v(*o);
        lemma_logged_refl(v.visits());
    }
    match o {
        Some(e) => call_expr_mut(v, e),
        None => {},
    }
    proof {
        crate::hir::view::lemma_opt_box_expr_v(*o);
    }
}

/// Calls the statement hook in place on the boxed statement, where there
/// is one.
fn call_opt_box_stmt_mut<V: VisitorMut + ?Sized>(v: &mut V, o: &mut Option<Box<HirStmt>>)
    ensures
        logged(
            old(v).visits(),
            final(v).visits(),
            opt_box_stmt_visit(crate::hir::view::opt_box_stmt_v(*old(o))),
            opt_box_stmt_visit(crate::hir::view::opt_box_stmt_v(*final(o))),
        ),
        blank_box_stmt(crate::hir::view::opt_box_stmt_v(*final(o))) == blank_box_stmt(crate::hir::view::opt_box_stmt_v(*old(o))),
{
    proof {
        crate::hir::view::lemma_opt_box_stmt_v(*o);
        lemma_logged_refl(v.visits());
    }
    match o {
        Some(s) => call_stmt_mut(v, s),
        None => {},
    }
    proof {
        crate::hir::view::lemma_opt_box_stmt_v(*o);
    }
}

/// Calls the statement hook in place on the body of the `catch` clause,
/// where there is one.
fn call_catch_mut<V: VisitorMut + ?Sized>(v: &mut V, o: &mut Option<crate::hir::stmt::HirCatchClause>)
    ensures
        logged(
            old(v).visits(),
            final(v).visits(),
            opt_catch_visit(crate::hir::view::opt_catch_v(*old(o))),
            opt_catch_visit(crate::hir::view::opt_catch_v(*final(o))),
        ),
        match crate::hir::view::opt_catch_v(*old(o)) {
            Some(c) => crate::hir::view::opt_catch_v(*final(o)) matches Some(c2) && c2.binding == c.binding,
            None => crate::hir::view::opt_catch_v(*final(o)) is None,
        },
{
    proof {
        crate::hir::view::lemma_opt_catch_v(*o);
        lemma_logged_refl(v.visits());
    }
    match o {
        Some(c) => call_stmt_mut(v, &mut c.body),
        None => {},
    }
    proof {
        crate::hir::view::lemma_opt_catch_v(*o);
    }
}

/// Calls the expression hook in place on each expression of `exprs` in
/// order.
fn call_all_mut<V: VisitorMut + ?Sized>(v: &mut V, exprs: &mut Vec<HirExpr>)
    ensures
        logged(
            old(v).visits(),
            final(v).visits(),
            expr_visits(crate::hir::view::exprs_v(old(exprs)@)),
            expr_visits(crate::hir::view::exprs_v(final(exprs)@)),
        ),
        final(exprs)@.len() == old(exprs)@.len(),
        blank_exprs(crate::hir::view::exprs_v(final(exprs)@)) == blank_exprs(crate::hir::view::exprs_v(old(exprs)@)),
{
    let ghost ev = crate::hir::view::exprs_v(exprs@);
    proof {
        lemma_logged_refl(v.visits());
        assert(expr_visits(ev.subrange(0, 0)) =~= Seq::<VisitV>::empty());
        assert(expr_visits(crate::hir::view::exprs_v(exprs@).subrange(0, 0)) =~= Seq::<VisitV>::empty());
    }
    let mut i: usize = 0;
    while i < exprs.len()
        invariant
            0 <= i <= exprs@.len(),
            exprs@.len() == ev.len(),
            ev == crate::hir::view::exprs_v(old(exprs)@),
            forall|j: int| i <= j < ev.len() ==> #[trigger] exprs@[j]@ == ev[j],
            logged(
                old(v).visits(),
                v.visits(),
                expr_visits(ev.subrange(0, i as int)),
                expr_visits(crate::hir::view::exprs_v(exprs@).subrange(0, i as int)),
            ),
        decreases exprs@.len() - i,
    {
        let ghost before = exprs@;
        call_expr_mut(v, &mut exprs[i]);
        proof {
            assert(ev[i as int] == before[i as int]@);
            assert(expr_visits(ev.subrange(0, i + 1)) =~= expr_visits(ev.subrange(0, i as int)) + seq![VisitV::Expr(ev[i as int])]);
            assert(expr_visits(crate::hir::view::exprs_v(exprs@).subrange(0, i + 1)) =~= expr_visits(
                crate::hir::view::exprs_v(before).subrange(0, i as int),
            ) + seq![VisitV::Expr(exprs@[i as int]@)]);
            assert forall|j: int| i + 1 <= j < ev.len() implies #[trigger] exprs@[j]@ == ev[j] by {
                assert(exprs@[j] == before[j]);
            }
        }
        i += 1;
    }
    proof {
        assert(ev.subrange(0, ev.len() as int) =~= ev);
        assert(crate::hir::view::exprs_v(exprs@).subrange(0, ev.len() as int) =~= crate::hir::view::exprs_v(exprs@));
        assert(blank_exprs(crate::hir::view::exprs_v(exprs@)) =~= blank_exprs(ev));
    }
}

/// Calls the case hook in place on each case of `cases` in order.
fn call_cases_mut<V: VisitorMut + ?Sized>(v: &mut V, cases: &mut Vec<HirSwitchCase>)
    ensures
        logged(
            old(v).visits(),
            final(v).visits(),
            case_visits(crate::hir::view::cases_v(old(cases)@)),
            case_visits(crate::hir::view::cases_v(final(cases)@)),
        ),
        final(cases)@.len() == old(cases)@.len(),
        cases_blank(crate::hir::view::cases_v(final(cases)@)) == cases_blank(crate::hir::view::cases_v(old(cases)@)),
{
    let ghost cv = crate::hir::view::cases_v(cases@);
    proof {
        lemma_logged_refl(v.visits());
        assert(case_visits(cv.subrange(0, 0)) =~= Seq::<VisitV>::empty());
        assert(case_visits(crate::hir::view::cases_v(cases@).subrange(0, 0)) =~= Seq::<VisitV>::empty());
    }
    let mut i: usize = 0;
    while i < cases.len()
        invariant
            0 <= i <= cases@.len(),
            cases@.len() == cv.len(),
            cv == crate::hir::view::cases_v(old(cases)@),
            forall|j: int| i <= j < cv.len() ==> crate::hir::view::case_v(#[trigger] cases@[j]) == cv[j],
            logged(
                old(v).visits(),
                v.visits(),
                case_visits(cv.subrange(0, i as int)),
                case_visits(crate::hir::view::cases_v(cases@).subrange(0, i as int)),
            ),
        decreases cases@.len() - i,
    {
        let ghost before = cases@;
        call_case_mut(v, &mut cases[i]);
        proof {
            assert(cv[i as int] == crate::hir::view::case_v(before[i as int]));
            assert(case_visits(cv.subrange(0, i + 1)) =~= case_visits(cv.subrange(0, i as int)) + seq![VisitV::Case(cv[i as int])]);
            assert(case_visits(crate::hir::view::cases_v(cases@).subrange(0, i + 1)) =~= case_visits(
                crate::hir::view::cases_v(before).subrange(0, i as int),
            ) + seq![VisitV::Case(crate::hir::view::case_v(cases@[i as int]))]);
            assert forall|j: int| i + 1 <= j < cv.len() implies crate::hir::view::case_v(#[trigger] cases@[j]) == cv[j] by {
                assert(cases@[j] == before[j]);
            }
        }
        i += 1;
    }
    proof {
        assert(cv.subrange(0, cv.len() as int) =~= cv);
        assert(crate::hir::view::cases_v(cases@).subrange(0, cv.len() as int) =~= crate::hir::view::cases_v(cases@));
        assert(cases_blank(crate::hir::view::cases_v(cases@)) =~= cases_blank(cv));
    }
}



/// Calls the hooks in place on the children of a statement, in source
/// order, as [`walk_stmt`] does. The statement changes only through those
/// calls: afterwards it is the statement it was, with each child replaced
/// by what its hook call left.
pub fn walk_stmt_mut<V: VisitorMut + ?Sized>(v: &mut V, stmt: &mut HirStmt)
    ensures
        logged(old(v).visits(), final(v).visits(), stmt_children(old(stmt)@), stmt_children(final(stmt)@)),
        stmt_frame(final(stmt)@) == stmt_frame(old(stmt)@),
{
    let ghost s0 = v.visits();
    match stmt {
        HirStmt::Block(stmts) => call_block_mut(v, stmts),
        HirStmt::Let { init, .. } => call_opt_expr_mut(v, init),
        HirStmt::Expr { expr } => call_expr_mut(v, expr),
        HirStmt::If { cond, then, otherwise } => {
            call_expr_mut(v, cond);
            call_stmt_mut(v, then);
            call_opt_box_stmt_mut(v, otherwise);
        },
        HirStmt::While { cond, body } => {
            call_expr_mut(v, cond);
            call_stmt_mut(v, body);
        },
        HirStmt::DoWhile { body, cond } => {
            call_stmt_mut(v, body);
            call_expr_mut(v, cond);
        },
        HirStmt::ForOf { iter, body, .. } => {
            call_expr_mut(v, iter);
            call_stmt_mut(v, body);
        },
        HirStmt::ForAwaitOf { iter, body, .. } => {
            call_expr_mut(v, iter);
            call_stmt_mut(v, body);
        },
        HirStmt::ForIn { iter, body, .. } => {
            call_expr_mut(v, iter);
            call_stmt_mut(v, body);
        },
        HirStmt::Switch { disc, cases } => {
            call_expr_mut(v, disc);
            call_cases_mut(v, cases);
        },
        HirStmt::Return { value } => call_opt_expr_mut(v, value),
        HirStmt::Throw { expr } => call_expr_mut(v, expr),
        HirStmt::Try { body, catch, finally } => {
            call_stmt_mut(v, body);
            call_catch_mut(v, catch);
            call_opt_box_stmt_mut(v, finally);
        },
        HirStmt::Break { .. } | HirStmt::Continue { .. } | HirStmt::Decl(_) => {
            proof {
                lemma_logged_refl(s0);
            }
        },
    }
    proof {
        lemma_stmt_children_parts(old(stmt)@);
        lemma_stmt_children_parts(stmt@);
    }
}

/// Calls the hooks in place on the children of an expression, in source
/// order, as [`walk_expr`] does. The expression changes only through those
/// calls: afterwards it is the expression it was, with each child replaced
/// by what its hook call left.
pub fn walk_expr_mut<V: VisitorMut + ?Sized>(v: &mut V, e: &mut HirExpr)
    ensures
        logged(old(v).visits(), final(v).visits(), expr_children(old(e)@), expr_children(final(e)@)),
        expr_frame(final(e)@) == expr_frame(old(e)@),
{
    if has_child_list(e) {
        walk_list_expr_mut(v, e)
    } else {
        walk_fixed_expr_mut(v, e)
    }
}

/// Whether the expression's children include a list: call and `new`
/// arguments, literal fields and elements, closure captures, template
/// parts, sequence members.
fn has_child_list(e: &HirExpr) -> (b: bool)
    ensures
        b == (*e is Call || *e is StructLiteral || *e is ObjectLiteral || *e is ArrayLiteral || *e is Closure
            || *e is Template || *e is New || *e is Sequence),
{
    match e {
        HirExpr::Call { .. } | HirExpr::StructLiteral { .. } | HirExpr::ObjectLiteral { .. }
        | HirExpr::ArrayLiteral { .. } | HirExpr::Closure { .. } | HirExpr::Template { .. } | HirExpr::New { .. }
        | HirExpr::Sequence { .. } => true,
        _ => false,
    }
}

#[verifier::spinoff_prover]
#[verifier::spinoff_prover]
fn walk_fixed_expr_mut<V: VisitorMut + ?Sized>(v: &mut V, e: &mut HirExpr)
    requires
        !(*old(e) is Call || *old(e) is StructLiteral || *old(e) is ObjectLiteral || *old(e) is ArrayLiteral
            || *old(e) is Closure || *old(e) is Template || *old(e) is New || *old(e) is Sequence),
    ensures
        logged(old(v).visits(), final(v).visits(), expr_children(old(e)@), expr_children(final(e)@)),
        expr_frame(final(e)@) == expr_frame(old(e)@),
{
    let ghost s0 = v.visits();
    match e {
        HirExpr::Field { owner, .. } => call_expr_mut(v, owner),
        HirExpr::Unary { expr: x, .. } => call_expr_mut(v, x),
        HirExpr::Await { expr: x, .. } => call_expr_mut(v, x),
        HirExpr::OptionalChain { base, .. } => call_expr_mut(v, base),
        HirExpr::TypeAssertion { expr: x, .. } => call_expr_mut(v, x),
        HirExpr::Import { source, .. } => call_expr_mut(v, source),
        HirExpr::Yield { expr: x, .. } => call_opt_box_expr_mut(v, x),
        HirExpr::Index { owner, index, .. } => {
            call_expr_mut(v, owner);
            call_expr_mut(v, index);
        },
        HirExpr::Binary { lhs: left, rhs: right, .. } => {
            call_expr_mut(v, left);
            call_expr_mut(v, right);
        },
        HirExpr::Assignment { target, value, .. } => {
            call_expr_mut(v, target);
            call_expr_mut(v, value);
        },
        HirExpr::CompoundUpdate { target, rhs: right, .. } => {
            call_expr_mut(v, target);
            call_expr_mut(v, right);
        },
        HirExpr::Ternary { cond, then_branch, else_branch, .. } => {
            call_expr_mut(v, cond);
            call_expr_mut(v, then_branch);
            call_expr_mut(v, else_branch);
        },
        _ => {
            proof {
                lemma_logged_refl(s0);
            }
        },
    }
    proof {
        lemma_expr_children_parts(old(e)@);
        lemma_expr_children_parts(e@);
    }
}

#[verifier::spinoff_prover]
fn walk_list_expr_mut<V: VisitorMut + ?Sized>(v: &mut V, e: &mut HirExpr)
    requires
        *old(e) is Call || *old(e) is StructLiteral || *old(e) is ObjectLiteral || *old(e) is ArrayLiteral
            || *old(e) is Closure || *old(e) is Template || *old(e) is New || *old(e) is Sequence,
    ensures
        logged(old(v).visits(), final(v).visits(), expr_children(old(e)@), expr_children(final(e)@)),
        expr_frame(final(e)@) == expr_frame(old(e)@),
{
    match e {
        HirExpr::Call { callee, args, .. } => {
            call_all_mut(v, args);
            call_callee_mut(v, callee);
        },
        HirExpr::StructLiteral { fields, .. } => call_sfields_mut(v, fields),
        HirExpr::ObjectLiteral { fields, .. } => call_ofields_mut(v, fields),
        HirExpr::ArrayLiteral { elements, .. } => {
            call_all_mut(v, elements);
        },
        HirExpr::Closure { captures, body, .. } => {
            call_all_mut(v, captures);
            call_block_mut(v, body);
        },
        HirExpr::Template { tag, expressions, .. } => {
            call_opt_box_expr_mut(v, tag);
            call_all_mut(v, expressions);
        },
        HirExpr::New { callee, args, .. } => {
            call_expr_mut(v, callee);
            call_all_mut(v, args);
        },
        HirExpr::Sequence { exprs, .. } => {
            call_all_mut(v, exprs);
        },
        _ => {},
    }
}

/// Calls the expression hook in place on the callee, where it is an
/// expression.
fn call_callee_mut<V: VisitorMut + ?Sized>(v: &mut V, callee: &mut HirCallee)
    ensures
        logged(
            old(v).visits(),
            final(v).visits(),
            callee_visit(crate::hir::view::callee_v(*old(callee))),
            callee_visit(crate::hir::view::callee_v(*final(callee))),
        ),
        callee_blank(crate::hir::view::callee_v(*final(callee))) == callee_blank(crate::hir::view::callee_v(*old(callee))),
{
    let ghost s0 = v.visits();
    match callee {
        HirCallee::Indirect(inner) => call_expr_mut(v, inner),
        _ => {
            proof {
                lemma_logged_refl(s0);
            }
        },
    }
    proof {
        crate::hir::view::lemma_callee_v(*old(callee));
        crate::hir::view::lemma_callee_v(*callee);
    }
}

/// Calls the expression hook in place on the value of each struct literal
/// field of `fields`, in order; the field ids stay as they were.
fn call_sfields_mut<V: VisitorMut + ?Sized>(v: &mut V, fields: &mut Vec<(crate::base::FieldId, HirExpr)>)
    ensures
        logged(
            old(v).visits(),
            final(v).visits(),
            sfield_visits(crate::hir::view::sfields_v(old(fields)@)),
            sfield_visits(crate::hir::view::sfields_v(final(fields)@)),
        ),
        sfields_blank(crate::hir::view::sfields_v(final(fields)@)) == sfields_blank(crate::hir::view::sfields_v(old(fields)@)),
{
    let ghost fv = crate::hir::view::sfields_v(fields@);
    proof {
        lemma_logged_refl(v.visits());
        assert(sfield_visits(fv.subrange(0, 0)) =~= Seq::<VisitV>::empty());
        assert(sfield_visits(crate::hir::view::sfields_v(fields@).subrange(0, 0))
            =~= Seq::<VisitV>::empty());
    }
    let mut i: usize = 0;
    while i < fields.len()
        invariant
            0 <= i <= fields@.len(),
            fields@.len() == fv.len(),
            forall|j: int| 0 <= j < fv.len() ==> (#[trigger] fields@[j]).0 == fv[j].0,
            forall|j: int| i <= j < fv.len() ==> crate::hir::view::sfield_v(#[trigger] fields@[j]) == fv[j],
            logged(
                old(v).visits(),
                v.visits(),
                sfield_visits(fv.subrange(0, i as int)),
                sfield_visits(crate::hir::view::sfields_v(fields@).subrange(0, i as int)),
            ),
        decreases fields@.len() - i,
    {
        let ghost before = fields@;
        call_expr_mut(v, &mut fields[i].1);
        proof {
            assert(fv[i as int].1 == before[i as int].1@);
            assert(sfield_visits(fv.subrange(0, i + 1)) =~= sfield_visits(fv.subrange(
                0,
                i as int,
            )) + seq![VisitV::Expr(fv[i as int].1)]);
            assert(sfield_visits(crate::hir::view::sfields_v(fields@).subrange(0, i + 1)) =~= sfield_visits(crate::hir::view::sfields_v(before).subrange(0, i as int)) + seq![VisitV::Expr(fields@[i as int].1@)]);
            assert forall|j: int| i + 1 <= j < fv.len() implies crate::hir::view::sfield_v(#[trigger] fields@[j]) == fv[j] by {
                assert(fields@[j] == before[j]);
            }
            assert forall|j: int| 0 <= j < fv.len() implies (#[trigger] fields@[j]).0 == fv[j].0 by {
                if j != i {
                    assert(fields@[j] == before[j]);
                }
            }
        }
        i += 1;
    }
    proof {
        assert(fv.subrange(0, fv.len() as int) =~= fv);
        assert(crate::hir::view::sfields_v(fields@).subrange(0, fv.len() as int) =~= crate::hir::view::sfields_v(fields@));
        lemma_sfields_blank(crate::hir::view::sfields_v(fields@), fv);
    }
}

/// Calls the expression hook in place on the value of each object literal
/// field of `fields`, in order; the fields' kinds and names stay as they
/// were.
fn call_ofields_mut<V: VisitorMut + ?Sized>(v: &mut V, fields: &mut Vec<crate::hir::expr::ObjectLiteralField>)
    ensures
        logged(
            old(v).visits(),
            final(v).visits(),
            ofield_visits(crate::hir::view::ofields_v(old(fields)@)),
            ofield_visits(crate::hir::view::ofields_v(final(fields)@)),
        ),
        ofields_blank(crate::hir::view::ofields_v(final(fields)@)) == ofields_blank(crate::hir::view::ofields_v(old(fields)@)),
{
    let ghost fv = crate::hir::view::ofields_v(fields@);
    proof {
        lemma_logged_refl(v.visits());
        assert(ofield_visits(fv.subrange(0, 0)) =~= Seq::<VisitV>::empty());
        assert(ofield_visits(crate::hir::view::ofields_v(fields@).subrange(0, 0)) =~= Seq::<VisitV>::empty());
    }
    let mut i: usize = 0;
    while i < fields.len()
        invariant
            0 <= i <= fields@.len(),
            fields@.len() == fv.len(),
            forall|j: int| 0 <= j < fv.len() ==> #[trigger] ofield_blank(crate::hir::view::ofield_v(fields@[j])) == ofield_blank(fv[j]),
            forall|j: int| i <= j < fv.len() ==> crate::hir::view::ofield_v(#[trigger] fields@[j]) == fv[j],
            logged(
                old(v).visits(),
                v.visits(),
                ofield_visits(fv.subrange(0, i as int)),
                ofield_visits(crate::hir::view::ofields_v(fields@).subrange(0, i as int)),
            ),
        decreases fields@.len() - i,
    {
        let ghost before = fields@;
        call_expr_mut(v, fields[i].value_mut());
        proof {
            assert(crate::hir::view::ofield_value(fv[i as int]) == crate::hir::view::ofield_value(
                crate::hir::view::ofield_v(before[i as int]),
            ));
            assert(ofield_visits(fv.subrange(0, i + 1))
                =~= ofield_visits(fv.subrange(0, i as int))
                + seq![VisitV::Expr(crate::hir::view::ofield_value(fv[i as int]))]);
            assert(ofield_visits(crate::hir::view::ofields_v(fields@).subrange(0, i + 1)) =~= ofield_visits(crate::hir::view::ofields_v(before).subrange(0, i as int)) + seq![VisitV::Expr(crate::hir::view::ofield_value(crate::hir::view::ofield_v(fields@[i as int])))]);
            assert forall|j: int| i + 1 <= j < fv.len() implies crate::hir::view::ofield_v(#[trigger] fields@[j]) == fv[j] by {
                assert(fields@[j] == before[j]);
            }
            assert forall|j: int| 0 <= j < fv.len() implies #[trigger] ofield_blank(crate::hir::view::ofield_v(fields@[j]))
                == ofield_blank(fv[j]) by {
                if j != i {
                    assert(fields@[j] == before[j]);
                }
            }
        }
        i += 1;
    }
    proof {
        assert(fv.subrange(0, fv.len() as int) =~= fv);
        assert(crate::hir::view::ofields_v(fields@).subrange(0, fv.len() as int) =~= crate::hir::view::ofields_v(fields@));
        lemma_ofields_blank(crate::hir::view::ofields_v(fields@), fv);
    }
}

/// Fields with the same keys have the same frame.
proof fn lemma_sfields_blank(a: Seq<(crate::base::FieldId, ExprV)>, b: Seq<(crate::base::FieldId, ExprV)>)
    requires
        a.len() == b.len(),
        forall|j: int| 0 <= j < a.len() ==> a[j].0 == b[j].0,
    ensures
        sfields_blank(a) == sfields_blank(b),
{
    assert(sfields_blank(a) =~= sfields_blank(b));
}

/// Fields with the same frames, field by field, have the same frame.
proof fn lemma_ofields_blank(a: Seq<OFieldV>, b: Seq<OFieldV>)
    requires
        a.len() == b.len(),
        forall|j: int| 0 <= j < a.len() ==> #[trigger] ofield_blank(a[j]) == ofield_blank(b[j]),
    ensures
        ofields_blank(a) == ofields_blank(b),
{
    assert(ofields_blank(a) =~= ofields_blank(b));
}

/// Visits of the value of each struct literal field of `fv`, in order.
pub open spec fn sfield_visits(fv: Seq<(crate::base::FieldId, ExprV)>) -> Seq<VisitV> {
    fv.map_values(|f: (crate::base::FieldId, ExprV)| VisitV::Expr(f.1))
}

/// Visits of the value of each object literal field of `fv`, in order.
pub open spec fn ofield_visits(fv: Seq<OFieldV>) -> Seq<VisitV> {
    fv.map_values(|f: OFieldV| VisitV::Expr(crate::hir::view::ofield_value(f)))
}

/// A visit of the callee, where it is an expression.
pub open spec fn callee_visit(c: crate::hir::view::CalleeV) -> Seq<VisitV> {
    match c {
        crate::hir::view::CalleeV::Indirect(inner) => seq![VisitV::Expr(*inner)],
        _ => Seq::empty(),
    }
}

/// The callee with an expression in it replaced by a placeholder.
pub open spec fn callee_blank(c: crate::hir::view::CalleeV) -> crate::hir::view::CalleeV {
    match c {
        crate::hir::view::CalleeV::Indirect(_) => crate::hir::view::CalleeV::Indirect(Box::new(dummy_expr())),
        _ => c,
    }
}

/// An empty case in place of each case of `cs`.
pub open spec fn cases_blank(cs: Seq<CaseV>) -> Seq<CaseV> {
    cs.map_values(|c: CaseV| CaseV { test: None, body: Seq::empty() })
}

/// Struct literal fields with each value replaced by a placeholder.
pub open spec fn sfields_blank(fv: Seq<(crate::base::FieldId, ExprV)>) -> Seq<(crate::base::FieldId, ExprV)> {
    fv.map_values(|f: (crate::base::FieldId, ExprV)| (f.0, dummy_expr()))
}

/// Object literal fields with each value replaced by a placeholder.
pub open spec fn ofields_blank(fv: Seq<OFieldV>) -> Seq<OFieldV> {
    fv.map_values(|f: OFieldV| ofield_blank(f))
}

/// An object literal field with its value replaced by a placeholder.
pub open spec fn ofield_blank(f: OFieldV) -> OFieldV {
    match f {
        OFieldV::Property { name, .. } => OFieldV::Property { name, value: dummy_expr() },
        OFieldV::Spread(_) => OFieldV::Spread(dummy_expr()),
    }
}

/// Two logs of hook calls of equal length that agree after one prefix of
/// equal length agree piece by piece.
proof fn lemma_split_visits(p1: Seq<VisitV>, q1: Seq<VisitV>, p2: Seq<VisitV>, q2: Seq<VisitV>)
    requires
        p1.len() == p2.len(),
        p1 + q1 == p2 + q2,
    ensures
        p1 == p2,
        q1 == q2,
{
    assert((p1 + q1).len() == p1.len() + q1.len());
    assert((p2 + q2).len() == p2.len() + q2.len());
    assert forall|i: int| 0 <= i < p1.len() implies p1[i] == p2[i] by {
        assert((p1 + q1)[i] == p1[i]);
        assert((p2 + q2)[i] == p2[i]);
    }
    assert(p1 =~= p2);
    assert(q1.len() == q2.len());
    assert forall|i: int| 0 <= i < q1.len() implies q1[i] == q2[i] by {
        assert((p1 + q1)[p1.len() + i] == q1[i]);
        assert((p2 + q2)[p2.len() + i] == q2[i]);
    }
    assert(q1 =~= q2);
}

/// A one-call log determines its node.
proof fn lemma_seq1(x: VisitV, y: VisitV)
    requires
        seq![x] == seq![y],
    ensures
        x == y,
{
    assert(seq![x][0] == x);
    assert(seq![y][0] == y);
}

/// A two-call log determines its nodes.
proof fn lemma_seq2(x: VisitV, y: VisitV, u: VisitV, w: VisitV)
    requires
        seq![x, y] == seq![u, w],
    ensures
        x == u,
        y == w,
{
    assert(seq![x, y][0] == seq![u, w][0]);
    assert(seq![x, y][1] == seq![u, w][1]);
}

/// Expressions are found again from their visits.
proof fn lemma_expr_visits_inj(x: Seq<ExprV>, y: Seq<ExprV>)
    requires
        expr_visits(x) == expr_visits(y),
    ensures
        x == y,
{
    assert(x.len() == expr_visits(x).len());
    assert forall|i: int| 0 <= i < x.len() implies x[i] == y[i] by {
        assert(expr_visits(x)[i] == VisitV::Expr(x[i]));
        assert(expr_visits(y)[i] == VisitV::Expr(y[i]));
        assert(expr_visits(x)[i] == expr_visits(y)[i]);
    }
    assert(x =~= y);
}

/// Cases are found again from their visits.
proof fn lemma_case_visits_inj(x: Seq<CaseV>, y: Seq<CaseV>)
    requires
        case_visits(x) == case_visits(y),
    ensures
        x == y,
{
    assert(x.len() == case_visits(x).len());
    assert forall|i: int| 0 <= i < x.len() implies x[i] == y[i] by {
        assert(case_visits(x)[i] == VisitV::Case(x[i]));
        assert(case_visits(y)[i] == VisitV::Case(y[i]));
    }
    assert(x =~= y);
}

/// Blank lists have the length of the list.
proof fn lemma_blank_lens(x: Seq<ExprV>, y: Seq<ExprV>)
    requires
        blank_exprs(x) == blank_exprs(y),
    ensures
        x.len() == y.len(),
        expr_visits(x).len() == x.len(),
        expr_visits(y).len() == y.len(),
{
    assert(blank_exprs(x).len() == x.len());
    assert(blank_exprs(y).len() == y.len());
}

/// An expression is determined by what an in-place walk leaves of it and
/// by the children its walk visits: so after `walk_expr_mut`, the
/// expression is the one it was with each child replaced by what its hook
/// call left, and nothing else.
pub proof fn law_expr_frame_and_children(a: ExprV, b: ExprV)
    requires
        expr_frame(a) == expr_frame(b),
        expr_children(a) == expr_children(b),
    ensures
        a == b,
{
    match (a, b) {
        (ExprV::Call { callee: c1, args: x1, .. }, ExprV::Call { callee: c2, args: x2, .. }) => {
            lemma_blank_lens(x1, x2);
            assert(callee_visit(c1).len() == callee_visit(c2).len()) by {
                assert(callee_blank(c1) == callee_blank(c2));
            }
            lemma_split_visits(expr_visits(x1), callee_visit(c1), expr_visits(x2), callee_visit(c2));
            lemma_expr_visits_inj(x1, x2);
            match c1 {
                crate::hir::view::CalleeV::Indirect(i1) => {
                    assert(callee_visit(c1)[0] == callee_visit(c2)[0]);
                },
                _ => {},
            }
        },
        (ExprV::StructLiteral { fields: f1, .. }, ExprV::StructLiteral { fields: f2, .. }) => {
            assert(sfields_blank(f1).len() == f1.len() && sfields_blank(f2).len() == f2.len());
            assert forall|i: int| 0 <= i < f1.len() implies f1[i] == f2[i] by {
                assert(sfields_blank(f1)[i] == sfields_blank(f2)[i]);
                assert(sfield_visits(f1)[i] == sfield_visits(f2)[i]);
            }
            assert(f1 =~= f2);
        },
        (ExprV::ObjectLiteral { fields: f1, .. }, ExprV::ObjectLiteral { fields: f2, .. }) => {
            assert(ofields_blank(f1).len() == f1.len() && ofields_blank(f2).len() == f2.len());
            assert forall|i: int| 0 <= i < f1.len() implies f1[i] == f2[i] by {
                assert(ofields_blank(f1)[i] == ofields_blank(f2)[i]);
                assert(ofield_visits(f1)[i] == ofield_visits(f2)[i]);
            }
            assert(f1 =~= f2);
        },
        (ExprV::ArrayLiteral { elements: x1, .. }, ExprV::ArrayLiteral { elements: x2, .. }) => {
            lemma_expr_visits_inj(x1, x2);
        },
        (ExprV::Sequence { exprs: x1, .. }, ExprV::Sequence { exprs: x2, .. }) => {
            lemma_expr_visits_inj(x1, x2);
        },
        (ExprV::Closure { captures: x1, body: b1, .. }, ExprV::Closure { captures: x2, body: b2, .. }) => {
            lemma_blank_lens(x1, x2);
            lemma_split_visits(expr_visits(x1), seq![VisitV::Block(b1)], expr_visits(x2), seq![VisitV::Block(b2)]);
            lemma_expr_visits_inj(x1, x2);
            assert(seq![VisitV::Block(b1)][0] == seq![VisitV::Block(b2)][0]);
        },
        (ExprV::Template { tag: t1, expressions: x1, .. }, ExprV::Template { tag: t2, expressions: x2, .. }) => {
            assert(opt_box_expr_visit(t1).len() == opt_box_expr_visit(t2).len()) by {
                assert(blank_box_expr(t1) == blank_box_expr(t2));
            }
            lemma_split_visits(opt_box_expr_visit(t1), expr_visits(x1), opt_box_expr_visit(t2), expr_visits(x2));
            lemma_expr_visits_inj(x1, x2);
            match t1 {
                Some(e1) => {
                    assert(opt_box_expr_visit(t1)[0] == opt_box_expr_visit(t2)[0]);
                },
                None => {},
            }
        },
        (ExprV::New { callee: c1, args: x1, .. }, ExprV::New { callee: c2, args: x2, .. }) => {
            lemma_split_visits(seq![VisitV::Expr(*c1)], expr_visits(x1), seq![VisitV::Expr(*c2)], expr_visits(x2));
            lemma_expr_visits_inj(x1, x2);
            assert(seq![VisitV::Expr(*c1)][0] == seq![VisitV::Expr(*c2)][0]);
        },
        (ExprV::Yield { expr: t1, .. }, ExprV::Yield { expr: t2, .. }) => {
            match t1 {
                Some(e1) => {
                    assert(opt_box_expr_visit(t1)[0] == opt_box_expr_visit(t2)[0]);
                },
                None => {},
            }
        },
        (ExprV::Field { owner: x1, .. }, ExprV::Field { owner: x2, .. }) => {
            lemma_seq1(VisitV::Expr(*x1), VisitV::Expr(*x2));
        },
        (ExprV::Unary { expr: x1, .. }, ExprV::Unary { expr: x2, .. }) => {
            lemma_seq1(VisitV::Expr(*x1), VisitV::Expr(*x2));
        },
        (ExprV::Await { expr: x1, .. }, ExprV::Await { expr: x2, .. }) => {
            lemma_seq1(VisitV::Expr(*x1), VisitV::Expr(*x2));
        },
        (ExprV::OptionalChain { base: x1, .. }, ExprV::OptionalChain { base: x2, .. }) => {
            lemma_seq1(VisitV::Expr(*x1), VisitV::Expr(*x2));
        },
        (ExprV::TypeAssertion { expr: x1, .. }, ExprV::TypeAssertion { expr: x2, .. }) => {
            lemma_seq1(VisitV::Expr(*x1), VisitV::Expr(*x2));
        },
        (ExprV::Import { source: x1, .. }, ExprV::Import { source: x2, .. }) => {
            lemma_seq1(VisitV::Expr(*x1), VisitV::Expr(*x2));
        },
        (ExprV::Index { owner: x1, index: y1, .. }, ExprV::Index { owner: x2, index: y2, .. }) => {
            lemma_seq2(VisitV::Expr(*x1), VisitV::Expr(*y1), VisitV::Expr(*x2), VisitV::Expr(*y2));
        },
        (ExprV::Binary { lhs: x1, rhs: y1, .. }, ExprV::Binary { lhs: x2, rhs: y2, .. }) => {
            lemma_seq2(VisitV::Expr(*x1), VisitV::Expr(*y1), VisitV::Expr(*x2), VisitV::Expr(*y2));
        },
        (ExprV::Assignment { target: x1, value: y1, .. }, ExprV::Assignment { target: x2, value: y2, .. }) => {
            lemma_seq2(VisitV::Expr(*x1), VisitV::Expr(*y1), VisitV::Expr(*x2), VisitV::Expr(*y2));
        },
        (ExprV::CompoundUpdate { target: x1, rhs: y1, .. }, ExprV::CompoundUpdate { target: x2, rhs: y2, .. }) => {
            lemma_seq2(VisitV::Expr(*x1), VisitV::Expr(*y1), VisitV::Expr(*x2), VisitV::Expr(*y2));
        },
        (
            ExprV::Ternary { cond: x1, then_branch: y1, else_branch: z1, .. },
            ExprV::Ternary { cond: x2, then_branch: y2, else_branch: z2, .. },
        ) => {
            lemma_seq2(VisitV::Expr(*x1), VisitV::Expr(*y1), VisitV::Expr(*x2), VisitV::Expr(*y2));
            assert(seq![VisitV::Expr(*x1), VisitV::Expr(*y1), VisitV::Expr(*z1)][2] == seq![
                VisitV::Expr(*x2),
                VisitV::Expr(*y2),
                VisitV::Expr(*z2),
            ][2]);
            assert(seq![VisitV::Expr(*x1), VisitV::Expr(*y1), VisitV::Expr(*z1)][0] == seq![
                VisitV::Expr(*x2),
                VisitV::Expr(*y2),
                VisitV::Expr(*z2),
            ][0]);
            assert(seq![VisitV::Expr(*x1), VisitV::Expr(*y1), VisitV::Expr(*z1)][1] == seq![
                VisitV::Expr(*x2),
                VisitV::Expr(*y2),
                VisitV::Expr(*z2),
            ][1]);
        },
        _ => {},
    }
}

/// A visit of an optional expression determines it, given its presence.
proof fn lemma_opt_expr_visit(o1: Option<ExprV>, o2: Option<ExprV>)
    requires
        blank_opt_expr(o1) == blank_opt_expr(o2),
        opt_expr_visit(o1) == opt_expr_visit(o2),
    ensures
        o1 == o2,
{
    match (o1, o2) {
        (Some(e1), Some(e2)) => lemma_seq1(VisitV::Expr(e1), VisitV::Expr(e2)),
        _ => {},
    }
}

/// A statement is determined by what an in-place walk leaves of it and by
/// the children its walk visits: so after `walk_stmt_mut`, the statement
/// is the one it was with each child replaced by what its hook call left,
/// and nothing else.
pub proof fn law_stmt_frame_and_children(a: StmtV, b: StmtV)
    requires
        stmt_frame(a) == stmt_frame(b),
        stmt_children(a) == stmt_children(b),
    ensures
        a == b,
{
    match (a, b) {
        (StmtV::Block(x1), StmtV::Block(x2)) => {
            lemma_seq1(VisitV::Block(x1), VisitV::Block(x2));
        },
        (StmtV::Let { init: o1, .. }, StmtV::Let { init: o2, .. }) => {
            lemma_opt_expr_visit(o1, o2);
        },
        (StmtV::Return { value: o1 }, StmtV::Return { value: o2 }) => {
            lemma_opt_expr_visit(o1, o2);
        },
        (StmtV::Expr { expr: x1 }, StmtV::Expr { expr: x2 }) => {
            lemma_seq1(VisitV::Expr(x1), VisitV::Expr(x2));
        },
        (StmtV::Throw { expr: x1 }, StmtV::Throw { expr: x2 }) => {
            lemma_seq1(VisitV::Expr(x1), VisitV::Expr(x2));
        },
        (StmtV::While { cond: x1, body: y1 }, StmtV::While { cond: x2, body: y2 }) => {
            lemma_seq2(VisitV::Expr(x1), VisitV::Stmt(*y1), VisitV::Expr(x2), VisitV::Stmt(*y2));
        },
        (StmtV::DoWhile { body: y1, cond: x1 }, StmtV::DoWhile { body: y2, cond: x2 }) => {
            lemma_seq2(VisitV::Stmt(*y1), VisitV::Expr(x1), VisitV::Stmt(*y2), VisitV::Expr(x2));
        },
        (StmtV::ForOf { iter: x1, body: y1, .. }, StmtV::ForOf { iter: x2, body: y2, .. }) => {
            lemma_seq2(VisitV::Expr(x1), VisitV::Stmt(*y1), VisitV::Expr(x2), VisitV::Stmt(*y2));
        },
        (StmtV::ForAwaitOf { iter: x1, body: y1, .. }, StmtV::ForAwaitOf { iter: x2, body: y2, .. }) => {
            lemma_seq2(VisitV::Expr(x1), VisitV::Stmt(*y1), VisitV::Expr(x2), VisitV::Stmt(*y2));
        },
        (StmtV::ForIn { iter: x1, body: y1, .. }, StmtV::ForIn { iter: x2, body: y2, .. }) => {
            lemma_seq2(VisitV::Expr(x1), VisitV::Stmt(*y1), VisitV::Expr(x2), VisitV::Stmt(*y2));
        },
        (StmtV::If { cond: x1, then: y1, otherwise: o1 }, StmtV::If { cond: x2, then: y2, otherwise: o2 }) => {
            assert(opt_box_stmt_visit(o1).len() == opt_box_stmt_visit(o2).len()) by {
                assert(blank_box_stmt(o1) == blank_box_stmt(o2));
            }
            lemma_split_visits(
                seq![VisitV::Expr(x1), VisitV::Stmt(*y1)],
                opt_box_stmt_visit(o1),
                seq![VisitV::Expr(x2), VisitV::Stmt(*y2)],
                opt_box_stmt_visit(o2),
            );
            lemma_seq2(VisitV::Expr(x1), VisitV::Stmt(*y1), VisitV::Expr(x2), VisitV::Stmt(*y2));
            match (o1, o2) {
                (Some(z1), Some(z2)) => lemma_seq1(VisitV::Stmt(*z1), VisitV::Stmt(*z2)),
                _ => {},
            }
        },
        (StmtV::Switch { disc: x1, cases: c1 }, StmtV::Switch { disc: x2, cases: c2 }) => {
            assert(cases_blank(c1).len() == c1.len() && cases_blank(c2).len() == c2.len());
            lemma_split_visits(seq![VisitV::Expr(x1)], case_visits(c1), seq![VisitV::Expr(x2)], case_visits(c2));
            lemma_seq1(VisitV::Expr(x1), VisitV::Expr(x2));
            lemma_case_visits_inj(c1, c2);
        },
        (StmtV::Try { body: y1, catch: k1, finally: f1 }, StmtV::Try { body: y2, catch: k2, finally: f2 }) => {
            assert(opt_catch_visit(k1).len() == opt_catch_visit(k2).len());
            assert(opt_box_stmt_visit(f1).len() == opt_box_stmt_visit(f2).len()) by {
                assert(blank_box_stmt(f1) == blank_box_stmt(f2));
            }
            lemma_split_visits(
                seq![VisitV::Stmt(*y1)] + opt_catch_visit(k1),
                opt_box_stmt_visit(f1),
                seq![VisitV::Stmt(*y2)] + opt_catch_visit(k2),
                opt_box_stmt_visit(f2),
            );
            lemma_split_visits(seq![VisitV::Stmt(*y1)], opt_catch_visit(k1), seq![VisitV::Stmt(*y2)], opt_catch_visit(k2));
            lemma_seq1(VisitV::Stmt(*y1), VisitV::Stmt(*y2));
            match (k1, k2) {
                (Some(z1), Some(z2)) => lemma_seq1(VisitV::Stmt(*z1.body), VisitV::Stmt(*z2.body)),
                _ => {},
            }
            match (f1, f2) {
                (Some(z1), Some(z2)) => lemma_seq1(VisitV::Stmt(*z1), VisitV::Stmt(*z2)),
                _ => {},
            }
        },
        _ => {},
    }
}

} // verus!
