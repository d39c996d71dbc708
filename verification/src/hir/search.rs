//! Searching HIR bodies for an expression of a given kind. The search
//! visits every expression of every statement, closure bodies included,
//! and stops at nested declarations.
use vstd::prelude::*;
use crate::hir::expr::{HirCallee, HirExpr, ObjectLiteralField};
use crate::hir::stmt::HirStmt;
use crate::hir::view::{
    cases_v, exprs_v, lemma_opt_box_expr_v, lemma_opt_box_stmt_v, lemma_opt_catch_v, lemma_opt_expr_v, ofields_v,
    sfields_v, stmts_v, CalleeV, CaseV, ExprV, OFieldV, StmtV,
};
use crate::text::str_eq;
use crate::hir::visitor::{
    callee_visit, case_visits, expr_children, expr_visits, opt_box_expr_visit, opt_box_stmt_visit, opt_catch_visit, stmt_children,
    VisitV,
};

verus! {

/// Whether expression `e` itself is what the search looks for: an `await`
/// when `names` is `None`, otherwise a global whose name is in `names`.
pub open spec fn hits(e: ExprV, names: Option<Seq<Seq<char>>>) -> bool {
    match names {
        None => e is Await,
        Some(ns) => e matches ExprV::Global { name, .. } && ns.contains(name),
    }
}

/// Whether `e` or an expression inside it is a hit.
pub open spec fn any_expr(e: ExprV, n: Option<Seq<Seq<char>>>) -> bool
    decreases e, 0nat,
{
    hits(e, n) || match e {
        ExprV::Field { owner, .. } => any_expr(*owner, n),
        ExprV::Index { owner, index, .. } => any_expr(*owner, n) || any_expr(*index, n),
        ExprV::Call { callee, args, .. } => any_exprs(args, n, args.len()) || match callee {
            CalleeV::Indirect(inner) => any_expr(*inner, n),
            _ => false,
        },
        ExprV::Binary { lhs, rhs, .. } => any_expr(*lhs, n) || any_expr(*rhs, n),
        ExprV::Unary { expr, .. } => any_expr(*expr, n),
        ExprV::StructLiteral { fields, .. } => any_sfields(fields, n, fields.len()),
        ExprV::ObjectLiteral { fields, .. } => any_ofields(fields, n, fields.len()),
        ExprV::Ternary { cond, then_branch, else_branch, .. } =>
            any_expr(*cond, n) || any_expr(*then_branch, n) || any_expr(*else_branch, n),
        ExprV::ArrayLiteral { elements, .. } => any_exprs(elements, n, elements.len()),
        ExprV::Closure { captures, body, .. } => any_exprs(captures, n, captures.len()) || any_stmts(body, n, body.len()),
        ExprV::Await { expr, .. } => any_expr(*expr, n),
        ExprV::Yield { expr, .. } => match expr {
            Some(x) => any_expr(*x, n),
            None => false,
        },
        ExprV::Template { tag, expressions, .. } => (match tag {
            Some(t) => any_expr(*t, n),
            None => false,
        }) || any_exprs(expressions, n, expressions.len()),
        ExprV::New { callee, args, .. } => any_expr(*callee, n) || any_exprs(args, n, args.len()),
        ExprV::OptionalChain { base, .. } => any_expr(*base, n),
        ExprV::TypeAssertion { expr, .. } => any_expr(*expr, n),
        ExprV::Assignment { target, value, .. } => any_expr(*target, n) || any_expr(*value, n),
        ExprV::CompoundUpdate { target, rhs, .. } => any_expr(*target, n) || any_expr(*rhs, n),
        ExprV::Sequence { exprs, .. } => any_exprs(exprs, n, exprs.len()),
        ExprV::Import { source, .. } => any_expr(*source, n),
        _ => false,
    }
}

/// Whether one of the first `k` expressions of `s` holds a hit.
pub open spec fn any_exprs(s: Seq<ExprV>, n: Option<Seq<Seq<char>>>, k: nat) -> bool
    decreases s, k,
{
    if k == 0 || k > s.len() {
        false
    } else {
        any_exprs(s, n, (k - 1) as nat) || any_expr(s[k - 1], n)
    }
}

/// Whether one of the first `k` struct literal fields holds a hit.
pub open spec fn any_sfields(s: Seq<(crate::base::FieldId, ExprV)>, n: Option<Seq<Seq<char>>>, k: nat) -> bool
    decreases s, k,
{
    if k == 0 || k > s.len() {
        false
    } else {
        any_sfields(s, n, (k - 1) as nat) || any_sfield(s[k - 1], n)
    }
}

pub open spec fn any_sfield(f: (crate::base::FieldId, ExprV), n: Option<Seq<Seq<char>>>) -> bool
    decreases f, 0nat,
{
    any_expr(f.1, n)
}

/// Whether one of the first `k` object literal fields holds a hit.
pub open spec fn any_ofields(s: Seq<OFieldV>, n: Option<Seq<Seq<char>>>, k: nat) -> bool
    decreases s, k,
{
    if k == 0 || k > s.len() {
        false
    } else {
        any_ofields(s, n, (k - 1) as nat) || any_ofield(s[k - 1], n)
    }
}

pub open spec fn any_ofield(f: OFieldV, n: Option<Seq<Seq<char>>>) -> bool
    decreases f, 0nat,
{
    match f {
        OFieldV::Property { value, .. } => any_expr(value, n),
        OFieldV::Spread(value) => any_expr(value, n),
    }
}

/// Whether statement `s` holds a hit (not looking into declarations).
pub open spec fn any_stmt(s: StmtV, n: Option<Seq<Seq<char>>>) -> bool
    decreases s, 0nat,
{
    match s {
        StmtV::Block(inner) => any_stmts(inner, n, inner.len()),
        StmtV::Let { init, .. } => match init {
            Some(x) => any_expr(x, n),
            None => false,
        },
        StmtV::Expr { expr } => any_expr(expr, n),
        StmtV::If { cond, then, otherwise } => any_expr(cond, n) || any_stmt(*then, n) || match otherwise {
            Some(o) => any_stmt(*o, n),
            None => false,
        },
        StmtV::While { cond, body } => any_expr(cond, n) || any_stmt(*body, n),
        StmtV::DoWhile { body, cond } => any_stmt(*body, n) || any_expr(cond, n),
        StmtV::ForOf { iter, body, .. } => any_expr(iter, n) || any_stmt(*body, n),
        StmtV::ForAwaitOf { iter, body, .. } => any_expr(iter, n) || any_stmt(*body, n),
        StmtV::ForIn { iter, body, .. } => any_expr(iter, n) || any_stmt(*body, n),
        StmtV::Switch { disc, cases } => any_expr(disc, n) || any_cases(cases, n, cases.len()),
        StmtV::Return { value } => match value {
            Some(x) => any_expr(x, n),
            None => false,
        },
        StmtV::Throw { expr } => any_expr(expr, n),
        StmtV::Try { body, catch, finally } => any_stmt(*body, n) || (match catch {
            Some(c) => any_stmt(*c.body, n),
            None => false,
        }) || match finally {
            Some(f) => any_stmt(*f, n),
            None => false,
        },
        _ => false,
    }
}

/// Whether one of the first `k` statements of `s` holds a hit.
pub open spec fn any_stmts(s: Seq<StmtV>, n: Option<Seq<Seq<char>>>, k: nat) -> bool
    decreases s, k,
{
    if k == 0 || k > s.len() {
        false
    } else {
        any_stmts(s, n, (k - 1) as nat) || any_stmt(s[k - 1], n)
    }
}

pub open spec fn any_case(c: CaseV, n: Option<Seq<Seq<char>>>) -> bool
    decreases c, 0nat,
{
    (match c.test {
        Some(t) => any_expr(t, n),
        None => false,
    }) || any_stmts(c.body, n, c.body.len())
}

/// Whether one of the first `k` cases holds a hit.
pub open spec fn any_cases(s: Seq<CaseV>, n: Option<Seq<Seq<char>>>, k: nat) -> bool
    decreases s, k,
{
    if k == 0 || k > s.len() {
        false
    } else {
        any_cases(s, n, (k - 1) as nat) || any_case(s[k - 1], n)
    }
}

/// The views of a list of names.
pub open spec fn names_view(v: Seq<String>) -> Seq<Seq<char>> {
    v.map_values(|s: String| s@)
}

/// The probe's view.
pub open spec fn probe_v(names: Option<&Vec<String>>) -> Option<Seq<Seq<char>>> {
    match names {
        Some(v) => Some(names_view(v@)),
        None => None,
    }
}

fn name_in(name: &String, names: &Vec<String>) -> (b: bool)
    ensures
        b == names_view(names@).contains(name@),
{
    let mut i: usize = 0;
    while i < names.len()
        invariant
            0 <= i <= names@.len(),
            forall|j: int| 0 <= j < i ==> names@[j]@ != name@,
        decreases names@.len() - i,
    {
        if str_eq(names[i].as_str(), name.as_str()) {
            proof {
                assert(names_view(names@)[i as int] == name@);
            }
            return true;
        }
        i += 1;
    }
    proof {
        if names_view(names@).contains(name@) {
            let j = choose|j: int| 0 <= j < names_view(names@).len() && names_view(names@)[j] == name@;
            assert(names@[j]@ == name@);
        }
    }
    false
}

fn hits_exec(e: &HirExpr, names: Option<&Vec<String>>) -> (b: bool)
    ensures
        b == hits(e@, probe_v(names)),
{
    match names {
        None => match e {
            HirExpr::Await { .. } => true,
            _ => false,
        },
        Some(ns) => match e {
            HirExpr::Global { name, .. } => name_in(name, ns),
            _ => false,
        },
    }
}

#[verifier::loop_isolation(false)]
fn exprs_contain(v: &Vec<HirExpr>, names: Option<&Vec<String>>) -> (b: bool)
    ensures
        b == any_exprs(exprs_v(v@), probe_v(names), v@.len()),
    decreases v, 0nat,
{
    let mut i: usize = 0;
    while i < v.len()
        invariant
            0 <= i <= v@.len(),
            !any_exprs(exprs_v(v@), probe_v(names), i as nat),
        decreases v@.len() - i,
    {
        proof {
            assert(decreases_to!(v => v@[i as int]));
        }
        if expr_contains(&v[i], names) {
            proof {
                lemma_any_exprs_mono(exprs_v(v@), probe_v(names), (i + 1) as nat, v@.len());
            }
            return true;
        }
        i += 1;
    }
    false
}

/// The search finds in an expression what it finds in any of the children
/// that a walk of the expression visits (both operands of an operator,
/// every argument, field, element and capture, a closure's body), and it
/// finds the expression itself when it is a hit.
pub proof fn law_search_sees_expr_children(e: ExprV, n: Option<Seq<Seq<char>>>, i: int)
    requires
        0 <= i < expr_children(e).len(),
    ensures
        hits(e, n) ==> any_expr(e, n),
        match expr_children(e)[i] {
            VisitV::Expr(x) => any_expr(x, n) ==> any_expr(e, n),
            VisitV::Block(b) => any_stmts(b, n, b.len()) ==> any_expr(e, n),
            _ => true,
        },
{
    match e {
        ExprV::Call { callee, args, .. } => {
            assert(expr_visits(args).len() == args.len());
            if i < args.len() {
                assert(expr_children(e)[i] == expr_visits(args)[i]);
                if any_expr(args[i], n) {
                    lemma_any_exprs_elem(args, n, i);
                }
            } else {
                assert(expr_children(e)[i] == callee_visit(callee)[i - args.len()]);
            }
        },
        ExprV::StructLiteral { fields, .. } => {
            assert(expr_children(e)[i] == VisitV::Expr(fields[i].1));
            if any_expr(fields[i].1, n) {
                assert(any_sfield(fields[i], n));
                assert(any_sfields(fields, n, (i + 1) as nat));
                lemma_any_sfields_mono(fields, n, (i + 1) as nat, fields.len());
            }
        },
        ExprV::ObjectLiteral { fields, .. } => {
            assert(expr_children(e)[i] == VisitV::Expr(crate::hir::view::ofield_value(fields[i])));
            if any_expr(crate::hir::view::ofield_value(fields[i]), n) {
                assert(any_ofield(fields[i], n));
                assert(any_ofields(fields, n, (i + 1) as nat));
                lemma_any_ofields_mono(fields, n, (i + 1) as nat, fields.len());
            }
        },
        ExprV::ArrayLiteral { elements, .. } => {
            assert(expr_children(e)[i] == VisitV::Expr(elements[i]));
            if any_expr(elements[i], n) {
                lemma_any_exprs_elem(elements, n, i);
            }
        },
        ExprV::Sequence { exprs, .. } => {
            assert(expr_children(e)[i] == VisitV::Expr(exprs[i]));
            if any_expr(exprs[i], n) {
                lemma_any_exprs_elem(exprs, n, i);
            }
        },
        ExprV::Closure { captures, body, .. } => {
            assert(expr_visits(captures).len() == captures.len());
            if i < captures.len() {
                assert(expr_children(e)[i] == VisitV::Expr(captures[i]));
                if any_expr(captures[i], n) {
                    lemma_any_exprs_elem(captures, n, i);
                }
            } else {
                assert(expr_children(e)[i] == VisitV::Block(body));
            }
        },
        ExprV::Template { tag, expressions, .. } => {
            let k = opt_box_expr_visit(tag).len();
            assert(expr_visits(expressions).len() == expressions.len());
            if i < k {
                assert(expr_children(e)[i] == opt_box_expr_visit(tag)[i]);
            } else {
                assert(expr_children(e)[i] == VisitV::Expr(expressions[i - k]));
                if any_expr(expressions[i - k], n) {
                    lemma_any_exprs_elem(expressions, n, i - k);
                }
            }
        },
        ExprV::New { callee, args, .. } => {
            assert(expr_visits(args).len() == args.len());
            if i >= 1 {
                assert(expr_children(e)[i] == VisitV::Expr(args[i - 1]));
                if any_expr(args[i - 1], n) {
                    lemma_any_exprs_elem(args, n, i - 1);
                }
            } else {
                assert(expr_children(e)[i] == VisitV::Expr(*callee));
            }
        },
        ExprV::Index { owner, index, .. } => {
            assert(expr_children(e)[i] == if i == 0 { VisitV::Expr(*owner) } else { VisitV::Expr(*index) });
        },
        ExprV::Binary { lhs, rhs, .. } => {
            assert(expr_children(e)[i] == if i == 0 { VisitV::Expr(*lhs) } else { VisitV::Expr(*rhs) });
        },
        ExprV::Assignment { target, value, .. } => {
            assert(expr_children(e)[i] == if i == 0 { VisitV::Expr(*target) } else { VisitV::Expr(*value) });
        },
        ExprV::CompoundUpdate { target, rhs, .. } => {
            assert(expr_children(e)[i] == if i == 0 { VisitV::Expr(*target) } else { VisitV::Expr(*rhs) });
        },
        ExprV::Ternary { cond, then_branch, else_branch, .. } => {
            assert(expr_children(e)[i] == if i == 0 {
                VisitV::Expr(*cond)
            } else if i == 1 {
                VisitV::Expr(*then_branch)
            } else {
                VisitV::Expr(*else_branch)
            });
        },
        _ => {},
    }
}

/// Whether the search finds something in a child that a walk visits.
pub open spec fn child_hit(v: VisitV, n: Option<Seq<Seq<char>>>) -> bool {
    match v {
        VisitV::Expr(x) => any_expr(x, n),
        VisitV::Stmt(x) => any_stmt(x, n),
        VisitV::Block(b) => any_stmts(b, n, b.len()),
        VisitV::Case(c) => any_case(c, n),
    }
}

proof fn lemma_any_exprs_witness(s: Seq<ExprV>, n: Option<Seq<Seq<char>>>, k: nat) -> (j: int)
    requires
        any_exprs(s, n, k),
    ensures
        0 <= j < k,
        j < s.len(),
        any_expr(s[j], n),
    decreases k,
{
    if any_expr(s[k - 1], n) {
        (k - 1) as int
    } else {
        lemma_any_exprs_witness(s, n, (k - 1) as nat)
    }
}

proof fn lemma_any_sfields_witness(s: Seq<(crate::base::FieldId, ExprV)>, n: Option<Seq<Seq<char>>>, k: nat) -> (j: int)
    requires
        any_sfields(s, n, k),
    ensures
        0 <= j < k,
        j < s.len(),
        any_expr(s[j].1, n),
    decreases k,
{
    if any_sfield(s[k - 1], n) {
        (k - 1) as int
    } else {
        lemma_any_sfields_witness(s, n, (k - 1) as nat)
    }
}

proof fn lemma_any_ofields_witness(s: Seq<OFieldV>, n: Option<Seq<Seq<char>>>, k: nat) -> (j: int)
    requires
        any_ofields(s, n, k),
    ensures
        0 <= j < k,
        j < s.len(),
        any_expr(crate::hir::view::ofield_value(s[j]), n),
    decreases k,
{
    if any_ofield(s[k - 1], n) {
        (k - 1) as int
    } else {
        lemma_any_ofields_witness(s, n, (k - 1) as nat)
    }
}

proof fn lemma_any_cases_witness(s: Seq<CaseV>, n: Option<Seq<Seq<char>>>, k: nat) -> (j: int)
    requires
        any_cases(s, n, k),
    ensures
        0 <= j < k,
        j < s.len(),
        any_case(s[j], n),
    decreases k,
{
    if any_case(s[k - 1], n) {
        (k - 1) as int
    } else {
        lemma_any_cases_witness(s, n, (k - 1) as nat)
    }
}

/// The search finds something in an expression only where the expression
/// itself is a hit or one of the children that a walk visits holds one:
/// it is exactly a search of the expression and what lies inside it.
pub proof fn law_search_only_sees_expr_and_children(e: ExprV, n: Option<Seq<Seq<char>>>)
    ensures
        any_expr(e, n) ==> hits(e, n) || exists|i: int|
            0 <= i < expr_children(e).len() && #[trigger] child_hit(expr_children(e)[i], n),
{
    if any_expr(e, n) && !hits(e, n) {
        let c = expr_children(e);
        match e {
            ExprV::Call { callee, args, .. } => {
                assert(expr_visits(args).len() == args.len());
                if any_exprs(args, n, args.len()) {
                    let j = lemma_any_exprs_witness(args, n, args.len());
                    assert(c[j] == VisitV::Expr(args[j]));
                    assert(child_hit(c[j], n));
                } else {
                    match callee {
                        CalleeV::Indirect(inner) => {
                            assert(c[args.len() as int] == VisitV::Expr(*inner));
                            assert(child_hit(c[args.len() as int], n));
                        },
                        _ => {},
                    }
                }
            },
            ExprV::StructLiteral { fields, .. } => {
                let j = lemma_any_sfields_witness(fields, n, fields.len());
                assert(c[j] == VisitV::Expr(fields[j].1));
                assert(child_hit(c[j], n));
            },
            ExprV::ObjectLiteral { fields, .. } => {
                let j = lemma_any_ofields_witness(fields, n, fields.len());
                assert(c[j] == VisitV::Expr(crate::hir::view::ofield_value(fields[j])));
                assert(child_hit(c[j], n));
            },
            ExprV::ArrayLiteral { elements, .. } => {
                let j = lemma_any_exprs_witness(elements, n, elements.len());
                assert(c[j] == VisitV::Expr(elements[j]));
                assert(child_hit(c[j], n));
            },
            ExprV::Sequence { exprs, .. } => {
                let j = lemma_any_exprs_witness(exprs, n, exprs.len());
                assert(c[j] == VisitV::Expr(exprs[j]));
                assert(child_hit(c[j], n));
            },
            ExprV::Closure { captures, body, .. } => {
                assert(expr_visits(captures).len() == captures.len());
                if any_exprs(captures, n, captures.len()) {
                    let j = lemma_any_exprs_witness(captures, n, captures.len());
                    assert(c[j] == VisitV::Expr(captures[j]));
                    assert(child_hit(c[j], n));
                } else {
                    assert(c[captures.len() as int] == VisitV::Block(body));
                    assert(child_hit(c[captures.len() as int], n));
                }
            },
            ExprV::Template { tag, expressions, .. } => {
                let k = opt_box_expr_visit(tag).len();
                assert(expr_visits(expressions).len() == expressions.len());
                if any_exprs(expressions, n, expressions.len()) {
                    let j = lemma_any_exprs_witness(expressions, n, expressions.len());
                    assert(c[k + j] == VisitV::Expr(expressions[j]));
                    assert(child_hit(c[k + j], n));
                } else {
                    match tag {
                        Some(t) => {
                            assert(c[0] == VisitV::Expr(*t));
                            assert(child_hit(c[0], n));
                        },
                        None => {},
                    }
                }
            },
            ExprV::New { callee, args, .. } => {
                assert(expr_visits(args).len() == args.len());
                if any_expr(*callee, n) {
                    assert(c[0] == VisitV::Expr(*callee));
                    assert(child_hit(c[0], n));
                } else {
                    let j = lemma_any_exprs_witness(args, n, args.len());
                    assert(c[1 + j] == VisitV::Expr(args[j]));
                    assert(child_hit(c[1 + j], n));
                }
            },
            ExprV::Yield { expr, .. } => {
                match expr {
                    Some(x) => {
                        assert(c[0] == VisitV::Expr(*x));
                        assert(child_hit(c[0], n));
                    },
                    None => {},
                }
            },
            ExprV::Field { owner, .. } => {
                assert(child_hit(c[0], n));
            },
            ExprV::Unary { expr, .. } => {
                assert(child_hit(c[0], n));
            },
            ExprV::Await { expr, .. } => {
                assert(child_hit(c[0], n));
            },
            ExprV::OptionalChain { base, .. } => {
                assert(child_hit(c[0], n));
            },
            ExprV::TypeAssertion { expr, .. } => {
                assert(child_hit(c[0], n));
            },
            ExprV::Import { source, .. } => {
                assert(child_hit(c[0], n));
            },
            ExprV::Index { owner, index, .. } => {
                if any_expr(*owner, n) {
                    assert(child_hit(c[0], n));
                } else {
                    assert(child_hit(c[1], n));
                }
            },
            ExprV::Binary { lhs, rhs, .. } => {
                if any_expr(*lhs, n) {
                    assert(child_hit(c[0], n));
                } else {
                    assert(child_hit(c[1], n));
                }
            },
            ExprV::Assignment { target, value, .. } => {
                if any_expr(*target, n) {
                    assert(child_hit(c[0], n));
                } else {
                    assert(child_hit(c[1], n));
                }
            },
            ExprV::CompoundUpdate { target, rhs, .. } => {
                if any_expr(*target, n) {
                    assert(child_hit(c[0], n));
                } else {
                    assert(child_hit(c[1], n));
                }
            },
            ExprV::Ternary { cond, then_branch, else_branch, .. } => {
                if any_expr(*cond, n) {
                    assert(child_hit(c[0], n));
                } else if any_expr(*then_branch, n) {
                    assert(child_hit(c[1], n));
                } else {
                    assert(child_hit(c[2], n));
                }
            },
            _ => {},
        }
    }
}

/// The search finds something in a statement only where one of the
/// children that a walk of the statement visits holds it.
pub proof fn law_search_only_sees_stmt_children(s: StmtV, n: Option<Seq<Seq<char>>>)
    ensures
        any_stmt(s, n) ==> exists|i: int| 0 <= i < stmt_children(s).len() && #[trigger] child_hit(stmt_children(s)[i], n),
{
    if any_stmt(s, n) {
        let c = stmt_children(s);
        match s {
            StmtV::Block(inner) => {
                assert(child_hit(c[0], n));
            },
            StmtV::Let { init, .. } => {
                assert(child_hit(c[0], n));
            },
            StmtV::Return { value } => {
                assert(child_hit(c[0], n));
            },
            StmtV::Expr { expr } => {
                assert(child_hit(c[0], n));
            },
            StmtV::Throw { expr } => {
                assert(child_hit(c[0], n));
            },
            StmtV::If { cond, then, otherwise } => {
                if any_expr(cond, n) {
                    assert(child_hit(c[0], n));
                } else if any_stmt(*then, n) {
                    assert(child_hit(c[1], n));
                } else {
                    assert(child_hit(c[2], n));
                }
            },
            StmtV::While { cond, body } => {
                if any_expr(cond, n) {
                    assert(child_hit(c[0], n));
                } else {
                    assert(child_hit(c[1], n));
                }
            },
            StmtV::DoWhile { body, cond } => {
                if any_stmt(*body, n) {
                    assert(child_hit(c[0], n));
                } else {
                    assert(child_hit(c[1], n));
                }
            },
            StmtV::ForOf { iter, body, .. } => {
                if any_expr(iter, n) {
                    assert(child_hit(c[0], n));
                } else {
                    assert(child_hit(c[1], n));
                }
            },
            StmtV::ForAwaitOf { iter, body, .. } => {
                if any_expr(iter, n) {
                    assert(child_hit(c[0], n));
                } else {
                    assert(child_hit(c[1], n));
                }
            },
            StmtV::ForIn { iter, body, .. } => {
                if any_expr(iter, n) {
                    assert(child_hit(c[0], n));
                } else {
                    assert(child_hit(c[1], n));
                }
            },
            StmtV::Switch { disc, cases } => {
                assert(case_visits(cases).len() == cases.len());
                if any_expr(disc, n) {
                    assert(child_hit(c[0], n));
                } else {
                    let j = lemma_any_cases_witness(cases, n, cases.len());
                    assert(c[1 + j] == VisitV::Case(cases[j]));
                    assert(child_hit(c[1 + j], n));
                }
            },
            StmtV::Try { body, catch, finally } => {
                let k: int = opt_catch_visit(catch).len() as int;
                if any_stmt(*body, n) {
                    assert(child_hit(c[0], n));
                } else if catch is Some && any_stmt(*catch->0.body, n) {
                    assert(c[1] == VisitV::Stmt(*catch->0.body));
                    assert(child_hit(c[1], n));
                } else {
                    assert(c[1 + k] == opt_box_stmt_visit(finally)[0]);
                    assert(child_hit(c[1 + k], n));
                }
            },
            _ => {},
        }
    }
}

/// A hit in the `j`-th expression is a hit in the list.
proof fn lemma_any_exprs_elem(s: Seq<ExprV>, n: Option<Seq<Seq<char>>>, j: int)
    requires
        0 <= j < s.len(),
        any_expr(s[j], n),
    ensures
        any_exprs(s, n, s.len()),
{
    assert(any_exprs(s, n, (j + 1) as nat));
    lemma_any_exprs_mono(s, n, (j + 1) as nat, s.len());
}

/// A hit in the `j`-th statement is a hit in the list.
proof fn lemma_any_stmts_elem(s: Seq<StmtV>, n: Option<Seq<Seq<char>>>, j: int)
    requires
        0 <= j < s.len(),
        any_stmt(s[j], n),
    ensures
        any_stmts(s, n, s.len()),
{
    assert(any_stmts(s, n, (j + 1) as nat));
    lemma_any_stmts_mono(s, n, (j + 1) as nat, s.len());
}

/// The search finds in a statement what it finds in any of the children
/// that a walk of the statement visits: its expressions, nested
/// statements, block and cases.
pub proof fn law_search_sees_stmt_children(s: StmtV, n: Option<Seq<Seq<char>>>, i: int)
    requires
        0 <= i < stmt_children(s).len(),
    ensures
        match stmt_children(s)[i] {
            VisitV::Expr(x) => any_expr(x, n) ==> any_stmt(s, n),
            VisitV::Stmt(x) => any_stmt(x, n) ==> any_stmt(s, n),
            VisitV::Block(b) => any_stmts(b, n, b.len()) ==> any_stmt(s, n),
            VisitV::Case(c) => any_case(c, n) ==> any_stmt(s, n),
        },
{
    match s {
        StmtV::If { cond, then, otherwise } => {
            if i >= 2 {
                assert(stmt_children(s)[i] == opt_box_stmt_visit(otherwise)[i - 2]);
            } else {
                assert(stmt_children(s)[i] == if i == 0 { VisitV::Expr(cond) } else { VisitV::Stmt(*then) });
            }
        },
        StmtV::While { cond, body } => {
            assert(stmt_children(s)[i] == if i == 0 { VisitV::Expr(cond) } else { VisitV::Stmt(*body) });
        },
        StmtV::DoWhile { body, cond } => {
            assert(stmt_children(s)[i] == if i == 0 { VisitV::Stmt(*body) } else { VisitV::Expr(cond) });
        },
        StmtV::ForOf { iter, body, .. } => {
            assert(stmt_children(s)[i] == if i == 0 { VisitV::Expr(iter) } else { VisitV::Stmt(*body) });
        },
        StmtV::ForAwaitOf { iter, body, .. } => {
            assert(stmt_children(s)[i] == if i == 0 { VisitV::Expr(iter) } else { VisitV::Stmt(*body) });
        },
        StmtV::ForIn { iter, body, .. } => {
            assert(stmt_children(s)[i] == if i == 0 { VisitV::Expr(iter) } else { VisitV::Stmt(*body) });
        },
        StmtV::Switch { disc, cases } => {
            assert(case_visits(cases).len() == cases.len());
            if i >= 1 {
                assert(stmt_children(s)[i] == VisitV::Case(cases[i - 1]));
                if any_case(cases[i - 1], n) {
                    assert(any_cases(cases, n, i as nat));
                    lemma_any_cases_mono(cases, n, i as nat, cases.len());
                }
            } else {
                assert(stmt_children(s)[i] == VisitV::Expr(disc));
            }
        },
        StmtV::Try { body, catch, finally } => {
            let k = opt_catch_visit(catch).len();
            if i == 0 {
                assert(stmt_children(s)[i] == VisitV::Stmt(*body));
            } else if i < 1 + k {
                assert(stmt_children(s)[i] == opt_catch_visit(catch)[i - 1]);
            } else {
                assert(stmt_children(s)[i] == opt_box_stmt_visit(finally)[i - 1 - k]);
            }
        },
        _ => {},
    }
}

proof fn lemma_any_exprs_mono(s: Seq<ExprV>, n: Option<Seq<Seq<char>>>, a: nat, b: nat)
    requires
        a <= b <= s.len(),
        any_exprs(s, n, a),
    ensures
        any_exprs(s, n, b),
    decreases b - a,
{
    if a < b {
        lemma_any_exprs_mono(s, n, a, (b - 1) as nat);
    }
}

proof fn lemma_any_stmts_mono(s: Seq<StmtV>, n: Option<Seq<Seq<char>>>, a: nat, b: nat)
    requires
        a <= b <= s.len(),
        any_stmts(s, n, a),
    ensures
        any_stmts(s, n, b),
    decreases b - a,
{
    if a < b {
        lemma_any_stmts_mono(s, n, a, (b - 1) as nat);
    }
}

proof fn lemma_any_sfields_mono(s: Seq<(crate::base::FieldId, ExprV)>, n: Option<Seq<Seq<char>>>, a: nat, b: nat)
    requires
        a <= b <= s.len(),
        any_sfields(s, n, a),
    ensures
        any_sfields(s, n, b),
    decreases b - a,
{
    if a < b {
        lemma_any_sfields_mono(s, n, a, (b - 1) as nat);
    }
}

proof fn lemma_any_ofields_mono(s: Seq<OFieldV>, n: Option<Seq<Seq<char>>>, a: nat, b: nat)
    requires
        a <= b <= s.len(),
        any_ofields(s, n, a),
    ensures
        any_ofields(s, n, b),
    decreases b - a,
{
    if a < b {
        lemma_any_ofields_mono(s, n, a, (b - 1) as nat);
    }
}

proof fn lemma_any_cases_mono(s: Seq<CaseV>, n: Option<Seq<Seq<char>>>, a: nat, b: nat)
    requires
        a <= b <= s.len(),
        any_cases(s, n, a),
    ensures
        any_cases(s, n, b),
    decreases b - a,
{
    if a < b {
        lemma_any_cases_mono(s, n, a, (b - 1) as nat);
    }
}

#[verifier::loop_isolation(false)]
fn sfields_contain(v: &Vec<(crate::base::FieldId, HirExpr)>, names: Option<&Vec<String>>) -> (b: bool)
    ensures
        b == any_sfields(sfields_v(v@), probe_v(names), v@.len()),
    decreases v, 0nat,
{
    let mut i: usize = 0;
    while i < v.len()
        invariant
            0 <= i <= v@.len(),
            !any_sfields(sfields_v(v@), probe_v(names), i as nat),
        decreases v@.len() - i,
    {
        proof {
            assert(decreases_to!(v => v@[i as int]));
            assert(decreases_to!(v@[i as int] => v@[i as int].1));
        }
        let found = expr_contains(&v[i].1, names);
        proof {
            let f = sfields_v(v@)[i as int];
            assert(f == crate::hir::view::sfield_v(v@[i as int]));
            assert(any_sfield(f, probe_v(names)) == any_expr(f.1, probe_v(names)));
        }
        if found {
            proof {
                lemma_any_sfields_mono(sfields_v(v@), probe_v(names), (i + 1) as nat, v@.len());
            }
            return true;
        }
        i += 1;
    }
    false
}

#[verifier::loop_isolation(false)]
fn ofields_contain(v: &Vec<ObjectLiteralField>, names: Option<&Vec<String>>) -> (b: bool)
    ensures
        b == any_ofields(ofields_v(v@), probe_v(names), v@.len()),
    decreases v, 0nat,
{
    let mut i: usize = 0;
    while i < v.len()
        invariant
            0 <= i <= v@.len(),
            !any_ofields(ofields_v(v@), probe_v(names), i as nat),
        decreases v@.len() - i,
    {
        proof {
            assert(decreases_to!(v => v@[i as int]));
        }
        let found = match &v[i] {
            ObjectLiteralField::Property { value, .. } => expr_contains(value, names),
            ObjectLiteralField::Spread(value) => expr_contains(value, names),
        };
        proof {
            let f = ofields_v(v@)[i as int];
            assert(f == crate::hir::view::ofield_v(v@[i as int]));
            assert(any_ofield(f, probe_v(names)) == match f {
                OFieldV::Property { value, .. } => any_expr(value, probe_v(names)),
                OFieldV::Spread(value) => any_expr(value, probe_v(names)),
            });
        }
        if found {
            proof {
                lemma_any_ofields_mono(ofields_v(v@), probe_v(names), (i + 1) as nat, v@.len());
            }
            return true;
        }
        i += 1;
    }
    false
}

fn contains_a(e: &HirExpr, names: Option<&Vec<String>>) -> (b: bool)
    requires
        !hits(e@, probe_v(names)),
        e is Field || e is Index || e is Call || e is Binary || e is Unary || e is StructLiteral || e is ObjectLiteral,
    ensures
        b == any_expr(e@, probe_v(names)),
    decreases e, 0nat,
{
    match e {
        HirExpr::Field { owner, .. } => expr_contains(owner, names),
        HirExpr::Index { owner, index, .. } => expr_contains(owner, names) || expr_contains(index, names),
        HirExpr::Call { callee, args, .. } => {
            proof {
                crate::hir::view::lemma_callee_v(*callee);
            }
            if exprs_contain(args, names) {
                return true;
            }
            match callee {
                HirCallee::Indirect(inner) => expr_contains(inner, names),
                _ => false,
            }
        },
        HirExpr::Binary { lhs, rhs, .. } => expr_contains(lhs, names) || expr_contains(rhs, names),
        HirExpr::Unary { expr, .. } => expr_contains(expr, names),
        HirExpr::StructLiteral { fields, .. } => sfields_contain(fields, names),
        HirExpr::ObjectLiteral { fields, .. } => ofields_contain(fields, names),
        _ => false,
    }
}

fn contains_b(e: &HirExpr, names: Option<&Vec<String>>) -> (b: bool)
    requires
        !hits(e@, probe_v(names)),
        e is Ternary || e is ArrayLiteral || e is Closure || e is Await || e is Yield || e is Template,
    ensures
        b == any_expr(e@, probe_v(names)),
    decreases e, 0nat,
{
    match e {
        HirExpr::Ternary { cond, then_branch, else_branch, .. } =>
            expr_contains(cond, names) || expr_contains(then_branch, names) || expr_contains(else_branch, names),
        HirExpr::ArrayLiteral { elements, .. } => exprs_contain(elements, names),
        HirExpr::Closure { captures, body, .. } => exprs_contain(captures, names) || stmts_contain(body, names),
        HirExpr::Await { expr, .. } => expr_contains(expr, names),
        HirExpr::Yield { expr, .. } => {
            proof {
                lemma_opt_box_expr_v(*expr);
            }
            match expr {
                Some(x) => expr_contains(x, names),
                None => false,
            }
        },
        HirExpr::Template { tag, expressions, .. } => {
            proof {
                lemma_opt_box_expr_v(*tag);
            }
            let in_tag = match tag {
                Some(t) => expr_contains(t, names),
                None => false,
            };
            in_tag || exprs_contain(expressions, names)
        },
        _ => false,
    }
}

fn contains_c(e: &HirExpr, names: Option<&Vec<String>>) -> (b: bool)
    requires
        !hits(e@, probe_v(names)),
        e is New || e is OptionalChain || e is TypeAssertion || e is Assignment || e is CompoundUpdate || e is Sequence || e is Import,
    ensures
        b == any_expr(e@, probe_v(names)),
    decreases e, 0nat,
{
    match e {
        HirExpr::New { callee, args, .. } => expr_contains(callee, names) || exprs_contain(args, names),
        HirExpr::OptionalChain { base, .. } => expr_contains(base, names),
        HirExpr::TypeAssertion { expr, .. } => expr_contains(expr, names),
        HirExpr::Assignment { target, value, .. } => expr_contains(target, names) || expr_contains(value, names),
        HirExpr::CompoundUpdate { target, rhs, .. } => expr_contains(target, names) || expr_contains(rhs, names),
        HirExpr::Sequence { exprs, .. } => exprs_contain(exprs, names),
        HirExpr::Import { source, .. } => expr_contains(source, names),
        _ => false,
    }
}

/// Whether `e` or an expression inside it is a hit.
pub fn expr_contains(e: &HirExpr, names: Option<&Vec<String>>) -> (b: bool)
    ensures
        b == any_expr(e@, probe_v(names)),
    decreases e, 1nat,
{
    if hits_exec(e, names) {
        return true;
    }
    match e {
        HirExpr::Field { .. } | HirExpr::Index { .. } | HirExpr::Call { .. } | HirExpr::Binary { .. } | HirExpr::Unary { .. } | HirExpr::StructLiteral { .. } | HirExpr::ObjectLiteral { .. } => contains_a(e, names),
        HirExpr::Ternary { .. } | HirExpr::ArrayLiteral { .. } | HirExpr::Closure { .. } | HirExpr::Await { .. } | HirExpr::Yield { .. } | HirExpr::Template { .. } => contains_b(e, names),
        HirExpr::New { .. } | HirExpr::OptionalChain { .. } | HirExpr::TypeAssertion { .. } | HirExpr::Assignment { .. } | HirExpr::CompoundUpdate { .. } | HirExpr::Sequence { .. } | HirExpr::Import { .. } => contains_c(e, names),
        _ => false,
    }
}

/// Whether one of the statements holds a hit.
#[verifier::loop_isolation(false)]
pub fn stmts_contain(v: &Vec<HirStmt>, names: Option<&Vec<String>>) -> (b: bool)
    ensures
        b == any_stmts(stmts_v(v@), probe_v(names), v@.len()),
    decreases v, 0nat,
{
    let mut i: usize = 0;
    while i < v.len()
        invariant
            0 <= i <= v@.len(),
            !any_stmts(stmts_v(v@), probe_v(names), i as nat),
        decreases v@.len() - i,
    {
        proof {
            assert(decreases_to!(v => v@[i as int]));
        }
        if stmt_contains(&v[i], names) {
            proof {
                lemma_any_stmts_mono(stmts_v(v@), probe_v(names), (i + 1) as nat, v@.len());
            }
            return true;
        }
        i += 1;
    }
    false
}

#[verifier::loop_isolation(false)]
#[verifier::rlimit(50)]
fn cases_contain(v: &Vec<crate::hir::stmt::HirSwitchCase>, names: Option<&Vec<String>>) -> (b: bool)
    ensures
        b == any_cases(cases_v(v@), probe_v(names), v@.len()),
    decreases v, 0nat,
{
    let mut i: usize = 0;
    while i < v.len()
        invariant
            0 <= i <= v@.len(),
            !any_cases(cases_v(v@), probe_v(names), i as nat),
        decreases v@.len() - i,
    {
        proof {
            assert(decreases_to!(v => v@[i as int]));
            lemma_opt_expr_v(v@[i as int].test);
        }
        let in_test = match &v[i].test {
            Some(t) => expr_contains(t, names),
            None => false,
        };
        let found = in_test || stmts_contain(&v[i].body, names);
        proof {
            let c = cases_v(v@)[i as int];
            assert(c == crate::hir::view::case_v(v@[i as int]));
            assert(any_case(c, probe_v(names)) == found);
        }
        if found {
            proof {
                lemma_any_cases_mono(cases_v(v@), probe_v(names), (i + 1) as nat, v@.len());
            }
            return true;
        }
        i += 1;
    }
    false
}

/// Whether statement `s` holds a hit.
#[verifier::rlimit(50)]
pub fn stmt_contains(s: &HirStmt, names: Option<&Vec<String>>) -> (b: bool)
    ensures
        b == any_stmt(s@, probe_v(names)),
    decreases s, 1nat,
{
    match s {
        HirStmt::Block(inner) => stmts_contain(inner, names),
        HirStmt::Let { init, .. } => {
            proof {
                lemma_opt_expr_v(*init);
            }
            match init {
                Some(x) => expr_contains(x, names),
                None => false,
            }
        },
        HirStmt::Expr { expr } => expr_contains(expr, names),
        HirStmt::If { cond, then, otherwise } => {
            proof {
                lemma_opt_box_stmt_v(*otherwise);
            }
            if expr_contains(cond, names) || stmt_contains(then, names) {
                return true;
            }
            match otherwise {
                Some(o) => stmt_contains(o, names),
                None => false,
            }
        },
        HirStmt::While { cond, body } => expr_contains(cond, names) || stmt_contains(body, names),
        HirStmt::DoWhile { body, cond } => stmt_contains(body, names) || expr_contains(cond, names),
        HirStmt::ForOf { iter, body, .. } => expr_contains(iter, names) || stmt_contains(body, names),
        HirStmt::ForAwaitOf { iter, body, .. } => expr_contains(iter, names) || stmt_contains(body, names),
        HirStmt::ForIn { iter, body, .. } => expr_contains(iter, names) || stmt_contains(body, names),
        HirStmt::Switch { disc, cases } => expr_contains(disc, names) || cases_contain(cases, names),
        HirStmt::Return { value } => {
            proof {
                lemma_opt_expr_v(*value);
            }
            match value {
                Some(x) => expr_contains(x, names),
                None => false,
            }
        },
        HirStmt::Throw { expr } => expr_contains(expr, names),
        HirStmt::Try { body, catch, finally } => {
            proof {
                lemma_opt_catch_v(*catch);
                lemma_opt_box_stmt_v(*finally);
            }
            if stmt_contains(body, names) {
                return true;
            }
            let in_catch = match catch {
                Some(c) => stmt_contains(&c.body, names),
                None => false,
            };
            if in_catch {
                return true;
            }
            match finally {
                Some(f) => stmt_contains(f, names),
                None => false,
            }
        },
        _ => false,
    }
}

/// Whether a body awaits anywhere, closures included.
pub fn body_contains_await(body: &Vec<HirStmt>) -> (b: bool)
    ensures
        b == any_stmts(stmts_v(body@), None, body@.len()),
{
    stmts_contain(body, None)
}

/// Whether a body names, as a global, one of `outer_locals`.
pub fn exprs_reference_outer_local(stmts: &Vec<HirStmt>, outer_locals: &Vec<String>) -> (b: bool)
    ensures
        b == any_stmts(stmts_v(stmts@), Some(names_view(outer_locals@)), stmts@.len()),
{
    stmts_contain(stmts, Some(outer_locals))
}

} // verus!
