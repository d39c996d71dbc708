//! The update step of a C-style `for` loop, copied in front of every
//! `continue` of the loop body, so that the lowered `while` loop runs it
//! on every path to the next iteration.
use vstd::prelude::*;
use crate::hir::expr::HirExpr;
use crate::hir::stmt::{HirCatchClause, HirStmt, HirSwitchCase};
use crate::hir::view::{
    case_v, cases_v, catch_v, lemma_opt_box_stmt_v, lemma_opt_catch_v, stmt_v, stmts_v, CaseV, CatchV, ExprV, StmtV,
};

verus! {

/// The first `k` statements of `s`, each `continue` preceded by the update
/// `u` and every other statement with the update injected inside it.
pub open spec fn inject_seq(s: Seq<StmtV>, u: ExprV, k: nat) -> Seq<StmtV>
    decreases s, k,
{
    if k == 0 || k > s.len() {
        Seq::empty()
    } else {
        inject_seq(s, u, (k - 1) as nat) + (if s[k - 1] is Continue {
            seq![StmtV::Expr { expr: u }, s[k - 1]]
        } else {
            seq![inject_child(s[k - 1], u)]
        })
    }
}

/// A statement with the update injected in the statement lists and the
/// branches it holds; loops nested in it are left alone.
pub open spec fn inject_child(x: StmtV, u: ExprV) -> StmtV
    decreases x, 0nat,
{
    match x {
        StmtV::Block(inner) => StmtV::Block(inject_seq(inner, u, inner.len())),
        StmtV::If { cond, then, otherwise } => StmtV::If {
            cond,
            then: Box::new(inject_boxed(*then, u)),
            otherwise: match otherwise {
                Some(o) => Some(Box::new(inject_boxed(*o, u))),
                None => None,
            },
        },
        StmtV::Switch { disc, cases } => StmtV::Switch { disc, cases: inject_cases(cases, u, cases.len()) },
        StmtV::Try { body, catch, finally } => StmtV::Try {
            body: Box::new(inject_boxed(*body, u)),
            catch: match catch {
                Some(c) => Some(CatchV { binding: c.binding, body: Box::new(inject_boxed(*c.body, u)) }),
                None => None,
            },
            finally: match finally {
                Some(f) => Some(Box::new(inject_boxed(*f, u))),
                None => None,
            },
        },
        _ => x,
    }
}

/// A single statement in a branch: a `continue` becomes a block of the
/// update and the `continue`.
pub open spec fn inject_boxed(x: StmtV, u: ExprV) -> StmtV
    decreases x, 1nat,
{
    if x is Continue {
        StmtV::Block(seq![StmtV::Expr { expr: u }, x])
    } else {
        inject_child(x, u)
    }
}

/// The first `k` cases, each body injected.
pub open spec fn inject_cases(s: Seq<CaseV>, u: ExprV, k: nat) -> Seq<CaseV>
    decreases s, k,
{
    if k == 0 || k > s.len() {
        Seq::empty()
    } else {
        inject_cases(s, u, (k - 1) as nat).push(inject_case(s[k - 1], u))
    }
}

pub open spec fn inject_case(c: CaseV, u: ExprV) -> CaseV
    decreases c, 0nat,
{
    CaseV { test: c.test, body: inject_seq(c.body, u, c.body.len()) }
}

/// Whether, in the first `k` statements of `s`, every `continue` comes
/// right after the statement `u;`, and every other statement is guarded.
pub open spec fn guarded_stmts(s: Seq<StmtV>, u: ExprV, k: nat) -> bool
    decreases s, k,
{
    if k == 0 || k > s.len() {
        true
    } else {
        guarded_stmts(s, u, (k - 1) as nat) && if s[k - 1] is Continue {
            k >= 2 && s[k - 2] == StmtV::Expr { expr: u }
        } else {
            guarded(s[k - 1], u)
        }
    }
}

/// Whether every `continue` that a statement can reach without entering a
/// nested loop comes right after the statement `u;` in a list: a bare
/// `continue` (a branch of an `if`, say) is not guarded.
pub open spec fn guarded(x: StmtV, u: ExprV) -> bool
    decreases x, 0nat,
{
    match x {
        StmtV::Continue { .. } => false,
        StmtV::Block(inner) => guarded_stmts(inner, u, inner.len()),
        StmtV::If { then, otherwise, .. } => guarded(*then, u) && match otherwise {
            Some(o) => guarded(*o, u),
            None => true,
        },
        StmtV::Switch { cases, .. } => guarded_cases(cases, u, cases.len()),
        StmtV::Try { body, catch, finally } => guarded(*body, u) && (match catch {
            Some(c) => guarded(*c.body, u),
            None => true,
        }) && match finally {
            Some(f) => guarded(*f, u),
            None => true,
        },
        _ => true,
    }
}

/// Whether the bodies of the first `k` cases are guarded.
pub open spec fn guarded_cases(s: Seq<CaseV>, u: ExprV, k: nat) -> bool
    decreases s, k,
{
    if k == 0 || k > s.len() {
        true
    } else {
        guarded_cases(s, u, (k - 1) as nat) && guarded_case(s[k - 1], u)
    }
}

pub open spec fn guarded_case(c: CaseV, u: ExprV) -> bool
    decreases c, 0nat,
{
    guarded_stmts(c.body, u, c.body.len())
}

/// Guardedness of a prefix does not look past it.
proof fn lemma_guarded_stmts_prefix(a: Seq<StmtV>, b: Seq<StmtV>, u: ExprV, j: nat)
    requires
        j <= a.len(),
    ensures
        guarded_stmts(a + b, u, j) == guarded_stmts(a, u, j),
    decreases j,
{
    if j > 0 {
        lemma_guarded_stmts_prefix(a, b, u, (j - 1) as nat);
        assert((a + b)[j - 1] == a[j - 1]);
        if j >= 2 {
            assert((a + b)[j - 2] == a[j - 2]);
        }
    }
}

/// Guardedness of a prefix of cases does not look past it.
proof fn lemma_guarded_cases_prefix(a: Seq<CaseV>, c: CaseV, u: ExprV, j: nat)
    requires
        j <= a.len(),
    ensures
        guarded_cases(a.push(c), u, j) == guarded_cases(a, u, j),
    decreases j,
{
    if j > 0 {
        lemma_guarded_cases_prefix(a, c, u, (j - 1) as nat);
        assert(a.push(c)[j - 1] == a[j - 1]);
    }
}

proof fn lemma_inject_seq_guarded(s: Seq<StmtV>, u: ExprV, k: nat)
    requires
        k <= s.len(),
    ensures
        guarded_stmts(inject_seq(s, u, k), u, inject_seq(s, u, k).len()),
    decreases s, k,
{
    if k > 0 {
        let r = inject_seq(s, u, (k - 1) as nat);
        lemma_inject_seq_guarded(s, u, (k - 1) as nat);
        let x = s[k - 1];
        if x is Continue {
            let p = seq![StmtV::Expr { expr: u }, x];
            let r2 = r + p;
            assert(inject_seq(s, u, k) == r2);
            lemma_guarded_stmts_prefix(r, p, u, r.len());
            assert(r2[r.len() as int] == StmtV::Expr { expr: u });
            assert(r2[r.len() + 1int] == x);
            assert(guarded_stmts(r2, u, r.len()));
            assert(guarded(StmtV::Expr { expr: u }, u));
            assert(guarded_stmts(r2, u, (r.len() + 1) as nat));
        } else {
            let p = seq![inject_child(x, u)];
            let r2 = r + p;
            assert(inject_seq(s, u, k) == r2);
            lemma_inject_child_guarded(x, u);
            lemma_guarded_stmts_prefix(r, p, u, r.len());
            assert(r2[r.len() as int] == inject_child(x, u));
        }
    }
}

proof fn lemma_inject_child_guarded(x: StmtV, u: ExprV)
    requires
        !(x is Continue),
    ensures
        guarded(inject_child(x, u), u),
        !(inject_child(x, u) is Continue),
    decreases x, 0nat,
{
    match x {
        StmtV::Block(inner) => {
            lemma_inject_seq_guarded(inner, u, inner.len());
        },
        StmtV::If { then, otherwise, .. } => {
            lemma_inject_boxed_guarded(*then, u);
            match otherwise {
                Some(o) => lemma_inject_boxed_guarded(*o, u),
                None => {},
            }
        },
        StmtV::Switch { cases, .. } => {
            lemma_inject_cases_guarded(cases, u, cases.len());
        },
        StmtV::Try { body, catch, finally } => {
            lemma_inject_boxed_guarded(*body, u);
            match catch {
                Some(c) => lemma_inject_boxed_guarded(*c.body, u),
                None => {},
            }
            match finally {
                Some(f) => lemma_inject_boxed_guarded(*f, u),
                None => {},
            }
        },
        _ => {},
    }
}

proof fn lemma_inject_boxed_guarded(x: StmtV, u: ExprV)
    ensures
        guarded(inject_boxed(x, u), u),
    decreases x, 1nat,
{
    if x is Continue {
        let b = seq![StmtV::Expr { expr: u }, x];
        assert(b[0] == StmtV::Expr { expr: u });
        assert(b[1] == x);
        assert(guarded_stmts(b, u, 0));
        assert(guarded(StmtV::Expr { expr: u }, u));
        assert(guarded_stmts(b, u, 1));
        assert(guarded_stmts(b, u, 2));
    } else {
        lemma_inject_child_guarded(x, u);
    }
}

proof fn lemma_inject_cases_guarded(s: Seq<CaseV>, u: ExprV, k: nat)
    requires
        k <= s.len(),
    ensures
        inject_cases(s, u, k).len() == k,
        guarded_cases(inject_cases(s, u, k), u, k),
    decreases s, k,
{
    if k > 0 {
        let r = inject_cases(s, u, (k - 1) as nat);
        lemma_inject_cases_guarded(s, u, (k - 1) as nat);
        let c = inject_case(s[k - 1], u);
        lemma_inject_case_guarded(s[k - 1], u);
        lemma_guarded_cases_prefix(r, c, u, (k - 1) as nat);
        assert(r.push(c)[k - 1] == c);
    }
}

proof fn lemma_inject_case_guarded(c: CaseV, u: ExprV)
    ensures
        guarded_case(inject_case(c, u), u),
    decreases c, 0nat,
{
    lemma_inject_seq_guarded(c.body, u, c.body.len());
}

/// After the update is injected into the body of a `for` loop, every
/// `continue` that would start the next iteration (one not inside a nested
/// loop, at any depth of blocks, branches, cases and `try` parts) comes
/// right after the update: the loop advances on every path.
pub proof fn law_injected_continues_follow_update(s: Seq<StmtV>, u: ExprV)
    ensures
        guarded_stmts(inject_seq(s, u, s.len()), u, inject_seq(s, u, s.len()).len()),
{
    lemma_inject_seq_guarded(s, u, s.len());
}

/// A branch of a statement, injected on its own, is guarded as well: a
/// lone `continue` there becomes the update followed by the `continue`.
pub proof fn law_injected_branch_follows_update(x: StmtV, u: ExprV)
    ensures
        guarded(inject_boxed(x, u), u),
{
    lemma_inject_boxed_guarded(x, u);
}

/// Whether one of the first `k` statements of `s` can reach a `continue`
/// of the loop around them.
pub open spec fn has_continue_stmts(s: Seq<StmtV>, k: nat) -> bool
    decreases s, k,
{
    if k == 0 || k > s.len() {
        false
    } else {
        has_continue_stmts(s, (k - 1) as nat) || has_continue(s[k - 1])
    }
}

/// Whether a statement can reach a `continue` of the loop around it,
/// without entering a nested loop.
pub open spec fn has_continue(x: StmtV) -> bool
    decreases x, 0nat,
{
    match x {
        StmtV::Continue { .. } => true,
        StmtV::Block(inner) => has_continue_stmts(inner, inner.len()),
        StmtV::If { then, otherwise, .. } => has_continue(*then) || match otherwise {
            Some(o) => has_continue(*o),
            None => false,
        },
        StmtV::Switch { cases, .. } => has_continue_cases(cases, cases.len()),
        StmtV::Try { body, catch, finally } => has_continue(*body) || (match catch {
            Some(c) => has_continue(*c.body),
            None => false,
        }) || match finally {
            Some(f) => has_continue(*f),
            None => false,
        },
        _ => false,
    }
}

pub open spec fn has_continue_cases(s: Seq<CaseV>, k: nat) -> bool
    decreases s, k,
{
    if k == 0 || k > s.len() {
        false
    } else {
        has_continue_cases(s, (k - 1) as nat) || has_continue_case(s[k - 1])
    }
}

pub open spec fn has_continue_case(c: CaseV) -> bool
    decreases c, 0nat,
{
    has_continue_stmts(c.body, c.body.len())
}

/// How many of the first `k` statements of `s` are `continue`s.
pub open spec fn count_continues(s: Seq<StmtV>, k: nat) -> nat
    decreases k,
{
    if k == 0 || k > s.len() {
        0
    } else {
        count_continues(s, (k - 1) as nat) + if s[k - 1] is Continue { 1nat } else { 0nat }
    }
}

proof fn lemma_inject_seq_plain(s: Seq<StmtV>, u: ExprV, k: nat)
    requires
        k <= s.len(),
    ensures
        inject_seq(s, u, k).len() == k + count_continues(s, k),
        !has_continue_stmts(s, k) ==> inject_seq(s, u, k) == s.subrange(0, k as int),
    decreases s, k,
{
    if k > 0 {
        lemma_inject_seq_plain(s, u, (k - 1) as nat);
        let x = s[k - 1];
        if !has_continue_stmts(s, k) {
            assert(!has_continue(x));
            assert(!(x is Continue));
            lemma_inject_child_plain(x, u);
            assert(inject_seq(s, u, k) == inject_seq(s, u, (k - 1) as nat) + seq![inject_child(x, u)]);
            assert(s.subrange(0, k as int) =~= s.subrange(0, k - 1) + seq![x]);
        }
    } else {
        assert(s.subrange(0, 0) =~= Seq::<StmtV>::empty());
    }
}

proof fn lemma_inject_child_plain(x: StmtV, u: ExprV)
    ensures
        !has_continue(x) ==> inject_child(x, u) == x,
    decreases x, 0nat,
{
    if !has_continue(x) {
        match x {
            StmtV::Block(inner) => {
                lemma_inject_seq_plain(inner, u, inner.len());
                assert(inner.subrange(0, inner.len() as int) =~= inner);
            },
            StmtV::If { then, otherwise, .. } => {
                lemma_inject_boxed_plain(*then, u);
                match otherwise {
                    Some(o) => lemma_inject_boxed_plain(*o, u),
                    None => {},
                }
            },
            StmtV::Switch { cases, .. } => {
                lemma_inject_cases_plain(cases, u, cases.len());
                assert(cases.subrange(0, cases.len() as int) =~= cases);
            },
            StmtV::Try { body, catch, finally } => {
                lemma_inject_boxed_plain(*body, u);
                match catch {
                    Some(c) => lemma_inject_boxed_plain(*c.body, u),
                    None => {},
                }
                match finally {
                    Some(f) => lemma_inject_boxed_plain(*f, u),
                    None => {},
                }
            },
            _ => {},
        }
    }
}

proof fn lemma_inject_boxed_plain(x: StmtV, u: ExprV)
    ensures
        !has_continue(x) ==> inject_boxed(x, u) == x,
    decreases x, 1nat,
{
    lemma_inject_child_plain(x, u);
}

proof fn lemma_inject_cases_plain(s: Seq<CaseV>, u: ExprV, k: nat)
    requires
        k <= s.len(),
    ensures
        !has_continue_cases(s, k) ==> inject_cases(s, u, k) == s.subrange(0, k as int),
    decreases s, k,
{
    if k > 0 {
        lemma_inject_cases_plain(s, u, (k - 1) as nat);
        if !has_continue_cases(s, k) {
            let c = s[k - 1];
            assert(!has_continue_case(c));
            assert(!has_continue_stmts(c.body, c.body.len()));
            lemma_inject_seq_plain(c.body, u, c.body.len());
            assert(c.body.subrange(0, c.body.len() as int) =~= c.body);
            assert(inject_case(c, u) == c);
            assert(s.subrange(0, k as int) =~= s.subrange(0, k - 1).push(c));
        }
    } else {
        assert(s.subrange(0, 0) =~= Seq::<CaseV>::empty());
    }
}

/// Injection adds exactly one statement, the update, for each `continue`
/// of the list itself, and leaves a list that reaches no `continue` of its
/// loop as it was.
pub proof fn law_injection_adds_only_updates(s: Seq<StmtV>, u: ExprV)
    ensures
        inject_seq(s, u, s.len()).len() == s.len() + count_continues(s, s.len()),
        !has_continue_stmts(s, s.len()) ==> inject_seq(s, u, s.len()) == s,
{
    lemma_inject_seq_plain(s, u, s.len());
    assert(s.subrange(0, s.len() as int) =~= s);
}

proof fn lemma_stmts_v_push(s: Seq<HirStmt>, x: HirStmt)
    ensures
        stmts_v(s.push(x)) == stmts_v(s).push(stmt_v(x)),
{
    assert(stmts_v(s.push(x)) =~= stmts_v(s).push(stmt_v(x)));
}

proof fn lemma_cases_v_push(s: Seq<HirSwitchCase>, x: HirSwitchCase)
    ensures
        cases_v(s.push(x)) == cases_v(s).push(case_v(x)),
{
    assert(cases_v(s.push(x)) =~= cases_v(s).push(case_v(x)));
}

/// The statements of `v` with the update injected.
#[verifier::loop_isolation(false)]
fn inject_stmts(v: &Vec<HirStmt>, u: &HirExpr) -> (r: Vec<HirStmt>)
    ensures
        stmts_v(r@) == inject_seq(stmts_v(v@), u@, v@.len()),
    decreases v, 0nat,
{
    let mut out: Vec<HirStmt> = Vec::new();
    let mut i: usize = 0;
    proof {
        assert(stmts_v(out@) =~= Seq::<StmtV>::empty());
    }
    while i < v.len()
        invariant
            0 <= i <= v@.len(),
            stmts_v(out@) == inject_seq(stmts_v(v@), u@, i as nat),
        decreases v@.len() - i,
    {
        proof {
            assert(decreases_to!(v => v@[i as int]));
        }
        let ghost before = out@;
        match &v[i] {
            HirStmt::Continue { .. } => {
                let e = HirStmt::Expr { expr: u.clone() };
                out.push(e);
                let c = v[i].clone();
                out.push(c);
                proof {
                    lemma_stmts_v_push(before, e);
                    lemma_stmts_v_push(before.push(e), c);
                    assert(stmts_v(v@)[i as int] == stmt_v(v@[i as int]));
                    assert(stmts_v(out@) =~= stmts_v(before) + seq![StmtV::Expr { expr: u@ }, stmts_v(v@)[i as int]]);
                }
            },
            _ => {
                let c = inject_child_exec(&v[i], u);
                out.push(c);
                proof {
                    lemma_stmts_v_push(before, c);
                    assert(stmts_v(v@)[i as int] == stmt_v(v@[i as int]));
                    assert(stmts_v(out@) =~= stmts_v(before) + seq![inject_child(stmts_v(v@)[i as int], u@)]);
                }
            },
        }
        i += 1;
    }
    out
}

#[verifier::loop_isolation(false)]
fn inject_cases_exec(v: &Vec<HirSwitchCase>, u: &HirExpr) -> (r: Vec<HirSwitchCase>)
    ensures
        cases_v(r@) == inject_cases(cases_v(v@), u@, v@.len()),
    decreases v, 0nat,
{
    let mut out: Vec<HirSwitchCase> = Vec::new();
    let mut i: usize = 0;
    proof {
        assert(cases_v(out@) =~= Seq::<CaseV>::empty());
    }
    while i < v.len()
        invariant
            0 <= i <= v@.len(),
            cases_v(out@) == inject_cases(cases_v(v@), u@, i as nat),
        decreases v@.len() - i,
    {
        proof {
            assert(decreases_to!(v => v@[i as int]));
        }
        let ghost before = out@;
        let test = match &v[i].test {
            Some(t) => Some(t.clone()),
            None => None,
        };
        let body = inject_stmts(&v[i].body, u);
        let c = HirSwitchCase { test, body };
        out.push(c);
        proof {
            lemma_cases_v_push(before, c);
            crate::hir::view::lemma_opt_expr_v(test);
            crate::hir::view::lemma_opt_expr_v(v@[i as int].test);
            assert(cases_v(v@)[i as int] == case_v(v@[i as int]));
            assert(case_v(c) == inject_case(cases_v(v@)[i as int], u@));
        }
        i += 1;
    }
    out
}

/// A statement with the update injected inside it.
fn inject_child_exec(s: &HirStmt, u: &HirExpr) -> (r: HirStmt)
    ensures
        r@ == inject_child(s@, u@),
    decreases s, 0nat,
{
    match s {
        HirStmt::Block(inner) => HirStmt::Block(inject_stmts(inner, u)),
        HirStmt::If { cond, then, otherwise } => {
            proof {
                lemma_opt_box_stmt_v(*otherwise);
            }
            let t = inject_boxed_exec(then, u);
            let o = match otherwise {
                Some(x) => Some(Box::new(inject_boxed_exec(x, u))),
                None => None,
            };
            let r = HirStmt::If { cond: cond.clone(), then: Box::new(t), otherwise: o };
            proof {
                lemma_opt_box_stmt_v(o);
            }
            r
        },
        HirStmt::Switch { disc, cases } => HirStmt::Switch { disc: disc.clone(), cases: inject_cases_exec(cases, u) },
        HirStmt::Try { body, catch, finally } => {
            proof {
                lemma_opt_catch_v(*catch);
                lemma_opt_box_stmt_v(*finally);
            }
            let b = inject_boxed_exec(body, u);
            let c = match catch {
                Some(cl) => {
                    let binding = match &cl.binding {
                        Some((id, name)) => Some((*id, crate::text::string_clone(name))),
                        None => None,
                    };
                    Some(HirCatchClause { binding, body: Box::new(inject_boxed_exec(&cl.body, u)) })
                },
                None => None,
            };
            let f = match finally {
                Some(x) => Some(Box::new(inject_boxed_exec(x, u))),
                None => None,
            };
            proof {
                lemma_opt_catch_v(c);
                lemma_opt_box_stmt_v(f);
            }
            HirStmt::Try { body: Box::new(b), catch: c, finally: f }
        },
        _ => s.clone(),
    }
}

/// A statement in a branch with the update injected; a `continue` becomes
/// a block of the update and the `continue`.
fn inject_boxed_exec(s: &HirStmt, u: &HirExpr) -> (r: HirStmt)
    ensures
        r@ == inject_boxed(s@, u@),
    decreases s, 1nat,
{
    match s {
        HirStmt::Continue { .. } => {
            let mut v: Vec<HirStmt> = Vec::new();
            let e = HirStmt::Expr { expr: u.clone() };
            v.push(e);
            let c = s.clone();
            v.push(c);
            proof {
                assert(stmts_v(v@) =~= seq![StmtV::Expr { expr: u@ }, s@]);
            }
            HirStmt::Block(v)
        },
        _ => inject_child_exec(s, u),
    }
}

/// Puts the update `update` in front of every `continue` of `stmts` that
/// would start the next iteration, descending into blocks, branches,
/// switch cases and `try` parts but not into nested loops.
pub fn inject_update_before_continue(stmts: &mut Vec<HirStmt>, update: &HirExpr)
    ensures
        stmts_v(final(stmts)@) == inject_seq(stmts_v(old(stmts)@), update@, old(stmts)@.len()),
{
    let r = inject_stmts(stmts, update);
    *stmts = r;
}

} // verus!
