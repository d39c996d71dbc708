//! Lowering a parsed module to the HIR: the builder's state, and the
//! walk over expressions.
use vstd::prelude::*;
use crate::base::{Diagnostic, DiagnosticBag, FieldId, LocalId, Span, TypeId};
use crate::frontend::ast::{
    binding_pattern_name, decl_span, pattern_name, stmt_span, Arg, ArrayElem, AssignTarget, BindingPattern, ClassMember, Decl, Expr,
    ForInit, ForLeft, Function, Member, MethodKind, ObjProp, PropKey, SimpleTarget, Stmt, Template, UnaryOperator,
    UpdateOperator, VarDecl,
};
use crate::frontend::ops::{
    binary_op_spec, compound_op, compound_op_spec, label_atom, logical_op_spec, map_binary_op, map_logical_op, map_unary_op,
    number_spec, number_to_hir, unary_op_spec, CompoundOp,
};
use crate::frontend::resolve::TypeParamMap;
use crate::frontend::scope::BodyScope;
use crate::hir::decl::{HirClass, HirField, HirFunction, HirParam};
use crate::hir::expr::{HirBinaryOp, HirCallee, HirExpr, ObjectLiteralField};
use crate::hir::program::HirProgram;
use crate::hir::stmt::HirStmt;
use crate::hir::view::{ExprV, OFieldV, ParamV, StmtV};
use crate::text::{str_eq, string_clone};
use crate::types::{Type, TypeTable};
use crate::frontend::growth::{grew, lemma_grew_same, lemma_grew_same_decls, lemma_grew_trans};

verus! {

/// One piece of the synthesized top-level function of a module.
pub enum TlaMainItem {
    Let(HirStmt),
    Expr(HirExpr),
}

/// The state of lowering one module.
pub struct SkeletonBuilder {
    pub types: TypeTable,
    pub diagnostics: DiagnosticBag,
    pub program: HirProgram,
    pub source_len: u32,
    pub next_generic_param: u32,
    pub next_anon_class_id: u32,
    pub next_closure_id: u32,
    pub resolved_aliases: TypeParamMap,
    pub is_generator_stack: Vec<bool>,
    pub type_param_stack: Vec<TypeParamMap>,
    pub module: bool,
    pub tla_main_body: Vec<TlaMainItem>,
    pub tla_main_name: String,
    pub tla_top_level_scope: BodyScope,
    pub top_level_function_spans: Vec<(String, Span)>,
    pub tla_only_bindings: Vec<String>,
}

/// The message of the error for a `yield` outside a generator.
pub open spec fn yield_outside_generator_message() -> Seq<char> {
    "`yield` is only valid inside a generator function (`function*`); `yield` in non-generator context is rejected by the body walker."@
}

/// The span that the lowering of an expression carries: a parenthesized
/// expression and a unary plus take the span of what they wrap.
pub open spec fn lowered_span(e: Expr) -> Span
    decreases e,
{
    match e {
        Expr::Paren(inner, _) => lowered_span(*inner),
        Expr::Unary { op: UnaryOperator::UnaryPlus, arg, .. } => lowered_span(*arg),
        Expr::Bool(_, s) | Expr::Number(_, s) | Expr::Str(_, s) | Expr::Null(s) | Expr::Ident(_, s) | Expr::This(s)
        | Expr::Await(_, s) | Expr::Array(_, s) | Expr::Object(_, s) | Expr::Sequence(_, s) | Expr::Other(s) => s,
        Expr::Binary { span, .. } | Expr::Logical { span, .. } | Expr::Unary { span, .. } | Expr::Update { span, .. }
        | Expr::Call { span, .. } | Expr::New { span, .. } | Expr::Assign { span, .. } | Expr::Yield { span, .. }
        | Expr::TaggedTemplate { span, .. } | Expr::Conditional { span, .. } | Expr::RegExp { span, .. }
        | Expr::BigInt { span, .. } | Expr::Import { span, .. } => span,
        Expr::Member(m) => match m {
            Member::Static { span, .. } | Member::Computed { span, .. } => span,
            Member::Private(span) => span,
        },
        Expr::Template(t) => t.span,
        Expr::Class(c) => c.span,
        Expr::Arrow(a) => a.span,
    }
}

impl SkeletonBuilder {
    /// Lowering can go on: the type table is well formed and some
    /// function body is being walked.
    pub open spec fn inv(&self) -> bool {
        &&& self.types.wf()
        &&& self.is_generator_stack@.len() > 0
    }

    /// The id of the error type.
    pub fn error_ty(&mut self) -> (id: TypeId)
        requires
            old(self).types.wf(),
        ensures
            final(self).diagnostics == old(self).diagnostics,
            crate::frontend::growth::rest_unchanged(*old(self), *final(self)),
            final(self).types.wf(),
            grew(*old(self), *final(self)),
            final(self).is_generator_stack == old(self).is_generator_stack,
            crate::frontend::resolve::names_type(final(self).types@, id, crate::types::TypeV::Error),
    {
        let ghost s0 = *self;
        let id = crate::frontend::resolve::intern_in(&mut self.types, &Type::Error);
        proof {
            assert(s0.diagnostics@.is_prefix_of(self.diagnostics@)) by {
                assert(self.diagnostics@.subrange(0, s0.diagnostics@.len() as int) =~= s0.diagnostics@);
            }
            assert(s0.program.declarations@.is_prefix_of(self.program.declarations@)) by {
                assert(self.program.declarations@.subrange(0, s0.program.declarations@.len() as int) =~= s0.program.declarations@);
            }
        }
        id
    }

    /// Interns a type.
    pub fn intern(&mut self, ty: &Type) -> (id: TypeId)
        requires
            old(self).types.wf(),
        ensures
            crate::frontend::growth::rest_unchanged(*old(self), *final(self)),
            final(self).types.wf(),
            grew(*old(self), *final(self)),
            final(self).is_generator_stack == old(self).is_generator_stack,
            final(self).diagnostics == old(self).diagnostics,
            crate::frontend::resolve::names_type(final(self).types@, id, ty@),
            crate::types::interned(old(self).types@, final(self).types@, ty@, id),
    {
        let ghost s0 = *self;
        let id = crate::frontend::resolve::intern_in(&mut self.types, ty);
        proof {
            assert(s0.diagnostics@.is_prefix_of(self.diagnostics@)) by {
                assert(self.diagnostics@.subrange(0, s0.diagnostics@.len() as int) =~= s0.diagnostics@);
            }
            assert(s0.program.declarations@.is_prefix_of(self.program.declarations@)) by {
                assert(self.program.declarations@.subrange(0, s0.program.declarations@.len() as int) =~= s0.program.declarations@);
            }
        }
        id
    }

    /// Pushes a diagnostic.
    pub fn report(&mut self, d: Diagnostic)
        ensures
            crate::frontend::growth::rest_unchanged(*old(self), *final(self)),
            final(self).diagnostics@ == old(self).diagnostics@.push(d),
            final(self).types == old(self).types,
            grew(*old(self), *final(self)),
            final(self).is_generator_stack == old(self).is_generator_stack,
    {
        let ghost s0 = *self;
        self.diagnostics.push(d);
        proof {
            assert(s0.diagnostics@.is_prefix_of(self.diagnostics@)) by {
                assert(self.diagnostics@.subrange(0, s0.diagnostics@.len() as int) =~= s0.diagnostics@);
            }
            lemma_grew_same(s0, *self);
        }
    }

    /// Reports a body form that the walker leaves out (a warning).
    pub fn report_unwalked(&mut self, message: &str, span: Span)
        ensures
            crate::frontend::growth::rest_unchanged(*old(self), *final(self)),
            final(self).diagnostics@ == old(self).diagnostics@.push(final(self).diagnostics@.last()),
            final(self).diagnostics@.last().code@ == "E0500"@,
            final(self).diagnostics@.last().severity == crate::base::Severity::Warning,
            final(self).diagnostics@.last().span == span,
            final(self).diagnostics@.last().message@ == message@,
            final(self).types == old(self).types,
            grew(*old(self), *final(self)),
            final(self).is_generator_stack == old(self).is_generator_stack,
    {
        self.report(Diagnostic::warning("E0500", String::from_str(message), span));
    }

    /// Reports an unsupported construct (an error).
    pub fn report_unsupported(&mut self, code: &str, message: &str, span: Span)
        ensures
            crate::frontend::growth::rest_unchanged(*old(self), *final(self)),
            final(self).diagnostics@ == old(self).diagnostics@.push(final(self).diagnostics@.last()),
            final(self).diagnostics@.last().code@ == code@,
            final(self).diagnostics@.last().severity == crate::base::Severity::Error,
            final(self).diagnostics@.last().span == span,
            final(self).diagnostics@.last().message@ == message@,
            final(self).types == old(self).types,
            grew(*old(self), *final(self)),
            final(self).is_generator_stack == old(self).is_generator_stack,
    {
        self.report(Diagnostic::error(code, String::from_str(message), span));
    }

    /// Whether the innermost function being walked is a generator.
    pub fn current_function_is_generator(&self) -> (b: bool)
        requires
            self.is_generator_stack@.len() > 0,
        ensures
            b == self.is_generator_stack@.last(),
    {
        self.is_generator_stack[self.is_generator_stack.len() - 1]
    }

    /// Whether `name` is bound only inside the synthesized top-level function.
    fn is_tla_only(&self, name: &str) -> (b: bool)
        ensures
            b == tla_only(*self, name@),
    {
        let mut i: usize = 0;
        while i < self.tla_only_bindings.len()
            invariant
                0 <= i <= self.tla_only_bindings@.len(),
                forall|j: int| 0 <= j < i ==> #[trigger] self.tla_only_bindings@[j]@ != name@,
            decreases self.tla_only_bindings@.len() - i,
        {
            if str_eq(self.tla_only_bindings[i].as_str(), name) {
                return true;
            }
            i += 1;
        }
        false
    }

    /// A name used as an expression: `undefined`, a local of the body, or a
    /// global (reported when it is bound only inside the top-level function).
    pub fn ident_to_expr(&mut self, name: &str, scope: &mut BodyScope, span: Span) -> (r: HirExpr)
        requires
            old(self).types.wf(),
        ensures
            final(self).types.wf(),
            grew(*old(self), *final(self)),
            crate::hir::expr::expr_span(r@) == span,
            name@ == "undefined"@ ==> r@ == ExprV::Undefined(span) && final(scope)@ == old(scope)@
                && final(self).diagnostics == old(self).diagnostics,
            name@ != "undefined"@ ==> final(scope)@ == crate::frontend::scope::lookup_spec(old(scope)@, name@).0,
            name@ != "undefined"@ ==> match crate::frontend::scope::lookup_spec(old(scope)@, name@).1 {
                Some((id, ty)) => r@ == ExprV::Local { id, ty, span } && final(self).diagnostics == old(self).diagnostics,
                None => r@ matches ExprV::Global { name: n, .. } && n == name@ && if tla_only(*old(self), name@) {
                    &&& final(self).diagnostics@ == old(self).diagnostics@.push(final(self).diagnostics@.last())
                    &&& final(self).diagnostics@.last().code@ == "E0513"@
                    &&& final(self).diagnostics@.last().severity == crate::base::Severity::Error
                    &&& final(self).diagnostics@.last().span == span
                } else {
                    final(self).diagnostics == old(self).diagnostics
                },
            },
            r@ is Local || r@ is Global || r@ is Undefined,
    {
        if str_eq(name, "undefined") {
            return HirExpr::Undefined(span);
        }
        match scope.lookup(name) {
            Some((id, ty)) => HirExpr::Local { id, ty, span },
            None => {
                let ghost s0 = *self;
                if self.is_tla_only(name) {
                    let mut m = String::from_str("binding `");
                    crate::text::push_str(&mut m, name);
                    crate::text::push_str(&mut m, "` is initialized inside `__ts_aot_tla_main` and is not visible to other functions or globals; move the let into a smaller scope (e.g. inside the function that uses it) or use a const literal initializer to make it module-level");
                    self.report(Diagnostic::error("E0513", m, span));
                }
                let ty = self.error_ty();
                HirExpr::Global { name: String::from_str(name), ty, span }
            },
        }
    }
}

broadcast use crate::frontend::growth::lemma_grew_trans;

/// Whether `name` is a binding that only the top-level `main` sees.
pub open spec fn tla_only(s: SkeletonBuilder, name: Seq<char>) -> bool {
    exists|j: int| 0 <= j < s.tla_only_bindings@.len() && #[trigger] s.tla_only_bindings@[j]@ == name
}

/// What an expression lowers to, part by part: an operator maps to its HIR
/// operator over the lowered operands (an unsupported one lowers to a
/// placeholder), and each other form to its HIR counterpart over its
/// lowered parts. What a name resolves to, and the types, depend on the
/// walker's state and are stated by `walk_expr` itself.
pub open spec fn expr_shape(e: Expr, r: ExprV) -> bool
    decreases e, 0nat,
{
    match e {
        Expr::Ident(..) => r is Local || r is Global || r is Undefined,
        Expr::This(..) => r is Local || r is Global,
        Expr::Paren(inner, _) => expr_shape(*inner, r),
        Expr::Binary { op, left, right, span } => match binary_op_spec(op) {
            Some(o) => r matches ExprV::Binary { op: o2, lhs, rhs, .. } && o2 == o && expr_shape(*left, *lhs)
                && expr_shape(*right, *rhs),
            None => r == ExprV::Unit(span),
        },
        Expr::Logical { op, left, right, .. } => r matches ExprV::Binary { op: o2, lhs, rhs, .. } && o2
            == logical_op_spec(op) && expr_shape(*left, *lhs) && expr_shape(*right, *rhs),
        Expr::Unary { op, arg, .. } => match unary_op_spec(op) {
            Some(o) => r matches ExprV::Unary { op: o2, expr, .. } && o2 == o && expr_shape(*arg, *expr),
            None => expr_shape(*arg, r),
        },
        Expr::Update { op, prefix, target, .. } => r matches ExprV::CompoundUpdate { target: tg, op: o2, rhs, post, .. }
            && post == !prefix && o2 == (match op {
            UpdateOperator::Increment => HirBinaryOp::Add,
            UpdateOperator::Decrement => HirBinaryOp::Sub,
        }) && *rhs == ExprV::Int(1, Span { start: 0, end: 0 }) && target_shape(target, *tg),
        Expr::Call { callee, args, type_args, .. } => r matches ExprV::Call {
            callee: crate::hir::view::CalleeV::Indirect(c),
            args: outs,
            type_args: targs,
            ..
        } && expr_shape(*callee, *c) && args_shape(args@, outs) && targs.len() == (match type_args {
            Some(t) => t@.len(),
            None => 0,
        }),
        Expr::New { callee, args, .. } => r matches ExprV::New { callee: c, args: outs, .. } && expr_shape(*callee, *c)
            && args_shape(args@, outs),
        Expr::Member(m) => member_shape(m, r),
        Expr::Assign { op, target, value, span } => match compound_op_spec(op) {
            CompoundOp::Assign => r matches ExprV::Assignment { target: tg, value: v, .. } && assign_target_shape(target, *tg)
                && expr_shape(*value, *v),
            CompoundOp::Binary(o) => r matches ExprV::CompoundUpdate { target: tg, op: o2, rhs, post, .. } && o2 == o
                && !post && assign_target_shape(target, *tg) && expr_shape(*value, *rhs),
            CompoundOp::Unsupported => r == ExprV::Unit(span),
        },
        Expr::Await(inner, _) => r matches ExprV::Await { expr, .. } && expr_shape(*inner, *expr),
        Expr::Yield { arg, delegate, span } => r == ExprV::Unit(span) || (!delegate && (r matches ExprV::Yield {
            expr,
            ..
        } && match arg {
            Some(a) => expr matches Some(x) && expr_shape(*a, *x),
            None => expr is None,
        })),
        Expr::Template(t) => r matches ExprV::Template { tag, expressions, cooked_parts, raw_parts, .. } && tag is None
            && template_shape(t, expressions, cooked_parts, raw_parts),
        Expr::TaggedTemplate { tag, quasi, .. } => r matches ExprV::Template {
            tag: tg,
            expressions,
            cooked_parts,
            raw_parts,
            ..
        } && tg matches Some(x) && expr_shape(*tag, *x) && template_shape(quasi, expressions, cooked_parts, raw_parts),
        Expr::Array(els, span) => array_shape(els@, span, r),
        Expr::Object(props, _) => r matches ExprV::ObjectLiteral { fields, .. } && props_shape(props@, fields),
        Expr::Conditional { test, cons, alt, .. } => r matches ExprV::Ternary { cond, then_branch, else_branch, .. }
            && expr_shape(*test, *cond) && expr_shape(*cons, *then_branch) && expr_shape(*alt, *else_branch),
        Expr::Sequence(v, _) => r matches ExprV::Sequence { exprs, .. } && exprs.len() == v.len() && forall|k: int|
            0 <= k < v@.len() ==> expr_shape(#[trigger] v@[k], exprs[k]),
        Expr::Class(..) => r is Global,
        Expr::RegExp { pattern, flags, .. } => r matches ExprV::RegExp { pattern: p, flags: f, .. } && p == pattern@
            && f == flags@,
        Expr::BigInt { value, .. } => r matches ExprV::BigInt { value: v, .. } && v == value@,
        Expr::Import { source, .. } => r matches ExprV::Import { source: s, .. } && expr_shape(*source, *s),
        Expr::Arrow(a) => arrow_shape(*a, r),
        Expr::Other(s) => r == ExprV::Unit(s),
        _ => true,
    }
}

/// What an arrow function lowers to: a closure with one parameter per
/// parameter, each named by its identifier, capturing nothing; or a
/// placeholder over the arrow, which is what an async or generic arrow,
/// or one with a rest parameter, always gives.
pub open spec fn arrow_shape(a: crate::frontend::ast::Arrow, r: ExprV) -> bool {
    &&& a.is_async || a.has_type_params || a.has_rest ==> r == ExprV::Unit(a.span)
    &&& r == ExprV::Unit(a.span) || (r matches ExprV::Closure { params, captures, .. } && !a.is_async
        && !a.has_type_params && !a.has_rest && a.ret is Some && params.len() == a.params@.len() && captures.len()
        == 0 && forall|i: int| 0 <= i < params.len() ==> arrow_param_ok(#[trigger] a.params@[i]) && pattern_name(
        a.params@[i].pattern,
    ) == Some(params[i].name))
}

/// A list of statements lowered in order, each to its parts.
pub open spec fn stmts_lowered(v: Seq<Stmt>, b: Seq<StmtV>) -> bool {
    &&& b.len() == stmts_len(v, v.len() as int)
    &&& forall|j: int| 0 <= j < v.len() ==> stmt_parts(#[trigger] v[j], b, stmts_len(v, j) as int)
}

/// A body whose leading expression statement is made a `return` of its
/// expression.
pub open spec fn lead_return(b: Seq<StmtV>) -> Seq<StmtV> {
    if b.len() > 0 {
        match b[0] {
            StmtV::Expr { expr } => b.update(0, StmtV::Return { value: Some(expr) }),
            _ => b,
        }
    } else {
        b
    }
}

/// What the body of an arrow function lowers to: its statements in order,
/// the leading expression statement of an expression body made a `return`.
pub open spec fn arrow_body_of(a: crate::frontend::ast::Arrow, b: Seq<StmtV>) -> bool {
    exists|b0: Seq<StmtV>| #[trigger] stmts_lowered(a.body@, b0) && b == (if a.expression {
        lead_return(b0)
    } else {
        b0
    })
}

/// Whether an arrow function passes the checks made before its body is
/// walked: synchronous, not generic, no rest parameter, a return
/// annotation, and every parameter a plain annotated identifier.
pub open spec fn arrow_early_ok(a: crate::frontend::ast::Arrow) -> bool {
    &&& !a.is_async
    &&& !a.has_type_params
    &&& !a.has_rest
    &&& a.ret is Some
    &&& forall|i: int| 0 <= i < a.params@.len() ==> arrow_param_ok(#[trigger] a.params@[i])
}

/// What an arrow function whose lowered body is `body` becomes, the
/// closure counter being `n` before and `n_after` after: when the body
/// names one of `outer` (the enclosing body's locals and `this`), a unit
/// and the counter unchanged; else a closure with id `n`, no captures and
/// that body, and the counter one further.
pub open spec fn arrow_finished(span: Span, body: Seq<StmtV>, outer: Seq<Seq<char>>, n: u32, r: ExprV, n_after: u32) -> bool {
    if crate::hir::search::any_stmts(body, Some(outer), body.len()) {
        r == ExprV::Unit(span) && n_after == n
    } else {
        &&& r matches ExprV::Closure { id, captures, body: b, span: s, .. } && id == LocalId(n) && captures.len() == 0
            && b == body && s == span
        &&& n_after == (if n == u32::MAX { 0 } else { (n + 1) as u32 })
    }
}

/// What the target of an update or assignment lowers to.
pub open spec fn target_shape(t: SimpleTarget, r: ExprV) -> bool
    decreases t, 0nat,
{
    match t {
        SimpleTarget::Ident(..) => r is Local || r is Global || r is Undefined,
        SimpleTarget::Member(m) => member_shape(m, r),
        SimpleTarget::Wrapped(inner) => match inner {
            Some(x) => expr_shape(*x, r),
            None => r == ExprV::Unit(Span { start: 0, end: 0 }),
        },
    }
}

/// What the target of an assignment lowers to: a destructuring pattern
/// to a placeholder.
pub open spec fn assign_target_shape(t: AssignTarget, r: ExprV) -> bool
    decreases t, 0nat,
{
    match t {
        AssignTarget::Simple(st) => target_shape(st, r),
        AssignTarget::Pattern(ps) => r == ExprV::Unit(ps),
    }
}

/// What the parts of a template literal lower to: its cooked and raw
/// texts, and the expression after each text that has one, in order.
pub open spec fn template_shape(
    t: crate::frontend::ast::Template,
    expressions: Seq<ExprV>,
    cooked: Seq<Option<Seq<char>>>,
    raw: Seq<Option<Seq<char>>>,
) -> bool
    decreases t, 1nat,
{
    &&& cooked.len() == t.quasis@.len()
    &&& raw.len() == t.quasis@.len()
    &&& forall|i: int| 0 <= i < t.quasis@.len() ==> #[trigger] cooked[i] == crate::hir::view::opt_str_v(t.quasis@[i].0)
        && raw[i] == Some(t.quasis@[i].1@)
    &&& expressions.len() == (if t.quasis@.len() <= t.exprs@.len() { t.quasis@.len() } else { t.exprs@.len() })
    &&& forall|k: int| 0 <= k < expressions.len() ==> expr_shape(#[trigger] t.exprs@[k], expressions[k])
}

/// Whether an object literal property is kept: a spread, or a plain
/// property with a static name (accessors and computed keys are left out).
pub open spec fn prop_kept(p: ObjProp) -> bool {
    p is Spread || (p matches ObjProp::Prop { init, key, .. } && init && key is Named)
}

/// How many of the first `k` properties are kept.
pub open spec fn kept_count(v: Seq<ObjProp>, k: int) -> nat
    decreases k,
{
    if k <= 0 {
        0
    } else {
        kept_count(v, k - 1) + if prop_kept(v[k - 1]) {
            1nat
        } else {
            0nat
        }
    }
}

/// What the properties of an object literal lower to: each kept
/// property, in order.
pub open spec fn props_shape(v: Seq<ObjProp>, out: Seq<OFieldV>) -> bool
    decreases v, 1nat,
{
    out.len() == kept_count(v, v.len() as int) && forall|k: int| 0 <= k < v.len() ==> prop_shape(#[trigger] v[k], out, kept_count(v, k))
}

/// What one kept property lowers to, at place `j` of the lowered fields.
pub open spec fn prop_shape(p: ObjProp, out: Seq<OFieldV>, j: nat) -> bool
    decreases p, 0nat,
{
    match p {
        ObjProp::Spread(x, _) => out[j as int] matches OFieldV::Spread(y) && expr_shape(x, y),
        ObjProp::Prop { init, key, value, .. } => match key {
            PropKey::Named(n) => init ==> (out[j as int] matches OFieldV::Property { name, value: y } && name == n@
                && expr_shape(value, y)),
            PropKey::Computed(..) => true,
        },
    }
}

/// One more property lowered keeps what the earlier ones lowered to.
proof fn lemma_props_step(props: Seq<ObjProp>, f0: Seq<ObjectLiteralField>, f1: Seq<ObjectLiteralField>, i: int)
    requires
        0 <= i < props.len(),
        f0.len() == kept_count(props, i),
        forall|k: int| 0 <= k < i ==> prop_shape(#[trigger] props[k], crate::hir::view::ofields_v(f0), kept_count(props, k)),
        f1 == f0 || (f1.len() > 0 && f1 == f0.push(f1.last())),
        f1.len() == kept_count(props, i + 1),
        prop_shape(props[i], crate::hir::view::ofields_v(f1), kept_count(props, i)),
    ensures
        forall|k: int| 0 <= k < i + 1 ==> prop_shape(#[trigger] props[k], crate::hir::view::ofields_v(f1), kept_count(props, k)),
{
    assert forall|k: int| 0 <= k < i + 1 implies prop_shape(#[trigger] props[k], crate::hir::view::ofields_v(f1), kept_count(props, k)) by {
        if k < i && prop_kept(props[k]) {
            assert(kept_count(props, k) < f0.len()) by {
                lemma_kept_count_mono(props, k + 1, i);
            }
            assert(f1[kept_count(props, k) as int] == f0[kept_count(props, k) as int]);
            assert(crate::hir::view::ofields_v(f1)[kept_count(props, k) as int] == crate::hir::view::ofields_v(f0)[kept_count(props, k) as int]);
        }
    }
}

/// The count of kept properties does not drop as more are counted.
proof fn lemma_kept_count_mono(v: Seq<ObjProp>, a: int, b: int)
    requires
        a <= b,
    ensures
        kept_count(v, a) <= kept_count(v, b),
    decreases b - a,
{
    if a < b {
        lemma_kept_count_mono(v, a, b - 1);
    }
}

/// The count of plain arguments does not drop as more arguments are counted.
proof fn lemma_plain_count_mono(v: Seq<Arg>, a: int, b: int)
    requires
        a <= b,
    ensures
        plain_count(v, a) <= plain_count(v, b),
    decreases b - a,
{
    if a < b {
        lemma_plain_count_mono(v, a, b - 1);
    }
}

/// How many of the first `k` call arguments are plain expressions (the
/// others are spreads, which are left out).
pub open spec fn plain_count(v: Seq<Arg>, k: int) -> nat
    decreases k,
{
    if k <= 0 {
        0
    } else {
        plain_count(v, k - 1) + if v[k - 1] is Expr {
            1nat
        } else {
            0nat
        }
    }
}

/// What the arguments of a call lower to: each plain argument, in order,
/// with spreads left out.
pub open spec fn args_shape(v: Seq<Arg>, out: Seq<ExprV>) -> bool
    decreases v, 1nat,
{
    out.len() == plain_count(v, v.len() as int) && forall|k: int| 0 <= k < v.len() ==> arg_shape(#[trigger] v[k], out, plain_count(v, k))
}

/// What one plain argument lowers to, at place `j` of the lowered arguments.
pub open spec fn arg_shape(a: Arg, out: Seq<ExprV>, j: nat) -> bool
    decreases a, 0nat,
{
    match a {
        Arg::Expr(x) => expr_shape(x, out[j as int]),
        Arg::Spread(_) => true,
    }
}

/// The kind of HIR expression that a member access lowers to.
pub open spec fn member_shape(m: Member, r: ExprV) -> bool
    decreases m, 0nat,
{
    match m {
        Member::Static { object, property, .. } => r matches ExprV::Field { owner, field_name, .. } && field_name
            == property@ && expr_shape(*object, *owner),
        Member::Computed { object, expression, .. } => r matches ExprV::Index { owner, index, .. } && expr_shape(
            *object,
            *owner,
        ) && expr_shape(*expression, *index),
        Member::Private(s) => r == ExprV::Unit(s),
    }
}

/// The span of a member access.
pub open spec fn member_span(m: Member) -> Span {
    match m {
        Member::Static { span, .. } | Member::Computed { span, .. } => span,
        Member::Private(span) => span,
    }
}

/// The span of a simple assignment target as the walker lowers it.
pub open spec fn target_span_ok(t: SimpleTarget, r: ExprV) -> bool {
    match t {
        SimpleTarget::Ident(_, span) => crate::hir::expr::expr_span(r) == span,
        SimpleTarget::Member(m) => crate::hir::expr::expr_span(r) == member_span(m),
        SimpleTarget::Wrapped(_) => true,
    }
}

impl SkeletonBuilder {
    /// Lowers an expression.
    pub fn walk_expr(&mut self, e: &Expr, scope: &mut BodyScope) -> (r: HirExpr)
        requires
            old(self).inv(),
        ensures
            final(self).inv(),
            grew(*old(self), *final(self)),
            crate::hir::expr::expr_span(r@) == lowered_span(*e),
            *e matches Expr::Bool(b, s) ==> r@ == ExprV::Bool(b, s),
            *e matches Expr::Number(bits, s) ==> r@ == number_spec(bits, s),
            *e matches Expr::Str(v, s) ==> r@ == ExprV::String(v@, s),
            *e matches Expr::Null(s) ==> r@ == ExprV::Null(s),
            *e matches Expr::Ident(n, s) ==> (n@ == "undefined"@ ==> r@ == ExprV::Undefined(s)),
            *e matches Expr::Ident(n, s) ==> (n@ != "undefined"@ ==> match crate::frontend::scope::lookup_spec(
                old(scope)@,
                n@,
            ).1 {
                Some((id, ty)) => r@ == ExprV::Local { id, ty, span: s },
                None => r@ matches ExprV::Global { name, .. } && name == n@,
            }),
            *e matches Expr::This(s) ==> match crate::frontend::scope::lookup_spec(old(scope)@, "this"@).1 {
                Some((id, ty)) => r@ == ExprV::Local { id, ty, span: s },
                None => r@ matches ExprV::Global { name, .. } && name == "this"@,
            },
            *e matches Expr::Other(s) ==> {
                &&& r@ == ExprV::Unit(s)
                &&& final(self).diagnostics@ == old(self).diagnostics@.push(final(self).diagnostics@.last())
                &&& final(self).diagnostics@.last().code@ == "E0500"@
                &&& final(self).diagnostics@.last().severity == crate::base::Severity::Warning
                &&& final(self).diagnostics@.last().span == s
                &&& final(self).diagnostics@.last().message@ == "expression form is not supported by the body walker"@
                &&& final(self).program == old(self).program
                &&& final(self).types == old(self).types
            },
            *e matches Expr::Class(c) ==> r@ matches ExprV::Global { name, .. } && name == class_expr_name(
                old(self).program.module.0,
                old(self).next_anon_class_id,
            ),
            *e is Yield && !old(self).is_generator_stack@.last() ==> {
                &&& final(self).diagnostics@ == old(self).diagnostics@.push(final(self).diagnostics@.last())
                &&& final(self).diagnostics@.last().severity == crate::base::Severity::Error
                &&& final(self).diagnostics@.last().code@ == "E0500"@
                &&& final(self).diagnostics@.last().message@ == yield_outside_generator_message()
                &&& r@ == ExprV::Unit(lowered_span(*e))
            },
            *e matches Expr::Yield { delegate, span, .. } ==> (old(self).is_generator_stack@.last() ==> if delegate {
                &&& r@ == ExprV::Unit(span)
                &&& final(self).diagnostics@.len() > old(self).diagnostics@.len()
                &&& final(self).diagnostics@[old(self).diagnostics@.len() as int].code@ == "E0501"@
            } else {
                r@ is Yield
            }),
            expr_shape(*e, r@),
        decreases e, 2nat,
    {
        match e {
            Expr::Bool(b, span) => HirExpr::Bool(*b, *span),
            Expr::Number(bits, span) => number_to_hir(*bits, *span),
            Expr::Str(v, span) => HirExpr::String(string_clone(v), *span),
            Expr::Null(span) => HirExpr::Null(*span),
            Expr::Ident(name, span) => self.ident_to_expr(name.as_str(), scope, *span),
            Expr::This(span) => match scope.lookup("this") {
                Some((id, ty)) => HirExpr::Local { id, ty, span: *span },
                None => {
                    let ty = self.error_ty();
                    HirExpr::Global { name: String::from_str("this"), ty, span: *span }
                },
            },
            Expr::Paren(inner, _) => self.walk_expr(inner, scope),
            Expr::Binary { .. } => self.walk_binary(e, scope),
            Expr::Logical { .. } => self.walk_logical(e, scope),
            Expr::Unary { .. } => self.walk_unary(e, scope),
            Expr::Update { .. } => self.walk_update(e, scope),
            Expr::Call { .. } => self.walk_call(e, scope),
            Expr::New { .. } => self.walk_new_expression(e, scope),
            Expr::Member(m) => self.walk_member(m, scope),
            Expr::Assign { .. } => self.walk_assignment(e, scope),
            Expr::Await(inner, span) => {
                let x = self.walk_expr(inner, scope);
                let ty = self.error_ty();
                HirExpr::Await { expr: Box::new(x), ty, span: *span }
            },
            Expr::Yield { .. } => self.walk_yield_expression(e, scope),
            Expr::Template(t) => self.walk_template_literal(t, scope),
            Expr::TaggedTemplate { .. } => self.walk_tagged_template_expression(e, scope),
            Expr::Array(..) => self.walk_array_expression(e, scope),
            Expr::Object(..) => self.walk_object_expression(e, scope),
            Expr::Conditional { .. } => self.walk_conditional_expression(e, scope),
            Expr::Sequence(..) => self.walk_sequence_expression(e, scope),
            Expr::Class(c) => self.walk_class_expression(c, scope),
            Expr::RegExp { pattern, flags, span } => {
                let ty = self.error_ty();
                HirExpr::RegExp { pattern: string_clone(pattern), flags: string_clone(flags), ty, span: *span }
            },
            Expr::BigInt { value, span } => {
                let ty = self.error_ty();
                HirExpr::BigInt { value: string_clone(value), ty, span: *span }
            },
            Expr::Import { source, has_options, has_phase, span } => {
                if *has_options {
                    self.report_unwalked("dynamic import() with options (e.g. { with: { ... } }) is not supported by the body walker", *span);
                }
                if *has_phase {
                    self.report_unwalked("dynamic import() with explicit phase (e.g. import.source) is not supported by the body walker", *span);
                }
                let src = self.walk_expr(source, scope);
                let ty = self.error_ty();
                HirExpr::Import { source: Box::new(src), ty, span: *span }
            },
            Expr::Arrow(a) => self.walk_arrow(a, scope),
            Expr::Other(span) => {
                self.report_unwalked("expression form is not supported by the body walker", *span);
                HirExpr::Unit(*span)
            },
        }
    }

    /// Lowers each expression of `v` in order.
    fn walk_exprs(&mut self, v: &Vec<Expr>, scope: &mut BodyScope) -> (r: Vec<HirExpr>)
        requires
            old(self).inv(),
        ensures
            final(self).inv(),
            grew(*old(self), *final(self)),
            r@.len() == v@.len(),
            forall|k: int| 0 <= k < v@.len() ==> expr_shape(#[trigger] v@[k], r@[k]@),
        decreases v, 0nat,
    {
        let mut out: Vec<HirExpr> = Vec::new();
        let mut i: usize = 0;
        while i < v.len()
            invariant
                0 <= i <= v@.len(),
                out@.len() == i,
                self.inv(),
                grew(*old(self), *self),
                forall|k: int| 0 <= k < i ==> expr_shape(#[trigger] v@[k], out@[k]@),
            decreases v@.len() - i,
        {
            proof {
                assert(decreases_to!(v => v@[i as int]));
            }
            let x = self.walk_expr(&v[i], scope);
            out.push(x);
            i += 1;
        }
        out
    }

    /// Lowers call arguments; spread arguments are reported and left out.
    fn walk_args(&mut self, v: &Vec<Arg>, scope: &mut BodyScope, spread_message: &str) -> (r: Vec<HirExpr>)
        requires
            old(self).inv(),
        ensures
            final(self).inv(),
            grew(*old(self), *final(self)),
            r@.len() <= v@.len(),
            args_shape(v@, crate::hir::view::exprs_v(r@)),
        decreases v, 0nat,
    {
        let mut out: Vec<HirExpr> = Vec::new();
        let mut i: usize = 0;
        while i < v.len()
            invariant
                0 <= i <= v@.len(),
                out@.len() <= i,
                self.inv(),
                grew(*old(self), *self),
                out@.len() == plain_count(v@, i as int),
                forall|k: int| 0 <= k < i ==> arg_shape(#[trigger] v@[k], crate::hir::view::exprs_v(out@), plain_count(v@, k)),
            decreases v@.len() - i,
        {
            let ghost o0 = out@;
            proof {
                assert(decreases_to!(v => v@[i as int]));
            }
            match &v[i] {
                Arg::Expr(x) => {
                    let y = self.walk_expr(x, scope);
                    out.push(y);
                },
                Arg::Spread(span) => self.report_unwalked(spread_message, *span),
            }
            proof {
                assert forall|k: int| 0 <= k < i + 1 implies arg_shape(#[trigger] v@[k], crate::hir::view::exprs_v(out@), plain_count(v@, k)) by {
                    if k < i && v@[k] is Expr {
                        assert(plain_count(v@, k) < o0.len()) by {
                            lemma_plain_count_mono(v@, k + 1, i as int);
                        }
                        assert(crate::hir::view::exprs_v(out@)[plain_count(v@, k) as int]
                            == crate::hir::view::exprs_v(o0)[plain_count(v@, k) as int]);
                    }
                }
            }
            i += 1;
        }
        out
    }

    fn walk_binary(&mut self, e: &Expr, scope: &mut BodyScope) -> (r: HirExpr)
        requires
            old(self).inv(),
            e is Binary,
        ensures
            final(self).inv(),
            grew(*old(self), *final(self)),
            crate::hir::expr::expr_span(r@) == lowered_span(*e),
            expr_shape(*e, r@),
        decreases e, 0nat,
    {
        match e {
            Expr::Binary { op, left, right, span } => {
                let lhs = self.walk_expr(left, scope);
                let rhs = self.walk_expr(right, scope);
                let ty = self.error_ty();
                match map_binary_op(*op) {
                    Some(o) => HirExpr::Binary { op: o, lhs: Box::new(lhs), rhs: Box::new(rhs), ty, span: *span },
                    None => {
                        self.report_unwalked("binary operator is not supported by the body walker", *span);
                        HirExpr::Unit(*span)
                    },
                }
            },
            _ => HirExpr::Unit(Span::new(0, 0)),
        }
    }

    fn walk_logical(&mut self, e: &Expr, scope: &mut BodyScope) -> (r: HirExpr)
        requires
            old(self).inv(),
            e is Logical,
        ensures
            final(self).inv(),
            grew(*old(self), *final(self)),
            crate::hir::expr::expr_span(r@) == lowered_span(*e),
            expr_shape(*e, r@),
        decreases e, 0nat,
    {
        match e {
            Expr::Logical { op, left, right, span } => {
                let lhs = self.walk_expr(left, scope);
                let rhs = self.walk_expr(right, scope);
                let ty = self.error_ty();
                HirExpr::Binary { op: map_logical_op(*op), lhs: Box::new(lhs), rhs: Box::new(rhs), ty, span: *span }
            },
            _ => HirExpr::Unit(Span::new(0, 0)),
        }
    }

    fn walk_unary(&mut self, e: &Expr, scope: &mut BodyScope) -> (r: HirExpr)
        requires
            old(self).inv(),
            e is Unary,
        ensures
            final(self).inv(),
            grew(*old(self), *final(self)),
            crate::hir::expr::expr_span(r@) == lowered_span(*e),
            expr_shape(*e, r@),
        decreases e, 0nat,
    {
        match e {
            Expr::Unary { op, arg, span } => {
                let inner = self.walk_expr(arg, scope);
                match map_unary_op(*op) {
                    Some(o) => {
                        let ty = self.error_ty();
                        HirExpr::Unary { op: o, expr: Box::new(inner), ty, span: *span }
                    },
                    None => inner,
                }
            },
            _ => HirExpr::Unit(Span::new(0, 0)),
        }
    }

    fn walk_update(&mut self, e: &Expr, scope: &mut BodyScope) -> (r: HirExpr)
        requires
            old(self).inv(),
            e is Update,
        ensures
            final(self).inv(),
            grew(*old(self), *final(self)),
            crate::hir::expr::expr_span(r@) == lowered_span(*e),
            expr_shape(*e, r@),
        decreases e, 0nat,
    {
        match e {
            Expr::Update { op, prefix, target, span } => {
                let t = self.walk_simple_target(target, scope);
                let o = match op {
                    UpdateOperator::Increment => HirBinaryOp::Add,
                    UpdateOperator::Decrement => HirBinaryOp::Sub,
                };
                let ty = self.error_ty();
                let one = HirExpr::Int(1, Span::new(0, 0));
                proof {
                    assert(one@ == ExprV::Int(1, Span { start: 0, end: 0 }));
                    assert(target_shape(*target, t@));
                }
                HirExpr::CompoundUpdate { target: Box::new(t), op: o, rhs: Box::new(one), post: !*prefix, ty, span: *span }
            },
            _ => HirExpr::Unit(Span::new(0, 0)),
        }
    }

    /// The generic parameters of every enclosing declaration, merged; the
    /// innermost binding of a name wins.
    pub fn merged_type_params(&self) -> (r: Option<TypeParamMap>)
        ensures
            (r is None) == (self.type_param_stack@.len() == 0),
    {
        if self.type_param_stack.len() == 0 {
            return None;
        }
        let mut merged = TypeParamMap::new();
        let mut i: usize = 0;
        while i < self.type_param_stack.len()
            invariant
                0 <= i <= self.type_param_stack@.len(),
            decreases self.type_param_stack@.len() - i,
        {
            merged.bind_all(&self.type_param_stack[i]);
            i += 1;
        }
        Some(merged)
    }

    fn walk_call(&mut self, e: &Expr, scope: &mut BodyScope) -> (r: HirExpr)
        requires
            old(self).inv(),
            e is Call,
        ensures
            final(self).inv(),
            grew(*old(self), *final(self)),
            crate::hir::expr::expr_span(r@) == lowered_span(*e),
            expr_shape(*e, r@),
        decreases e, 0nat,
    {
        match e {
            Expr::Call { callee, args, type_args, span } => {
                let callee_expr = self.walk_expr(callee, scope);
                let hir_args = self.walk_args(args, scope, "spread argument is not supported");
                let mut targs: Vec<TypeId> = Vec::new();
                match type_args {
                    Some(tps) => {
                        let merged = self.merged_type_params();
                        let mut i: usize = 0;
                        while i < tps.len()
                            invariant
                                0 <= i <= tps@.len(),
                                self.inv(),
                                grew(*old(self), *self),
                                targs@.len() == i,
                            decreases tps@.len() - i,
                        {
                            let id = match &merged {
                                Some(m) => self.resolve_ts_type_with_params(Some(&tps[i]), Some(m)),
                                None => self.resolve_ts_type_with_params(Some(&tps[i]), None),
                            };
                            targs.push(id);
                            i += 1;
                        }
                    },
                    None => {},
                }
                let ty = self.error_ty();
                let c = HirCallee::Indirect(Box::new(callee_expr));
                proof {
                    assert(crate::hir::view::callee_v(c) == crate::hir::view::CalleeV::Indirect(Box::new(callee_expr@)));
                }
                HirExpr::Call { callee: c, args: hir_args, type_args: targs, ty, span: *span }
            },
            _ => HirExpr::Unit(Span::new(0, 0)),
        }
    }

    fn walk_new_expression(&mut self, e: &Expr, scope: &mut BodyScope) -> (r: HirExpr)
        requires
            old(self).inv(),
            e is New,
        ensures
            final(self).inv(),
            grew(*old(self), *final(self)),
            crate::hir::expr::expr_span(r@) == lowered_span(*e),
            expr_shape(*e, r@),
        decreases e, 0nat,
    {
        match e {
            Expr::New { callee, args, span } => {
                let callee_expr = self.walk_expr(callee, scope);
                let hir_args = self.walk_args(args, scope, "spread argument is not supported in `new`");
                let ty = self.error_ty();
                HirExpr::New { callee: Box::new(callee_expr), args: hir_args, ty, span: *span }
            },
            _ => HirExpr::Unit(Span::new(0, 0)),
        }
    }

    fn walk_member(&mut self, m: &Member, scope: &mut BodyScope) -> (r: HirExpr)
        requires
            old(self).inv(),
        ensures
            final(self).inv(),
            grew(*old(self), *final(self)),
            crate::hir::expr::expr_span(r@) == member_span(*m),
            member_shape(*m, r@),
        decreases m, 0nat,
    {
        match m {
            Member::Static { object, property, span } => {
                let owner = self.walk_expr(object, scope);
                let ty = self.error_ty();
                HirExpr::Field {
                    owner: Box::new(owner),
                    field: FieldId(0),
                    field_name: string_clone(property),
                    ty,
                    span: *span,
                }
            },
            Member::Computed { object, expression, span } => {
                let owner = self.walk_expr(object, scope);
                let index = self.walk_expr(expression, scope);
                let ty = self.error_ty();
                HirExpr::Index { owner: Box::new(owner), index: Box::new(index), ty, span: *span }
            },
            Member::Private(span) => {
                self.report_unwalked("private field access is not supported", *span);
                HirExpr::Unit(*span)
            },
        }
    }

    #[verifier::spinoff_prover]
    fn walk_assignment(&mut self, e: &Expr, scope: &mut BodyScope) -> (r: HirExpr)
        requires
            old(self).inv(),
            e is Assign,
        ensures
            final(self).inv(),
            grew(*old(self), *final(self)),
            crate::hir::expr::expr_span(r@) == lowered_span(*e),
            expr_shape(*e, r@),
        decreases e, 0nat,
    {
        match e {
            Expr::Assign { op, target, value, span } => {
                let t = match target {
                    AssignTarget::Simple(st) => self.walk_simple_target(st, scope),
                    AssignTarget::Pattern(ps) => {
                        self.report_unwalked("destructuring assignment target is not supported", *ps);
                        HirExpr::Unit(*ps)
                    },
                };
                let rhs = self.walk_expr(value, scope);
                let ty = self.error_ty();
                proof {
                    assert(assign_target_shape(*target, t@));
                }
                match compound_op(*op) {
                    CompoundOp::Assign => HirExpr::Assignment { target: Box::new(t), value: Box::new(rhs), ty, span: *span },
                    CompoundOp::Binary(o) => HirExpr::CompoundUpdate {
                        target: Box::new(t),
                        op: o,
                        rhs: Box::new(rhs),
                        post: false,
                        ty,
                        span: *span,
                    },
                    CompoundOp::Unsupported => {
                        self.report_unwalked("assignment operator is not supported", *span);
                        HirExpr::Unit(*span)
                    },
                }
            },
            _ => HirExpr::Unit(Span::new(0, 0)),
        }
    }

    /// Lowers the target of an assignment or update.
    fn walk_simple_target(&mut self, t: &SimpleTarget, scope: &mut BodyScope) -> (r: HirExpr)
        requires
            old(self).inv(),
        ensures
            final(self).inv(),
            grew(*old(self), *final(self)),
            target_span_ok(*t, r@),
            target_shape(*t, r@),
        decreases t, 0nat,
    {
        match t {
            SimpleTarget::Ident(name, span) => self.ident_to_expr(name.as_str(), scope, *span),
            SimpleTarget::Member(m) => self.walk_member(m, scope),
            SimpleTarget::Wrapped(inner) => match inner {
                Some(x) => self.walk_expr(x, scope),
                None => HirExpr::Unit(Span::new(0, 0)),
            },
        }
    }

    fn walk_yield_expression(&mut self, e: &Expr, scope: &mut BodyScope) -> (r: HirExpr)
        requires
            old(self).inv(),
            e is Yield,
        ensures
            final(self).inv(),
            grew(*old(self), *final(self)),
            crate::hir::expr::expr_span(r@) == lowered_span(*e),
            !old(self).is_generator_stack@.last() ==> {
                &&& final(self).diagnostics@ == old(self).diagnostics@.push(final(self).diagnostics@.last())
                &&& final(self).diagnostics@.last().severity == crate::base::Severity::Error
                &&& final(self).diagnostics@.last().code@ == "E0500"@
                &&& final(self).diagnostics@.last().message@ == yield_outside_generator_message()
                &&& r@ == ExprV::Unit(lowered_span(*e))
            },
            *e matches Expr::Yield { delegate, span, .. } ==> (old(self).is_generator_stack@.last() ==> if delegate {
                &&& r@ == ExprV::Unit(span)
                &&& final(self).diagnostics@.len() > old(self).diagnostics@.len()
                &&& final(self).diagnostics@[old(self).diagnostics@.len() as int].code@ == "E0501"@
            } else {
                r@ is Yield
            }),
            expr_shape(*e, r@),
        decreases e, 0nat,
    {
        match e {
            Expr::Yield { arg, delegate, span } => {
                if !self.current_function_is_generator() {
                    self.report(Diagnostic::error(
                        "E0500",
                        String::from_str("`yield` is only valid inside a generator function (`function*`); `yield` in non-generator context is rejected by the body walker."),
                        *span,
                    ));
                    return HirExpr::Unit(*span);
                }
                if *delegate {
                    self.report(Diagnostic::error(
                        "E0501",
                        String::from_str("`yield*` (delegating yield) is not supported yet — yield values directly instead"),
                        *span,
                    ));
                    let ghost d1 = self.diagnostics@;
                    match arg {
                        Some(a) => {
                            let _ = self.walk_expr(a, scope);
                        },
                        None => {},
                    }
                    proof {
                        assert(self.diagnostics@[old(self).diagnostics@.len() as int] == d1[old(self).diagnostics@.len() as int]);
                    }
                    return HirExpr::Unit(*span);
                }
                let inner = match arg {
                    Some(a) => Some(Box::new(self.walk_expr(a, scope))),
                    None => None,
                };
                let ty = self.error_ty();
                proof {
                    crate::hir::view::lemma_opt_box_expr_v(inner);
                }
                HirExpr::Yield { expr: inner, ty, span: *span }
            },
            _ => HirExpr::Unit(Span::new(0, 0)),
        }
    }

    /// The parts of a template: its expressions, and each part's cooked
    /// and raw text.
    fn walk_template_parts(&mut self, t: &Template, scope: &mut BodyScope) -> (r: (Vec<HirExpr>, Vec<Option<String>>, Vec<Option<String>>))
        requires
            old(self).inv(),
        ensures
            final(self).inv(),
            grew(*old(self), *final(self)),
            template_shape(
                *t,
                crate::hir::view::exprs_v(r.0@),
                crate::hir::view::opt_strs_v(r.1@),
                crate::hir::view::opt_strs_v(r.2@),
            ),
        decreases t, 0nat,
    {
        let mut exprs: Vec<HirExpr> = Vec::new();
        let mut cooked_parts: Vec<Option<String>> = Vec::new();
        let mut raw_parts: Vec<Option<String>> = Vec::new();
        let mut i: usize = 0;
        while i < t.quasis.len()
            invariant
                0 <= i <= t.quasis@.len(),
                cooked_parts@.len() == i,
                raw_parts@.len() == i,
                self.inv(),
                grew(*old(self), *self),
                forall|j: int| 0 <= j < i ==> #[trigger] crate::hir::view::opt_str_v(cooked_parts@[j])
                    == crate::hir::view::opt_str_v(t.quasis@[j].0) && crate::hir::view::opt_str_v(raw_parts@[j])
                    == Some(t.quasis@[j].1@),
                exprs@.len() == (if i <= t.exprs@.len() { i as nat } else { t.exprs@.len() }),
                forall|k: int| 0 <= k < exprs@.len() ==> expr_shape(#[trigger] t.exprs@[k], exprs@[k]@),
            decreases t.quasis@.len() - i,
        {
            let cooked = match &t.quasis[i].0 {
                Some(c) => Some(string_clone(c)),
                None => None,
            };
            cooked_parts.push(cooked);
            raw_parts.push(Some(string_clone(&t.quasis[i].1)));
            if i < t.exprs.len() {
                proof {
                    assert(decreases_to!(t => t.exprs@[i as int]));
                }
                let x = self.walk_expr(&t.exprs[i], scope);
                exprs.push(x);
            }
            i += 1;
        }
        proof {
            assert forall|k: int| 0 <= k < exprs@.len() implies expr_shape(#[trigger] t.exprs@[k],
                crate::hir::view::exprs_v(exprs@)[k]) by {
                assert(crate::hir::view::exprs_v(exprs@)[k] == exprs@[k]@);
            }
            assert forall|j: int| 0 <= j < t.quasis@.len() implies #[trigger] crate::hir::view::opt_strs_v(cooked_parts@)[j]
                == crate::hir::view::opt_str_v(t.quasis@[j].0) && crate::hir::view::opt_strs_v(raw_parts@)[j] == Some(t.quasis@[j].1@) by {
                assert(crate::hir::view::opt_str_v(cooked_parts@[j]) == crate::hir::view::opt_str_v(t.quasis@[j].0));
            }
        }
        (exprs, cooked_parts, raw_parts)
    }

    fn walk_template_literal(&mut self, t: &Template, scope: &mut BodyScope) -> (r: HirExpr)
        requires
            old(self).inv(),
        ensures
            final(self).inv(),
            grew(*old(self), *final(self)),
            crate::hir::expr::expr_span(r@) == t.span,
            expr_shape(Expr::Template(*t), r@),
        decreases t, 1nat,
    {
        let (expressions, cooked_parts, raw_parts) = self.walk_template_parts(t, scope);
        let ty = self.error_ty();
        proof {
            crate::hir::view::lemma_opt_box_expr_v(None);
        }
        HirExpr::Template { tag: None, expressions, cooked_parts, raw_parts, ty, span: t.span }
    }

    fn walk_tagged_template_expression(&mut self, e: &Expr, scope: &mut BodyScope) -> (r: HirExpr)
        requires
            old(self).inv(),
            e is TaggedTemplate,
        ensures
            final(self).inv(),
            grew(*old(self), *final(self)),
            crate::hir::expr::expr_span(r@) == lowered_span(*e),
            expr_shape(*e, r@),
        decreases e, 0nat,
    {
        match e {
            Expr::TaggedTemplate { tag, quasi, span } => {
                let tg = self.walk_expr(tag, scope);
                let (expressions, cooked_parts, raw_parts) = self.walk_template_parts(quasi, scope);
                let ty = self.error_ty();
                proof {
                    crate::hir::view::lemma_opt_box_expr_v(Some(Box::new(tg)));
                }
                HirExpr::Template { tag: Some(Box::new(tg)), expressions, cooked_parts, raw_parts, ty, span: *span }
            },
            _ => HirExpr::Unit(Span::new(0, 0)),
        }
    }

    fn walk_conditional_expression(&mut self, e: &Expr, scope: &mut BodyScope) -> (r: HirExpr)
        requires
            old(self).inv(),
            e is Conditional,
        ensures
            final(self).inv(),
            grew(*old(self), *final(self)),
            crate::hir::expr::expr_span(r@) == lowered_span(*e),
            expr_shape(*e, r@),
        decreases e, 0nat,
    {
        match e {
            Expr::Conditional { test, cons, alt, span } => {
                let c = self.walk_expr(test, scope);
                let t = self.walk_expr(cons, scope);
                let f = self.walk_expr(alt, scope);
                let ty = self.error_ty();
                HirExpr::Ternary { cond: Box::new(c), then_branch: Box::new(t), else_branch: Box::new(f), ty, span: *span }
            },
            _ => HirExpr::Unit(Span::new(0, 0)),
        }
    }

    fn walk_sequence_expression(&mut self, e: &Expr, scope: &mut BodyScope) -> (r: HirExpr)
        requires
            old(self).inv(),
            e is Sequence,
        ensures
            final(self).inv(),
            grew(*old(self), *final(self)),
            crate::hir::expr::expr_span(r@) == lowered_span(*e),
            expr_shape(*e, r@),
        decreases e, 0nat,
    {
        match e {
            Expr::Sequence(v, span) => {
                let exprs = self.walk_exprs(v, scope);
                let ty = self.error_ty();
                proof {
                    assert(crate::hir::view::exprs_v(exprs@).len() == exprs@.len());
                    assert forall|k: int| 0 <= k < v@.len() implies expr_shape(#[trigger] v@[k],
                        crate::hir::view::exprs_v(exprs@)[k]) by {
                        assert(crate::hir::view::exprs_v(exprs@)[k] == exprs@[k]@);
                    }
                }
                HirExpr::Sequence { exprs, ty, span: *span }
            },
            _ => HirExpr::Unit(Span::new(0, 0)),
        }
    }

    #[verifier::loop_isolation(false)]
    fn walk_object_expression(&mut self, e: &Expr, scope: &mut BodyScope) -> (r: HirExpr)
        requires
            old(self).inv(),
            e is Object,
        ensures
            final(self).inv(),
            grew(*old(self), *final(self)),
            crate::hir::expr::expr_span(r@) == lowered_span(*e),
            expr_shape(*e, r@),
        decreases e, 0nat,
    {
        match e {
            Expr::Object(props, span) => {
                let mut fields: Vec<ObjectLiteralField> = Vec::new();
                let mut i: usize = 0;
                while i < props.len()
                    invariant
                        0 <= i <= props@.len(),
                        self.inv(),
                        grew(*old(self), *self),
                        fields@.len() == kept_count(props@, i as int),
                        forall|k: int| 0 <= k < i ==> prop_shape(#[trigger] props@[k], crate::hir::view::ofields_v(fields@), kept_count(props@, k)),
                    decreases props@.len() - i,
                {
                    let ghost f0 = fields@;
                    proof {
                        assert(decreases_to!(e => props));
                        assert(decreases_to!(props => props@));
                        assert(decreases_to!(props@ => props@[i as int]));
                    }
                    match &props[i] {
                        ObjProp::Spread(x, sp) => {
                            self.report_unwalked("object spread property is not supported by the body walker (planned for PR 7.7)", *sp);
                            let value = self.walk_expr(x, scope);
                            fields.push(ObjectLiteralField::Spread(value));
                        },
                        ObjProp::Prop { init, key, value, span: psp } => {
                            if !*init {
                                self.report_unwalked("object accessor (get/set) property is not supported by the body walker", *psp);
                            } else {
                                match key {
                                    PropKey::Named(name) => {
                                        let v = self.walk_expr(value, scope);
                                        fields.push(ObjectLiteralField::Property { name: string_clone(name), value: v });
                                    },
                                    PropKey::Computed(kx, ksp) => {
                                        self.report_unwalked("object computed property key is not supported by the body walker", *ksp);
                                        match kx {
                                            Some(k) => {
                                                let _ = self.walk_expr(k, scope);
                                            },
                                            None => {},
                                        }
                                        let _ = self.walk_expr(value, scope);
                                    },
                                }
                            }
                        },
                    }
                    proof {
                        lemma_props_step(props@, f0, fields@, i as int);
                    }
                    i += 1;
                }
                let ty = self.error_ty();
                proof {
                    assert(crate::hir::view::ofields_v(fields@).len() == kept_count(props@, props@.len() as int));
                    assert(props_shape(props@, crate::hir::view::ofields_v(fields@)));
                }
                HirExpr::ObjectLiteral { fields, ty, span: *span }
            },
            _ => HirExpr::Unit(Span::new(0, 0)),
        }
    }

    #[verifier::loop_isolation(false)]
    fn walk_array_expression(&mut self, e: &Expr, scope: &mut BodyScope) -> (r: HirExpr)
        requires
            old(self).inv(),
            e is Array,
        ensures
            final(self).inv(),
            grew(*old(self), *final(self)),
            crate::hir::expr::expr_span(r@) == lowered_span(*e),
            expr_shape(*e, r@),
            r@ is Unit ==> final(self).diagnostics@.len() > old(self).diagnostics@.len()
                && final(self).diagnostics@.last().code@ == "E0500"@ && (final(self).diagnostics@.last().message@
                == "array spread operands have incompatible element types"@ || final(self).diagnostics@.last().message@
                == "array spread requires at least one spread of a typed array to determine the element type"@),
            *e matches Expr::Array(els, span) ==> ((exists|k: int| 0 <= k < els@.len() && #[trigger] els@[k] is Spread)
                ==> exists|rw: Seq<Option<(bool, HirExpr)>>, ts: Seq<Seq<crate::types::TypeV>>|
                #[trigger] spread_lowered(els@, span, old(self).types@, final(self).types@, rw, ts, r@)),
        decreases e, 1nat,
    {
        match e {
            Expr::Array(elements, span) => {
                let mut has_spread = false;
                let mut k: usize = 0;
                while k < elements.len()
                    invariant
                        0 <= k <= elements@.len(),
                        has_spread == exists|j: int| 0 <= j < k && #[trigger] elements@[j] is Spread,
                    decreases elements@.len() - k,
                {
                    if let ArrayElem::Spread(_, _) = &elements[k] {
                        has_spread = true;
                    }
                    k += 1;
                }
                if !has_spread {
                    return self.walk_array_literal_simple(e, scope);
                }
                let mut raw: Vec<Option<(bool, HirExpr)>> = Vec::new();
                let mut element_ty: Option<TypeId> = None;
                let ghost mut ts: Seq<Seq<crate::types::TypeV>> = Seq::empty();
                let mut i: usize = 0;
                while i < elements.len()
                    invariant
                        0 <= i <= elements@.len(),
                        self.inv(),
                        grew(*old(self), *self),
                        raw@.len() == i,
                        ts.len() == i,
                        forall|j: int| 0 <= j < i ==> raw_part_ok(#[trigger] elements@[j], raw@[j]),
                        forall|j: int| 0 <= j < i ==> old(self).types@.is_prefix_of(#[trigger] ts[j]) && ts[j].is_prefix_of(self.types@),
                        spread_acc(ts, raw@, i as int) == Ok::<Option<TypeId>, ()>(element_ty),
                    decreases elements@.len() - i,
                {
                    let ghost r0 = raw@;
                    let ghost ts0 = ts;
                    let ghost e0 = element_ty;
                    let ghost tb = self.types@;
                    proof {
                        assert(decreases_to!(e => elements));
                        assert(decreases_to!(elements => elements@));
                        assert(decreases_to!(elements@ => elements@[i as int]));
                    }
                    match &elements[i] {
                        ArrayElem::Hole(_) => raw.push(None),
                        ArrayElem::Spread(x, sp) => {
                            let arg = self.walk_expr(x, scope);
                            let spread_elem_ty = match self.types.resolve(arg.ty()) {
                                Some(t) => match t {
                                    Type::Array { element } => Some(*element),
                                    _ => None,
                                },
                                None => None,
                            };
                            let ghost tc = self.types@;
                            proof {
                                assert(spread_elem(tc, Some((true, arg))) == spread_elem_ty);
                            }
                            match spread_elem_ty {
                                Some(new_ty) => match element_ty {
                                    Some(existing) => {
                                        if existing != new_ty {
                                            self.report_unwalked("array spread operands have incompatible element types", *sp);
                                            proof {
                                                assert(elements@[i as int] is Spread);
                                                assert(array_shape(elements@, *span, ExprV::Unit(*span)));
                                                let rw2 = r0.push(Some((true, arg)));
                                                let ts2 = ts0.push(tc);
                                                lemma_spread_acc_prefix(ts0, r0, ts2, rw2, i as int);
                                                assert(spread_acc(ts2, rw2, i + 1) is Err);
                                                assert forall|j: int| 0 <= j < ts2.len() implies old(self).types@.is_prefix_of(#[trigger] ts2[j])
                                                    && ts2[j].is_prefix_of(self.types@) by {
                                                    if j < i {
                                                        lemma_prefix_trans(ts0[j], tb, self.types@);
                                                    }
                                                }
                                                assert forall|j: int| 0 <= j < rw2.len() implies raw_part_ok(#[trigger] elements@[j], rw2[j]) by {
                                                    if j < i {
                                                        assert(rw2[j] == r0[j]);
                                                    }
                                                }
                                                assert(spread_lowered(elements@, *span, old(self).types@, self.types@, rw2, ts2, ExprV::Unit(*span)));
                                            }
                                            return HirExpr::Unit(*span);
                                        }
                                    },
                                    None => element_ty = Some(new_ty),
                                },
                                None => {},
                            }
                            raw.push(Some((true, arg)));
                        },
                        ArrayElem::Expr(x) => {
                            let elem = self.walk_expr(x, scope);
                            raw.push(Some((false, elem)));
                        },
                    }
                    proof {
                        ts = ts0.push(self.types@);
                        lemma_spread_acc_prefix(ts0, r0, ts, raw@, i as int);
                        assert forall|j: int| 0 <= j < i + 1 implies old(self).types@.is_prefix_of(#[trigger] ts[j])
                            && ts[j].is_prefix_of(self.types@) by {
                            if j < i {
                                lemma_prefix_trans(ts0[j], tb, self.types@);
                            }
                        }
                        assert(raw@[i as int] == raw@.last());
                        assert(spread_acc(ts, raw@, i + 1) == Ok::<Option<TypeId>, ()>(element_ty));
                    }
                    i += 1;
                }
                let element_id = match element_ty {
                    Some(t) => t,
                    None => {
                        self.report_unwalked("array spread requires at least one spread of a typed array to determine the element type", *span);
                        proof {
                            assert(array_shape(elements@, *span, ExprV::Unit(*span)));
                            assert(spread_lowered(elements@, *span, old(self).types@, self.types@, raw@, ts, ExprV::Unit(*span)));
                        }
                        return HirExpr::Unit(*span);
                    },
                };
                let ghost t0 = self.types@;
                let arr_ty = self.intern(&Type::Array { element: element_id });
                let ghost t1 = self.types@;
                let ghost rv = raw@;
                let mut parts: Vec<HirExpr> = Vec::new();
                let mut n: usize = 0;
                while raw.len() > 0
                    invariant
                        n + raw@.len() == rv.len(),
                        rv.len() == elements@.len(),
                        raw@ == rv.subrange(n as int, rv.len() as int),
                        parts@.len() == n,
                        forall|j: int| 0 <= j < rv.len() ==> raw_part_ok(#[trigger] elements@[j], rv[j]),
                        forall|j: int| 0 <= j < n ==> concat_part(#[trigger] elements@[j], parts@[j]@, arr_ty, *span),
                        forall|j: int| 0 <= j < n ==> #[trigger] parts@[j]@ == concat_arg(rv[j], arr_ty, *span),
                    decreases raw@.len(),
                {
                    let x = raw.remove(0);
                    proof {
                        assert(x == rv[n as int]);
                        assert(raw@ =~= rv.subrange(n + 1, rv.len() as int));
                    }
                    match x {
                        Some((true, arg)) => parts.push(arg),
                        Some((false, elem)) => {
                            let mut v: Vec<HirExpr> = Vec::new();
                            v.push(elem);
                            proof {
                                assert(crate::hir::view::exprs_v(v@) =~= seq![elem@]);
                            }
                            parts.push(HirExpr::ArrayLiteral { elements: v, ty: arr_ty, span: *span });
                        },
                        None => {
                            let callee = HirCallee::Runtime { name: String::from_str("__ts_aot_array_hole"), ty: arr_ty };
                            proof {
                                assert(crate::hir::view::callee_v(callee) == crate::hir::view::CalleeV::Runtime {
                                    name: "__ts_aot_array_hole"@,
                                    ty: arr_ty,
                                });
                            }
                            let hole = HirExpr::Call {
                                callee,
                                args: Vec::new(),
                                type_args: Vec::new(),
                                ty: arr_ty,
                                span: *span,
                            };
                            proof {
                                assert(crate::hir::view::exprs_v(Seq::<HirExpr>::empty()) =~= Seq::<ExprV>::empty());
                            }
                            parts.push(hole);
                        },
                    }
                    proof {
                        assert(raw_part_ok(elements@[n as int], rv[n as int]));
                        assert(concat_part(elements@[n as int], parts@[n as int]@, arr_ty, *span));
                        assert(parts@[n as int]@ == concat_arg(rv[n as int], arr_ty, *span));
                    }
                    n += 1;
                }
                let result_ty = self.intern(&Type::Array { element: element_id });
                let callee = HirCallee::Runtime { name: String::from_str("__ts_aot_array_concat"), ty: result_ty };
                proof {
                    crate::types::law_intern_twice(t0, t1, self.types@, crate::types::TypeV::Array { element: element_id }, arr_ty, result_ty);
                    assert(crate::hir::view::callee_v(callee) == crate::hir::view::CalleeV::Runtime {
                        name: "__ts_aot_array_concat"@,
                        ty: result_ty,
                    });
                    assert(crate::hir::view::exprs_v(parts@).len() == elements@.len());
                    assert forall|k: int| 0 <= k < elements@.len() implies concat_part(#[trigger] elements@[k],
                        crate::hir::view::exprs_v(parts@)[k], result_ty, *span) by {
                        assert(crate::hir::view::exprs_v(parts@)[k] == parts@[k]@);
                    }
                }
                let ghost pv = parts@;
                let r = HirExpr::Call { callee, args: parts, type_args: Vec::new(), ty: result_ty, span: *span };
                proof {
                    assert(array_concat_of(elements@, *span, r@));
                    assert(array_shape(elements@, *span, r@));
                    assert(crate::hir::view::exprs_v(pv) =~= Seq::new(rv.len(), |k: int| concat_arg(rv[k], result_ty, *span))) by {
                        assert forall|k: int| 0 <= k < rv.len() implies crate::hir::view::exprs_v(pv)[k] == concat_arg(rv[k], result_ty, *span) by {
                            assert(crate::hir::view::exprs_v(pv)[k] == pv[k]@);
                        }
                    }
                    assert forall|j: int| 0 <= j < ts.len() implies old(self).types@.is_prefix_of(#[trigger] ts[j])
                        && ts[j].is_prefix_of(self.types@) by {
                        lemma_prefix_trans(ts[j], t0, self.types@);
                    }
                    assert(spread_lowered(elements@, *span, old(self).types@, self.types@, rv, ts, r@));
                }
                r
            },
            _ => HirExpr::Unit(Span::new(0, 0)),
        }
    }

    #[verifier::loop_isolation(false)]
    fn walk_array_literal_simple(&mut self, e: &Expr, scope: &mut BodyScope) -> (r: HirExpr)
        requires
            old(self).inv(),
            e matches Expr::Array(els, _) && forall|k: int| 0 <= k < els@.len() ==> !(#[trigger] els@[k] is Spread),
        ensures
            final(self).inv(),
            grew(*old(self), *final(self)),
            crate::hir::expr::expr_span(r@) == lowered_span(*e),
            expr_shape(*e, r@),
            *e matches Expr::Array(els, _) && array_literal_of(els@, r@),
        decreases e, 0nat,
    {
        match e {
            Expr::Array(els, span) => {
                let mut elements: Vec<HirExpr> = Vec::new();
                let mut i: usize = 0;
                while i < els.len()
                    invariant
                        0 <= i <= els@.len(),
                        self.inv(),
                        grew(*old(self), *self),
                        elements@.len() == i,
                        forall|j: int| 0 <= j < i ==> literal_part(#[trigger] els@[j], elements@[j]@),
                    decreases els@.len() - i,
                {
                    proof {
                        assert(decreases_to!(e => els));
                        assert(decreases_to!(els => els@));
                        assert(decreases_to!(els@ => els@[i as int]));
                    }
                    match &els[i] {
                        ArrayElem::Hole(hs) => elements.push(HirExpr::Undefined(*hs)),
                        ArrayElem::Spread(_, _) => return HirExpr::Unit(*span),
                        ArrayElem::Expr(x) => {
                            let y = self.walk_expr(x, scope);
                            elements.push(y);
                        },
                    }
                    i += 1;
                }
                let ty = self.error_ty();
                proof {
                    assert(elements@.len() == els@.len());
                    assert(crate::hir::view::exprs_v(elements@).len() == els@.len());
                    assert forall|j: int| 0 <= j < els@.len() implies literal_part(#[trigger] els@[j],
                        crate::hir::view::exprs_v(elements@)[j]) by {
                        assert(crate::hir::view::exprs_v(elements@)[j] == elements@[j]@);
                    }
                }
                let r = HirExpr::ArrayLiteral { elements, ty, span: *span };
                proof {
                    assert(array_literal_of(els@, r@));
                    assert(array_shape(els@, *span, r@));
                }
                r
            },
            _ => HirExpr::Unit(Span::new(0, 0)),
        }
    }
}

/// What an array literal lowers to: without spreads, an array literal of
/// its elements; with spreads, the runtime's concatenation of its parts,
/// or a placeholder where the element type cannot be told.
pub open spec fn array_shape(els: Seq<ArrayElem>, span: Span, r: ExprV) -> bool
    decreases els, 2nat,
{
    if forall|k: int| 0 <= k < els.len() ==> !(#[trigger] els[k] is Spread) {
        array_literal_of(els, r)
    } else {
        r == ExprV::Unit(span) || array_concat_of(els, span, r)
    }
}

/// What an element of an array literal without spreads lowers to: a hole
/// to `undefined`, an expression to its lowering.
pub open spec fn literal_part(el: ArrayElem, x: ExprV) -> bool
    decreases el, 0nat,
{
    match el {
        ArrayElem::Hole(hs) => x == ExprV::Undefined(hs),
        ArrayElem::Expr(y) => expr_shape(y, x) && crate::hir::expr::expr_span(x) == lowered_span(y),
        ArrayElem::Spread(..) => false,
    }
}

/// An array literal without spreads: one element per element, in order.
pub open spec fn array_literal_of(els: Seq<ArrayElem>, r: ExprV) -> bool
    decreases els, 1nat,
{
    r matches ExprV::ArrayLiteral { elements, .. } && elements.len() == els.len()
        && forall|k: int| 0 <= k < els.len() ==> literal_part(#[trigger] els[k], elements[k])
}

/// The walked form of an array element before the element type is known.
pub open spec fn raw_part_ok(el: ArrayElem, p: Option<(bool, HirExpr)>) -> bool {
    match el {
        ArrayElem::Hole(_) => p is None,
        ArrayElem::Spread(x, _) => p matches Some((sp, a)) && sp && expr_shape(x, a@)
            && crate::hir::expr::expr_span(a@) == lowered_span(x),
        ArrayElem::Expr(x) => p matches Some((sp, a)) && !sp && expr_shape(x, a@)
            && crate::hir::expr::expr_span(a@) == lowered_span(x),
    }
}

/// The element type that a walked operand of an array literal contributes,
/// read in table `t`: that of the array type that a spread operand's type
/// names.
pub open spec fn spread_elem(t: Seq<crate::types::TypeV>, p: Option<(bool, HirExpr)>) -> Option<TypeId> {
    match p {
        Some((sp, a)) => if sp && crate::hir::expr::expr_ty(a@).0 < t.len() {
            match t[crate::hir::expr::expr_ty(a@).0 as int] {
                crate::types::TypeV::Array { element } => Some(element),
                _ => None,
            }
        } else {
            None
        },
        None => None,
    }
}

/// The element type that the first `n` walked operands agree on, each
/// read in the table of its own time: none while no spread of an array
/// type was met, an error once two of them disagree.
pub open spec fn spread_acc(ts: Seq<Seq<crate::types::TypeV>>, rw: Seq<Option<(bool, HirExpr)>>, n: int) -> Result<
    Option<TypeId>,
    (),
>
    decreases n,
{
    if n <= 0 {
        Ok(None)
    } else {
        match spread_acc(ts, rw, n - 1) {
            Err(u) => Err(u),
            Ok(cur) => match spread_elem(ts[n - 1], rw[n - 1]) {
                Some(t) => match cur {
                    Some(e) => if e != t {
                        Err(())
                    } else {
                        Ok(Some(e))
                    },
                    None => Ok(Some(t)),
                },
                None => Ok(cur),
            },
        }
    }
}

/// The operand of the concatenation that a walked element gives: a spread
/// its operand, an expression a one-element array, a hole the runtime's
/// hole.
pub open spec fn concat_arg(p: Option<(bool, HirExpr)>, arr_ty: TypeId, span: Span) -> ExprV {
    match p {
        None => ExprV::Call {
            callee: crate::hir::view::CalleeV::Runtime { name: "__ts_aot_array_hole"@, ty: arr_ty },
            args: Seq::empty(),
            type_args: Seq::empty(),
            ty: arr_ty,
            span,
        },
        Some((true, a)) => a@,
        Some((false, a)) => ExprV::ArrayLiteral { elements: seq![a@], ty: arr_ty, span },
    }
}

/// What an array literal with spreads lowers to, given its elements as
/// walked (`rw`, in order, up to where the walk stopped) and the type table
/// at the time each was checked (`ts`, each between `t0` and `t1`): at the
/// first spread whose element type disagrees with an earlier one the walk
/// stops with a unit; when no spread has an array type the result is a
/// unit; otherwise it is the runtime's concatenation of one operand per
/// element, typed as the array of the common element type.
pub open spec fn spread_lowered(
    els: Seq<ArrayElem>,
    span: Span,
    t0: Seq<crate::types::TypeV>,
    t1: Seq<crate::types::TypeV>,
    rw: Seq<Option<(bool, HirExpr)>>,
    ts: Seq<Seq<crate::types::TypeV>>,
    r: ExprV,
) -> bool {
    &&& rw.len() == ts.len()
    &&& rw.len() <= els.len()
    &&& forall|j: int| 0 <= j < rw.len() ==> raw_part_ok(#[trigger] els[j], rw[j])
    &&& forall|j: int| 0 <= j < ts.len() ==> t0.is_prefix_of(#[trigger] ts[j]) && ts[j].is_prefix_of(t1)
    &&& match spread_acc(ts, rw, rw.len() as int) {
        Err(_) => r == ExprV::Unit(span) && spread_acc(ts, rw, rw.len() - 1) is Ok,
        Ok(None) => rw.len() == els.len() && r == ExprV::Unit(span),
        Ok(Some(t)) => {
            let a = crate::hir::expr::expr_ty(r);
            &&& rw.len() == els.len()
            &&& crate::frontend::resolve::names_type(t1, a, crate::types::TypeV::Array { element: t })
            &&& r == ExprV::Call {
                callee: crate::hir::view::CalleeV::Runtime { name: "__ts_aot_array_concat"@, ty: a },
                args: Seq::new(rw.len(), |k: int| concat_arg(rw[k], a, span)),
                type_args: Seq::empty(),
                ty: a,
                span,
            }
        },
    }
}

/// A prefix of a prefix is a prefix.
pub proof fn lemma_prefix_trans<A>(a: Seq<A>, b: Seq<A>, c: Seq<A>)
    requires
        a.is_prefix_of(b),
        b.is_prefix_of(c),
    ensures
        a.is_prefix_of(c),
{
    assert(a =~= c.subrange(0, a.len() as int)) by {
        assert forall|k: int| 0 <= k < a.len() implies a[k] == c[k] by {
            assert(a[k] == b.subrange(0, a.len() as int)[k]);
            assert(b[k] == c.subrange(0, b.len() as int)[k]);
        }
    }
}

/// The element type that walked operands agree on depends on them alone.
pub proof fn lemma_spread_acc_prefix(
    ts: Seq<Seq<crate::types::TypeV>>,
    rw: Seq<Option<(bool, HirExpr)>>,
    ts2: Seq<Seq<crate::types::TypeV>>,
    rw2: Seq<Option<(bool, HirExpr)>>,
    n: int,
)
    requires
        0 <= n <= ts.len(),
        n <= rw.len(),
        n <= ts2.len(),
        n <= rw2.len(),
        forall|j: int| 0 <= j < n ==> ts[j] == ts2[j] && rw[j] == rw2[j],
    ensures
        spread_acc(ts, rw, n) == spread_acc(ts2, rw2, n),
    decreases n,
{
    if n > 0 {
        lemma_spread_acc_prefix(ts, rw, ts2, rw2, n - 1);
    }
}

/// What an element of an array literal with spreads becomes among the
/// operands of the concatenation: a spread its operand, an expression a
/// one-element array, a hole the runtime's hole.
pub open spec fn concat_part(el: ArrayElem, x: ExprV, arr_ty: TypeId, span: Span) -> bool
    decreases el, 0nat,
{
    match el {
        ArrayElem::Hole(_) => x == ExprV::Call {
            callee: crate::hir::view::CalleeV::Runtime { name: "__ts_aot_array_hole"@, ty: arr_ty },
            args: Seq::empty(),
            type_args: Seq::empty(),
            ty: arr_ty,
            span,
        },
        ArrayElem::Spread(y, _) => expr_shape(y, x) && crate::hir::expr::expr_span(x) == lowered_span(y),
        ArrayElem::Expr(y) => x matches ExprV::ArrayLiteral { elements, ty, span: s } && elements.len() == 1
            && expr_shape(y, elements[0]) && crate::hir::expr::expr_span(elements[0]) == lowered_span(y) && ty == arr_ty
            && s == span,
    }
}

/// An array literal with spreads: the runtime's concatenation of one
/// operand per element, in order.
pub open spec fn array_concat_of(els: Seq<ArrayElem>, span: Span, r: ExprV) -> bool
    decreases els, 1nat,
{
    r matches ExprV::Call { callee: crate::hir::view::CalleeV::Runtime { name, ty: cty }, args, type_args, ty, span: s }
        && name == "__ts_aot_array_concat"@ && cty == ty && s == span && type_args.len() == 0
        && args.len() == els.len() && forall|k: int| 0 <= k < els.len() ==> concat_part(#[trigger] els[k], args[k], ty, span)
}


/// Whether a statement is an expression statement that yields.
pub open spec fn yield_stmt(s: Stmt) -> bool {
    s matches Stmt::Expr(e, _) && e is Yield
}

/// Whether some statement of `v` is an expression statement that yields.
pub open spec fn has_yield_stmt(v: Seq<Stmt>) -> bool {
    exists|j: int| 0 <= j < v.len() && yield_stmt(#[trigger] v[j])
}

/// Whether a statement declares a function that is not a generator and
/// whose body yields in one of its expression statements.
pub open spec fn declares_yielding_function(s: Stmt) -> bool {
    match s {
        Stmt::Decl(Decl::Function(f)) => !f.is_generator && (f.body matches Some(b) && has_yield_stmt(b@)),
        _ => false,
    }
}

/// Whether `ds` holds the error for a `yield` outside a generator.
pub open spec fn has_yield_error(ds: Seq<Diagnostic>) -> bool {
    exists|i: int|
        #![trigger ds[i]]
        0 <= i < ds.len() && ds[i].code@ == "E0500"@ && ds[i].severity == crate::base::Severity::Error
            && ds[i].message@ == yield_outside_generator_message()
}

/// Diagnostics that only grow keep the errors they held.
pub proof fn lemma_yield_error_kept(a: Seq<Diagnostic>, b: Seq<Diagnostic>)
    requires
        a.is_prefix_of(b),
        has_yield_error(a),
    ensures
        has_yield_error(b),
{
    let i = choose|i: int|
        #![trigger a[i]]
        0 <= i < a.len() && a[i].code@ == "E0500"@ && a[i].severity == crate::base::Severity::Error
            && a[i].message@ == yield_outside_generator_message();
    assert(b.subrange(0, a.len() as int)[i] == b[i]);
    assert(a[i] == b[i]);
}

/// Whether a statement lowers to exactly one statement.
pub open spec fn pushes_one(s: Stmt) -> bool {
    s is Block || s is Expr || s is Return || s is If || s is While || s is DoWhile || s is For || s is ForOf
        || s is ForIn || s is Switch || s is Throw || s is Break || s is Continue
}

/// What a function's optional body lowers to: the statements of the body,
/// in order; an absent body to none.
pub open spec fn body_lowered(body: Option<Vec<Stmt>>, r: Seq<HirStmt>) -> bool {
    match body {
        Some(b) => r.len() == stmts_len(b@, b@.len() as int) && forall|j: int| 0 <= j < b@.len() ==> stmt_parts(
            #[trigger] b@[j],
            crate::hir::view::stmts_v(r),
            stmts_len(b@, j) as int,
        ),
        None => r.len() == 0,
    }
}

/// The name a function parameter is lowered under: the one name its
/// pattern binds, or `_` for a destructuring pattern.
pub open spec fn param_name(p: crate::frontend::ast::Param) -> Seq<char> {
    match pattern_name(p.pattern) {
        Some(n) => n,
        None => "_"@,
    }
}

/// What a C-style `for` lowers to: a block of its initializer, then a
/// `while` over its test (`true` when it has none) whose body is the loop
/// body with the update put before each `continue` of it, then the update.
#[verifier::opaque]
pub open spec fn for_shape(init: Option<ForInit>, test: Option<Expr>, update: Option<Expr>, body: Stmt, h: StmtV) -> bool {
    h matches StmtV::Block(b) && b.len() > 0 && for_init_parts(init, b.drop_last()) && (b.last() matches StmtV::While {
        cond,
        body: wb,
    } && (match test {
        Some(t) => expr_shape(t, cond),
        None => cond == ExprV::Bool(true, Span { start: 0, end: 0 }),
    }) && (*wb matches StmtV::Block(lb) && (match update {
        None => lb.len() == lowered_len(body),
        Some(u) => lb.len() > 0 && (lb.last() matches StmtV::Expr { expr: ue } && expr_shape(u, ue) && exists|
            raw: Seq<StmtV>,
        |
            raw.len() == lowered_len(body) && lb.drop_last() == #[trigger] crate::frontend::inject::inject_seq(
                raw,
                ue,
                raw.len(),
            )),
    })))
}

/// What the initializer of a C-style `for` lowers to, at the start of the
/// block that the loop lowers to.
pub open spec fn for_init_parts(init: Option<ForInit>, b: Seq<StmtV>) -> bool {
    match init {
        None => b.len() == 0,
        Some(ForInit::Expr(e)) => b.len() == 1 && (b[0] matches StmtV::Expr { expr } && expr_shape(e, expr)),
        Some(ForInit::Var(v)) => b.len() == decl_count(v.declarations@, v.declarations@.len() as int) && forall|k: int|
            0 <= k < v.declarations@.len() && pattern_name(v.declarations@[k].id) is Some ==> decl_part(
            #[trigger] v.declarations@[k],
            b[decl_count(v.declarations@, k) as int],
        ),
    }
}

/// How many of the first `k` declarators bind a single name (the others
/// are destructuring, reported and left out).
pub open spec fn decl_count(ds: Seq<crate::frontend::ast::Declarator>, k: int) -> nat
    decreases k,
{
    if k <= 0 {
        0
    } else {
        decl_count(ds, k - 1) + if pattern_name(ds[k - 1].id) is Some {
            1nat
        } else {
            0nat
        }
    }
}

/// What a declarator that binds a name lowers to: a `let` of that name,
/// initialized with its lowered initializer.
pub open spec fn decl_part(d: crate::frontend::ast::Declarator, h: StmtV) -> bool {
    h matches StmtV::Let { name, init, .. } && pattern_name(d.id) == Some(name) && match d.init {
        None => init is None,
        Some(x) => init matches Some(y) && expr_shape(x, y),
    }
}

/// How many statements a statement lowers to.
pub open spec fn lowered_len(s: Stmt) -> nat
    decreases s,
{
    if pushes_one(s) {
        1
    } else {
        match s {
            Stmt::Decl(Decl::Var(v)) => decl_count(v.declarations@, v.declarations@.len() as int),
            Stmt::Labeled(b, _) => lowered_len(*b),
            _ => 0,
        }
    }
}

/// How many statements the first `k` statements lower to.
pub open spec fn stmts_len(ss: Seq<Stmt>, k: int) -> nat
    decreases k,
{
    if k <= 0 || k > ss.len() {
        0
    } else {
        stmts_len(ss, k - 1) + lowered_len(ss[k - 1])
    }
}

/// Whether the statements that `s` lowers to stand in `r` from `at` on.
pub open spec fn stmt_parts(s: Stmt, r: Seq<StmtV>, at: int) -> bool
    decreases s,
{
    if pushes_one(s) {
        lowered_kind(s, r[at])
    } else {
        match s {
            Stmt::Decl(Decl::Var(v)) => forall|k: int| 0 <= k < v.declarations@.len() && pattern_name(
                v.declarations@[k].id,
            ) is Some ==> decl_part(#[trigger] v.declarations@[k], r[at + decl_count(v.declarations@, k)]),
            Stmt::Labeled(b, _) => stmt_parts(*b, r, at),
            _ => true,
        }
    }
}

/// The count of name-binding declarators does not drop as more are counted.
proof fn lemma_decl_count_mono(ds: Seq<crate::frontend::ast::Declarator>, a: int, b: int)
    requires
        a <= b,
    ensures
        decl_count(ds, a) <= decl_count(ds, b),
    decreases b - a,
{
    if a < b {
        lemma_decl_count_mono(ds, a, b - 1);
    }
}

/// The count of lowered statements does not drop as more are counted.
proof fn lemma_stmts_len_mono(ss: Seq<Stmt>, a: int, b: int)
    requires
        0 <= a <= b <= ss.len(),
    ensures
        stmts_len(ss, a) <= stmts_len(ss, b),
    decreases b - a,
{
    if a < b {
        lemma_stmts_len_mono(ss, a, b - 1);
    }
}

/// What a statement lowered to stays in place as more is appended.
proof fn lemma_stmt_parts_ext(s: Stmt, r1: Seq<StmtV>, r2: Seq<StmtV>, at: int)
    requires
        0 <= at,
        at + lowered_len(s) <= r1.len(),
        r1.len() <= r2.len(),
        forall|i: int| 0 <= i < r1.len() ==> r2[i] == r1[i],
        stmt_parts(s, r1, at),
    ensures
        stmt_parts(s, r2, at),
    decreases s,
{
    if pushes_one(s) {
        assert(r2[at] == r1[at]);
    } else {
        match s {
            Stmt::Decl(Decl::Var(v)) => {
                let ds = v.declarations@;
                assert forall|k: int| 0 <= k < ds.len() && pattern_name(ds[k].id) is Some implies decl_part(
                    #[trigger] ds[k],
                    r2[at + decl_count(ds, k)],
                ) by {
                    lemma_decl_count_mono(ds, k + 1, ds.len() as int);
                    assert(r2[at + decl_count(ds, k)] == r1[at + decl_count(ds, k)]);
                }
            },
            Stmt::Labeled(b, _) => lemma_stmt_parts_ext(*b, r1, r2, at),
            _ => {},
        }
    }
}

/// What a statement lowers to: the same kind of statement over its
/// lowered expressions and, where a nested statement lowers to one
/// statement, that statement; a `break`'s or `continue`'s label is kept,
/// and a C-style `for` lowers to a block that ends with a `while`.
pub open spec fn lowered_kind(s: Stmt, h: StmtV) -> bool
    decreases s,
{
    match s {
        Stmt::Block(b, _) => h matches StmtV::Block(hb) && hb.len() == stmts_len(b@, b@.len() as int),
        Stmt::Expr(e, _) => h matches StmtV::Expr { expr } && expr_shape(e, expr),
        Stmt::Return(v, _) => h matches StmtV::Return { value } && match v {
            None => value is None,
            Some(x) => value matches Some(y) && expr_shape(x, y),
        },
        Stmt::If { test, cons, alt, .. } => h matches StmtV::If { cond, then, otherwise } && expr_shape(test, cond)
            && (pushes_one(*cons) ==> lowered_kind(*cons, *then)) && match alt {
            None => otherwise is None,
            Some(a) => otherwise matches Some(o) && (pushes_one(*a) ==> lowered_kind(*a, *o)),
        },
        Stmt::While { test, body, .. } => h matches StmtV::While { cond, body: b } && expr_shape(test, cond) && (
        pushes_one(*body) ==> lowered_kind(*body, *b)),
        Stmt::DoWhile { body, test, .. } => h matches StmtV::DoWhile { body: b, cond } && expr_shape(test, cond) && (
        pushes_one(*body) ==> lowered_kind(*body, *b)),
        Stmt::For { init, test, update, body, .. } => for_shape(init, test, update, *body, h),
        Stmt::ForOf { right, body, .. } => h matches StmtV::ForOf { iter, body: b, .. } && expr_shape(right, iter) && (
        pushes_one(*body) ==> lowered_kind(*body, *b)),
        Stmt::ForIn { right, body, .. } => h matches StmtV::ForIn { iter, body: b, .. } && expr_shape(right, iter) && (
        pushes_one(*body) ==> lowered_kind(*body, *b)),
        Stmt::Switch { disc, cases, .. } => h matches StmtV::Switch { disc: d, cases: hc } && expr_shape(disc, d)
            && hc.len() == cases@.len(),
        Stmt::Throw(e, _) => h matches StmtV::Throw { expr } && expr_shape(e, expr),
        Stmt::Break { label, .. } => h == StmtV::Break { label: crate::hir::view::opt_str_v(label) },
        Stmt::Continue { label, .. } => h == StmtV::Continue { label: crate::hir::view::opt_str_v(label) },
        _ => false,
    }
}

/// The name given to the `seq`-th class expression of module `module`.
pub open spec fn class_expr_name(module: u32, seq: u32) -> Seq<char> {
    "__class_m"@ + crate::text::dec_nat(module as nat) + "_"@ + crate::text::dec_nat(seq as nat)
}

/// A count as a `u32`, stopping at the largest `u32`.
pub fn count_u32(n: usize) -> (r: u32)
    ensures
        r as int == if n as int > u32::MAX as int { u32::MAX as int } else { n as int },
{
    if n > 4294967295usize {
        4294967295u32
    } else {
        n as u32
    }
}

impl SkeletonBuilder {
    /// Lowers a class expression: the class becomes a declaration of its
    /// own under a fresh name, and the expression a reference to it.
    fn walk_class_expression(&mut self, c: &crate::frontend::ast::Class, scope: &mut BodyScope) -> (r: HirExpr)
        requires
            old(self).inv(),
        ensures
            final(self).inv(),
            grew(*old(self), *final(self)),
            crate::hir::expr::expr_span(r@) == c.span,
            r@ matches ExprV::Global { name, .. } && name == class_expr_name(
                old(self).program.module.0,
                old(self).next_anon_class_id,
            ),
            final(self).program.declarations@.len() > old(self).program.declarations@.len(),
        decreases c, 1nat,
    {
        let module_id = self.program.module.0;
        let seq = self.next_anon_class_id;
        self.next_anon_class_id = seq.saturating_add(1);
        let mut name = String::from_str("__class_m");
        crate::text::push_u32_dec(&mut name, module_id);
        crate::text::push_str(&mut name, "_");
        crate::text::push_u32_dec(&mut name, seq);
        let mut hir_class = self.build_class(c, false);
        hir_class.name = string_clone(&name);
        let ghost s1 = *self;
        self.program.push_decl(crate::hir::decl::HirDecl::Class(hir_class));
        proof {
            assert(s1.program.declarations@.is_prefix_of(self.program.declarations@));
            assert(grew(s1, *self)) by {
                assert(s1.types@.is_prefix_of(self.types@)) by {
                    assert(self.types@.subrange(0, s1.types@.len() as int) =~= s1.types@);
                }
                assert(s1.diagnostics@.is_prefix_of(self.diagnostics@)) by {
                    assert(self.diagnostics@.subrange(0, s1.diagnostics@.len() as int) =~= s1.diagnostics@);
                }
            }
        }
        let ty = self.error_ty();
        HirExpr::Global { name, ty, span: c.span }
    }

    /// Reports an `E0502` error for an arrow function that is not lowered,
    /// and gives the placeholder that stands for it.
    fn reject_arrow(&mut self, message: &str, span: Span, arrow_span: Span) -> (r: HirExpr)
        ensures
            final(self).diagnostics@ == old(self).diagnostics@.push(final(self).diagnostics@.last()),
            final(self).diagnostics@.last().code@ == "E0502"@,
            final(self).diagnostics@.last().severity == crate::base::Severity::Error,
            final(self).diagnostics@.last().span == span,
            final(self).types == old(self).types,
            grew(*old(self), *final(self)),
            crate::frontend::growth::rest_unchanged(*old(self), *final(self)),
            r@ == ExprV::Unit(arrow_span),
    {
        self.report(Diagnostic::error("E0502", String::from_str(message), span));
        HirExpr::Unit(arrow_span)
    }

    /// Lowers an arrow function to a closure. Only synchronous arrows
    /// without generics, rest or default parameters, destructuring or
    /// missing annotations, and that reference no local of the enclosing
    /// body, are lowered; any other is an error and gives a placeholder.
    fn walk_arrow(&mut self, a: &crate::frontend::ast::Arrow, scope: &mut BodyScope) -> (r: HirExpr)
        requires
            old(self).inv(),
        ensures
            final(self).inv(),
            grew(*old(self), *final(self)),
            crate::hir::expr::expr_span(r@) == a.span,
            arrow_shape(*a, r@),
            a.is_async || a.has_type_params || a.has_rest ==> {
                &&& final(self).diagnostics@ == old(self).diagnostics@.push(final(self).diagnostics@.last())
                &&& final(self).diagnostics@.last().code@ == "E0502"@
                &&& final(self).diagnostics@.last().severity == crate::base::Severity::Error
                &&& final(self).types == old(self).types
                &&& crate::frontend::growth::rest_unchanged(*old(self), *final(self))
            },
            !a.is_async && !a.has_type_params && !a.has_rest && (a.ret is None || exists|i: int|
                0 <= i < a.params@.len() && !arrow_param_ok(#[trigger] a.params@[i])) ==> {
                &&& r@ == ExprV::Unit(a.span)
                &&& final(self).diagnostics@.last().code@ == "E0502"@
                &&& final(self).diagnostics@.last().severity == crate::base::Severity::Error
                &&& crate::frontend::growth::rest_unchanged(*old(self), *final(self))
            },
            arrow_early_ok(*a) ==> exists|b: Seq<StmtV>, ns: Seq<Seq<char>>, n: u32|
                #[trigger] arrow_finished(a.span, b, ns, n, r@, final(self).next_closure_id) && arrow_body_of(*a, b)
                    && ns.to_set() == crate::frontend::scope::all_names(old(scope)@).insert("this"@),
            arrow_early_ok(*a) && r@ is Unit ==> final(self).diagnostics@.last().code@ == "P0005"@,
            r@ is Unit ==> final(self).diagnostics@.len() > old(self).diagnostics@.len()
                && (final(self).diagnostics@.last().code@ == "E0502"@ || final(self).diagnostics@.last().code@ == "P0005"@),
            r@ matches ExprV::Closure { id, params, ty, body, .. } ==> {
                &&& arrow_body_of(*a, body)
                &&& exists|ns: Seq<Seq<char>>| ns.to_set() == crate::frontend::scope::all_names(old(scope)@).insert("this"@)
                    && !crate::hir::search::any_stmts(body, Some(ns), body.len())
                &&& final(self).next_closure_id == (if id.0 == u32::MAX { 0 } else { (id.0 + 1) as u32 })
                &&& crate::frontend::resolve::full_at(final(self).types@, ty) || (ty.0 < final(self).types@.len()
                    && (final(self).types@[ty.0 as int] matches crate::types::TypeV::Fn { params: ps, err, .. }
                    && err is None && ps == params.map_values(|p: ParamV| p.ty)))
            },
        decreases a, 0nat,
    {
        if a.is_async {
            return self.reject_arrow(
                "async arrow functions are not supported in this PR; only synchronous no-capture arrow functions are accepted",
                a.span,
                a.span,
            );
        }
        if a.has_type_params {
            return self.reject_arrow(
                "generic arrow functions (<T>(x: T) => ...) are not supported in this PR",
                a.span,
                a.span,
            );
        }
        if a.has_rest {
            return self.reject_arrow(
                "rest parameters (...args) are not supported in arrow functions in this PR; use plain identifier parameters with explicit type annotations instead",
                a.span,
                a.span,
            );
        }
        let mut params: Vec<HirParam> = Vec::new();
        let mut i: usize = 0;
        while i < a.params.len()
            invariant
                0 <= i <= a.params@.len(),
                self.inv(),
                grew(*old(self), *self),
                crate::frontend::growth::rest_unchanged(*old(self), *self),
                !a.is_async && !a.has_type_params && !a.has_rest,
                params@.len() == i,
                forall|j: int| 0 <= j < i ==> arrow_param_ok(#[trigger] a.params@[j]),
                forall|j: int| 0 <= j < i ==> pattern_name(a.params@[j].pattern) == Some(#[trigger] params@[j].name@),
            decreases a.params@.len() - i,
        {
            let p = &a.params[i];
            if let crate::frontend::ast::BindingPattern::Assign(_, _) = &p.pattern {
                return self.reject_arrow(
                    "default-value arrow parameters (e.g. (x = 1) => ...) are not supported in this PR; use a plain identifier parameter with an explicit type annotation instead",
                    crate::frontend::ast::pattern_span(&p.pattern),
                    a.span,
                );
            }
            let name = match crate::frontend::ast::binding_pattern_name(&p.pattern) {
                Some(n) => n,
                None => {
                    return self.reject_arrow(
                        "destructuring arrow parameters (e.g. ({x}) => ..., ([x]) => ...) are not supported in this PR; use a plain identifier parameter with an explicit type annotation instead",
                        crate::frontend::ast::pattern_span(&p.pattern),
                        a.span,
                    );
                },
            };
            if p.annotation.is_none() {
                return self.reject_arrow(
                    "arrow function parameters require an explicit type annotation in this PR; type inference for closure parameters is not yet implemented",
                    a.span,
                    a.span,
                );
            }
            let ty = self.resolve_ts_type_from_annotation(&p.annotation);
            params.push(HirParam { name, ty });
            i += 1;
        }
        if a.ret.is_none() {
            return self.reject_arrow(
                "arrow function return type must be annotated in this PR; type inference for closure return types is not yet implemented",
                a.span,
                a.span,
            );
        }
        let ret_ty = self.resolve_ts_type_from_annotation(&a.ret);
        let mut outer_locals = scope.names();
        let ghost on = crate::hir::search::names_view(outer_locals@);
        outer_locals.push(String::from_str("this"));
        proof {
            reveal_strlit("this");
            assert(crate::hir::search::names_view(outer_locals@) =~= on.push("this"@));
            on.lemma_push_to_set_commute("this"@);
        }
        let ghost mut b0: Seq<StmtV> = Seq::empty();
        let body: Vec<HirStmt> = if a.expression {
            let mut inner_scope = BodyScope::new(count_u32(params.len()));
            let mut k: usize = 0;
            while k < params.len()
                invariant
                    0 <= k <= params@.len(),
                decreases params@.len() - k,
            {
                inner_scope.declare_param(params[k].name.as_str(), LocalId(count_u32(k)), params[k].ty);
                k += 1;
            }
            let mut stmts = self.walk_stmts(&a.body, &mut inner_scope);
            proof {
                b0 = crate::hir::view::stmts_v(stmts@);
                assert(stmts_lowered(a.body@, b0));
            }
            if stmts.len() > 0 {
                let first_expr = match &stmts[0] {
                    HirStmt::Expr { expr } => Some(expr.clone()),
                    _ => None,
                };
                let ghost s0 = stmts@;
                match first_expr {
                    Some(x) => {
                        stmts.set(0, HirStmt::Return { value: Some(x) });
                        proof {
                            assert(crate::hir::view::stmts_v(stmts@) =~= lead_return(b0)) by {
                                assert(crate::hir::view::stmts_v(s0)[0] == crate::hir::view::stmt_v(s0[0]));
                                assert(s0[0] matches HirStmt::Expr { expr } && expr@ == x@);
                                assert(b0[0] == StmtV::Expr { expr: x@ });
                                assert(lead_return(b0) == b0.update(0, StmtV::Return { value: Some(x@) }));
                                assert forall|k: int| 0 <= k < stmts@.len() implies crate::hir::view::stmts_v(stmts@)[k]
                                    == lead_return(b0)[k] by {
                                    assert(crate::hir::view::stmts_v(stmts@)[k] == crate::hir::view::stmt_v(stmts@[k]));
                                    assert(b0[k] == crate::hir::view::stmt_v(s0[k]));
                                    if k > 0 {
                                        assert(stmts@[k] == s0[k]);
                                        assert(lead_return(b0)[k] == b0[k]);
                                    } else {
                                        assert(stmts@[0] == HirStmt::Return { value: Some(x) });
                                        assert(crate::hir::view::opt_expr_v(Some(x)) == Some(x@));
                                        assert(crate::hir::view::stmt_v(stmts@[0]) == StmtV::Return { value: Some(x@) });
                                        assert(lead_return(b0)[0] == StmtV::Return { value: Some(x@) });
                                    }
                                }
                            }
                        }
                    },
                    None => {
                        proof {
                            assert(crate::hir::view::stmts_v(s0)[0] == crate::hir::view::stmt_v(s0[0]));
                            assert(crate::hir::view::stmts_v(stmts@) =~= lead_return(b0));
                        }
                    },
                }
            } else {
                proof {
                    assert(crate::hir::view::stmts_v(stmts@) =~= lead_return(b0));
                }
            }
            stmts
        } else {
            let v = self.walk_function_body(&a.body, &params, false);
            proof {
                b0 = crate::hir::view::stmts_v(v@);
                assert(stmts_lowered(a.body@, b0));
            }
            v
        };
        proof {
            assert(stmts_lowered(a.body@, b0));
            assert(arrow_body_of(*a, crate::hir::view::stmts_v(body@)));
        }
        proof {
            assert(on.to_set() == crate::frontend::scope::all_names(old(scope)@));
        }
        let ghost bv = crate::hir::view::stmts_v(body@);
        let ghost n = self.next_closure_id;
        let ghost ns = crate::hir::search::names_view(outer_locals@);
        let r = self.finish_arrow(a.span, params, ret_ty, body, &outer_locals);
        proof {
            assert(arrow_finished(a.span, bv, ns, n, r@, self.next_closure_id));
        }
        r
    }

    /// Makes the closure of an arrow function from its lowered parameters,
    /// return type and body, unless the body names a local of the enclosing
    /// body or `this` (`outer_locals`): then a `P0005` error and a unit.
    /// The closure takes the next closure id.
    fn finish_arrow(&mut self, span: Span, params: Vec<HirParam>, ret_ty: TypeId, body: Vec<HirStmt>, outer_locals: &Vec<String>) -> (r: HirExpr)
        requires
            old(self).inv(),
        ensures
            final(self).inv(),
            grew(*old(self), *final(self)),
            arrow_finished(
                span,
                crate::hir::view::stmts_v(body@),
                crate::hir::search::names_view(outer_locals@),
                old(self).next_closure_id,
                r@,
                final(self).next_closure_id,
            ),
            crate::hir::search::any_stmts(crate::hir::view::stmts_v(body@), Some(crate::hir::search::names_view(outer_locals@)), body@.len()) ==> {
                &&& final(self).diagnostics@ == old(self).diagnostics@.push(final(self).diagnostics@.last())
                &&& final(self).diagnostics@.last().severity == crate::base::Severity::Error
                &&& final(self).diagnostics@.last().code@ == "P0005"@
                &&& final(self).types == old(self).types
            },
            !crate::hir::search::any_stmts(crate::hir::view::stmts_v(body@), Some(crate::hir::search::names_view(outer_locals@)), body@.len()) ==> {
                &&& final(self).diagnostics == old(self).diagnostics
                &&& r@ matches ExprV::Closure { params: ps, ty, .. } && ps == crate::hir::view::params_v(params@)
                    && crate::frontend::resolve::names_type(final(self).types@, ty, crate::types::TypeV::Fn {
                    params: ps.map_values(|p: ParamV| p.ty),
                    ret: ret_ty,
                    err: None,
                })
            },
    {
        if crate::hir::search::exprs_reference_outer_local(&body, outer_locals) {
            return self.reject_closure_capture(span);
        }
        let mut param_types: Vec<TypeId> = Vec::new();
        let mut j: usize = 0;
        while j < params.len()
            invariant
                0 <= j <= params@.len(),
                param_types@.len() == j,
                forall|k: int| 0 <= k < j ==> param_types@[k] == #[trigger] params@[k].ty,
            decreases params@.len() - j,
        {
            param_types.push(params[j].ty);
            j += 1;
        }
        let ghost pts = param_types@;
        let fn_ty = self.intern(&Type::Fn { params: param_types, ret: ret_ty, err: None });
        let id = LocalId(self.next_closure_id);
        self.next_closure_id = self.next_closure_id.wrapping_add(1);
        let captures: Vec<HirExpr> = Vec::new();
        proof {
            let pv = crate::hir::view::params_v(params@);
            assert(pts =~= pv.map_values(|p: ParamV| p.ty));
            assert(crate::hir::view::exprs_v(captures@) =~= Seq::<ExprV>::empty());
        }
        HirExpr::Closure { id, params, captures, body, ty: fn_ty, span }
    }

    /// Reports a closure that captures a local of the enclosing body.
    fn reject_closure_capture(&mut self, span: Span) -> (r: HirExpr)
        ensures
            final(self).diagnostics@ == old(self).diagnostics@.push(final(self).diagnostics@.last()),
            final(self).diagnostics@.last().code@ == "P0005"@,
            final(self).diagnostics@.last().severity == crate::base::Severity::Error,
            final(self).types == old(self).types,
            grew(*old(self), *final(self)),
            crate::frontend::growth::rest_unchanged(*old(self), *final(self)),
            r@ == ExprV::Unit(span),
    {
        self.report(
            Diagnostic::error(
                "P0005",
                String::from_str(
                    "capturing closures are not supported in this PR; only no-capture arrow functions are accepted (outer local referenced from arrow body)",
                ),
                span,
            ),
        );
        HirExpr::Unit(span)
    }

    /// Lowers a list of statements in order.
    #[verifier::spinoff_prover]
    pub fn walk_stmts(&mut self, stmts: &Vec<Stmt>, scope: &mut BodyScope) -> (r: Vec<HirStmt>)
        requires
            old(self).inv(),
        ensures
            final(self).inv(),
            grew(*old(self), *final(self)),
            has_yield_stmt(stmts@) && !old(self).is_generator_stack@.last() ==> has_yield_error(final(self).diagnostics@),
            r@.len() == stmts_len(stmts@, stmts@.len() as int),
            forall|j: int| 0 <= j < stmts@.len() ==> stmt_parts(#[trigger] stmts@[j], crate::hir::view::stmts_v(r@), stmts_len(stmts@, j) as int),
        decreases stmts, 3nat,
    {
        let mut out: Vec<HirStmt> = Vec::new();
        let mut i: usize = 0;
        while i < stmts.len()
            invariant
                0 <= i <= stmts@.len(),
                self.inv(),
                grew(*old(self), *self),
                out@.len() == stmts_len(stmts@, i as int),
                forall|j: int| 0 <= j < i ==> stmt_parts(#[trigger] stmts@[j], crate::hir::view::stmts_v(out@), stmts_len(stmts@, j) as int),
                has_yield_stmt(stmts@.subrange(0, i as int)) && !old(self).is_generator_stack@.last()
                    ==> has_yield_error(self.diagnostics@),
            decreases stmts@.len() - i,
        {
            proof {
                assert(decreases_to!(stmts => stmts@[i as int]));
            }
            let ghost d0 = self.diagnostics@;
            let ghost o0 = out@;
            self.walk_stmt(&stmts[i], &mut out, scope);
            proof {
                assert forall|j: int| 0 <= j < i + 1 implies stmt_parts(#[trigger] stmts@[j], crate::hir::view::stmts_v(out@), stmts_len(stmts@, j) as int) by {
                    if j < i {
                        lemma_stmts_len_mono(stmts@, j + 1, i as int);
                        lemma_stmt_parts_ext(stmts@[j], crate::hir::view::stmts_v(o0), crate::hir::view::stmts_v(out@), stmts_len(stmts@, j) as int);
                    }
                }
                if has_yield_stmt(stmts@.subrange(0, i + 1)) && !old(self).is_generator_stack@.last() {
                    let j = choose|j: int| 0 <= j < i + 1 && yield_stmt(#[trigger] stmts@.subrange(0, i + 1)[j]);
                    if j < i {
                        assert(stmts@.subrange(0, i as int)[j] == stmts@.subrange(0, i + 1)[j]);
                        lemma_yield_error_kept(d0, self.diagnostics@);
                    } else {
                        assert(stmts@.subrange(0, i + 1)[j] == stmts@[i as int]);
                    }
                }
            }
            i += 1;
        }
        proof {
            assert(stmts@.subrange(0, stmts@.len() as int) == stmts@);
        }
        out
    }

    /// Lowers a statement that stands as the body of a branch or a loop: one
    /// lowered statement stays as it is, several become a block.
    fn walk_child(&mut self, s: &Stmt, scope: &mut BodyScope) -> (r: Box<HirStmt>)
        requires
            old(self).inv(),
        ensures
            final(self).inv(),
            grew(*old(self), *final(self)),
            pushes_one(*s) ==> lowered_kind(*s, r@),
            lowered_len(*s) == 1 ==> stmt_parts(*s, seq![r@], 0),
            lowered_len(*s) != 1 ==> (r@ matches StmtV::Block(b) && b.len() == lowered_len(*s) && stmt_parts(*s, b, 0)),
        decreases s, 2nat,
    {
        let mut inner: Vec<HirStmt> = Vec::new();
        self.walk_stmt(s, &mut inner, scope);
        let ghost iv = crate::hir::view::stmts_v(inner@);
        if inner.len() == 1 {
            match inner.pop() {
                Some(x) => {
                    proof {
                        assert(iv =~= seq![x@]);
                        if pushes_one(*s) {
                            assert(iv[0] == x@);
                        }
                    }
                    Box::new(x)
                },
                None => Box::new(HirStmt::Block(Vec::new())),
            }
        } else {
            Box::new(HirStmt::Block(inner))
        }
    }

    /// Lowers one statement, appending what it lowers to onto `out`.
    pub fn walk_stmt(&mut self, s: &Stmt, out: &mut Vec<HirStmt>, scope: &mut BodyScope)
        requires
            old(self).inv(),
        ensures
            final(self).inv(),
            grew(*old(self), *final(self)),
            old(out)@.is_prefix_of(final(out)@),
            pushes_one(*s) ==> final(out)@ == old(out)@.push(final(out)@.last()) && lowered_kind(*s, final(out)@.last()@),
            final(out)@.len() == old(out)@.len() + lowered_len(*s),
            stmt_parts(*s, crate::hir::view::stmts_v(final(out)@), old(out)@.len() as int),
            s is Empty ==> *final(self) == *old(self),
            s is Other || s is Import || s is ExportNamed || s is ExportDefault || s is ExportAll || s is ExportAssignment
                || s is NamespaceExport || (s matches Stmt::Decl(d) && !(d is Var)) ==> {
                &&& final(self).diagnostics@ == old(self).diagnostics@.push(final(self).diagnostics@.last())
                &&& final(self).diagnostics@.last().code@ == "E0500"@
                &&& final(self).diagnostics@.last().severity == crate::base::Severity::Warning
                &&& final(self).diagnostics@.last().span == crate::frontend::ast::stmt_span_spec(*s)
                &&& final(self).diagnostics@.last().message@ == "statement form is not supported by the body walker"@
            },
            s is Empty || s is Other || s is Import || s is ExportNamed || s is ExportDefault || s is ExportAll
                || s is ExportAssignment || s is NamespaceExport ==> final(out)@ == old(out)@,
            yield_stmt(*s) && !old(self).is_generator_stack@.last() ==> has_yield_error(final(self).diagnostics@),
        decreases s, 1nat,
    {
        let ghost o0 = out@;
        match s {
            Stmt::Block(b, _) => {
                scope.push();
                let inner = self.walk_stmts(b, scope);
                scope.pop();
                out.push(HirStmt::Block(inner));
            },
            Stmt::Decl(d) => match d {
                Decl::Var(v) => self.walk_var_decl(v, out, scope),
                _ => self.report_unwalked("statement form is not supported by the body walker", decl_span(d)),
            },
            Stmt::Expr(e, _) => {
                let expr = self.walk_expr(e, scope);
                proof {
                    if yield_stmt(*s) && !old(self).is_generator_stack@.last() {
                        let k = self.diagnostics@.len() - 1;
                        assert(self.diagnostics@[k] == self.diagnostics@.last());
                    }
                }
                out.push(HirStmt::Expr { expr });
            },
            Stmt::Return(..) | Stmt::Throw(..) => self.walk_branch_stmt(s, out, scope),
            Stmt::If { .. } => self.walk_if_stmt(s, out, scope),
            Stmt::While { .. } | Stmt::DoWhile { .. } | Stmt::ForOf { .. } | Stmt::ForIn { .. } => self.walk_loop_stmt(s, out, scope),
            Stmt::For { .. } => self.walk_c_for(s, out, scope),
            Stmt::Switch { .. } => self.walk_switch(s, out, scope),
            Stmt::Break { label, span } => {
                if label.is_some() {
                    self.report_unwalked("labeled `break` is not supported by the body walker", *span);
                }
                out.push(HirStmt::Break { label: label_atom(label) });
            },
            Stmt::Continue { label, span } => {
                if label.is_some() {
                    self.report_unwalked("labeled `continue` is not supported by the body walker", *span);
                }
                out.push(HirStmt::Continue { label: label_atom(label) });
            },
            Stmt::Labeled(body, span) => {
                self.report_unwalked("labeled statements are not supported by the body walker", *span);
                self.walk_stmt(body, out, scope);
            },
            Stmt::Empty(_) => {},
            _ => self.report_unwalked("statement form is not supported by the body walker", stmt_span(s)),
        }
        proof {
            assert(o0.is_prefix_of(out@)) by {
                if out@.len() > o0.len() {
                    assert(out@.subrange(0, o0.len() as int) =~= o0);
                } else {
                    assert(out@ =~= o0);
                }
            }
            let sv = crate::hir::view::stmts_v(out@);
            if pushes_one(*s) {
                assert(sv[o0.len() as int] == out@[o0.len() as int]@);
            } else {
                match s {
                    Stmt::Decl(Decl::Var(v)) => {
                        let ds = v.declarations@;
                        assert forall|k: int| 0 <= k < ds.len() && pattern_name(ds[k].id) is Some implies decl_part(
                            #[trigger] ds[k],
                            sv[o0.len() as int + decl_count(ds, k)],
                        ) by {
                            lemma_decl_count_mono(ds, k + 1, ds.len() as int);
                            assert(sv[o0.len() as int + decl_count(ds, k)] == out@[o0.len() as int + decl_count(ds, k)]@);
                        }
                    },
                    _ => {},
                }
            }
        }
    }

    /// Lowers a `return` or a `throw`.
    fn walk_branch_stmt(&mut self, s: &Stmt, out: &mut Vec<HirStmt>, scope: &mut BodyScope)
        requires
            old(self).inv(),
            s is Return || s is Throw,
        ensures
            final(self).inv(),
            grew(*old(self), *final(self)),
            final(out)@ == old(out)@.push(final(out)@.last()),
            lowered_kind(*s, final(out)@.last()@),
        decreases s, 0nat,
    {
        match s {
            Stmt::Return(arg, _) => match arg {
                Some(x) => {
                    let v = self.walk_expr(x, scope);
                    proof {
                        crate::hir::view::lemma_opt_expr_v(Some(v));
                    }
                    out.push(HirStmt::Return { value: Some(v) });
                },
                None => {
                    proof {
                        crate::hir::view::lemma_opt_expr_v(None);
                    }
                    out.push(HirStmt::Return { value: None });
                },
            },
            Stmt::Throw(e, _) => {
                let expr = self.walk_expr(e, scope);
                out.push(HirStmt::Throw { expr });
            },
            _ => out.push(HirStmt::Block(Vec::new())),
        }
    }

    /// Lowers an `if`.
    #[verifier::spinoff_prover]
    fn walk_if_stmt(&mut self, s: &Stmt, out: &mut Vec<HirStmt>, scope: &mut BodyScope)
        requires
            old(self).inv(),
            s is If,
        ensures
            final(self).inv(),
            grew(*old(self), *final(self)),
            final(out)@ == old(out)@.push(final(out)@.last()),
            lowered_kind(*s, final(out)@.last()@),
        decreases s, 0nat,
    {
        match s {
            Stmt::If { test, cons, alt, .. } => {
                let cond = self.walk_expr(test, scope);
                let then = self.walk_child(cons, scope);
                match alt {
                    Some(x) => {
                        let o = self.walk_child(x, scope);
                        proof {
                            assert(crate::hir::view::opt_box_stmt_v(Some(o)) == Some(Box::new(o@)));
                        }
                        out.push(HirStmt::If { cond, then, otherwise: Some(o) });
                    },
                    None => {
                        proof {
                            assert(crate::hir::view::opt_box_stmt_v(None) is None);
                        }
                        out.push(HirStmt::If { cond, then, otherwise: None });
                    },
                }
            },
            _ => out.push(HirStmt::Block(Vec::new())),
        }
    }

    /// Lowers a `while`, a `do ... while`, a `for ... of` or a `for ... in`;
    /// the binding of the last two lives in a frame of its own.
    fn walk_loop_stmt(&mut self, s: &Stmt, out: &mut Vec<HirStmt>, scope: &mut BodyScope)
        requires
            old(self).inv(),
            s is While || s is DoWhile || s is ForOf || s is ForIn,
        ensures
            final(self).inv(),
            grew(*old(self), *final(self)),
            final(out)@ == old(out)@.push(final(out)@.last()),
            lowered_kind(*s, final(out)@.last()@),
        decreases s, 0nat,
    {
        match s {
            Stmt::While { test, body, .. } => {
                let cond = self.walk_expr(test, scope);
                let b = self.walk_child(body, scope);
                out.push(HirStmt::While { cond, body: b });
            },
            Stmt::DoWhile { body, test, .. } => {
                let b = self.walk_child(body, scope);
                let cond = self.walk_expr(test, scope);
                out.push(HirStmt::DoWhile { body: b, cond });
            },
            Stmt::ForOf { left, right, body, .. } => {
                let iter = self.walk_expr(right, scope);
                scope.push();
                let binding = self.for_binding(left, scope);
                let b = self.walk_child(body, scope);
                scope.pop();
                out.push(HirStmt::ForOf { binding, iter, body: b });
            },
            Stmt::ForIn { left, right, body, .. } => {
                let iter = self.walk_expr(right, scope);
                scope.push();
                let binding = self.for_binding(left, scope);
                let b = self.walk_child(body, scope);
                scope.pop();
                out.push(HirStmt::ForIn { binding, iter, body: b });
            },
            _ => out.push(HirStmt::Block(Vec::new())),
        }
    }

    /// Lowers a `switch`; its cases share one nested frame.
    #[verifier::loop_isolation(false)]
    fn walk_switch(&mut self, s: &Stmt, out: &mut Vec<HirStmt>, scope: &mut BodyScope)
        requires
            old(self).inv(),
            s is Switch,
        ensures
            final(self).inv(),
            grew(*old(self), *final(self)),
            final(out)@ == old(out)@.push(final(out)@.last()),
            lowered_kind(*s, final(out)@.last()@),
        decreases s, 0nat,
    {
        match s {
            Stmt::Switch { disc, cases, .. } => {
                let d = self.walk_expr(disc, scope);
                scope.push();
                let mut hcases: Vec<crate::hir::stmt::HirSwitchCase> = Vec::new();
                let mut i: usize = 0;
                while i < cases.len()
                    invariant
                        0 <= i <= cases@.len(),
                        self.inv(),
                        grew(*old(self), *self),
                        hcases@.len() == i,
                    decreases cases@.len() - i,
                {
                    proof {
                        assert(decreases_to!(s => cases));
                        assert(decreases_to!(cases => cases@));
                        assert(decreases_to!(cases@ => cases@[i as int]));
                    }
                    let test = match &cases[i].test {
                        Some(t) => Some(self.walk_expr(t, scope)),
                        None => None,
                    };
                    let body = self.walk_stmts(&cases[i].body, scope);
                    hcases.push(crate::hir::stmt::HirSwitchCase { test, body });
                    i += 1;
                }
                scope.pop();
                proof {
                    assert(crate::hir::view::cases_v(hcases@).len() == cases@.len());
                }
                out.push(HirStmt::Switch { disc: d, cases: hcases });
            },
            _ => out.push(HirStmt::Switch { disc: HirExpr::Unit(Span::new(0, 0)), cases: Vec::new() }),
        }
    }

    /// Lowers the declarators of a `var`/`let`/`const` declaration to
    /// `let` statements; a destructuring declarator is reported and left out.
    #[verifier::spinoff_prover]
    #[verifier::rlimit(40)]
    fn walk_var_decl(&mut self, v: &VarDecl, out: &mut Vec<HirStmt>, scope: &mut BodyScope)
        requires
            old(self).inv(),
        ensures
            final(self).inv(),
            grew(*old(self), *final(self)),
            old(out)@.is_prefix_of(final(out)@),
            final(out)@.len() == old(out)@.len() + decl_count(v.declarations@, v.declarations@.len() as int),
            forall|k: int| 0 <= k < v.declarations@.len() && pattern_name(v.declarations@[k].id) is Some ==> decl_part(
                #[trigger] v.declarations@[k],
                final(out)@[old(out)@.len() as int + decl_count(v.declarations@, k)]@,
            ),
        decreases v, 0nat,
    {
        let ghost ds = v.declarations@;
        let mut i: usize = 0;
        while i < v.declarations.len()
            invariant
                0 <= i <= v.declarations@.len(),
                ds == v.declarations@,
                self.inv(),
                grew(*old(self), *self),
                old(out)@.is_prefix_of(out@),
                out@.len() == old(out)@.len() + decl_count(ds, i as int),
                forall|k: int| 0 <= k < i && pattern_name(ds[k].id) is Some ==> decl_part(
                    #[trigger] ds[k],
                    out@[old(out)@.len() as int + decl_count(ds, k)]@,
                ),
            decreases v.declarations@.len() - i,
        {
            let ghost o0 = out@;
            proof {
                assert(decreases_to!(v => v.declarations@[i as int]));
            }
            let d = &v.declarations[i];
            let init = match &d.init {
                Some(x) => {
                    let y = self.walk_expr(x, scope);
                    Some(y)
                },
                None => None,
            };
            proof {
                crate::hir::view::lemma_opt_expr_v(init);
            }
            match binding_pattern_name(&d.id) {
                Some(name) => {
                    let ty = self.resolve_ts_type_from_annotation(&d.annotation);
                    let id = scope.declare(name.as_str(), ty);
                    let ghost o1 = out@;
                    out.push(HirStmt::Let { id, name, ty, init });
                    proof {
                        assert(out@.subrange(0, old(out)@.len() as int) =~= o1.subrange(0, old(out)@.len() as int));
                        assert(decl_part(ds[i as int], out@[old(out)@.len() as int + decl_count(ds, i as int)]@));
                    }
                },
                None => {
                    self.report_unwalked("destructuring binding is not supported by the body walker", d.span);
                },
            }
            proof {
                assert forall|k: int| 0 <= k < i + 1 && pattern_name(ds[k].id) is Some implies decl_part(
                    #[trigger] ds[k],
                    out@[old(out)@.len() as int + decl_count(ds, k)]@,
                ) by {
                    if k < i {
                        lemma_decl_count_mono(ds, k + 1, i as int);
                        assert(out@[old(out)@.len() as int + decl_count(ds, k)] == o0[old(out)@.len() as int + decl_count(ds, k)]);
                    }
                }
            }
            i += 1;
        }
    }

    /// Lowers a C-style `for` to a block: the initializer, then a `while`
    /// whose body ends with the update, which also runs before every
    /// `continue` of the body.
    #[verifier::spinoff_prover]
    #[verifier::rlimit(30)]
    fn walk_c_for(&mut self, s: &Stmt, out: &mut Vec<HirStmt>, scope: &mut BodyScope)
        requires
            old(self).inv(),
            s is For,
        ensures
            final(self).inv(),
            grew(*old(self), *final(self)),
            final(out)@ == old(out)@.push(final(out)@.last()),
            lowered_kind(*s, final(out)@.last()@),
        decreases s, 0nat,
    {
        match s {
            Stmt::For { init, test, update, body, .. } => {
                scope.push();
                let mut block: Vec<HirStmt> = Vec::new();
                match init {
                    Some(ForInit::Var(v)) => self.walk_var_decl(v, &mut block, scope),
                    Some(ForInit::Expr(e)) => {
                        let expr = self.walk_expr(e, scope);
                        block.push(HirStmt::Expr { expr });
                    },
                    None => {},
                }
                let cond = match test {
                    Some(e) => self.walk_expr(e, scope),
                    None => {
                        let c = HirExpr::Bool(true, Span::new(0, 0));
                        proof {
                            assert(c@ == ExprV::Bool(true, Span { start: 0, end: 0 }));
                        }
                        c
                    },
                };
                let mut loop_body: Vec<HirStmt> = Vec::new();
                self.walk_stmt(body, &mut loop_body, scope);
                let ghost raw = crate::hir::view::stmts_v(loop_body@);
                match update {
                    Some(u) => {
                        let expr = self.walk_expr(u, scope);
                        crate::frontend::inject::inject_update_before_continue(&mut loop_body, &expr);
                        let ghost injected = crate::hir::view::stmts_v(loop_body@);
                        loop_body.push(HirStmt::Expr { expr });
                        proof {
                            assert(crate::hir::view::stmts_v(loop_body@).drop_last() =~= injected);
                            assert(crate::hir::view::stmts_v(loop_body@).last() == StmtV::Expr { expr: expr@ });
                        }
                    },
                    None => {},
                }
                let ghost bv = crate::hir::view::stmts_v(block@);
                proof {
                    match init {
                        Some(ForInit::Var(v)) => {
                            let ds = v.declarations@;
                            assert forall|k: int| 0 <= k < ds.len() && pattern_name(ds[k].id) is Some implies decl_part(
                                #[trigger] ds[k],
                                bv[decl_count(ds, k) as int],
                            ) by {
                                lemma_decl_count_mono(ds, k + 1, ds.len() as int);
                                assert(bv[decl_count(ds, k) as int] == block@[decl_count(ds, k) as int]@);
                            }
                        },
                        Some(ForInit::Expr(_)) => {
                            assert(bv[0] == block@[0]@);
                        },
                        None => {},
                    }
                    assert(for_init_parts(*init, bv));
                }
                let ghost lbv = crate::hir::view::stmts_v(loop_body@);
                let ghost cv = cond@;
                let inner = HirStmt::Block(loop_body);
                proof {
                    assert(inner@ == StmtV::Block(lbv));
                }
                let w = HirStmt::While { cond, body: Box::new(inner) };
                proof {
                    assert(w@ == StmtV::While { cond: cv, body: Box::new(StmtV::Block(lbv)) });
                }
                block.push(w);
                proof {
                    assert(crate::hir::view::stmts_v(block@).last() == crate::hir::view::stmt_v(w));
                    assert(crate::hir::view::stmts_v(block@).drop_last() =~= bv);
                }
                scope.pop();
                out.push(HirStmt::Block(block));
                proof {
                    reveal(for_shape);
                    assert(for_shape(*init, *test, *update, **body, out@.last()@));
                }
            },
            _ => {
                let mut block: Vec<HirStmt> = Vec::new();
                block.push(HirStmt::While { cond: HirExpr::Bool(true, Span::new(0, 0)), body: Box::new(HirStmt::Block(Vec::new())) });
                out.push(HirStmt::Block(block));
            },
        }
    }

    /// The local that a `for ... of` / `for ... in` loop binds: a simple
    /// declared name, a simple assigned name, or else `_` after a warning.
    fn for_binding(&mut self, left: &ForLeft, scope: &mut BodyScope) -> (id: LocalId)
        requires
            old(self).types.wf(),
        ensures
            final(self).types.wf(),
            grew(*old(self), *final(self)),
    {
        match left {
            ForLeft::Var(v) => {
                if v.declarations.len() > 0 {
                    match binding_pattern_name(&v.declarations[0].id) {
                        Some(name) => {
                            let ty = self.resolve_ts_type_from_annotation(&v.declarations[0].annotation);
                            return scope.declare(name.as_str(), ty);
                        },
                        None => {},
                    }
                }
            },
            ForLeft::Target(t, _) => {
                if let AssignTarget::Simple(SimpleTarget::Ident(name, _)) = t {
                    let ty = self.error_ty();
                    return scope.declare(name.as_str(), ty);
                }
            },
        }
        let span = match left {
            ForLeft::Var(v) => v.span,
            ForLeft::Target(_, sp) => *sp,
        };
        self.report_unwalked("loop binding must be a simple `let`/`const` identifier", span);
        let ty = self.error_ty();
        scope.declare("_", ty)
    }

    /// Lowers a function body: its parameters take the first local ids, the
    /// names declared in the body are predeclared, and the statements are
    /// lowered with the function's kind on the stack.
    pub fn walk_function_body(&mut self, body: &Vec<Stmt>, params: &Vec<HirParam>, is_generator: bool) -> (r: Vec<HirStmt>)
        requires
            old(self).types.wf(),
        ensures
            final(self).types.wf(),
            grew(*old(self), *final(self)),
            has_yield_stmt(body@) && !is_generator ==> has_yield_error(final(self).diagnostics@),
            r@.len() == stmts_len(body@, body@.len() as int),
            forall|j: int| 0 <= j < body@.len() ==> stmt_parts(#[trigger] body@[j], crate::hir::view::stmts_v(r@), stmts_len(body@, j) as int),
        decreases body, 5nat,
    {
        let ghost s0 = *self;
        self.is_generator_stack.push(is_generator);
        let mut scope = BodyScope::new(count_u32(params.len()));
        let mut i: usize = 0;
        while i < params.len()
            invariant
                0 <= i <= params@.len(),
            decreases params@.len() - i,
        {
            scope.declare_param(params[i].name.as_str(), LocalId(count_u32(i)), params[i].ty);
            i += 1;
        }
        let ghost s1 = *self;
        proof {
            assert(self.inv());
        }
        let result = self.walk_block_with_predeclare(body, &mut scope);
        self.is_generator_stack.pop();
        proof {
            assert(self.is_generator_stack@ =~= s0.is_generator_stack@);
            assert(grew(s1, *self) ==> s0.types@.is_prefix_of(self.types@));
        }
        result
    }

    /// Predeclares the names that the statements declare, then lowers them.
    pub fn walk_block_with_predeclare(&mut self, stmts: &Vec<Stmt>, scope: &mut BodyScope) -> (r: Vec<HirStmt>)
        requires
            old(self).inv(),
        ensures
            final(self).inv(),
            grew(*old(self), *final(self)),
            has_yield_stmt(stmts@) && !old(self).is_generator_stack@.last() ==> has_yield_error(final(self).diagnostics@),
            r@.len() == stmts_len(stmts@, stmts@.len() as int),
            forall|j: int| 0 <= j < stmts@.len() ==> stmt_parts(#[trigger] stmts@[j], crate::hir::view::stmts_v(r@), stmts_len(stmts@, j) as int),
        decreases stmts, 4nat,
    {
        let err = self.error_ty();
        predeclare_forward_declarations(stmts, scope, err);
        self.walk_stmts(stmts, scope)
    }

    /// Lowers a function declaration to a HIR function.
    pub fn build_function(&mut self, f: &Function, is_exported: bool) -> (r: HirFunction)
        requires
            old(self).types.wf(),
        ensures
            final(self).types.wf(),
            grew(*old(self), *final(self)),
            r.name@ == (match f.id {
                Some(n) => n@,
                None => Seq::empty(),
            }),
            r.params@.len() == f.params@.len(),
            r.type_params@.len() == f.type_params@.len(),
            r.is_async == f.is_async,
            r.is_generator == f.is_generator,
            r.is_exported == is_exported,
            r.throws is None,
            forall|i: int| 0 <= i < f.params@.len() ==> #[trigger] r.params@[i].name@ == param_name(f.params@[i]),
            body_lowered(f.body, r.body@),
            f.body matches Some(b) ==> (has_yield_stmt(b@) && !f.is_generator ==> has_yield_error(final(self).diagnostics@)),
            match f.ret {
                Some(t) => match crate::frontend::resolve::banned_spec(t) {
                    Some(n) => {
                        &&& crate::frontend::resolve::names_type(final(self).types@, r.ret, crate::types::TypeV::Error)
                        &&& crate::frontend::typing::has_banned_error(final(self).diagnostics@, n)
                    },
                    None => true,
                },
                None => true,
            },
    {
        let name = match &f.id {
            Some(n) => string_clone(n),
            None => String::new(),
        };
        let ghost s0 = *self;
        let (type_param_ids, type_param_map) = crate::frontend::typing::build_type_param_context(
            &mut self.types,
            &mut self.next_generic_param,
            &f.type_params,
        );
        proof {
            lemma_grew_same_decls(s0, *self);
        }
        let params = self.build_params(&f.params, None, &type_param_map);
        let ret = self.resolve_ts_type_from_annotation_with_params(&f.ret, Some(&type_param_map));
        let ghost s1 = *self;
        let body = self.walk_fn_body_with_params(&f.body, &params, f.is_generator, &type_param_map);
        proof {
            match &f.ret {
                Some(t) => match crate::frontend::resolve::banned_spec(*t) {
                    Some(n) => {
                        let i = s1.diagnostics@.len() - 1;
                        assert(self.diagnostics@.subrange(0, s1.diagnostics@.len() as int)[i] == self.diagnostics@[i]);
                        assert(s1.diagnostics@[i] == self.diagnostics@[i]);
                        lemma_names_keep(s1.types@, self.types@, ret);
                    },
                    None => {},
                },
                None => {},
            }
        }
        HirFunction {
            name,
            params,
            ret,
            throws: None,
            body,
            is_async: f.is_async,
            is_generator: f.is_generator,
            is_exported,
            type_params: type_param_ids,
        }
    }

    /// The HIR parameters of a function: `this` first when `this_ty` is
    /// given, then one per declared parameter (`_` when it destructures).
    fn build_params(&mut self, ps: &Vec<crate::frontend::ast::Param>, this_ty: Option<TypeId>, map: &TypeParamMap) -> (r: Vec<HirParam>)
        requires
            old(self).types.wf(),
        ensures
            final(self).types.wf(),
            grew(*old(self), *final(self)),
            r@.len() == ps@.len() + (if this_ty is Some { 1int } else { 0int }),
            this_ty matches Some(t) ==> r@[0].ty == t && r@[0].name@ == "this"@,
            forall|i: int| 0 <= i < ps@.len() ==> r@[i + (if this_ty is Some { 1int } else { 0int })].name@
                == param_name(#[trigger] ps@[i]),
    {
        let mut params: Vec<HirParam> = Vec::new();
        match this_ty {
            Some(t) => params.push(HirParam { name: String::from_str("this"), ty: t }),
            None => {},
        }
        let ghost base = params@.len();
        let mut i: usize = 0;
        while i < ps.len()
            invariant
                0 <= i <= ps@.len(),
                self.types.wf(),
                grew(*old(self), *self),
                params@.len() == base + i,
                base == (if this_ty is Some { 1int } else { 0int }),
                this_ty matches Some(t) ==> params@[0].ty == t && params@[0].name@ == "this"@,
                forall|k: int| 0 <= k < i ==> params@[k + base].name@ == param_name(#[trigger] ps@[k]),
            decreases ps@.len() - i,
        {
            let name = match binding_pattern_name(&ps[i].pattern) {
                Some(n) => n,
                None => String::from_str("_"),
            };
            proof {
                assert(name@ == param_name(ps@[i as int]));
            }
            let ty = self.resolve_ts_type_from_annotation_with_params(&ps[i].annotation, Some(map));
            params.push(HirParam { name, ty });
            i += 1;
        }
        params
    }

    /// Walks a function body (an absent body lowers to no statements) with
    /// `map`'s generic parameters in scope.
    fn walk_fn_body_with_params(
        &mut self,
        body: &Option<Vec<Stmt>>,
        params: &Vec<HirParam>,
        is_generator: bool,
        map: &TypeParamMap,
    ) -> (r: Vec<HirStmt>)
        requires
            old(self).types.wf(),
        ensures
            final(self).types.wf(),
            grew(*old(self), *final(self)),
            *body matches Some(b) ==> (has_yield_stmt(b@) && !is_generator ==> has_yield_error(final(self).diagnostics@)),
            body_lowered(*body, r@),
        decreases body, 6nat,
    {
        match body {
            Some(b) => {
                let mut copy = TypeParamMap::new();
                copy.bind_all(map);
                self.type_param_stack.push(copy);
                let r = self.walk_function_body(b, params, is_generator);
                self.type_param_stack.pop();
                r
            },
            None => Vec::new(),
        }
    }

    /// Lowers a class declaration: its fields with their annotated types,
    /// its methods, and the name it extends.
    pub fn build_class(&mut self, c: &crate::frontend::ast::Class, is_exported: bool) -> (r: HirClass)
        requires
            old(self).types.wf(),
        ensures
            final(self).types.wf(),
            grew(*old(self), *final(self)),
            r.name@ == (match c.id {
                Some(n) => n@,
                None => Seq::empty(),
            }),
            r.type_params@.len() == c.type_params@.len(),
            crate::frontend::resolve::names_type(final(self).types@, r.ty, crate::types::TypeV::Error),
            r.fields@.map_values(|f: HirField| f.name@) == field_names(c.members@, c.members@.len()),
            r.methods@.map_values(|f: HirFunction| f.name@) == method_names(c.members@, c.members@.len()),
            match c.super_class {
                Some(e) => crate::hir::view::opt_str_v(r.extends) == extends_spec(*e),
                None => r.extends is None,
            },
        decreases c, 0nat,
    {
        let name = match &c.id {
            Some(n) => string_clone(n),
            None => String::new(),
        };
        let ty = self.intern(&Type::Error);
        let ghost s0 = *self;
        let (class_type_param_ids, class_map) = crate::frontend::typing::build_type_param_context(
            &mut self.types,
            &mut self.next_generic_param,
            &c.type_params,
        );
        proof {
            lemma_grew_same_decls(s0, *self);
        }
        let mut fields: Vec<HirField> = Vec::new();
        let mut i: usize = 0;
        proof {
            assert(fields@.map_values(|f: HirField| f.name@) =~= Seq::<Seq<char>>::empty());
        }
        while i < c.members.len()
            invariant
                0 <= i <= c.members@.len(),
                self.types.wf(),
                grew(*old(self), *self),
                crate::frontend::resolve::names_type(self.types@, ty, crate::types::TypeV::Error),
                fields@.map_values(|f: HirField| f.name@) == field_names(c.members@, i as nat),
            decreases c.members@.len() - i,
        {
            let ghost f0 = fields@;
            match &c.members[i] {
                ClassMember::Property { key, annotation } => {
                    let field_name = match key {
                        Some(k) => string_clone(k),
                        None => String::new(),
                    };
                    let ghost t0 = self.types@;
                    let field_ty = self.resolve_ts_type_from_annotation_with_params(annotation, Some(&class_map));
                    proof {
                        lemma_names_keep(t0, self.types@, ty);
                    }
                    fields.push(HirField { name: field_name, ty: field_ty });
                },
                _ => {},
            }
            proof {
                assert(fields@.map_values(|f: HirField| f.name@) =~= field_names(c.members@, (i + 1) as nat)) by {
                    if fields@.len() > f0.len() {
                        assert(fields@ == f0.push(fields@.last()));
                    } else {
                        assert(fields@ == f0);
                    }
                }
            }
            i += 1;
        }
        let mut methods: Vec<HirFunction> = Vec::new();
        let mut j: usize = 0;
        while j < c.members.len()
            invariant
                0 <= j <= c.members@.len(),
                self.types.wf(),
                grew(*old(self), *self),
                crate::frontend::resolve::names_type(self.types@, ty, crate::types::TypeV::Error),
                methods@.map_values(|f: HirFunction| f.name@) == method_names(c.members@, j as nat),
                fields@.map_values(|f: HirField| f.name@) == field_names(c.members@, c.members@.len()),
            decreases c.members@.len() - j,
        {
            let ghost m0 = methods@;
            proof {
                assert(decreases_to!(c => c.members@[j as int]));
            }
            match &c.members[j] {
                ClassMember::Method { .. } => {
                    let ghost t0 = self.types@;
                    match self.build_method(&c.members[j], ty, &class_map) {
                        Some(m) => methods.push(m),
                        None => {},
                    }
                    proof {
                        lemma_names_keep(t0, self.types@, ty);
                    }
                },
                _ => {},
            }
            proof {
                assert(methods@.map_values(|f: HirFunction| f.name@) =~= method_names(c.members@, (j + 1) as nat)) by {
                    if methods@.len() > m0.len() {
                        assert(methods@ == m0.push(methods@.last()));
                    } else {
                        assert(methods@ == m0);
                    }
                }
            }
            j += 1;
        }
        let extends = match &c.super_class {
            Some(e) => self.resolve_superclass_name(e),
            None => None,
        };
        HirClass { name, ty, fields, methods, extends, type_params: class_type_param_ids }
    }

    /// The name a class extends: an identifier, or the property of a
    /// member access; any other expression is an `E0300` error.
    pub fn resolve_superclass_name(&mut self, e: &Expr) -> (r: Option<String>)
        ensures
            final(self).types == old(self).types,
            grew(*old(self), *final(self)),
            crate::hir::view::opt_str_v(r) == extends_spec(*e),
            r is None ==> final(self).diagnostics@.last().code@ == "E0300"@,
    {
        match e {
            Expr::Ident(n, _) => Some(string_clone(n)),
            Expr::Member(Member::Static { property, .. }) => Some(string_clone(property)),
            _ => {
                self.report_unsupported(
                    "E0300",
                    "extends must be an identifier or member access expression",
                    crate::frontend::ast::expr_node_span(e),
                );
                None
            },
        }
    }

    /// Lowers a class method. A static method or an accessor is an `E0300`
    /// error and gives `None`; a method takes `this` of the class type as
    /// its first parameter, and sees the class's and its own generic
    /// parameters, its own winning.
    fn build_method(&mut self, m: &ClassMember, class_ty: TypeId, class_map: &TypeParamMap) -> (r: Option<HirFunction>)
        requires
            old(self).types.wf(),
            m is Method,
        ensures
            final(self).types.wf(),
            grew(*old(self), *final(self)),
            *m matches ClassMember::Method { key, is_static, kind, value, .. } ==> {
                &&& (r is None) == (is_static || kind is Getter || kind is Setter)
                &&& r matches Some(f) ==> f.params@.len() == value.params@.len() + 1 && f.params@[0].ty == class_ty
                    && f.params@[0].name@ == "this"@ && !f.is_exported && f.is_async == value.is_async
                    && f.is_generator == value.is_generator && f.name@ == (match key {
                    Some(k) => k@,
                    None => Seq::empty(),
                }) && (forall|i: int| 0 <= i < value.params@.len() ==> f.params@[i + 1].name@ == param_name(
                    #[trigger] value.params@[i],
                )) && body_lowered(value.body, f.body@)
            },
            *m matches ClassMember::Method { is_static, kind, span, .. } ==> ((is_static || kind is Getter || kind is Setter) ==> {
                &&& final(self).diagnostics@ == old(self).diagnostics@.push(final(self).diagnostics@.last())
                &&& final(self).diagnostics@.last().code@ == "E0300"@
                &&& final(self).diagnostics@.last().severity == crate::base::Severity::Error
                &&& final(self).diagnostics@.last().span == span
                &&& final(self).diagnostics@.last().message@ == (if is_static {
                    "static class methods are not supported by the foundation pass"@
                } else {
                    "accessor class methods (get/set) are not supported by the foundation pass"@
                })
                &&& final(self).types == old(self).types
                &&& crate::frontend::growth::rest_unchanged(*old(self), *final(self))
            }),
        decreases m, 0nat,
    {
        match m {
            ClassMember::Method { key, kind, is_static, value, span } => {
                if *is_static {
                    self.report_unsupported(
                        "E0300",
                        "static class methods are not supported by the foundation pass",
                        *span,
                    );
                    return None;
                }
                match kind {
                    MethodKind::Getter | MethodKind::Setter => {
                        self.report_unsupported(
                            "E0300",
                            "accessor class methods (get/set) are not supported by the foundation pass",
                            *span,
                        );
                        return None;
                    },
                    _ => {},
                }
                let method_name = match key {
                    Some(k) => string_clone(k),
                    None => String::new(),
                };
                let ghost s0 = *self;
                let (method_type_param_ids, method_map) = crate::frontend::typing::build_type_param_context(
                    &mut self.types,
                    &mut self.next_generic_param,
                    &value.type_params,
                );
                proof {
                    lemma_grew_same_decls(s0, *self);
                }
                let mut combined = TypeParamMap::new();
                combined.bind_all(class_map);
                combined.bind_all(&method_map);
                let params = self.build_params(&value.params, Some(class_ty), &combined);
                let ret = self.resolve_ts_type_from_annotation_with_params(&value.ret, Some(&combined));
                let body = self.walk_fn_body_with_params(&value.body, &params, value.is_generator, &combined);
                Some(HirFunction {
                    name: method_name,
                    params,
                    ret,
                    throws: None,
                    body,
                    is_async: value.is_async,
                    is_generator: value.is_generator,
                    is_exported: false,
                    type_params: method_type_param_ids,
                })
            },
            _ => None,
        }
    }
}

/// Whether an arrow function's parameter is lowered: a plain identifier
/// with a type annotation.
pub open spec fn arrow_param_ok(p: crate::frontend::ast::Param) -> bool {
    p.pattern is Ident && p.annotation is Some
}

/// The names of the fields that the first `n` members of a class
/// declare, in order (a field without a static name has the empty name).
pub open spec fn field_names(ms: Seq<ClassMember>, n: nat) -> Seq<Seq<char>>
    decreases n,
{
    if n == 0 || n > ms.len() {
        Seq::empty()
    } else {
        field_names(ms, (n - 1) as nat) + match ms[n - 1] {
            ClassMember::Property { key, .. } => seq![
                match key {
                    Some(k) => k@,
                    None => Seq::empty(),
                },
            ],
            _ => Seq::empty(),
        }
    }
}

/// The names of the methods that the first `n` members of a class lower
/// to, in order: static methods and accessors are left out.
pub open spec fn method_names(ms: Seq<ClassMember>, n: nat) -> Seq<Seq<char>>
    decreases n,
{
    if n == 0 || n > ms.len() {
        Seq::empty()
    } else {
        method_names(ms, (n - 1) as nat) + match ms[n - 1] {
            ClassMember::Method { key, kind, is_static, .. } => if is_static || kind is Getter || kind is Setter {
                Seq::empty()
            } else {
                seq![
                    match key {
                        Some(k) => k@,
                        None => Seq::empty(),
                    },
                ]
            },
            _ => Seq::empty(),
        }
    }
}

/// The name a class extends, when its superclass expression names one.
pub open spec fn extends_spec(e: Expr) -> Option<Seq<char>> {
    match e {
        Expr::Ident(n, _) => Some(n@),
        Expr::Member(Member::Static { property, .. }) => Some(property@),
        _ => None,
    }
}

/// A table that grew keeps naming what it named.
pub proof fn lemma_names_keep(t0: Seq<crate::types::TypeV>, t1: Seq<crate::types::TypeV>, id: TypeId)
    requires
        t0.is_prefix_of(t1),
        t1.len() <= u32::MAX,
        crate::frontend::resolve::names_type(t0, id, crate::types::TypeV::Error),
    ensures
        crate::frontend::resolve::names_type(t1, id, crate::types::TypeV::Error),
{
    if id.0 < t0.len() {
        assert(t1[id.0 as int] == t0[id.0 as int]);
    }
}

/// Predeclares, with the error type, the names that the declarations among
/// `stmts` bind, so that a function can be called before its declaration.
fn predeclare_forward_declarations(stmts: &Vec<Stmt>, scope: &mut BodyScope, error_ty: TypeId) {
    let mut i: usize = 0;
    while i < stmts.len()
        decreases stmts@.len() - i,
    {
        match &stmts[i] {
            Stmt::Decl(d) => predeclare_in_decl(d, scope, error_ty),
            _ => {},
        }
        i += 1;
    }
}

/// Predeclares the name of a function declaration, or the names bound by
/// the declarators of a variable declaration.
fn predeclare_in_decl(d: &Decl, scope: &mut BodyScope, error_ty: TypeId) {
    match d {
        Decl::Function(f) => match &f.id {
            Some(n) => scope.predeclare(n.as_str(), error_ty),
            None => {},
        },
        Decl::Var(v) => {
            let mut i: usize = 0;
            while i < v.declarations.len()
                decreases v.declarations@.len() - i,
            {
                predeclare_binding_pattern(&v.declarations[i].id, scope, error_ty);
                i += 1;
            }
        },
        _ => {},
    }
}

/// Predeclares every identifier that a binding pattern binds.
#[verifier::loop_isolation(false)]
fn predeclare_binding_pattern(p: &BindingPattern, scope: &mut BodyScope, error_ty: TypeId)
    decreases p,
{
    match p {
        BindingPattern::Ident(n, _) => scope.predeclare(n.as_str(), error_ty),
        BindingPattern::Assign(left, _) => predeclare_binding_pattern(left, scope, error_ty),
        BindingPattern::Object { props, rest, .. } => {
            let mut i: usize = 0;
            while i < props.len()
                decreases props@.len() - i,
            {
                proof {
                    assert(decreases_to!(p => props));
                    assert(decreases_to!(props => props@));
                    assert(decreases_to!(props@ => props@[i as int]));
                }
                predeclare_binding_pattern(&props[i], scope, error_ty);
                i += 1;
            }
            match rest {
                Some(r) => predeclare_binding_pattern(r, scope, error_ty),
                None => {},
            }
        },
        BindingPattern::Array { elements, rest, .. } => {
            let mut i: usize = 0;
            while i < elements.len()
                decreases elements@.len() - i,
            {
                proof {
                    assert(decreases_to!(p => elements));
                    assert(decreases_to!(elements => elements@));
                    assert(decreases_to!(elements@ => elements@[i as int]));
                }
                match &elements[i] {
                    Some(x) => predeclare_binding_pattern(x, scope, error_ty),
                    None => {},
                }
                i += 1;
            }
            match rest {
                Some(r) => predeclare_binding_pattern(r, scope, error_ty),
                None => {},
            }
        },
    }
}

} // verus!
