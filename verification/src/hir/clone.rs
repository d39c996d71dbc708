//! Deep copies of HIR trees; each copy has the same view as the original.
use vstd::prelude::*;
use crate::base::{FieldId, GenericParamId};
use crate::hir::decl::{HirClass, HirDecl, HirEnumVariant, HirField, HirFunction, HirParam};
use crate::hir::expr::{HirCallee, HirExpr, ObjectLiteralField};
use crate::hir::stmt::{HirCatchClause, HirStmt, HirSwitchCase};
use crate::hir::view::{case_v, cases_v, decl_v, decls_v, expr_v, exprs_v, func_v, funcs_v, hfield_v, hfields_v, ofield_v, ofields_v, opt_box_expr_v, opt_box_stmt_v, opt_catch_v, opt_expr_v, opt_str_v, opt_strs_v, param_v, params_v, sfield_v, sfields_v, stmt_v, stmts_v, variant_v, variants_v};
use crate::text::string_clone;
use crate::types::clone_ids;

verus! {

proof fn lemma_exprs_v(a: Seq<HirExpr>, b: Seq<HirExpr>)
    requires
        a.len() == b.len(),
        forall|j: int| 0 <= j < a.len() ==> expr_v(#[trigger] a[j]) == expr_v(b[j]),
    ensures
        exprs_v(a) == exprs_v(b),
{
    assert(exprs_v(a) =~= exprs_v(b));
}

proof fn lemma_stmts_v(a: Seq<HirStmt>, b: Seq<HirStmt>)
    requires
        a.len() == b.len(),
        forall|j: int| 0 <= j < a.len() ==> stmt_v(#[trigger] a[j]) == stmt_v(b[j]),
    ensures
        stmts_v(a) == stmts_v(b),
{
    assert(stmts_v(a) =~= stmts_v(b));
}

fn clone_gparams(v: &Vec<GenericParamId>) -> (r: Vec<GenericParamId>)
    ensures
        r@ == v@,
{
    let mut out: Vec<GenericParamId> = Vec::new();
    let mut i: usize = 0;
    while i < v.len()
        invariant
            0 <= i <= v@.len(),
            out@ == v@.subrange(0, i as int),
        decreases v@.len() - i,
    {
        out.push(v[i]);
        i += 1;
    }
    proof {
        assert(out@ == v@);
    }
    out
}

fn clone_opt_string(o: &Option<String>) -> (r: Option<String>)
    ensures
        opt_str_v(r) == opt_str_v(*o),
{
    match o {
        Some(s) => Some(string_clone(s)),
        None => None,
    }
}

fn clone_opt_strs(v: &Vec<Option<String>>) -> (r: Vec<Option<String>>)
    ensures
        opt_strs_v(r@) == opt_strs_v(v@),
{
    let mut out: Vec<Option<String>> = Vec::new();
    let mut i: usize = 0;
    while i < v.len()
        invariant
            0 <= i <= v@.len(),
            out@.len() == i,
            forall|j: int| 0 <= j < i ==> opt_str_v(#[trigger] out@[j]) == opt_str_v(v@[j]),
        decreases v@.len() - i,
    {
        out.push(clone_opt_string(&v[i]));
        i += 1;
    }
    proof {
        assert(opt_strs_v(out@) =~= opt_strs_v(v@));
    }
    out
}

impl Clone for HirParam {
    fn clone(&self) -> (r: Self)
        ensures
            r@ == self@,
    {
        HirParam { name: string_clone(&self.name), ty: self.ty }
    }
}

impl Clone for HirField {
    fn clone(&self) -> (r: Self)
        ensures
            r@ == self@,
    {
        HirField { name: string_clone(&self.name), ty: self.ty }
    }
}

fn clone_params(v: &Vec<HirParam>) -> (r: Vec<HirParam>)
    ensures
        params_v(r@) == params_v(v@),
{
    let mut out: Vec<HirParam> = Vec::new();
    let mut i: usize = 0;
    while i < v.len()
        invariant
            0 <= i <= v@.len(),
            out@.len() == i,
            forall|j: int| 0 <= j < i ==> param_v(#[trigger] out@[j]) == param_v(v@[j]),
        decreases v@.len() - i,
    {
        out.push(v[i].clone());
        i += 1;
    }
    proof {
        assert(params_v(out@) =~= params_v(v@));
    }
    out
}

fn clone_hfields(v: &Vec<HirField>) -> (r: Vec<HirField>)
    ensures
        hfields_v(r@) == hfields_v(v@),
{
    let mut out: Vec<HirField> = Vec::new();
    let mut i: usize = 0;
    while i < v.len()
        invariant
            0 <= i <= v@.len(),
            out@.len() == i,
            forall|j: int| 0 <= j < i ==> hfield_v(#[trigger] out@[j]) == hfield_v(v@[j]),
        decreases v@.len() - i,
    {
        out.push(v[i].clone());
        i += 1;
    }
    proof {
        assert(hfields_v(out@) =~= hfields_v(v@));
    }
    out
}

/// A deep copy of a vector of expressions.
#[verifier::loop_isolation(false)]
pub fn clone_exprs(v: &Vec<HirExpr>) -> (r: Vec<HirExpr>)
    ensures
        exprs_v(r@) == exprs_v(v@),
        r@.len() == v@.len(),
    decreases v,
{
    let mut out: Vec<HirExpr> = Vec::new();
    let mut i: usize = 0;
    while i < v.len()
        invariant
            0 <= i <= v@.len(),
            out@.len() == i,
            forall|j: int| 0 <= j < i ==> expr_v(#[trigger] out@[j]) == expr_v(v@[j]),
        decreases v@.len() - i,
    {
        proof {
            assert(decreases_to!(v => v@[i as int]));
        }
        out.push(v[i].clone());
        i += 1;
    }
    proof {
        lemma_exprs_v(out@, v@);
    }
    out
}

/// A deep copy of a vector of statements.
#[verifier::loop_isolation(false)]
pub fn clone_stmts(v: &Vec<HirStmt>) -> (r: Vec<HirStmt>)
    ensures
        stmts_v(r@) == stmts_v(v@),
        r@.len() == v@.len(),
    decreases v,
{
    let mut out: Vec<HirStmt> = Vec::new();
    let mut i: usize = 0;
    while i < v.len()
        invariant
            0 <= i <= v@.len(),
            out@.len() == i,
            forall|j: int| 0 <= j < i ==> stmt_v(#[trigger] out@[j]) == stmt_v(v@[j]),
        decreases v@.len() - i,
    {
        proof {
            assert(decreases_to!(v => v@[i as int]));
        }
        out.push(v[i].clone());
        i += 1;
    }
    proof {
        lemma_stmts_v(out@, v@);
    }
    out
}

#[verifier::loop_isolation(false)]
fn clone_sfields(v: &Vec<(FieldId, HirExpr)>) -> (r: Vec<(FieldId, HirExpr)>)
    ensures
        sfields_v(r@) == sfields_v(v@),
    decreases v,
{
    let mut out: Vec<(FieldId, HirExpr)> = Vec::new();
    let mut i: usize = 0;
    while i < v.len()
        invariant
            0 <= i <= v@.len(),
            out@.len() == i,
            forall|j: int| 0 <= j < i ==> sfield_v(#[trigger] out@[j]) == sfield_v(v@[j]),
        decreases v@.len() - i,
    {
        proof {
            assert(decreases_to!(v => v@[i as int]));
            assert(decreases_to!(v@[i as int] => v@[i as int].1));
        }
        let e = v[i].1.clone();
        out.push((v[i].0, e));
        i += 1;
    }
    proof {
        assert(sfields_v(out@) =~= sfields_v(v@));
    }
    out
}

#[verifier::loop_isolation(false)]
fn clone_ofields(v: &Vec<ObjectLiteralField>) -> (r: Vec<ObjectLiteralField>)
    ensures
        ofields_v(r@) == ofields_v(v@),
    decreases v,
{
    let mut out: Vec<ObjectLiteralField> = Vec::new();
    let mut i: usize = 0;
    while i < v.len()
        invariant
            0 <= i <= v@.len(),
            out@.len() == i,
            forall|j: int| 0 <= j < i ==> ofield_v(#[trigger] out@[j]) == ofield_v(v@[j]),
        decreases v@.len() - i,
    {
        proof {
            assert(decreases_to!(v => v@[i as int]));
        }
        out.push(v[i].clone());
        i += 1;
    }
    proof {
        assert(ofields_v(out@) =~= ofields_v(v@));
    }
    out
}

#[verifier::loop_isolation(false)]
fn clone_cases(v: &Vec<HirSwitchCase>) -> (r: Vec<HirSwitchCase>)
    ensures
        cases_v(r@) == cases_v(v@),
    decreases v,
{
    let mut out: Vec<HirSwitchCase> = Vec::new();
    let mut i: usize = 0;
    while i < v.len()
        invariant
            0 <= i <= v@.len(),
            out@.len() == i,
            forall|j: int| 0 <= j < i ==> case_v(#[trigger] out@[j]) == case_v(v@[j]),
        decreases v@.len() - i,
    {
        proof {
            assert(decreases_to!(v => v@[i as int]));
        }
        out.push(v[i].clone());
        i += 1;
    }
    proof {
        assert(cases_v(out@) =~= cases_v(v@));
    }
    out
}

#[verifier::loop_isolation(false)]
fn clone_variants(v: &Vec<HirEnumVariant>) -> (r: Vec<HirEnumVariant>)
    ensures
        variants_v(r@) == variants_v(v@),
    decreases v,
{
    let mut out: Vec<HirEnumVariant> = Vec::new();
    let mut i: usize = 0;
    while i < v.len()
        invariant
            0 <= i <= v@.len(),
            out@.len() == i,
            forall|j: int| 0 <= j < i ==> variant_v(#[trigger] out@[j]) == variant_v(v@[j]),
        decreases v@.len() - i,
    {
        proof {
            assert(decreases_to!(v => v@[i as int]));
        }
        out.push(v[i].clone());
        i += 1;
    }
    proof {
        assert(variants_v(out@) =~= variants_v(v@));
    }
    out
}

#[verifier::loop_isolation(false)]
fn clone_funcs(v: &Vec<HirFunction>) -> (r: Vec<HirFunction>)
    ensures
        funcs_v(r@) == funcs_v(v@),
    decreases v,
{
    let mut out: Vec<HirFunction> = Vec::new();
    let mut i: usize = 0;
    while i < v.len()
        invariant
            0 <= i <= v@.len(),
            out@.len() == i,
            forall|j: int| 0 <= j < i ==> func_v(#[trigger] out@[j]) == func_v(v@[j]),
        decreases v@.len() - i,
    {
        proof {
            assert(decreases_to!(v => v@[i as int]));
        }
        out.push(v[i].clone());
        i += 1;
    }
    proof {
        assert(funcs_v(out@) =~= funcs_v(v@));
    }
    out
}

/// A deep copy of a vector of declarations.
#[verifier::loop_isolation(false)]
pub fn clone_decls(v: &Vec<HirDecl>) -> (r: Vec<HirDecl>)
    ensures
        decls_v(r@) == decls_v(v@),
    decreases v,
{
    let mut out: Vec<HirDecl> = Vec::new();
    let mut i: usize = 0;
    while i < v.len()
        invariant
            0 <= i <= v@.len(),
            out@.len() == i,
            forall|j: int| 0 <= j < i ==> decl_v(#[trigger] out@[j]) == decl_v(v@[j]),
        decreases v@.len() - i,
    {
        proof {
            assert(decreases_to!(v => v@[i as int]));
        }
        out.push(v[i].clone());
        i += 1;
    }
    proof {
        assert(decls_v(out@) =~= decls_v(v@));
    }
    out
}

fn clone_opt_expr(o: &Option<HirExpr>) -> (r: Option<HirExpr>)
    ensures
        opt_expr_v(r) == opt_expr_v(*o),
    decreases o,
{
    match o {
        Some(e) => Some(e.clone()),
        None => None,
    }
}

fn clone_opt_box_expr(o: &Option<Box<HirExpr>>) -> (r: Option<Box<HirExpr>>)
    ensures
        opt_box_expr_v(r) == opt_box_expr_v(*o),
    decreases o,
{
    match o {
        Some(e) => Some(Box::new((**e).clone())),
        None => None,
    }
}

fn clone_opt_box_stmt(o: &Option<Box<HirStmt>>) -> (r: Option<Box<HirStmt>>)
    ensures
        opt_box_stmt_v(r) == opt_box_stmt_v(*o),
    decreases o,
{
    match o {
        Some(s) => Some(Box::new((**s).clone())),
        None => None,
    }
}

fn clone_opt_catch(o: &Option<HirCatchClause>) -> (r: Option<HirCatchClause>)
    ensures
        opt_catch_v(r) == opt_catch_v(*o),
    decreases o,
{
    match o {
        Some(c) => Some(c.clone()),
        None => None,
    }
}

impl Clone for HirCallee {
    fn clone(&self) -> (r: Self)
        ensures
            r@ == self@,
        decreases self,
    {
        match self {
            HirCallee::Function(f) => HirCallee::Function(*f),
            HirCallee::Indirect(e) => HirCallee::Indirect(Box::new((**e).clone())),
            HirCallee::Closure(l) => HirCallee::Closure(*l),
            HirCallee::Runtime { name, ty } => HirCallee::Runtime { name: string_clone(name), ty: *ty },
        }
    }
}

impl Clone for ObjectLiteralField {
    fn clone(&self) -> (r: Self)
        ensures
            r@ == self@,
        decreases self,
    {
        match self {
            ObjectLiteralField::Property { name, value } =>
                ObjectLiteralField::Property { name: string_clone(name), value: value.clone() },
            ObjectLiteralField::Spread(value) => ObjectLiteralField::Spread(value.clone()),
        }
    }
}

impl Clone for HirExpr {
    fn clone(&self) -> (r: Self)
        ensures
            r@ == self@,
        decreases self,
    {
        match self {
            HirExpr::Unit(s) => HirExpr::Unit(*s),
            HirExpr::Bool(b, s) => HirExpr::Bool(*b, *s),
            HirExpr::Int(v, s) => HirExpr::Int(*v, *s),
            HirExpr::Float(v, s) => HirExpr::Float(*v, *s),
            HirExpr::String(v, s) => HirExpr::String(string_clone(v), *s),
            HirExpr::Null(s) => HirExpr::Null(*s),
            HirExpr::Undefined(s) => HirExpr::Undefined(*s),
            HirExpr::Local { id, ty, span } => HirExpr::Local { id: *id, ty: *ty, span: *span },
            HirExpr::Global { name, ty, span } => HirExpr::Global { name: string_clone(name), ty: *ty, span: *span },
            HirExpr::Field { owner, field, field_name, ty, span } => HirExpr::Field {
                owner: Box::new((**owner).clone()),
                field: *field,
                field_name: string_clone(field_name),
                ty: *ty,
                span: *span,
            },
            HirExpr::Index { owner, index, ty, span } => HirExpr::Index {
                owner: Box::new((**owner).clone()),
                index: Box::new((**index).clone()),
                ty: *ty,
                span: *span,
            },
            HirExpr::Call { callee, args, type_args, ty, span } => HirExpr::Call {
                callee: callee.clone(),
                args: clone_exprs(args),
                type_args: clone_ids(type_args),
                ty: *ty,
                span: *span,
            },
            HirExpr::Binary { op, lhs, rhs, ty, span } => HirExpr::Binary {
                op: *op,
                lhs: Box::new((**lhs).clone()),
                rhs: Box::new((**rhs).clone()),
                ty: *ty,
                span: *span,
            },
            HirExpr::Unary { op, expr, ty, span } =>
                HirExpr::Unary { op: *op, expr: Box::new((**expr).clone()), ty: *ty, span: *span },
            HirExpr::StructLiteral { ty, fields, span } =>
                HirExpr::StructLiteral { ty: *ty, fields: clone_sfields(fields), span: *span },
            HirExpr::ObjectLiteral { fields, ty, span } =>
                HirExpr::ObjectLiteral { fields: clone_ofields(fields), ty: *ty, span: *span },
            HirExpr::Ternary { cond, then_branch, else_branch, ty, span } => HirExpr::Ternary {
                cond: Box::new((**cond).clone()),
                then_branch: Box::new((**then_branch).clone()),
                else_branch: Box::new((**else_branch).clone()),
                ty: *ty,
                span: *span,
            },
            HirExpr::ArrayLiteral { elements, ty, span } =>
                HirExpr::ArrayLiteral { elements: clone_exprs(elements), ty: *ty, span: *span },
            HirExpr::Closure { id, params, captures, body, ty, span } => HirExpr::Closure {
                id: *id,
                params: clone_params(params),
                captures: clone_exprs(captures),
                body: clone_stmts(body),
                ty: *ty,
                span: *span,
            },
            HirExpr::Await { expr, ty, span } =>
                HirExpr::Await { expr: Box::new((**expr).clone()), ty: *ty, span: *span },
            HirExpr::Yield { expr, ty, span } =>
                HirExpr::Yield { expr: clone_opt_box_expr(expr), ty: *ty, span: *span },
            HirExpr::Template { tag, expressions, cooked_parts, raw_parts, ty, span } => HirExpr::Template {
                tag: clone_opt_box_expr(tag),
                expressions: clone_exprs(expressions),
                cooked_parts: clone_opt_strs(cooked_parts),
                raw_parts: clone_opt_strs(raw_parts),
                ty: *ty,
                span: *span,
            },
            HirExpr::New { callee, args, ty, span } => HirExpr::New {
                callee: Box::new((**callee).clone()),
                args: clone_exprs(args),
                ty: *ty,
                span: *span,
            },
            HirExpr::OptionalChain { base, ty, span } =>
                HirExpr::OptionalChain { base: Box::new((**base).clone()), ty: *ty, span: *span },
            HirExpr::TypeAssertion { expr, target, span } =>
                HirExpr::TypeAssertion { expr: Box::new((**expr).clone()), target: *target, span: *span },
            HirExpr::Assignment { target, value, ty, span } => HirExpr::Assignment {
                target: Box::new((**target).clone()),
                value: Box::new((**value).clone()),
                ty: *ty,
                span: *span,
            },
            HirExpr::CompoundUpdate { target, op, rhs, post, ty, span } => HirExpr::CompoundUpdate {
                target: Box::new((**target).clone()),
                op: *op,
                rhs: Box::new((**rhs).clone()),
                post: *post,
                ty: *ty,
                span: *span,
            },
            HirExpr::Sequence { exprs, ty, span } =>
                HirExpr::Sequence { exprs: clone_exprs(exprs), ty: *ty, span: *span },
            HirExpr::RegExp { pattern, flags, ty, span } => HirExpr::RegExp {
                pattern: string_clone(pattern),
                flags: string_clone(flags),
                ty: *ty,
                span: *span,
            },
            HirExpr::BigInt { value, ty, span } =>
                HirExpr::BigInt { value: string_clone(value), ty: *ty, span: *span },
            HirExpr::Import { source, ty, span } =>
                HirExpr::Import { source: Box::new((**source).clone()), ty: *ty, span: *span },
        }
    }
}

impl Clone for HirSwitchCase {
    fn clone(&self) -> (r: Self)
        ensures
            r@ == self@,
        decreases self,
    {
        HirSwitchCase { test: clone_opt_expr(&self.test), body: clone_stmts(&self.body) }
    }
}

impl Clone for HirCatchClause {
    fn clone(&self) -> (r: Self)
        ensures
            r@ == self@,
        decreases self,
    {
        let binding = match &self.binding {
            Some((id, name)) => Some((*id, string_clone(name))),
            None => None,
        };
        HirCatchClause { binding, body: Box::new((*self.body).clone()) }
    }
}

impl Clone for HirStmt {
    fn clone(&self) -> (r: Self)
        ensures
            r@ == self@,
        decreases self,
    {
        match self {
            HirStmt::Block(v) => HirStmt::Block(clone_stmts(v)),
            HirStmt::Let { id, name, ty, init } =>
                HirStmt::Let { id: *id, name: string_clone(name), ty: *ty, init: clone_opt_expr(init) },
            HirStmt::Expr { expr } => HirStmt::Expr { expr: expr.clone() },
            HirStmt::If { cond, then, otherwise } => HirStmt::If {
                cond: cond.clone(),
                then: Box::new((**then).clone()),
                otherwise: clone_opt_box_stmt(otherwise),
            },
            HirStmt::While { cond, body } => HirStmt::While { cond: cond.clone(), body: Box::new((**body).clone()) },
            HirStmt::DoWhile { body, cond } => HirStmt::DoWhile { body: Box::new((**body).clone()), cond: cond.clone() },
            HirStmt::ForOf { binding, iter, body } =>
                HirStmt::ForOf { binding: *binding, iter: iter.clone(), body: Box::new((**body).clone()) },
            HirStmt::ForAwaitOf { binding, iter, body } =>
                HirStmt::ForAwaitOf { binding: *binding, iter: iter.clone(), body: Box::new((**body).clone()) },
            HirStmt::ForIn { binding, iter, body } =>
                HirStmt::ForIn { binding: *binding, iter: iter.clone(), body: Box::new((**body).clone()) },
            HirStmt::Switch { disc, cases } => HirStmt::Switch { disc: disc.clone(), cases: clone_cases(cases) },
            HirStmt::Return { value } => HirStmt::Return { value: clone_opt_expr(value) },
            HirStmt::Break { label } => HirStmt::Break { label: clone_opt_string(label) },
            HirStmt::Continue { label } => HirStmt::Continue { label: clone_opt_string(label) },
            HirStmt::Throw { expr } => HirStmt::Throw { expr: expr.clone() },
            HirStmt::Try { body, catch, finally } => HirStmt::Try {
                body: Box::new((**body).clone()),
                catch: clone_opt_catch(catch),
                finally: clone_opt_box_stmt(finally),
            },
            HirStmt::Decl(d) => HirStmt::Decl(d.clone()),
        }
    }
}

impl Clone for HirEnumVariant {
    fn clone(&self) -> (r: Self)
        ensures
            r@ == self@,
        decreases self,
    {
        HirEnumVariant { name: string_clone(&self.name), value: clone_opt_expr(&self.value) }
    }
}

impl Clone for HirFunction {
    fn clone(&self) -> (r: Self)
        ensures
            r@ == self@,
        decreases self,
    {
        HirFunction {
            name: string_clone(&self.name),
            params: clone_params(&self.params),
            ret: self.ret,
            throws: self.throws,
            body: clone_stmts(&self.body),
            is_async: self.is_async,
            is_generator: self.is_generator,
            is_exported: self.is_exported,
            type_params: clone_gparams(&self.type_params),
        }
    }
}

impl Clone for HirClass {
    fn clone(&self) -> (r: Self)
        ensures
            r@ == self@,
        decreases self,
    {
        HirClass {
            name: string_clone(&self.name),
            ty: self.ty,
            fields: clone_hfields(&self.fields),
            methods: clone_funcs(&self.methods),
            extends: clone_opt_string(&self.extends),
            type_params: clone_gparams(&self.type_params),
        }
    }
}

impl Clone for HirDecl {
    fn clone(&self) -> (r: Self)
        ensures
            r@ == self@,
        decreases self,
    {
        match self {
            HirDecl::Function(f) => HirDecl::Function(f.clone()),
            HirDecl::Class(c) => HirDecl::Class(c.clone()),
            HirDecl::TypeAlias { name, target } => HirDecl::TypeAlias { name: string_clone(name), target: *target },
            HirDecl::Enum { name, variants } => HirDecl::Enum { name: string_clone(name), variants: clone_variants(variants) },
            HirDecl::Global { name, ty, init } =>
                HirDecl::Global { name: string_clone(name), ty: *ty, init: clone_opt_expr(init) },
            HirDecl::Interface { name } => HirDecl::Interface { name: string_clone(name) },
            HirDecl::Namespace { name, members } =>
                HirDecl::Namespace { name: string_clone(name), members: clone_decls(members) },
        }
    }
}

} // verus!
