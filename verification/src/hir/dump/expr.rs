//! The dumper's walk over statements, expressions and declarations.
//! Each function appends exactly the text that `render` gives for its node.
use vstd::prelude::*;
use crate::base::GenericParamId;
use crate::hir::decl::{HirClass, HirDecl, HirEnumVariant, HirField, HirFunction, HirParam};
use crate::hir::dump::{deeper, line_at, Dumper};
use crate::hir::dump::decl::dump_decl;
use crate::hir::dump::render::{
    bin_op_text, callee_text, case_text, cases_text, catch_text, class_text, closure_params_text, cooked_text,
    decl_text, decls_text, expr_text, ofield_text, sfield_text, exprs_text, fields_text, fn_prefix, func_text, generics_items, generics_text,
    method_prefix, methods_text, ofields_text, param_text, params_text, raw_text, sfields_text, stmt_text,
    stmts_text, template_items, ty_text, un_op_text, variant_text, variants_text,
};
use crate::hir::expr::{HirBinaryOp, HirCallee, HirExpr, HirUnaryOp, ObjectLiteralField};
use crate::hir::stmt::{HirCatchClause, HirStmt, HirSwitchCase};
use crate::hir::view::{
    DeclV,
    cases_v, decls_v, exprs_v, opt_expr_v, lemma_opt_box_expr_v, lemma_opt_box_stmt_v, lemma_opt_catch_v,
    lemma_opt_expr_v, ofield_v, sfield_v, OFieldV, funcs_v, hfields_v, ofields_v, opt_str_v, opt_strs_v, params_v, sfields_v, stmts_v,
    variants_v,
};
use crate::text::{dec_nat, push_str, push_u32_dec};

verus! {

broadcast use {
    crate::hir::dump::lemma_text_assoc,
    crate::hir::dump::lemma_text_empty,
};

/// The symbol of a binary operator.
pub fn fmt_bin_op(op: HirBinaryOp) -> (r: &'static str)
    ensures
        r@ == bin_op_text(op),
{
    match op {
        HirBinaryOp::Add => "+",
        HirBinaryOp::Sub => "-",
        HirBinaryOp::Mul => "*",
        HirBinaryOp::Div => "/",
        HirBinaryOp::Mod => "%",
        HirBinaryOp::Eq => "==",
        HirBinaryOp::Ne => "!=",
        HirBinaryOp::Lt => "<",
        HirBinaryOp::Le => "<=",
        HirBinaryOp::Gt => ">",
        HirBinaryOp::Ge => ">=",
        HirBinaryOp::And => "&&",
        HirBinaryOp::Or => "||",
        HirBinaryOp::BitAnd => "&",
        HirBinaryOp::BitOr => "|",
        HirBinaryOp::BitXor => "^",
        HirBinaryOp::Shl => "<<",
        HirBinaryOp::Shr => ">>",
        HirBinaryOp::Usr => ">>>",
        HirBinaryOp::In => "in",
        HirBinaryOp::InstanceOf => "instanceof",
    }
}

/// The symbol of a unary operator.
pub fn fmt_un_op(op: HirUnaryOp) -> (r: &'static str)
    ensures
        r@ == un_op_text(op),
{
    match op {
        HirUnaryOp::Neg => "-",
        HirUnaryOp::Not => "!",
        HirUnaryOp::BitNot => "~",
        HirUnaryOp::TypeOf => "typeof",
        HirUnaryOp::Void => "void",
        HirUnaryOp::Delete => "delete",
    }
}

/// `name: ty` for a function parameter.
pub fn dump_param(p: &HirParam) -> (r: String)
    ensures
        r@ == param_text(p@),
{
    let mut s = String::new();
    push_str(&mut s, p.name.as_str());
    push_str(&mut s, ": ");
    push_u32_dec(&mut s, p.ty.0);
    s
}

/// `name: ty` for a class field.
pub fn dump_field(f: &HirField) -> (r: String)
    ensures
        r@ == f.name@ + ": "@ + ty_text(f.ty),
{
    let mut s = String::new();
    push_str(&mut s, f.name.as_str());
    push_str(&mut s, ": ");
    push_u32_dec(&mut s, f.ty.0);
    s
}

fn write_cooked(c: &Option<String>, d: &mut Dumper)
    ensures
        final(d).pad@ == old(d).pad@,
        final(d).buf@ == old(d).buf@ + cooked_text(opt_str_v(*c)),
{
    match c {
        Some(s) => {
            d.write("cooked(");
            d.write_debug(s.as_str());
            d.write(")");
        },
        None => d.write("cooked(None)"),
    }
}

fn write_raw(r: &Option<String>, d: &mut Dumper)
    ensures
        final(d).pad@ == old(d).pad@,
        final(d).buf@ == old(d).buf@ + raw_text(opt_str_v(*r)),
{
    match r {
        Some(s) => {
            d.write(",raw(");
            d.write_debug(s.as_str());
            d.write(")");
        },
        None => d.write(",raw(None)"),
    }
}

fn dump_closure_params(v: &Vec<HirParam>, d: &mut Dumper)
    ensures
        final(d).pad@ == old(d).pad@,
        final(d).buf@ == old(d).buf@ + closure_params_text(params_v(v@), v@.len()),
{
    let mut i: usize = 0;
    while i < v.len()
        invariant
            0 <= i <= v@.len(),
            d.pad@ == old(d).pad@,
            d.buf@ == old(d).buf@ + closure_params_text(params_v(v@), i as nat),
        decreases v@.len() - i,
    {
        if i > 0 {
            d.write(", ");
        }
        d.write(v[i].name.as_str());
        d.write(":");
        d.write_u32(v[i].ty.0);
        i += 1;
    }
}

fn params_string(v: &Vec<HirParam>) -> (r: String)
    ensures
        r@ == params_text(params_v(v@), v@.len()),
{
    let mut s = String::new();
    let mut i: usize = 0;
    while i < v.len()
        invariant
            0 <= i <= v@.len(),
            s@ == params_text(params_v(v@), i as nat),
        decreases v@.len() - i,
    {
        if i > 0 {
            push_str(&mut s, ", ");
        }
        let one = dump_param(&v[i]);
        push_str(&mut s, one.as_str());
        i += 1;
    }
    s
}

fn generics_string(v: &Vec<GenericParamId>) -> (r: String)
    ensures
        r@ == generics_text(v@),
{
    let mut s = String::new();
    push_str(&mut s, "[");
    let mut i: usize = 0;
    while i < v.len()
        invariant
            0 <= i <= v@.len(),
            s@ == "["@ + generics_items(v@, i as nat),
        decreases v@.len() - i,
    {
        if i > 0 {
            push_str(&mut s, ", ");
        }
        push_str(&mut s, "GenericParamId(");
        push_u32_dec(&mut s, v[i].0);
        push_str(&mut s, ")");
        i += 1;
    }
    push_str(&mut s, "]");
    s
}

/// The expressions of `v`, written inline and joined by ", ".
#[verifier::loop_isolation(false)]
fn dump_exprs_joined(v: &Vec<HirExpr>, d: &mut Dumper)
    ensures
        final(d).pad@ == old(d).pad@,
        final(d).buf@ == old(d).buf@ + exprs_text(exprs_v(v@), old(d).pad@, v@.len()),
    decreases v, 0nat,
{
    let mut i: usize = 0;
    while i < v.len()
        invariant
            0 <= i <= v@.len(),
            d.pad@ == old(d).pad@,
            d.buf@ == old(d).buf@ + exprs_text(exprs_v(v@), old(d).pad@, i as nat),
        decreases v@.len() - i,
    {
        proof {
            assert(decreases_to!(v => v@[i as int]));
        }
        if i > 0 {
            d.write(", ");
        }
        dump_expr_inline(&v[i], d);
        i += 1;
    }
}

#[verifier::loop_isolation(false)]
fn dump_sfields(v: &Vec<(crate::base::FieldId, HirExpr)>, d: &mut Dumper)
    ensures
        final(d).pad@ == old(d).pad@,
        final(d).buf@ == old(d).buf@ + sfields_text(sfields_v(v@), old(d).pad@, v@.len()),
    decreases v, 0nat,
{
    let mut i: usize = 0;
    while i < v.len()
        invariant
            0 <= i <= v@.len(),
            d.pad@ == old(d).pad@,
            d.buf@ == old(d).buf@ + sfields_text(sfields_v(v@), old(d).pad@, i as nat),
        decreases v@.len() - i,
    {
        proof {
            assert(decreases_to!(v => v@[i as int]));
            assert(decreases_to!(v@[i as int] => v@[i as int].1));
        }
        if i > 0 {
            d.write(", ");
        }
        d.write_u32(v[i].0.0);
        d.write(":");
        dump_expr_inline(&v[i].1, d);
        proof {
            let f = sfields_v(v@)[i as int];
            assert(f == sfield_v(v@[i as int]));
            assert(sfield_text(f, old(d).pad@) == dec_nat(f.0.0 as nat) + ":"@ + expr_text(f.1, old(d).pad@));
        }
        i += 1;
    }
}

#[verifier::loop_isolation(false)]
fn dump_ofields(v: &Vec<ObjectLiteralField>, d: &mut Dumper)
    ensures
        final(d).pad@ == old(d).pad@,
        final(d).buf@ == old(d).buf@ + ofields_text(ofields_v(v@), old(d).pad@, v@.len()),
    decreases v, 0nat,
{
    let mut i: usize = 0;
    while i < v.len()
        invariant
            0 <= i <= v@.len(),
            d.pad@ == old(d).pad@,
            d.buf@ == old(d).buf@ + ofields_text(ofields_v(v@), old(d).pad@, i as nat),
        decreases v@.len() - i,
    {
        proof {
            assert(decreases_to!(v => v@[i as int]));
        }
        if i > 0 {
            d.write(", ");
        }
        match &v[i] {
            ObjectLiteralField::Property { name, value } => {
                d.write(name.as_str());
                d.write(":");
                dump_expr_inline(value, d);
            },
            ObjectLiteralField::Spread(value) => {
                d.write("...");
                dump_expr_inline(value, d);
            },
        }
        proof {
            let f = ofields_v(v@)[i as int];
            assert(f == ofield_v(v@[i as int]));
            assert(ofield_text(f, old(d).pad@) == match f {
                OFieldV::Property { name, value } => name + ":"@ + expr_text(value, old(d).pad@),
                OFieldV::Spread(value) => "..."@ + expr_text(value, old(d).pad@),
            });
        }
        i += 1;
    }
}

#[verifier::loop_isolation(false)]
fn dump_template_items(
    v: &Vec<HirExpr>,
    cooked: &Vec<Option<String>>,
    raw: &Vec<Option<String>>,
    d: &mut Dumper,
)
    ensures
        final(d).pad@ == old(d).pad@,
        final(d).buf@ == old(d).buf@ + template_items(
            exprs_v(v@),
            opt_strs_v(cooked@),
            opt_strs_v(raw@),
            old(d).pad@,
            v@.len(),
        ),
    decreases v, 0nat,
{
    let mut i: usize = 0;
    while i < v.len()
        invariant
            0 <= i <= v@.len(),
            d.pad@ == old(d).pad@,
            d.buf@ == old(d).buf@ + template_items(
                exprs_v(v@),
                opt_strs_v(cooked@),
                opt_strs_v(raw@),
                old(d).pad@,
                i as nat,
            ),
        decreases v@.len() - i,
    {
        proof {
            assert(decreases_to!(v => v@[i as int]));
        }
        if i > 0 {
            d.write(", ");
        }
        if i < cooked.len() {
            write_cooked(&cooked[i], d);
        }
        if i < raw.len() {
            write_raw(&raw[i], d);
        }
        d.write(",");
        dump_expr_inline(&v[i], d);
        i += 1;
    }
}

fn dump_callee(c: &HirCallee, d: &mut Dumper)
    ensures
        final(d).pad@ == old(d).pad@,
        final(d).buf@ == old(d).buf@ + callee_text(c@, old(d).pad@),
    decreases c, 0nat,
{
    match c {
        HirCallee::Function(f) => {
            d.write("call_fn(");
            d.write_u32(f.0);
            d.write(")");
        },
        HirCallee::Indirect(e) => dump_expr_inline(e, d),
        HirCallee::Closure(id) => {
            d.write("closure(");
            d.write_u32(id.0);
            d.write(")");
        },
        HirCallee::Runtime { name, ty } => {
            d.write("runtime(");
            d.write_debug(name.as_str());
            d.write("):");
            d.write_u32(ty.0);
        },
    }
}

/// The statements of a closure body between braces, one level deeper.
fn dump_inline_body(stmts: &Vec<HirStmt>, d: &mut Dumper)
    ensures
        final(d).pad@ == old(d).pad@,
        final(d).buf@ == old(d).buf@ + "{"@ + stmts_text(stmts_v(stmts@), deeper(old(d).pad@), stmts@.len())
            + "}"@,
    decreases stmts, 1nat,
{
    d.write("{");
    d.push();
    dump_body(stmts, d);
    d.pop();
    d.write("}");
}

/// Writes an expression that is one of the literals and names.
fn dump_leaf_expr(expr: &HirExpr, d: &mut Dumper)
    requires
        expr is Unit || expr is Bool || expr is Int || expr is Float || expr is String || expr is Null || expr is Undefined || expr is Local || expr is Global || expr is RegExp || expr is BigInt,
    ensures
        final(d).pad@ == old(d).pad@,
        final(d).buf@ == old(d).buf@ + expr_text(expr@, old(d).pad@),
{
    match expr {
        HirExpr::Unit(_) => d.write("()"),
        HirExpr::Bool(b, _) => d.write_bool(*b),
        HirExpr::Int(v, _) => d.write_i64(*v),
        HirExpr::Float(bits, _) => {
            d.write("float(");
            d.write_u64(*bits);
            d.write(")");
        },
        HirExpr::String(s, _) => {
            d.write("string(");
            d.write_debug(s.as_str());
            d.write(")");
        },
        HirExpr::Null(_) => d.write("null"),
        HirExpr::Undefined(_) => d.write("undefined"),
        HirExpr::Local { id, ty, .. } => {
            d.write("local(");
            d.write_u32(id.0);
            d.write("):");
            d.write_u32(ty.0);
        },
        HirExpr::Global { name, ty, .. } => {
            d.write("global(");
            d.write(name.as_str());
            d.write("):");
            d.write_u32(ty.0);
        },
        HirExpr::RegExp { pattern, flags, ty, .. } => {
            d.write("regexp(");
            d.write_debug(pattern.as_str());
            d.write(", ");
            d.write_debug(flags.as_str());
            d.write("):");
            d.write_u32(ty.0);
        },
        HirExpr::BigInt { value, ty, .. } => {
            d.write("bigint(");
            d.write_debug(value.as_str());
            d.write("):");
            d.write_u32(ty.0);
        },
        _ => {},
    }
}

/// Writes an expression that is one of the accesses, calls and operators.
#[verifier::rlimit(30)]
fn dump_access_expr(expr: &HirExpr, d: &mut Dumper)
    requires
        expr is Field || expr is Index || expr is Call || expr is Binary || expr is Unary || expr is New || expr is OptionalChain,
    ensures
        final(d).pad@ == old(d).pad@,
        final(d).buf@ == old(d).buf@ + expr_text(expr@, old(d).pad@),
    decreases expr, 0nat,
{
    match expr {
        HirExpr::Field { owner, field, field_name, ty, .. } => {
            dump_expr_inline(owner, d);
            d.write(".");
            d.write(field_name.as_str());
            d.write(" (id=");
            d.write_u32(field.0);
            d.write("):");
            d.write_u32(ty.0);
        },
        HirExpr::Index { owner, index, ty, .. } => {
            dump_expr_inline(owner, d);
            d.write("[");
            dump_expr_inline(index, d);
            d.write("]:");
            d.write_u32(ty.0);
        },
        HirExpr::Call { callee, args, ty, .. } => {
            dump_callee(callee, d);
            d.write("(");
            dump_exprs_joined(args, d);
            d.write("):");
            d.write_u32(ty.0);
        },
        HirExpr::Binary { op, lhs, rhs, ty, .. } => {
            d.write("(");
            dump_expr_inline(lhs, d);
            d.write(" ");
            d.write(fmt_bin_op(*op));
            d.write(" ");
            dump_expr_inline(rhs, d);
            d.write("):");
            d.write_u32(ty.0);
        },
        HirExpr::Unary { op, expr, ty, .. } => {
            d.write(fmt_un_op(*op));
            d.write("(");
            dump_expr_inline(expr, d);
            d.write("):");
            d.write_u32(ty.0);
        },
        HirExpr::New { callee, args, ty, .. } => {
            d.write("new ");
            dump_expr_inline(callee, d);
            d.write("(");
            dump_exprs_joined(args, d);
            d.write("):");
            d.write_u32(ty.0);
        },
        HirExpr::OptionalChain { base, ty, .. } => {
            d.write("opt(");
            dump_expr_inline(base, d);
            d.write("):");
            d.write_u32(ty.0);
        },
        _ => {},
    }
}

/// Writes an expression that is one of the literals with parts, closures and templates.
#[verifier::rlimit(30)]
fn dump_compound_expr(expr: &HirExpr, d: &mut Dumper)
    requires
        expr is StructLiteral || expr is ObjectLiteral || expr is ArrayLiteral || expr is Closure || expr is Template || expr is Sequence,
    ensures
        final(d).pad@ == old(d).pad@,
        final(d).buf@ == old(d).buf@ + expr_text(expr@, old(d).pad@),
    decreases expr, 0nat,
{
    match expr {
        HirExpr::StructLiteral { ty, fields, .. } => {
            d.write("struct{");
            dump_sfields(fields, d);
            d.write("}:");
            d.write_u32(ty.0);
        },
        HirExpr::ObjectLiteral { fields, ty, .. } => {
            d.write("{");
            dump_ofields(fields, d);
            d.write("}:{");
            d.write_u32(ty.0);
            d.write("}");
        },
        HirExpr::ArrayLiteral { elements, ty, .. } => {
            d.write("[");
            dump_exprs_joined(elements, d);
            d.write("]:");
            d.write_u32(ty.0);
        },
        HirExpr::Closure { id, params, captures, body, ty, .. } => {
            d.write("closure(id=");
            d.write_u32(id.0);
            d.write(")[");
            dump_closure_params(params, d);
            d.write("]captures=[");
            dump_exprs_joined(captures, d);
            d.write("]body=");
            dump_inline_body(body, d);
            d.write(":");
            d.write_u32(ty.0);
        },
        HirExpr::Template { tag, expressions, cooked_parts, raw_parts, ty, .. } => {
            proof {
                lemma_opt_box_expr_v(*tag);
            }
            match tag {
                Some(t) => {
                    d.write("template(tag=");
                    dump_expr_inline(t, d);
                    d.write(")[");
                },
                None => d.write("template["),
            }
            dump_template_items(expressions, cooked_parts, raw_parts, d);
            let last = expressions.len();
            if last < cooked_parts.len() {
                d.write(",");
                write_cooked(&cooked_parts[last], d);
            }
            if last < raw_parts.len() {
                write_raw(&raw_parts[last], d);
            }
            d.write("]:");
            d.write_u32(ty.0);
        },
        HirExpr::Sequence { exprs, ty, .. } => {
            d.write("seq(");
            dump_exprs_joined(exprs, d);
            d.write("):");
            d.write_u32(ty.0);
        },
        _ => {},
    }
}

/// Writes an expression that is one of the conditional, async and assigning forms.
#[verifier::rlimit(30)]
fn dump_control_expr(expr: &HirExpr, d: &mut Dumper)
    requires
        expr is Ternary || expr is Await || expr is Yield || expr is TypeAssertion || expr is Assignment || expr is CompoundUpdate || expr is Import,
    ensures
        final(d).pad@ == old(d).pad@,
        final(d).buf@ == old(d).buf@ + expr_text(expr@, old(d).pad@),
    decreases expr, 0nat,
{
    match expr {
        HirExpr::Ternary { cond, then_branch, else_branch, ty, .. } => {
            d.write("ternary(");
            dump_expr_inline(cond, d);
            d.write(" ? ");
            dump_expr_inline(then_branch, d);
            d.write(" : ");
            dump_expr_inline(else_branch, d);
            d.write("):");
            d.write_u32(ty.0);
        },
        HirExpr::Await { expr, ty, .. } => {
            d.write("await(");
            dump_expr_inline(expr, d);
            d.write("):");
            d.write_u32(ty.0);
        },
        HirExpr::Yield { expr: value, ty, .. } => {
            proof {
                lemma_opt_box_expr_v(*value);
            }
            d.write("yield(");
            match value {
                Some(e) => dump_expr_inline(e, d),
                None => d.write("()"),
            }
            d.write("):");
            d.write_u32(ty.0);
        },
        HirExpr::TypeAssertion { expr, target, .. } => {
            d.write("assert<");
            d.write_u32(target.0);
            d.write(">(");
            dump_expr_inline(expr, d);
            d.write(")");
        },
        HirExpr::Assignment { target, value, ty, .. } => {
            d.write("assign(");
            dump_expr_inline(target, d);
            d.write(" = ");
            dump_expr_inline(value, d);
            d.write("):");
            d.write_u32(ty.0);
        },
        HirExpr::CompoundUpdate { target, op, rhs, post, ty, .. } => {
            d.write("compound_update(");
            dump_expr_inline(target, d);
            d.write(" ");
            d.write(fmt_bin_op(*op));
            d.write(" ");
            dump_expr_inline(rhs, d);
            d.write(", post=");
            d.write_bool(*post);
            d.write("):");
            d.write_u32(ty.0);
        },
        HirExpr::Import { source, ty, .. } => {
            d.write("import(");
            dump_expr_inline(source, d);
            d.write("):");
            d.write_u32(ty.0);
        },
        _ => {},
    }
}

/// Writes `expr` inline, at the current indentation.
pub fn dump_expr_inline(expr: &HirExpr, d: &mut Dumper)
    ensures
        final(d).pad@ == old(d).pad@,
        final(d).buf@ == old(d).buf@ + expr_text(expr@, old(d).pad@),
    decreases expr, 1nat,
{
    match expr {
        HirExpr::Unit(_) | HirExpr::Bool(..) | HirExpr::Int(..) | HirExpr::Float(..) | HirExpr::String(..) | HirExpr::Null(_) | HirExpr::Undefined(_) | HirExpr::Local { .. } | HirExpr::Global { .. } | HirExpr::RegExp { .. } | HirExpr::BigInt { .. } => dump_leaf_expr(expr, d),
        HirExpr::Field { .. } | HirExpr::Index { .. } | HirExpr::Call { .. } | HirExpr::Binary { .. } | HirExpr::Unary { .. } | HirExpr::New { .. } | HirExpr::OptionalChain { .. } => dump_access_expr(expr, d),
        HirExpr::StructLiteral { .. } | HirExpr::ObjectLiteral { .. } | HirExpr::ArrayLiteral { .. } | HirExpr::Closure { .. } | HirExpr::Template { .. } | HirExpr::Sequence { .. } => dump_compound_expr(expr, d),
        HirExpr::Ternary { .. } | HirExpr::Await { .. } | HirExpr::Yield { .. } | HirExpr::TypeAssertion { .. } | HirExpr::Assignment { .. } | HirExpr::CompoundUpdate { .. } | HirExpr::Import { .. } => dump_control_expr(expr, d),
    }
}

/// Writes each statement of `stmts` in turn, at the current indentation.
#[verifier::loop_isolation(false)]
pub fn dump_body(stmts: &Vec<HirStmt>, d: &mut Dumper)
    ensures
        final(d).pad@ == old(d).pad@,
        final(d).buf@ == old(d).buf@ + stmts_text(stmts_v(stmts@), old(d).pad@, stmts@.len()),
    decreases stmts, 0nat,
{
    let mut i: usize = 0;
    while i < stmts.len()
        invariant
            0 <= i <= stmts@.len(),
            d.pad@ == old(d).pad@,
            d.buf@ == old(d).buf@ + stmts_text(stmts_v(stmts@), old(d).pad@, i as nat),
        decreases stmts@.len() - i,
    {
        proof {
            assert(decreases_to!(stmts => stmts@[i as int]));
        }
        dump_stmt(&stmts[i], d);
        i += 1;
    }
}

/// Writes `s` one level deeper, then closes it with a brace line.
fn dump_nested(s: &HirStmt, d: &mut Dumper)
    ensures
        final(d).pad@ == old(d).pad@,
        final(d).buf@ == old(d).buf@ + stmt_text(s@, deeper(old(d).pad@)) + line_at(old(d).pad@, "}"@),
    decreases s, 1nat,
{
    d.push();
    dump_stmt(s, d);
    d.pop();
    d.line("}");
}

fn dump_switch_case(case: &HirSwitchCase, d: &mut Dumper)
    ensures
        final(d).pad@ == old(d).pad@,
        final(d).buf@ == old(d).buf@ + case_text(case@, old(d).pad@),
    decreases case, 0nat,
{
    match &case.test {
        Some(t) => {
            d.write("case ");
            dump_expr_inline(t, d);
            d.write(":\n");
        },
        None => d.line("default:"),
    }
    d.push();
    dump_body(&case.body, d);
    d.pop();
}

#[verifier::loop_isolation(false)]
fn dump_cases(v: &Vec<HirSwitchCase>, d: &mut Dumper)
    ensures
        final(d).pad@ == old(d).pad@,
        final(d).buf@ == old(d).buf@ + cases_text(cases_v(v@), old(d).pad@, v@.len()),
    decreases v, 0nat,
{
    let mut i: usize = 0;
    while i < v.len()
        invariant
            0 <= i <= v@.len(),
            d.pad@ == old(d).pad@,
            d.buf@ == old(d).buf@ + cases_text(cases_v(v@), old(d).pad@, i as nat),
        decreases v@.len() - i,
    {
        proof {
            assert(decreases_to!(v => v@[i as int]));
        }
        dump_switch_case(&v[i], d);
        i += 1;
    }
}

fn dump_catch(c: &HirCatchClause, d: &mut Dumper)
    ensures
        final(d).pad@ == old(d).pad@,
        final(d).buf@ == old(d).buf@ + catch_text(c@, old(d).pad@),
    decreases c, 0nat,
{
    match &c.binding {
        Some((id, name)) => {
            d.write("catch (id=");
            d.write_u32(id.0);
            d.write(", name=");
            d.write(name.as_str());
            d.write(") {\n");
        },
        None => d.write("catch {\n"),
    }
    dump_nested(&c.body, d);
}

/// Writes one statement at the current indentation.
#[verifier::rlimit(50)]
pub fn dump_stmt(stmt: &HirStmt, d: &mut Dumper)
    ensures
        final(d).pad@ == old(d).pad@,
        final(d).buf@ == old(d).buf@ + stmt_text(stmt@, old(d).pad@),
    decreases stmt, 0nat,
{
    match stmt {
        HirStmt::Block(inner) => {
            d.line("{");
            d.push();
            dump_body(inner, d);
            d.pop();
            d.line("}");
        },
        HirStmt::Let { id, name, ty, init } => {
            proof {
                lemma_opt_expr_v(*init);
            }
            d.write("let ");
            d.write(name.as_str());
            d.write(" (id=");
            d.write_u32(id.0);
            d.write("): ");
            d.write_u32(ty.0);
            match init {
                Some(x) => {
                    d.write(" = ");
                    dump_expr_inline(x, d);
                },
                None => {},
            }
            d.write("\n");
        },
        HirStmt::Expr { expr } => {
            d.write("expr ");
            dump_expr_inline(expr, d);
            d.write("\n");
        },
        HirStmt::If { cond, then, otherwise } => {
            proof {
                lemma_opt_box_stmt_v(*otherwise);
            }
            d.write("if (");
            dump_expr_inline(cond, d);
            d.write(") {\n");
            dump_nested(then, d);
            match otherwise {
                Some(o) => {
                    d.line("else {");
                    dump_nested(o, d);
                },
                None => {},
            }
        },
        HirStmt::While { cond, body } => {
            d.write("while (");
            dump_expr_inline(cond, d);
            d.write(") {\n");
            dump_nested(body, d);
        },
        HirStmt::DoWhile { body, cond } => {
            d.line("do {");
            d.push();
            dump_stmt(body, d);
            d.pop();
            d.write("} while (");
            dump_expr_inline(cond, d);
            d.write(")\n");
        },
        HirStmt::ForOf { binding, iter, body } => {
            d.write("for_of (id=");
            d.write_u32(binding.0);
            d.write(") in ");
            dump_expr_inline(iter, d);
            d.write(" {\n");
            dump_nested(body, d);
        },
        HirStmt::ForAwaitOf { binding, iter, body } => {
            d.write("for_await_of (id=");
            d.write_u32(binding.0);
            d.write(") in ");
            dump_expr_inline(iter, d);
            d.write(" {\n");
            dump_nested(body, d);
        },
        HirStmt::ForIn { binding, iter, body } => {
            d.write("for_in (id=");
            d.write_u32(binding.0);
            d.write(") in ");
            dump_expr_inline(iter, d);
            d.write(" {\n");
            dump_nested(body, d);
        },
        HirStmt::Switch { disc, cases } => {
            d.write("switch (");
            dump_expr_inline(disc, d);
            d.write(") {\n");
            d.push();
            dump_cases(cases, d);
            d.pop();
            d.line("}");
        },
        HirStmt::Return { value } => {
            proof {
                lemma_opt_expr_v(*value);
            }
            match value {
            Some(v) => {
                d.write("return ");
                dump_expr_inline(v, d);
                d.write("\n");
            },
            None => d.line("return"),
            }
        },
        HirStmt::Break { label } => match label {
            Some(l) => {
                let mut s = String::new();
                push_str(&mut s, "break ");
                push_str(&mut s, l.as_str());
                d.line(s.as_str());
            },
            None => d.line("break"),
        },
        HirStmt::Continue { label } => match label {
            Some(l) => {
                let mut s = String::new();
                push_str(&mut s, "continue ");
                push_str(&mut s, l.as_str());
                d.line(s.as_str());
            },
            None => d.line("continue"),
        },
        HirStmt::Throw { expr } => {
            d.write("throw ");
            dump_expr_inline(expr, d);
            d.write("\n");
        },
        HirStmt::Try { body, catch, finally } => {
            proof {
                lemma_opt_catch_v(*catch);
                lemma_opt_box_stmt_v(*finally);
            }
            d.line("try {");
            dump_nested(body, d);
            match catch {
                Some(c) => dump_catch(c, d),
                None => {},
            }
            match finally {
                Some(f) => {
                    d.line("finally {");
                    dump_nested(f, d);
                },
                None => {},
            }
        },
        HirStmt::Decl(decl) => {
            d.write("decl ");
            dump_decl(decl, d);
        },
    }
}

/// Writes a function or method: its header line, flag lines, and body.
#[verifier::rlimit(50)]
pub fn dump_function_inner(f: &HirFunction, prefix: &str, d: &mut Dumper)
    ensures
        final(d).pad@ == old(d).pad@,
        final(d).buf@ == old(d).buf@ + func_text(f@, prefix@, old(d).pad@),
    decreases f, 0nat,
{
    let mut header = String::new();
    push_str(&mut header, prefix);
    push_str(&mut header, " ");
    push_str(&mut header, f.name.as_str());
    push_str(&mut header, "(");
    let ps = params_string(&f.params);
    push_str(&mut header, ps.as_str());
    push_str(&mut header, ") -> ");
    push_u32_dec(&mut header, f.ret.0);
    d.line(header.as_str());
    match f.throws {
        Some(t) => {
            let mut s = String::new();
            push_str(&mut s, "throws ");
            push_u32_dec(&mut s, t.0);
            d.line(s.as_str());
        },
        None => {},
    }
    if f.is_exported {
        d.line("exported");
    }
    if f.is_generator {
        d.line("generator");
    }
    if f.type_params.len() > 0 {
        let mut s = String::new();
        push_str(&mut s, "type_params: ");
        let g = generics_string(&f.type_params);
        push_str(&mut s, g.as_str());
        d.line(s.as_str());
    }
    if f.body.len() == 0 {
        return;
    }
    d.line("body: {");
    d.push();
    dump_body(&f.body, d);
    d.pop();
    d.line("}");
}

/// Writes a top-level (or nested) function.
pub fn dump_function(f: &HirFunction, d: &mut Dumper)
    ensures
        final(d).pad@ == old(d).pad@,
        final(d).buf@ == old(d).buf@ + func_text(f@, fn_prefix(f@), old(d).pad@),
{
    let prefix = if f.is_async { "async fn" } else { "fn" };
    dump_function_inner(f, prefix, d);
}

/// Writes a class method.
pub fn dump_method(m: &HirFunction, d: &mut Dumper)
    ensures
        final(d).pad@ == old(d).pad@,
        final(d).buf@ == old(d).buf@ + func_text(m@, method_prefix(m@), old(d).pad@),
{
    let prefix = if m.is_async { "async method" } else { "method" };
    dump_function_inner(m, prefix, d);
}

#[verifier::loop_isolation(false)]
#[verifier::rlimit(50)]
#[verifier::spinoff_prover]
fn dump_methods(v: &Vec<HirFunction>, d: &mut Dumper)
    ensures
        final(d).pad@ == old(d).pad@,
        final(d).buf@ == old(d).buf@ + methods_text(funcs_v(v@), old(d).pad@, v@.len()),
    decreases v, 0nat,
{
    let mut i: usize = 0;
    while i < v.len()
        invariant
            0 <= i <= v@.len(),
            d.pad@ == old(d).pad@,
            d.buf@ == old(d).buf@ + methods_text(funcs_v(v@), old(d).pad@, i as nat),
        decreases v@.len() - i,
    {
        proof {
            assert(decreases_to!(v => v@[i as int]));
        }
        let prefix = if v[i].is_async { "async method" } else { "method" };
        let ghost before = d.buf@;
        proof {
            assert(funcs_v(v@)[i as int] == v@[i as int]@);
            assert(prefix@ == method_prefix(v@[i as int]@));
        }
        dump_function_inner(&v[i], prefix, d);
        proof {
            assert(methods_text(funcs_v(v@), old(d).pad@, (i + 1) as nat) == methods_text(funcs_v(v@), old(d).pad@, i as nat)
                + func_text(v@[i as int]@, method_prefix(v@[i as int]@), old(d).pad@));
            assert(d.buf@ == old(d).buf@ + methods_text(funcs_v(v@), old(d).pad@, (i + 1) as nat));
        }
        i += 1;
    }
}

fn dump_fields(v: &Vec<HirField>, d: &mut Dumper)
    ensures
        final(d).pad@ == old(d).pad@,
        final(d).buf@ == old(d).buf@ + fields_text(hfields_v(v@), old(d).pad@, v@.len()),
{
    let mut i: usize = 0;
    while i < v.len()
        invariant
            0 <= i <= v@.len(),
            d.pad@ == old(d).pad@,
            d.buf@ == old(d).buf@ + fields_text(hfields_v(v@), old(d).pad@, i as nat),
        decreases v@.len() - i,
    {
        let mut s = String::new();
        push_str(&mut s, "field ");
        let one = dump_field(&v[i]);
        push_str(&mut s, one.as_str());
        d.line(s.as_str());
        i += 1;
    }
}

/// Writes a class: header, then its fields and methods inside a body block.
pub fn dump_class(c: &HirClass, d: &mut Dumper)
    ensures
        final(d).pad@ == old(d).pad@,
        final(d).buf@ == old(d).buf@ + class_text(c@, old(d).pad@),
    decreases c, 0nat,
{
    let mut header = String::new();
    push_str(&mut header, "class ");
    push_str(&mut header, c.name.as_str());
    match &c.extends {
        Some(e) => {
            push_str(&mut header, " extends ");
            push_str(&mut header, e.as_str());
        },
        None => {},
    }
    if c.type_params.len() > 0 {
        push_str(&mut header, "<");
        let g = generics_string(&c.type_params);
        push_str(&mut header, g.as_str());
        push_str(&mut header, ">");
    }
    d.line(header.as_str());
    d.line("body: {");
    d.push();
    dump_fields(&c.fields, d);
    dump_methods(&c.methods, d);
    d.pop();
    d.line("}");
}

/// The text of an enum variant's line.
fn variant_line(v: &HirEnumVariant) -> (r: String)
    ensures
        r@ == variant_text(v@),
    decreases v, 0nat,
{
    let mut s = String::new();
    push_str(&mut s, v.name.as_str());
    match &v.value {
        Some(val) => {
            let mut tmp = Dumper::new();
            dump_expr_inline(val, &mut tmp);
            push_str(&mut s, " = ");
            push_str(&mut s, tmp.buf.as_str());
        },
        None => {},
    }
    s
}

#[verifier::loop_isolation(false)]
fn dump_variants(v: &Vec<HirEnumVariant>, d: &mut Dumper)
    ensures
        final(d).pad@ == old(d).pad@,
        final(d).buf@ == old(d).buf@ + variants_text(variants_v(v@), old(d).pad@, v@.len()),
    decreases v, 0nat,
{
    let mut i: usize = 0;
    while i < v.len()
        invariant
            0 <= i <= v@.len(),
            d.pad@ == old(d).pad@,
            d.buf@ == old(d).buf@ + variants_text(variants_v(v@), old(d).pad@, i as nat),
        decreases v@.len() - i,
    {
        proof {
            assert(decreases_to!(v => v@[i as int]));
        }
        let s = variant_line(&v[i]);
        d.line(s.as_str());
        i += 1;
    }
}

#[verifier::loop_isolation(false)]
fn dump_decls(v: &Vec<HirDecl>, d: &mut Dumper)
    ensures
        final(d).pad@ == old(d).pad@,
        final(d).buf@ == old(d).buf@ + decls_text(decls_v(v@), old(d).pad@, v@.len()),
    decreases v, 0nat,
{
    let mut i: usize = 0;
    while i < v.len()
        invariant
            0 <= i <= v@.len(),
            d.pad@ == old(d).pad@,
            d.buf@ == old(d).buf@ + decls_text(decls_v(v@), old(d).pad@, i as nat),
        decreases v@.len() - i,
    {
        proof {
            assert(decreases_to!(v => v@[i as int]));
        }
        dump_decl(&v[i], d);
        i += 1;
    }
}

/// Writes an enum: its header, one line per variant, and a closing brace.
#[verifier::rlimit(50)]
pub(crate) fn dump_enum(name: &String, variants: &Vec<HirEnumVariant>, d: &mut Dumper)
    ensures
        final(d).pad@ == old(d).pad@,
        final(d).buf@ == old(d).buf@ + (line_at(old(d).pad@, "enum "@ + name@ + " {"@)
            + variants_text(variants_v(variants@), deeper(old(d).pad@), variants@.len())
            + (if variants@.len() == 0 { line_at(deeper(old(d).pad@), ""@) } else { Seq::empty() })
            + line_at(old(d).pad@, "}"@)),
    decreases variants, 1nat,
{
    let mut s = String::new();
    push_str(&mut s, "enum ");
    push_str(&mut s, name.as_str());
    push_str(&mut s, " {");
    d.line(s.as_str());
    d.push();
    dump_variants(variants, d);
    if variants.len() == 0 {
        d.line("");
    }
    d.pop();
    d.line("}");
}

/// Writes a global: its header line, and its initializer dumped on its own.
#[verifier::rlimit(50)]
pub(crate) fn dump_global(name: &String, ty: crate::base::TypeId, init: &Option<HirExpr>, d: &mut Dumper)
    ensures
        final(d).pad@ == old(d).pad@,
        final(d).buf@ == old(d).buf@ + (line_at(old(d).pad@, "global "@ + name@ + ": "@ + ty_text(ty))
            + (match opt_expr_v(*init) {
                Some(x) => line_at(old(d).pad@, "  = "@ + expr_text(x, Seq::empty())),
                None => Seq::empty(),
            })),
    decreases init, 0nat,
{
    proof {
        lemma_opt_expr_v(*init);
    }
    let mut s = String::new();
    push_str(&mut s, "global ");
    push_str(&mut s, name.as_str());
    push_str(&mut s, ": ");
    push_u32_dec(&mut s, ty.0);
    d.line(s.as_str());
    match init {
        Some(x) => {
            let mut tmp = Dumper::new();
            dump_expr_inline(x, &mut tmp);
            let mut t = String::new();
            push_str(&mut t, "  = ");
            push_str(&mut t, tmp.buf.as_str());
            d.line(t.as_str());
        },
        None => {},
    }
}

/// Writes a namespace and its member declarations one level deeper.
#[verifier::rlimit(50)]
pub(crate) fn dump_namespace(name: &String, members: &Vec<HirDecl>, d: &mut Dumper)
    ensures
        final(d).pad@ == old(d).pad@,
        final(d).buf@ == old(d).buf@ + (line_at(old(d).pad@, "namespace "@ + name@ + " {"@)
            + decls_text(decls_v(members@), deeper(old(d).pad@), members@.len()) + line_at(old(d).pad@, "}"@)),
    decreases members, 1nat,
{
    let mut s = String::new();
    push_str(&mut s, "namespace ");
    push_str(&mut s, name.as_str());
    push_str(&mut s, " {");
    d.line(s.as_str());
    d.push();
    dump_decls(members, d);
    d.pop();
    d.line("}");
}

/// Writes a type alias line.
pub(crate) fn dump_type_alias(name: &String, target: crate::base::TypeId, d: &mut Dumper)
    ensures
        final(d).pad@ == old(d).pad@,
        final(d).buf@ == old(d).buf@ + line_at(old(d).pad@, "typealias "@ + name@ + " = "@ + ty_text(target)),
{
    let mut s = String::new();
    push_str(&mut s, "typealias ");
    push_str(&mut s, name.as_str());
    push_str(&mut s, " = ");
    push_u32_dec(&mut s, target.0);
    d.line(s.as_str());
}

/// Writes an interface line.
pub(crate) fn dump_interface(name: &String, d: &mut Dumper)
    ensures
        final(d).pad@ == old(d).pad@,
        final(d).buf@ == old(d).buf@ + line_at(old(d).pad@, "interface "@ + name@),
{
    let mut s = String::new();
    push_str(&mut s, "interface ");
    push_str(&mut s, name.as_str());
    d.line(s.as_str());
}

} // verus!
