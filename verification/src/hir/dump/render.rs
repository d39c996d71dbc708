//! What the HIR dumper writes, as spec functions over the HIR views.
//!
//! Every function takes the padding `p` that is current when the dumper
//! reaches the node: statements that the dumper writes with `line` start
//! with it, and nested blocks use `deeper(p)`.
use vstd::prelude::*;
use crate::base::{GenericParamId, TypeId};
use crate::hir::dump::{deeper, line_at};
use crate::hir::expr::{HirBinaryOp, HirUnaryOp};
use crate::hir::view::{
    CalleeV, CaseV, CatchV, ClassV, DeclV, ExprV, FunctionV, HFieldV, OFieldV, ParamV, StmtV, VariantV,
};
use crate::text::{bool_text, debug_str, dec_int, dec_nat};

verus! {

/// The decimal text of a type id.
pub open spec fn ty_text(t: TypeId) -> Seq<char> {
    dec_nat(t.0 as nat)
}

/// ", " before every item but the first.
pub open spec fn sep(i: nat) -> Seq<char> {
    if i == 0 { Seq::empty() } else { ", "@ }
}

/// The symbol of a binary operator.
pub open spec fn bin_op_text(op: HirBinaryOp) -> Seq<char> {
    match op {
        HirBinaryOp::Add => "+"@,
        HirBinaryOp::Sub => "-"@,
        HirBinaryOp::Mul => "*"@,
        HirBinaryOp::Div => "/"@,
        HirBinaryOp::Mod => "%"@,
        HirBinaryOp::Eq => "=="@,
        HirBinaryOp::Ne => "!="@,
        HirBinaryOp::Lt => "<"@,
        HirBinaryOp::Le => "<="@,
        HirBinaryOp::Gt => ">"@,
        HirBinaryOp::Ge => ">="@,
        HirBinaryOp::And => "&&"@,
        HirBinaryOp::Or => "||"@,
        HirBinaryOp::BitAnd => "&"@,
        HirBinaryOp::BitOr => "|"@,
        HirBinaryOp::BitXor => "^"@,
        HirBinaryOp::Shl => "<<"@,
        HirBinaryOp::Shr => ">>"@,
        HirBinaryOp::Usr => ">>>"@,
        HirBinaryOp::In => "in"@,
        HirBinaryOp::InstanceOf => "instanceof"@,
    }
}

/// The symbol of a unary operator.
pub open spec fn un_op_text(op: HirUnaryOp) -> Seq<char> {
    match op {
        HirUnaryOp::Neg => "-"@,
        HirUnaryOp::Not => "!"@,
        HirUnaryOp::BitNot => "~"@,
        HirUnaryOp::TypeOf => "typeof"@,
        HirUnaryOp::Void => "void"@,
        HirUnaryOp::Delete => "delete"@,
    }
}

/// A cooked template part: `cooked("..")` or `cooked(None)`.
pub open spec fn cooked_text(c: Option<Seq<char>>) -> Seq<char> {
    match c {
        Some(s) => "cooked("@ + debug_str(s) + ")"@,
        None => "cooked(None)"@,
    }
}

/// A raw template part, with its leading comma.
pub open spec fn raw_text(r: Option<Seq<char>>) -> Seq<char> {
    match r {
        Some(s) => ",raw("@ + debug_str(s) + ")"@,
        None => ",raw(None)"@,
    }
}

/// The parts that follow the last expression of a template.
pub open spec fn template_tail(n: nat, cooked: Seq<Option<Seq<char>>>, raw: Seq<Option<Seq<char>>>) -> Seq<char> {
    (if n < cooked.len() { ","@ + cooked_text(cooked[n as int]) } else { Seq::empty() })
        + (if n < raw.len() { raw_text(raw[n as int]) } else { Seq::empty() })
}

/// The first `k` closure parameters, as `name:ty` joined by ", ".
pub open spec fn closure_params_text(s: Seq<ParamV>, k: nat) -> Seq<char>
    decreases k,
{
    if k == 0 || k > s.len() {
        Seq::empty()
    } else {
        closure_params_text(s, (k - 1) as nat) + sep((k - 1) as nat) + s[k - 1].name + ":"@ + ty_text(s[k - 1].ty)
    }
}

/// One function parameter: `name: ty`.
pub open spec fn param_text(p: ParamV) -> Seq<char> {
    p.name + ": "@ + ty_text(p.ty)
}

/// The first `k` function parameters joined by ", ".
pub open spec fn params_text(s: Seq<ParamV>, k: nat) -> Seq<char>
    decreases k,
{
    if k == 0 || k > s.len() {
        Seq::empty()
    } else {
        params_text(s, (k - 1) as nat) + sep((k - 1) as nat) + param_text(s[k - 1])
    }
}

/// One generic parameter id as its debug form `GenericParamId(n)`.
pub open spec fn generic_text(g: GenericParamId) -> Seq<char> {
    "GenericParamId("@ + dec_nat(g.0 as nat) + ")"@
}

/// The first `k` generic parameter ids joined by ", ".
pub open spec fn generics_items(s: Seq<GenericParamId>, k: nat) -> Seq<char>
    decreases k,
{
    if k == 0 || k > s.len() {
        Seq::empty()
    } else {
        generics_items(s, (k - 1) as nat) + sep((k - 1) as nat) + generic_text(s[k - 1])
    }
}

/// The debug form of a list of generic parameter ids: `[GenericParamId(0), ..]`.
pub open spec fn generics_text(s: Seq<GenericParamId>) -> Seq<char> {
    "["@ + generics_items(s, s.len()) + "]"@
}

/// One class field line's text: `field name: ty`.
pub open spec fn field_text(f: HFieldV) -> Seq<char> {
    "field "@ + f.name + ": "@ + ty_text(f.ty)
}

/// The first `k` class fields, one line each at padding `p`.
pub open spec fn fields_text(s: Seq<HFieldV>, p: Seq<char>, k: nat) -> Seq<char>
    decreases k,
{
    if k == 0 || k > s.len() {
        Seq::empty()
    } else {
        fields_text(s, p, (k - 1) as nat) + line_at(p, field_text(s[k - 1]))
    }
}

/// The header line of a class: name, parent and generic parameters.
pub open spec fn class_header(c: ClassV) -> Seq<char> {
    "class "@ + c.name
        + (match c.extends { Some(e) => " extends "@ + e, None => Seq::empty() })
        + (if c.type_params.len() > 0 { "<"@ + generics_text(c.type_params) + ">"@ } else { Seq::empty() })
}

/// The header line of a function or method.
pub open spec fn func_header(f: FunctionV, prefix: Seq<char>) -> Seq<char> {
    prefix + " "@ + f.name + "("@ + params_text(f.params, f.params.len()) + ") -> "@ + ty_text(f.ret)
}

/// The word that starts a function's header.
pub open spec fn fn_prefix(f: FunctionV) -> Seq<char> {
    if f.is_async { "async fn"@ } else { "fn"@ }
}

/// The word that starts a method's header.
pub open spec fn method_prefix(f: FunctionV) -> Seq<char> {
    if f.is_async { "async method"@ } else { "method"@ }
}

/// The text of an expression, written inline at padding `p`.
pub open spec fn expr_text(e: ExprV, p: Seq<char>) -> Seq<char>
    decreases e, 0nat,
{
    match e {
        ExprV::Unit(_) => "()"@,
        ExprV::Bool(b, _) => bool_text(b),
        ExprV::Int(v, _) => dec_int(v as int),
        ExprV::Float(bits, _) => "float("@ + dec_nat(bits as nat) + ")"@,
        ExprV::String(s, _) => "string("@ + debug_str(s) + ")"@,
        ExprV::Null(_) => "null"@,
        ExprV::Undefined(_) => "undefined"@,
        ExprV::Local { id, ty, .. } => "local("@ + dec_nat(id.0 as nat) + "):"@ + ty_text(ty),
        ExprV::Global { name, ty, .. } => "global("@ + name + "):"@ + ty_text(ty),
        ExprV::Field { owner, field, field_name, ty, .. } =>
            expr_text(*owner, p) + "."@ + field_name + " (id="@ + dec_nat(field.0 as nat) + "):"@ + ty_text(ty),
        ExprV::Index { owner, index, ty, .. } =>
            expr_text(*owner, p) + "["@ + expr_text(*index, p) + "]:"@ + ty_text(ty),
        ExprV::Call { callee, args, ty, .. } =>
            callee_text(callee, p) + "("@ + exprs_text(args, p, args.len()) + "):"@ + ty_text(ty),
        ExprV::Binary { op, lhs, rhs, ty, .. } =>
            "("@ + expr_text(*lhs, p) + " "@ + bin_op_text(op) + " "@ + expr_text(*rhs, p) + "):"@ + ty_text(ty),
        ExprV::Unary { op, expr, ty, .. } => un_op_text(op) + "("@ + expr_text(*expr, p) + "):"@ + ty_text(ty),
        ExprV::StructLiteral { ty, fields, .. } =>
            "struct{"@ + sfields_text(fields, p, fields.len()) + "}:"@ + ty_text(ty),
        ExprV::ObjectLiteral { fields, ty, .. } =>
            "{"@ + ofields_text(fields, p, fields.len()) + "}:{"@ + ty_text(ty) + "}"@,
        ExprV::Ternary { cond, then_branch, else_branch, ty, .. } =>
            "ternary("@ + expr_text(*cond, p) + " ? "@ + expr_text(*then_branch, p) + " : "@
                + expr_text(*else_branch, p) + "):"@ + ty_text(ty),
        ExprV::ArrayLiteral { elements, ty, .. } =>
            "["@ + exprs_text(elements, p, elements.len()) + "]:"@ + ty_text(ty),
        ExprV::Closure { id, params, captures, body, ty, .. } =>
            "closure(id="@ + dec_nat(id.0 as nat) + ")["@ + closure_params_text(params, params.len())
                + "]captures=["@ + exprs_text(captures, p, captures.len()) + "]body="@ + "{"@
                + stmts_text(body, deeper(p), body.len()) + "}"@ + ":"@ + ty_text(ty),
        ExprV::Await { expr, ty, .. } => "await("@ + expr_text(*expr, p) + "):"@ + ty_text(ty),
        ExprV::Yield { expr, ty, .. } => match expr {
            Some(x) => "yield("@ + expr_text(*x, p) + "):"@ + ty_text(ty),
            None => "yield("@ + "()"@ + "):"@ + ty_text(ty),
        },
        ExprV::Template { tag, expressions, cooked_parts, raw_parts, ty, .. } =>
            (match tag {
                Some(t) => "template(tag="@ + expr_text(*t, p) + ")["@,
                None => "template["@,
            }) + template_items(expressions, cooked_parts, raw_parts, p, expressions.len())
                + template_tail(expressions.len(), cooked_parts, raw_parts) + "]:"@ + ty_text(ty),
        ExprV::New { callee, args, ty, .. } =>
            "new "@ + expr_text(*callee, p) + "("@ + exprs_text(args, p, args.len()) + "):"@ + ty_text(ty),
        ExprV::OptionalChain { base, ty, .. } => "opt("@ + expr_text(*base, p) + "):"@ + ty_text(ty),
        ExprV::TypeAssertion { expr, target, .. } =>
            "assert<"@ + ty_text(target) + ">("@ + expr_text(*expr, p) + ")"@,
        ExprV::Assignment { target, value, ty, .. } =>
            "assign("@ + expr_text(*target, p) + " = "@ + expr_text(*value, p) + "):"@ + ty_text(ty),
        ExprV::CompoundUpdate { target, op, rhs, post, ty, .. } =>
            "compound_update("@ + expr_text(*target, p) + " "@ + bin_op_text(op) + " "@ + expr_text(*rhs, p)
                + ", post="@ + bool_text(post) + "):"@ + ty_text(ty),
        ExprV::Sequence { exprs, ty, .. } => "seq("@ + exprs_text(exprs, p, exprs.len()) + "):"@ + ty_text(ty),
        ExprV::RegExp { pattern, flags, ty, .. } =>
            "regexp("@ + debug_str(pattern) + ", "@ + debug_str(flags) + "):"@ + ty_text(ty),
        ExprV::BigInt { value, ty, .. } => "bigint("@ + debug_str(value) + "):"@ + ty_text(ty),
        ExprV::Import { source, ty, .. } => "import("@ + expr_text(*source, p) + "):"@ + ty_text(ty),
    }
}

/// The text of a call's callee.
pub open spec fn callee_text(c: CalleeV, p: Seq<char>) -> Seq<char>
    decreases c, 0nat,
{
    match c {
        CalleeV::Function(f) => "call_fn("@ + dec_nat(f.0 as nat) + ")"@,
        CalleeV::Indirect(e) => expr_text(*e, p),
        CalleeV::Closure(id) => "closure("@ + dec_nat(id.0 as nat) + ")"@,
        CalleeV::Runtime { name, ty } => "runtime("@ + debug_str(name) + "):"@ + ty_text(ty),
    }
}

/// The first `k` expressions of `s`, joined by ", ".
pub open spec fn exprs_text(s: Seq<ExprV>, p: Seq<char>, k: nat) -> Seq<char>
    decreases s, k,
{
    if k == 0 || k > s.len() {
        Seq::empty()
    } else {
        exprs_text(s, p, (k - 1) as nat) + sep((k - 1) as nat) + expr_text(s[k - 1], p)
    }
}

/// One struct literal field: `id:value`.
pub open spec fn sfield_text(f: (crate::base::FieldId, ExprV), p: Seq<char>) -> Seq<char>
    decreases f, 0nat,
{
    dec_nat(f.0.0 as nat) + ":"@ + expr_text(f.1, p)
}

/// The first `k` struct literal fields, joined by ", ".
pub open spec fn sfields_text(s: Seq<(crate::base::FieldId, ExprV)>, p: Seq<char>, k: nat) -> Seq<char>
    decreases s, k,
{
    if k == 0 || k > s.len() {
        Seq::empty()
    } else {
        sfields_text(s, p, (k - 1) as nat) + sep((k - 1) as nat) + sfield_text(s[k - 1], p)
    }
}

/// One object literal field: `name:value` or `...value`.
pub open spec fn ofield_text(f: OFieldV, p: Seq<char>) -> Seq<char>
    decreases f, 0nat,
{
    match f {
        OFieldV::Property { name, value } => name + ":"@ + expr_text(value, p),
        OFieldV::Spread(value) => "..."@ + expr_text(value, p),
    }
}

/// The first `k` object literal fields, joined by ", ".
pub open spec fn ofields_text(s: Seq<OFieldV>, p: Seq<char>, k: nat) -> Seq<char>
    decreases s, k,
{
    if k == 0 || k > s.len() {
        Seq::empty()
    } else {
        ofields_text(s, p, (k - 1) as nat) + sep((k - 1) as nat) + ofield_text(s[k - 1], p)
    }
}

/// The first `k` items of a template: each expression with the parts
/// written before it.
pub open spec fn template_items(
    s: Seq<ExprV>,
    cooked: Seq<Option<Seq<char>>>,
    raw: Seq<Option<Seq<char>>>,
    p: Seq<char>,
    k: nat,
) -> Seq<char>
    decreases s, k,
{
    if k == 0 || k > s.len() {
        Seq::empty()
    } else {
        let i = (k - 1) as nat;
        template_items(s, cooked, raw, p, i) + sep(i)
            + (if i < cooked.len() { cooked_text(cooked[i as int]) } else { Seq::empty() })
            + (if i < raw.len() { raw_text(raw[i as int]) } else { Seq::empty() })
            + ","@ + expr_text(s[i as int], p)
    }
}

/// The first `k` statements of `s`, at padding `p`.
pub open spec fn stmts_text(s: Seq<StmtV>, p: Seq<char>, k: nat) -> Seq<char>
    decreases s, k,
{
    if k == 0 || k > s.len() {
        Seq::empty()
    } else {
        stmts_text(s, p, (k - 1) as nat) + stmt_text(s[k - 1], p)
    }
}

/// The text of a statement at padding `p`.
pub open spec fn stmt_text(s: StmtV, p: Seq<char>) -> Seq<char>
    decreases s, 0nat,
{
    match s {
        StmtV::Block(inner) =>
            line_at(p, "{"@) + stmts_text(inner, deeper(p), inner.len()) + line_at(p, "}"@),
        StmtV::Let { id, name, ty, init } =>
            "let "@ + name + " (id="@ + dec_nat(id.0 as nat) + "): "@ + ty_text(ty)
                + (match init { Some(x) => " = "@ + expr_text(x, p), None => Seq::empty() }) + "\n"@,
        StmtV::Expr { expr } => "expr "@ + expr_text(expr, p) + "\n"@,
        StmtV::If { cond, then, otherwise } =>
            "if ("@ + expr_text(cond, p) + ") {\n"@ + stmt_text(*then, deeper(p)) + line_at(p, "}"@)
                + (match otherwise {
                    Some(o) => line_at(p, "else {"@) + stmt_text(*o, deeper(p)) + line_at(p, "}"@),
                    None => Seq::empty(),
                }),
        StmtV::While { cond, body } =>
            "while ("@ + expr_text(cond, p) + ") {\n"@ + stmt_text(*body, deeper(p)) + line_at(p, "}"@),
        StmtV::DoWhile { body, cond } =>
            line_at(p, "do {"@) + stmt_text(*body, deeper(p)) + "} while ("@ + expr_text(cond, p) + ")\n"@,
        StmtV::ForOf { binding, iter, body } =>
            "for_of (id="@ + dec_nat(binding.0 as nat) + ") in "@ + expr_text(iter, p) + " {\n"@
                + stmt_text(*body, deeper(p)) + line_at(p, "}"@),
        StmtV::ForAwaitOf { binding, iter, body } =>
            "for_await_of (id="@ + dec_nat(binding.0 as nat) + ") in "@ + expr_text(iter, p) + " {\n"@
                + stmt_text(*body, deeper(p)) + line_at(p, "}"@),
        StmtV::ForIn { binding, iter, body } =>
            "for_in (id="@ + dec_nat(binding.0 as nat) + ") in "@ + expr_text(iter, p) + " {\n"@
                + stmt_text(*body, deeper(p)) + line_at(p, "}"@),
        StmtV::Switch { disc, cases } =>
            "switch ("@ + expr_text(disc, p) + ") {\n"@ + cases_text(cases, deeper(p), cases.len())
                + line_at(p, "}"@),
        StmtV::Return { value } => match value {
            Some(v) => "return "@ + expr_text(v, p) + "\n"@,
            None => line_at(p, "return"@),
        },
        StmtV::Break { label } => match label {
            Some(l) => line_at(p, "break "@ + l),
            None => line_at(p, "break"@),
        },
        StmtV::Continue { label } => match label {
            Some(l) => line_at(p, "continue "@ + l),
            None => line_at(p, "continue"@),
        },
        StmtV::Throw { expr } => "throw "@ + expr_text(expr, p) + "\n"@,
        StmtV::Try { body, catch, finally } =>
            line_at(p, "try {"@) + stmt_text(*body, deeper(p)) + line_at(p, "}"@)
                + (match catch { Some(c) => catch_text(c, p), None => Seq::empty() })
                + (match finally {
                    Some(f) => line_at(p, "finally {"@) + stmt_text(*f, deeper(p)) + line_at(p, "}"@),
                    None => Seq::empty(),
                }),
        StmtV::Decl(d) => "decl "@ + decl_text(d, p),
    }
}

/// The text of one `switch` case at padding `p`; its body is one level deeper.
pub open spec fn case_text(c: CaseV, p: Seq<char>) -> Seq<char>
    decreases c, 0nat,
{
    (match c.test {
        Some(t) => "case "@ + expr_text(t, p) + ":\n"@,
        None => line_at(p, "default:"@),
    }) + stmts_text(c.body, deeper(p), c.body.len())
}

/// The first `k` cases of a `switch`.
pub open spec fn cases_text(s: Seq<CaseV>, p: Seq<char>, k: nat) -> Seq<char>
    decreases s, k,
{
    if k == 0 || k > s.len() {
        Seq::empty()
    } else {
        cases_text(s, p, (k - 1) as nat) + case_text(s[k - 1], p)
    }
}

/// The text of a `catch` clause at padding `p`.
pub open spec fn catch_text(c: CatchV, p: Seq<char>) -> Seq<char>
    decreases c, 0nat,
{
    (match c.binding {
        Some((id, name)) => "catch (id="@ + dec_nat(id.0 as nat) + ", name="@ + name + ") {\n"@,
        None => "catch {\n"@,
    }) + stmt_text(*c.body, deeper(p)) + line_at(p, "}"@)
}

/// The text of a function (or method) with the given header word.
pub open spec fn func_text(f: FunctionV, prefix: Seq<char>, p: Seq<char>) -> Seq<char>
    decreases f, 0nat,
{
    line_at(p, func_header(f, prefix))
        + (match f.throws { Some(t) => line_at(p, "throws "@ + ty_text(t)), None => Seq::empty() })
        + (if f.is_exported { line_at(p, "exported"@) } else { Seq::empty() })
        + (if f.is_generator { line_at(p, "generator"@) } else { Seq::empty() })
        + (if f.type_params.len() > 0 { line_at(p, "type_params: "@ + generics_text(f.type_params)) } else {
            Seq::empty()
        })
        + (if f.body.len() == 0 {
            Seq::empty()
        } else {
            line_at(p, "body: {"@) + stmts_text(f.body, deeper(p), f.body.len()) + line_at(p, "}"@)
        })
}

/// The first `k` methods of a class.
pub open spec fn methods_text(s: Seq<FunctionV>, p: Seq<char>, k: nat) -> Seq<char>
    decreases s, k,
{
    if k == 0 || k > s.len() {
        Seq::empty()
    } else {
        methods_text(s, p, (k - 1) as nat) + func_text(s[k - 1], method_prefix(s[k - 1]), p)
    }
}

/// The text of a class at padding `p`.
pub open spec fn class_text(c: ClassV, p: Seq<char>) -> Seq<char>
    decreases c, 0nat,
{
    line_at(p, class_header(c)) + line_at(p, "body: {"@) + fields_text(c.fields, deeper(p), c.fields.len())
        + methods_text(c.methods, deeper(p), c.methods.len()) + line_at(p, "}"@)
}

/// One enum variant line: its name, and its value dumped on its own.
pub open spec fn variant_text(v: VariantV) -> Seq<char>
    decreases v, 0nat,
{
    match v.value {
        Some(x) => v.name + " = "@ + expr_text(x, Seq::empty()),
        None => v.name,
    }
}

/// The first `k` enum variants, one line each at padding `p`.
pub open spec fn variants_text(s: Seq<VariantV>, p: Seq<char>, k: nat) -> Seq<char>
    decreases s, k,
{
    if k == 0 || k > s.len() {
        Seq::empty()
    } else {
        variants_text(s, p, (k - 1) as nat) + line_at(p, variant_text(s[k - 1]))
    }
}

/// The first `k` declarations of `s` at padding `p`.
pub open spec fn decls_text(s: Seq<DeclV>, p: Seq<char>, k: nat) -> Seq<char>
    decreases s, k,
{
    if k == 0 || k > s.len() {
        Seq::empty()
    } else {
        decls_text(s, p, (k - 1) as nat) + decl_text(s[k - 1], p)
    }
}

/// The text of a declaration at padding `p`.
pub open spec fn decl_text(d: DeclV, p: Seq<char>) -> Seq<char>
    decreases d, 0nat,
{
    match d {
        DeclV::Function(f) => func_text(f, fn_prefix(f), p),
        DeclV::Class(c) => class_text(c, p),
        DeclV::TypeAlias { name, target } => line_at(p, "typealias "@ + name + " = "@ + ty_text(target)),
        DeclV::Enum { name, variants } =>
            line_at(p, "enum "@ + name + " {"@) + variants_text(variants, deeper(p), variants.len())
                + (if variants.len() == 0 { line_at(deeper(p), ""@) } else { Seq::empty() })
                + line_at(p, "}"@),
        DeclV::Global { name, ty, init } =>
            line_at(p, "global "@ + name + ": "@ + ty_text(ty))
                + (match init {
                    Some(x) => line_at(p, "  = "@ + expr_text(x, Seq::empty())),
                    None => Seq::empty(),
                }),
        DeclV::Interface { name } => line_at(p, "interface "@ + name),
        DeclV::Namespace { name, members } =>
            line_at(p, "namespace "@ + name + " {"@) + decls_text(members, deeper(p), members.len())
                + line_at(p, "}"@),
    }
}

} // verus!
