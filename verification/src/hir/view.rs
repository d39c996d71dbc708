//! Mathematical models of the HIR: each HIR type has a view in which
//! strings are character sequences and vectors are sequences.
use vstd::prelude::*;
use crate::base::{FieldId, FunctionId, GenericParamId, LocalId, Span, TypeId};
use crate::hir::decl::{HirClass, HirDecl, HirEnumVariant, HirField, HirFunction, HirParam};
use crate::hir::expr::{HirBinaryOp, HirCallee, HirExpr, HirUnaryOp, ObjectLiteralField};
use crate::hir::stmt::{HirCatchClause, HirStmt, HirSwitchCase};

verus! {

pub enum CalleeV {
    Function(FunctionId),
    Indirect(Box<ExprV>),
    Closure(LocalId),
    Runtime { name: Seq<char>, ty: TypeId },
}

pub enum ExprV {
    Unit(Span),
    Bool(bool, Span),
    Int(i64, Span),
    Float(u64, Span),
    String(Seq<char>, Span),
    Null(Span),
    Undefined(Span),
    Local { id: LocalId, ty: TypeId, span: Span },
    Global { name: Seq<char>, ty: TypeId, span: Span },
    Field { owner: Box<ExprV>, field: FieldId, field_name: Seq<char>, ty: TypeId, span: Span },
    Index { owner: Box<ExprV>, index: Box<ExprV>, ty: TypeId, span: Span },
    Call { callee: CalleeV, args: Seq<ExprV>, type_args: Seq<TypeId>, ty: TypeId, span: Span },
    Binary { op: HirBinaryOp, lhs: Box<ExprV>, rhs: Box<ExprV>, ty: TypeId, span: Span },
    Unary { op: HirUnaryOp, expr: Box<ExprV>, ty: TypeId, span: Span },
    StructLiteral { ty: TypeId, fields: Seq<(FieldId, ExprV)>, span: Span },
    ObjectLiteral { fields: Seq<OFieldV>, ty: TypeId, span: Span },
    Ternary { cond: Box<ExprV>, then_branch: Box<ExprV>, else_branch: Box<ExprV>, ty: TypeId, span: Span },
    ArrayLiteral { elements: Seq<ExprV>, ty: TypeId, span: Span },
    Closure { id: LocalId, params: Seq<ParamV>, captures: Seq<ExprV>, body: Seq<StmtV>, ty: TypeId, span: Span },
    Await { expr: Box<ExprV>, ty: TypeId, span: Span },
    Yield { expr: Option<Box<ExprV>>, ty: TypeId, span: Span },
    Template {
        tag: Option<Box<ExprV>>,
        expressions: Seq<ExprV>,
        cooked_parts: Seq<Option<Seq<char>>>,
        raw_parts: Seq<Option<Seq<char>>>,
        ty: TypeId,
        span: Span,
    },
    New { callee: Box<ExprV>, args: Seq<ExprV>, ty: TypeId, span: Span },
    OptionalChain { base: Box<ExprV>, ty: TypeId, span: Span },
    TypeAssertion { expr: Box<ExprV>, target: TypeId, span: Span },
    Assignment { target: Box<ExprV>, value: Box<ExprV>, ty: TypeId, span: Span },
    CompoundUpdate { target: Box<ExprV>, op: HirBinaryOp, rhs: Box<ExprV>, post: bool, ty: TypeId, span: Span },
    Sequence { exprs: Seq<ExprV>, ty: TypeId, span: Span },
    RegExp { pattern: Seq<char>, flags: Seq<char>, ty: TypeId, span: Span },
    BigInt { value: Seq<char>, ty: TypeId, span: Span },
    Import { source: Box<ExprV>, ty: TypeId, span: Span },
}

pub enum OFieldV {
    Property { name: Seq<char>, value: ExprV },
    Spread(ExprV),
}

pub struct ParamV {
    pub name: Seq<char>,
    pub ty: TypeId,
}

pub struct HFieldV {
    pub name: Seq<char>,
    pub ty: TypeId,
}

pub enum StmtV {
    Block(Seq<StmtV>),
    Let { id: LocalId, name: Seq<char>, ty: TypeId, init: Option<ExprV> },
    Expr { expr: ExprV },
    If { cond: ExprV, then: Box<StmtV>, otherwise: Option<Box<StmtV>> },
    While { cond: ExprV, body: Box<StmtV> },
    DoWhile { body: Box<StmtV>, cond: ExprV },
    ForOf { binding: LocalId, iter: ExprV, body: Box<StmtV> },
    ForAwaitOf { binding: LocalId, iter: ExprV, body: Box<StmtV> },
    ForIn { binding: LocalId, iter: ExprV, body: Box<StmtV> },
    Switch { disc: ExprV, cases: Seq<CaseV> },
    Return { value: Option<ExprV> },
    Break { label: Option<Seq<char>> },
    Continue { label: Option<Seq<char>> },
    Throw { expr: ExprV },
    Try { body: Box<StmtV>, catch: Option<CatchV>, finally: Option<Box<StmtV>> },
    Decl(DeclV),
}

pub struct CaseV {
    pub test: Option<ExprV>,
    pub body: Seq<StmtV>,
}

pub struct CatchV {
    pub binding: Option<(LocalId, Seq<char>)>,
    pub body: Box<StmtV>,
}

pub struct VariantV {
    pub name: Seq<char>,
    pub value: Option<ExprV>,
}

pub struct FunctionV {
    pub name: Seq<char>,
    pub params: Seq<ParamV>,
    pub ret: TypeId,
    pub throws: Option<TypeId>,
    pub body: Seq<StmtV>,
    pub is_async: bool,
    pub is_generator: bool,
    pub is_exported: bool,
    pub type_params: Seq<GenericParamId>,
}

pub struct ClassV {
    pub name: Seq<char>,
    pub ty: TypeId,
    pub fields: Seq<HFieldV>,
    pub methods: Seq<FunctionV>,
    pub extends: Option<Seq<char>>,
    pub type_params: Seq<GenericParamId>,
}

pub enum DeclV {
    Function(FunctionV),
    Class(ClassV),
    TypeAlias { name: Seq<char>, target: TypeId },
    Enum { name: Seq<char>, variants: Seq<VariantV> },
    Global { name: Seq<char>, ty: TypeId, init: Option<ExprV> },
    Interface { name: Seq<char> },
    Namespace { name: Seq<char>, members: Seq<DeclV> },
}

// ---- non-recursive pieces ----

pub open spec fn param_v(p: HirParam) -> ParamV {
    ParamV { name: p.name@, ty: p.ty }
}

pub open spec fn params_v(s: Seq<HirParam>) -> Seq<ParamV> {
    s.map_values(|p: HirParam| param_v(p))
}

pub open spec fn hfield_v(f: HirField) -> HFieldV {
    HFieldV { name: f.name@, ty: f.ty }
}

pub open spec fn hfields_v(s: Seq<HirField>) -> Seq<HFieldV> {
    s.map_values(|f: HirField| hfield_v(f))
}

pub open spec fn opt_str_v(o: Option<String>) -> Option<Seq<char>> {
    match o {
        Some(s) => Some(s@),
        None => None,
    }
}

pub open spec fn opt_strs_v(s: Seq<Option<String>>) -> Seq<Option<Seq<char>>> {
    s.map_values(|o: Option<String>| opt_str_v(o))
}

pub open spec fn binding_v(b: Option<(LocalId, String)>) -> Option<(LocalId, Seq<char>)> {
    match b {
        Some((id, name)) => Some((id, name@)),
        None => None,
    }
}

// ---- the mutually recursive views ----

pub open spec fn callee_v(c: HirCallee) -> CalleeV
    decreases c, 1nat,
{
    match c {
        HirCallee::Function(f) => CalleeV::Function(f),
        HirCallee::Indirect(e) => CalleeV::Indirect(Box::new(expr_v(*e))),
        HirCallee::Closure(l) => CalleeV::Closure(l),
        HirCallee::Runtime { name, ty } => CalleeV::Runtime { name: name@, ty },
    }
}

pub open spec fn opt_box_expr_v(o: Option<Box<HirExpr>>) -> Option<Box<ExprV>>
    decreases o, 1nat,
{
    match o {
        Some(e) => Some(Box::new(expr_v(*e))),
        None => None,
    }
}

pub open spec fn opt_expr_v(o: Option<HirExpr>) -> Option<ExprV>
    decreases o, 1nat,
{
    match o {
        Some(e) => Some(expr_v(e)),
        None => None,
    }
}

pub open spec fn expr_v(e: HirExpr) -> ExprV
    decreases e, 1nat,
{
    match e {
        HirExpr::Unit(s) => ExprV::Unit(s),
        HirExpr::Bool(b, s) => ExprV::Bool(b, s),
        HirExpr::Int(v, s) => ExprV::Int(v, s),
        HirExpr::Float(v, s) => ExprV::Float(v, s),
        HirExpr::String(v, s) => ExprV::String(v@, s),
        HirExpr::Null(s) => ExprV::Null(s),
        HirExpr::Undefined(s) => ExprV::Undefined(s),
        HirExpr::Local { id, ty, span } => ExprV::Local { id, ty, span },
        HirExpr::Global { name, ty, span } => ExprV::Global { name: name@, ty, span },
        HirExpr::Field { owner, field, field_name, ty, span } =>
            ExprV::Field { owner: Box::new(expr_v(*owner)), field, field_name: field_name@, ty, span },
        HirExpr::Index { owner, index, ty, span } =>
            ExprV::Index { owner: Box::new(expr_v(*owner)), index: Box::new(expr_v(*index)), ty, span },
        HirExpr::Call { callee, args, type_args, ty, span } =>
            ExprV::Call { callee: callee_v(callee), args: exprs_v(args@), type_args: type_args@, ty, span },
        HirExpr::Binary { op, lhs, rhs, ty, span } =>
            ExprV::Binary { op, lhs: Box::new(expr_v(*lhs)), rhs: Box::new(expr_v(*rhs)), ty, span },
        HirExpr::Unary { op, expr, ty, span } =>
            ExprV::Unary { op, expr: Box::new(expr_v(*expr)), ty, span },
        HirExpr::StructLiteral { ty, fields, span } =>
            ExprV::StructLiteral { ty, fields: sfields_v(fields@), span },
        HirExpr::ObjectLiteral { fields, ty, span } =>
            ExprV::ObjectLiteral { fields: ofields_v(fields@), ty, span },
        HirExpr::Ternary { cond, then_branch, else_branch, ty, span } => ExprV::Ternary {
            cond: Box::new(expr_v(*cond)),
            then_branch: Box::new(expr_v(*then_branch)),
            else_branch: Box::new(expr_v(*else_branch)),
            ty,
            span,
        },
        HirExpr::ArrayLiteral { elements, ty, span } =>
            ExprV::ArrayLiteral { elements: exprs_v(elements@), ty, span },
        HirExpr::Closure { id, params, captures, body, ty, span } => ExprV::Closure {
            id,
            params: params_v(params@),
            captures: exprs_v(captures@),
            body: stmts_v(body@),
            ty,
            span,
        },
        HirExpr::Await { expr, ty, span } => ExprV::Await { expr: Box::new(expr_v(*expr)), ty, span },
        HirExpr::Yield { expr, ty, span } => ExprV::Yield { expr: opt_box_expr_v(expr), ty, span },
        HirExpr::Template { tag, expressions, cooked_parts, raw_parts, ty, span } => ExprV::Template {
            tag: opt_box_expr_v(tag),
            expressions: exprs_v(expressions@),
            cooked_parts: opt_strs_v(cooked_parts@),
            raw_parts: opt_strs_v(raw_parts@),
            ty,
            span,
        },
        HirExpr::New { callee, args, ty, span } =>
            ExprV::New { callee: Box::new(expr_v(*callee)), args: exprs_v(args@), ty, span },
        HirExpr::OptionalChain { base, ty, span } =>
            ExprV::OptionalChain { base: Box::new(expr_v(*base)), ty, span },
        HirExpr::TypeAssertion { expr, target, span } =>
            ExprV::TypeAssertion { expr: Box::new(expr_v(*expr)), target, span },
        HirExpr::Assignment { target, value, ty, span } =>
            ExprV::Assignment { target: Box::new(expr_v(*target)), value: Box::new(expr_v(*value)), ty, span },
        HirExpr::CompoundUpdate { target, op, rhs, post, ty, span } => ExprV::CompoundUpdate {
            target: Box::new(expr_v(*target)),
            op,
            rhs: Box::new(expr_v(*rhs)),
            post,
            ty,
            span,
        },
        HirExpr::Sequence { exprs, ty, span } => ExprV::Sequence { exprs: exprs_v(exprs@), ty, span },
        HirExpr::RegExp { pattern, flags, ty, span } =>
            ExprV::RegExp { pattern: pattern@, flags: flags@, ty, span },
        HirExpr::BigInt { value, ty, span } => ExprV::BigInt { value: value@, ty, span },
        HirExpr::Import { source, ty, span } => ExprV::Import { source: Box::new(expr_v(*source)), ty, span },
    }
}

pub open spec fn exprs_v(s: Seq<HirExpr>) -> Seq<ExprV>
    decreases s, 0nat,
{
    Seq::new(s.len(), |i: int| if 0 <= i < s.len() { expr_v(s[i]) } else { ExprV::Unit(Span { start: 0, end: 0 }) })
}

pub open spec fn sfield_v(f: (FieldId, HirExpr)) -> (FieldId, ExprV)
    decreases f, 1nat,
{
    (f.0, expr_v(f.1))
}

pub open spec fn sfields_v(s: Seq<(FieldId, HirExpr)>) -> Seq<(FieldId, ExprV)>
    decreases s, 0nat,
{
    Seq::new(s.len(), |i: int| if 0 <= i < s.len() { sfield_v(s[i]) } else { (FieldId(0), ExprV::Unit(Span { start: 0, end: 0 })) })
}

pub open spec fn ofield_v(f: ObjectLiteralField) -> OFieldV
    decreases f, 1nat,
{
    match f {
        ObjectLiteralField::Property { name, value } => OFieldV::Property { name: name@, value: expr_v(value) },
        ObjectLiteralField::Spread(value) => OFieldV::Spread(expr_v(value)),
    }
}

pub open spec fn ofields_v(s: Seq<ObjectLiteralField>) -> Seq<OFieldV>
    decreases s, 0nat,
{
    Seq::new(s.len(), |i: int| if 0 <= i < s.len() { ofield_v(s[i]) } else { OFieldV::Spread(ExprV::Unit(Span { start: 0, end: 0 })) })
}

/// The value expression of an object literal field, whichever its kind.
pub open spec fn ofield_value(f: OFieldV) -> ExprV {
    match f {
        OFieldV::Property { value, .. } => value,
        OFieldV::Spread(value) => value,
    }
}

pub open spec fn opt_box_stmt_v(o: Option<Box<HirStmt>>) -> Option<Box<StmtV>>
    decreases o, 1nat,
{
    match o {
        Some(s) => Some(Box::new(stmt_v(*s))),
        None => None,
    }
}

pub open spec fn stmt_v(s: HirStmt) -> StmtV
    decreases s, 1nat,
{
    match s {
        HirStmt::Block(v) => StmtV::Block(stmts_v(v@)),
        HirStmt::Let { id, name, ty, init } => StmtV::Let { id, name: name@, ty, init: opt_expr_v(init) },
        HirStmt::Expr { expr } => StmtV::Expr { expr: expr_v(expr) },
        HirStmt::If { cond, then, otherwise } =>
            StmtV::If { cond: expr_v(cond), then: Box::new(stmt_v(*then)), otherwise: opt_box_stmt_v(otherwise) },
        HirStmt::While { cond, body } => StmtV::While { cond: expr_v(cond), body: Box::new(stmt_v(*body)) },
        HirStmt::DoWhile { body, cond } => StmtV::DoWhile { body: Box::new(stmt_v(*body)), cond: expr_v(cond) },
        HirStmt::ForOf { binding, iter, body } =>
            StmtV::ForOf { binding, iter: expr_v(iter), body: Box::new(stmt_v(*body)) },
        HirStmt::ForAwaitOf { binding, iter, body } =>
            StmtV::ForAwaitOf { binding, iter: expr_v(iter), body: Box::new(stmt_v(*body)) },
        HirStmt::ForIn { binding, iter, body } =>
            StmtV::ForIn { binding, iter: expr_v(iter), body: Box::new(stmt_v(*body)) },
        HirStmt::Switch { disc, cases } => StmtV::Switch { disc: expr_v(disc), cases: cases_v(cases@) },
        HirStmt::Return { value } => StmtV::Return { value: opt_expr_v(value) },
        HirStmt::Break { label } => StmtV::Break { label: opt_str_v(label) },
        HirStmt::Continue { label } => StmtV::Continue { label: opt_str_v(label) },
        HirStmt::Throw { expr } => StmtV::Throw { expr: expr_v(expr) },
        HirStmt::Try { body, catch, finally } => StmtV::Try {
            body: Box::new(stmt_v(*body)),
            catch: opt_catch_v(catch),
            finally: opt_box_stmt_v(finally),
        },
        HirStmt::Decl(d) => StmtV::Decl(decl_v(d)),
    }
}

pub open spec fn stmts_v(s: Seq<HirStmt>) -> Seq<StmtV>
    decreases s, 0nat,
{
    Seq::new(s.len(), |i: int| if 0 <= i < s.len() { stmt_v(s[i]) } else { StmtV::Block(Seq::empty()) })
}

pub open spec fn case_v(c: HirSwitchCase) -> CaseV
    decreases c, 1nat,
{
    CaseV { test: opt_expr_v(c.test), body: stmts_v(c.body@) }
}

pub open spec fn cases_v(s: Seq<HirSwitchCase>) -> Seq<CaseV>
    decreases s, 0nat,
{
    Seq::new(s.len(), |i: int| if 0 <= i < s.len() { case_v(s[i]) } else { CaseV { test: None, body: Seq::empty() } })
}

pub open spec fn catch_v(c: HirCatchClause) -> CatchV
    decreases c, 1nat,
{
    CatchV { binding: binding_v(c.binding), body: Box::new(stmt_v(*c.body)) }
}

pub open spec fn opt_catch_v(o: Option<HirCatchClause>) -> Option<CatchV>
    decreases o, 1nat,
{
    match o {
        Some(c) => Some(catch_v(c)),
        None => None,
    }
}

pub open spec fn variant_v(v: HirEnumVariant) -> VariantV
    decreases v, 1nat,
{
    VariantV { name: v.name@, value: opt_expr_v(v.value) }
}

pub open spec fn variants_v(s: Seq<HirEnumVariant>) -> Seq<VariantV>
    decreases s, 0nat,
{
    Seq::new(s.len(), |i: int| if 0 <= i < s.len() { variant_v(s[i]) } else { VariantV { name: Seq::empty(), value: None } })
}

pub open spec fn func_v(f: HirFunction) -> FunctionV
    decreases f, 1nat,
{
    FunctionV {
        name: f.name@,
        params: params_v(f.params@),
        ret: f.ret,
        throws: f.throws,
        body: stmts_v(f.body@),
        is_async: f.is_async,
        is_generator: f.is_generator,
        is_exported: f.is_exported,
        type_params: f.type_params@,
    }
}

pub open spec fn funcs_v(s: Seq<HirFunction>) -> Seq<FunctionV>
    decreases s, 0nat,
{
    Seq::new(s.len(), |i: int| if 0 <= i < s.len() { func_v(s[i]) } else {
        FunctionV {
            name: Seq::empty(),
            params: Seq::empty(),
            ret: TypeId(0),
            throws: None,
            body: Seq::empty(),
            is_async: false,
            is_generator: false,
            is_exported: false,
            type_params: Seq::empty(),
        }
    })
}

pub open spec fn class_v(c: HirClass) -> ClassV
    decreases c, 1nat,
{
    ClassV {
        name: c.name@,
        ty: c.ty,
        fields: hfields_v(c.fields@),
        methods: funcs_v(c.methods@),
        extends: opt_str_v(c.extends),
        type_params: c.type_params@,
    }
}

pub open spec fn decl_v(d: HirDecl) -> DeclV
    decreases d, 1nat,
{
    match d {
        HirDecl::Function(f) => DeclV::Function(func_v(f)),
        HirDecl::Class(c) => DeclV::Class(class_v(c)),
        HirDecl::TypeAlias { name, target } => DeclV::TypeAlias { name: name@, target },
        HirDecl::Enum { name, variants } => DeclV::Enum { name: name@, variants: variants_v(variants@) },
        HirDecl::Global { name, ty, init } => DeclV::Global { name: name@, ty, init: opt_expr_v(init) },
        HirDecl::Interface { name } => DeclV::Interface { name: name@ },
        HirDecl::Namespace { name, members } => DeclV::Namespace { name: name@, members: decls_v(members@) },
    }
}

pub open spec fn decls_v(s: Seq<HirDecl>) -> Seq<DeclV>
    decreases s, 0nat,
{
    Seq::new(s.len(), |i: int| if 0 <= i < s.len() { decl_v(s[i]) } else { DeclV::Interface { name: Seq::empty() } })
}

/// One level of `callee_v`.
pub proof fn lemma_callee_v(c: HirCallee)
    ensures
        callee_v(c) == match c {
            HirCallee::Function(f) => CalleeV::Function(f),
            HirCallee::Indirect(e) => CalleeV::Indirect(Box::new(expr_v(*e))),
            HirCallee::Closure(l) => CalleeV::Closure(l),
            HirCallee::Runtime { name, ty } => CalleeV::Runtime { name: name@, ty },
        },
{
}

/// One level of `opt_expr_v`.
pub proof fn lemma_opt_expr_v(o: Option<HirExpr>)
    ensures
        opt_expr_v(o) == match o {
            Some(e) => Some(expr_v(e)),
            None => None,
        },
{
}

/// One level of `opt_box_expr_v`.
pub proof fn lemma_opt_box_expr_v(o: Option<Box<HirExpr>>)
    ensures
        opt_box_expr_v(o) == match o {
            Some(e) => Some(Box::new(expr_v(*e))),
            None => None,
        },
{
}

/// One level of `opt_box_stmt_v`.
pub proof fn lemma_opt_box_stmt_v(o: Option<Box<HirStmt>>)
    ensures
        opt_box_stmt_v(o) == match o {
            Some(s) => Some(Box::new(stmt_v(*s))),
            None => None,
        },
{
}

/// One level of `opt_catch_v`.
pub proof fn lemma_opt_catch_v(o: Option<HirCatchClause>)
    ensures
        opt_catch_v(o) == match o {
            Some(c) => Some(catch_v(c)),
            None => None,
        },
{
}

impl View for HirExpr {
    type V = ExprV;

    open spec fn view(&self) -> ExprV {
        expr_v(*self)
    }
}

impl View for HirCallee {
    type V = CalleeV;

    open spec fn view(&self) -> CalleeV {
        callee_v(*self)
    }
}

impl View for ObjectLiteralField {
    type V = OFieldV;

    open spec fn view(&self) -> OFieldV {
        ofield_v(*self)
    }
}

impl View for HirStmt {
    type V = StmtV;

    open spec fn view(&self) -> StmtV {
        stmt_v(*self)
    }
}

impl View for HirSwitchCase {
    type V = CaseV;

    open spec fn view(&self) -> CaseV {
        case_v(*self)
    }
}

impl View for HirCatchClause {
    type V = CatchV;

    open spec fn view(&self) -> CatchV {
        catch_v(*self)
    }
}

impl View for HirDecl {
    type V = DeclV;

    open spec fn view(&self) -> DeclV {
        decl_v(*self)
    }
}

impl View for HirFunction {
    type V = FunctionV;

    open spec fn view(&self) -> FunctionV {
        func_v(*self)
    }
}

impl View for HirClass {
    type V = ClassV;

    open spec fn view(&self) -> ClassV {
        class_v(*self)
    }
}

impl View for HirParam {
    type V = ParamV;

    open spec fn view(&self) -> ParamV {
        param_v(*self)
    }
}

impl View for HirField {
    type V = HFieldV;

    open spec fn view(&self) -> HFieldV {
        hfield_v(*self)
    }
}

impl View for HirEnumVariant {
    type V = VariantV;

    open spec fn view(&self) -> VariantV {
        variant_v(*self)
    }
}

} // verus!
