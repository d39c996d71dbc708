//! HIR expressions.
use vstd::prelude::*;
use crate::base::{FieldId, FunctionId, LocalId, Span, TypeId};
use crate::hir::decl::HirParam;
use crate::hir::stmt::HirStmt;
use crate::hir::view::{ExprV, ofield_value, expr_v, OFieldV};

verus! {

#[derive(Debug, Clone, Copy, PartialEq, Eq, Structural, Hash)]
pub enum HirBinaryOp {
    Add,
    Sub,
    Mul,
    Div,
    Mod,
    Eq,
    Ne,
    Lt,
    Le,
    Gt,
    Ge,
    And,
    Or,
    BitAnd,
    BitOr,
    BitXor,
    Shl,
    Shr,
    Usr,
    In,
    InstanceOf,
}

#[derive(Debug, Clone, Copy, PartialEq, Eq, Structural, Hash)]
pub enum HirUnaryOp {
    Neg,
    Not,
    BitNot,
    TypeOf,
    Void,
    Delete,
}

#[derive(Debug, PartialEq, Eq, Hash)]
pub enum HirCallee {
    Function(FunctionId),
    Indirect(Box<HirExpr>),
    Closure(LocalId),
    Runtime { name: String, ty: TypeId },
}

#[derive(Debug, PartialEq, Eq, Hash)]
pub enum HirExpr {
    Unit(Span),
    Bool(bool, Span),
    Int(i64, Span),
    Float(u64, Span),
    String(String, Span),
    Null(Span),
    Undefined(Span),
    Local { id: LocalId, ty: TypeId, span: Span },
    Global { name: String, ty: TypeId, span: Span },
    Field { owner: Box<HirExpr>, field: FieldId, field_name: String, ty: TypeId, span: Span },
    Index { owner: Box<HirExpr>, index: Box<HirExpr>, ty: TypeId, span: Span },
    Call { callee: HirCallee, args: Vec<HirExpr>, type_args: Vec<TypeId>, ty: TypeId, span: Span },
    Binary { op: HirBinaryOp, lhs: Box<HirExpr>, rhs: Box<HirExpr>, ty: TypeId, span: Span },
    Unary { op: HirUnaryOp, expr: Box<HirExpr>, ty: TypeId, span: Span },
    StructLiteral { ty: TypeId, fields: Vec<(FieldId, HirExpr)>, span: Span },
    ObjectLiteral { fields: Vec<ObjectLiteralField>, ty: TypeId, span: Span },
    Ternary {
        cond: Box<HirExpr>,
        then_branch: Box<HirExpr>,
        else_branch: Box<HirExpr>,
        ty: TypeId,
        span: Span,
    },
    ArrayLiteral { elements: Vec<HirExpr>, ty: TypeId, span: Span },
    Closure {
        id: LocalId,
        params: Vec<HirParam>,
        captures: Vec<HirExpr>,
        body: Vec<HirStmt>,
        ty: TypeId,
        span: Span,
    },
    Await { expr: Box<HirExpr>, ty: TypeId, span: Span },
    Yield { expr: Option<Box<HirExpr>>, ty: TypeId, span: Span },
    Template {
        tag: Option<Box<HirExpr>>,
        expressions: Vec<HirExpr>,
        cooked_parts: Vec<Option<String>>,
        raw_parts: Vec<Option<String>>,
        ty: TypeId,
        span: Span,
    },
    New { callee: Box<HirExpr>, args: Vec<HirExpr>, ty: TypeId, span: Span },
    OptionalChain { base: Box<HirExpr>, ty: TypeId, span: Span },
    TypeAssertion { expr: Box<HirExpr>, target: TypeId, span: Span },
    Assignment { target: Box<HirExpr>, value: Box<HirExpr>, ty: TypeId, span: Span },
    CompoundUpdate {
        target: Box<HirExpr>,
        op: HirBinaryOp,
        rhs: Box<HirExpr>,
        post: bool,
        ty: TypeId,
        span: Span,
    },
    Sequence { exprs: Vec<HirExpr>, ty: TypeId, span: Span },
    RegExp { pattern: String, flags: String, ty: TypeId, span: Span },
    BigInt { value: String, ty: TypeId, span: Span },
    Import { source: Box<HirExpr>, ty: TypeId, span: Span },
}

#[derive(Debug, PartialEq, Eq, Hash)]
pub enum ObjectLiteralField {
    Property { name: String, value: HirExpr },
    Spread(HirExpr),
}

/// The type recorded on an expression; literals carry the type id 0.
pub open spec fn expr_ty(e: ExprV) -> TypeId {
    match e {
        ExprV::Unit(_) | ExprV::Null(_) | ExprV::Undefined(_) | ExprV::Bool(..) | ExprV::Int(..)
        | ExprV::Float(..) | ExprV::String(..) => TypeId(0),
        ExprV::Local { ty, .. } => ty,
        ExprV::Global { ty, .. } => ty,
        ExprV::Field { ty, .. } => ty,
        ExprV::Index { ty, .. } => ty,
        ExprV::Call { ty, .. } => ty,
        ExprV::Binary { ty, .. } => ty,
        ExprV::Unary { ty, .. } => ty,
        ExprV::StructLiteral { ty, .. } => ty,
        ExprV::ObjectLiteral { ty, .. } => ty,
        ExprV::Ternary { ty, .. } => ty,
        ExprV::ArrayLiteral { ty, .. } => ty,
        ExprV::Closure { ty, .. } => ty,
        ExprV::Await { ty, .. } => ty,
        ExprV::Yield { ty, .. } => ty,
        ExprV::Template { ty, .. } => ty,
        ExprV::New { ty, .. } => ty,
        ExprV::OptionalChain { ty, .. } => ty,
        ExprV::TypeAssertion { target, .. } => target,
        ExprV::Assignment { ty, .. } => ty,
        ExprV::CompoundUpdate { ty, .. } => ty,
        ExprV::Sequence { ty, .. } => ty,
        ExprV::RegExp { ty, .. } => ty,
        ExprV::BigInt { ty, .. } => ty,
        ExprV::Import { ty, .. } => ty,
    }
}

/// The source span recorded on an expression.
pub open spec fn expr_span(e: ExprV) -> Span {
    match e {
        ExprV::Unit(s) => s,
        ExprV::Bool(_, s) => s,
        ExprV::Int(_, s) => s,
        ExprV::Float(_, s) => s,
        ExprV::String(_, s) => s,
        ExprV::Null(s) => s,
        ExprV::Undefined(s) => s,
        ExprV::Local { span, .. } => span,
        ExprV::Global { span, .. } => span,
        ExprV::Field { span, .. } => span,
        ExprV::Index { span, .. } => span,
        ExprV::Call { span, .. } => span,
        ExprV::Binary { span, .. } => span,
        ExprV::Unary { span, .. } => span,
        ExprV::StructLiteral { span, .. } => span,
        ExprV::ObjectLiteral { span, .. } => span,
        ExprV::Ternary { span, .. } => span,
        ExprV::ArrayLiteral { span, .. } => span,
        ExprV::Closure { span, .. } => span,
        ExprV::Await { span, .. } => span,
        ExprV::Yield { span, .. } => span,
        ExprV::Template { span, .. } => span,
        ExprV::New { span, .. } => span,
        ExprV::OptionalChain { span, .. } => span,
        ExprV::TypeAssertion { span, .. } => span,
        ExprV::Assignment { span, .. } => span,
        ExprV::CompoundUpdate { span, .. } => span,
        ExprV::Sequence { span, .. } => span,
        ExprV::RegExp { span, .. } => span,
        ExprV::BigInt { span, .. } => span,
        ExprV::Import { span, .. } => span,
    }
}

impl HirExpr {
    /// The type recorded on this expression.
    pub fn ty(&self) -> (t: TypeId)
        ensures
            t == expr_ty(self@),
    {
        match self {
            HirExpr::Unit(_) | HirExpr::Null(_) | HirExpr::Undefined(_) => TypeId(0),
            HirExpr::Bool(_, _) | HirExpr::Int(_, _) | HirExpr::Float(_, _) | HirExpr::String(_, _) => TypeId(0),
            HirExpr::Local { ty, .. } => *ty,
            HirExpr::Global { ty, .. } => *ty,
            HirExpr::Field { ty, .. } => *ty,
            HirExpr::Index { ty, .. } => *ty,
            HirExpr::Call { ty, .. } => *ty,
            HirExpr::Binary { ty, .. } => *ty,
            HirExpr::Unary { ty, .. } => *ty,
            HirExpr::StructLiteral { ty, .. } => *ty,
            HirExpr::ObjectLiteral { ty, .. } => *ty,
            HirExpr::Ternary { ty, .. } => *ty,
            HirExpr::ArrayLiteral { ty, .. } => *ty,
            HirExpr::Closure { ty, .. } => *ty,
            HirExpr::Await { ty, .. } => *ty,
            HirExpr::Yield { ty, .. } => *ty,
            HirExpr::Template { ty, .. } => *ty,
            HirExpr::New { ty, .. } => *ty,
            HirExpr::OptionalChain { ty, .. } => *ty,
            HirExpr::TypeAssertion { target, .. } => *target,
            HirExpr::Assignment { ty, .. } => *ty,
            HirExpr::CompoundUpdate { ty, .. } => *ty,
            HirExpr::Sequence { ty, .. } => *ty,
            HirExpr::RegExp { ty, .. } => *ty,
            HirExpr::BigInt { ty, .. } => *ty,
            HirExpr::Import { ty, .. } => *ty,
        }
    }

    /// The source span recorded on this expression.
    pub fn span(&self) -> (s: Span)
        ensures
            s == expr_span(self@),
    {
        match self {
            HirExpr::Unit(s) => *s,
            HirExpr::Bool(_, s) => *s,
            HirExpr::Int(_, s) => *s,
            HirExpr::Float(_, s) => *s,
            HirExpr::String(_, s) => *s,
            HirExpr::Null(s) => *s,
            HirExpr::Undefined(s) => *s,
            HirExpr::Local { span, .. } => *span,
            HirExpr::Global { span, .. } => *span,
            HirExpr::Field { span, .. } => *span,
            HirExpr::Index { span, .. } => *span,
            HirExpr::Call { span, .. } => *span,
            HirExpr::Binary { span, .. } => *span,
            HirExpr::Unary { span, .. } => *span,
            HirExpr::StructLiteral { span, .. } => *span,
            HirExpr::ObjectLiteral { span, .. } => *span,
            HirExpr::Ternary { span, .. } => *span,
            HirExpr::ArrayLiteral { span, .. } => *span,
            HirExpr::Closure { span, .. } => *span,
            HirExpr::Await { span, .. } => *span,
            HirExpr::Yield { span, .. } => *span,
            HirExpr::Template { span, .. } => *span,
            HirExpr::New { span, .. } => *span,
            HirExpr::OptionalChain { span, .. } => *span,
            HirExpr::TypeAssertion { span, .. } => *span,
            HirExpr::Assignment { span, .. } => *span,
            HirExpr::CompoundUpdate { span, .. } => *span,
            HirExpr::Sequence { span, .. } => *span,
            HirExpr::RegExp { span, .. } => *span,
            HirExpr::BigInt { span, .. } => *span,
            HirExpr::Import { span, .. } => *span,
        }
    }
}

impl ObjectLiteralField {
    /// The value expression of the field, whichever its kind.
    pub fn value(&self) -> (v: &HirExpr)
        ensures
            v@ == ofield_value(self@),
    {
        match self {
            ObjectLiteralField::Property { value, .. } => value,
            ObjectLiteralField::Spread(value) => value,
        }
    }

    /// Mutable access to the value expression of the field; the field's
    /// kind and name are unchanged.
    pub fn value_mut(&mut self) -> (v: &mut HirExpr)
        ensures
            *v == match *old(self) {
                ObjectLiteralField::Property { value, .. } => value,
                ObjectLiteralField::Spread(value) => value,
            },
            *final(self) == match *old(self) {
                ObjectLiteralField::Property { name, .. } => ObjectLiteralField::Property { name, value: *final(v) },
                ObjectLiteralField::Spread(_) => ObjectLiteralField::Spread(*final(v)),
            },
    {
        match self {
            ObjectLiteralField::Property { value, .. } => value,
            ObjectLiteralField::Spread(value) => value,
        }
    }
}

} // verus!
