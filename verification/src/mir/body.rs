//! The mid-level IR: blocks of statements over typed places and expressions.
use vstd::prelude::*;
use crate::base::{FieldId, FunctionId, LocalId, StructId, TypeId};

verus! {

/// A parameter of a lowered function or closure.
#[derive(Debug, Clone, PartialEq, Eq, Hash)]
pub struct MirParam {
    pub id: LocalId,
    pub name: String,
    pub ty: TypeId,
}

/// A sequence of statements.
#[derive(Debug, PartialEq)]
pub struct MirBlock {
    pub stmts: Vec<MirStmt>,
}

impl MirBlock {
    pub fn new() -> (b: MirBlock)
        ensures
            b.stmts@ == Seq::<MirStmt>::empty(),
    {
        MirBlock { stmts: Vec::new() }
    }

    /// A block holding the single statement `stmt`.
    pub fn with(stmt: MirStmt) -> (b: MirBlock)
        ensures
            b.stmts@ == seq![stmt],
    {
        let mut stmts: Vec<MirStmt> = Vec::new();
        stmts.push(stmt);
        MirBlock { stmts }
    }

    pub fn push(&mut self, stmt: MirStmt)
        ensures
            final(self).stmts@ == old(self).stmts@.push(stmt),
    {
        self.stmts.push(stmt);
    }

    pub fn len(&self) -> (n: usize)
        ensures
            n == self.stmts@.len(),
    {
        self.stmts.len()
    }

    pub fn is_empty(&self) -> (b: bool)
        ensures
            b == (self.stmts@.len() == 0),
    {
        self.stmts.len() == 0
    }
}

/// The locals and the top-level block of a lowered function.
#[derive(Debug, PartialEq)]
pub struct MirBody {
    pub locals: Vec<MirLocalDecl>,
    pub block: MirBlock,
}

/// A local binding of a body.
#[derive(Debug, Clone, PartialEq, Eq, Hash)]
pub struct MirLocalDecl {
    pub id: LocalId,
    pub name: String,
    pub ty: TypeId,
    pub mutable: bool,
}

#[derive(Debug, PartialEq)]
pub enum MirStmt {
    Let { local: LocalId, ty: TypeId, init: Option<MirExpr>, mutable: bool },
    Assign { target: MirPlace, value: MirExpr },
    Expr(MirExpr),
    Return(Option<MirExpr>),
    ReturnResultErr { error: MirExpr, err_ty: TypeId },
    Throw { error: MirExpr, error_ty: TypeId },
    If { cond: MirExpr, then_block: MirBlock, else_block: Option<MirBlock> },
    While { cond: MirExpr, body: MirBlock },
    DoWhile { body: MirBlock, cond: MirExpr },
    ForOf { item: LocalId, iterable: MirExpr, iter_ty: TypeId, body: MirBlock },
    ForAwaitOf { item: LocalId, iterable: MirExpr, iter_ty: TypeId, body: MirBlock },
    ForIn { key: LocalId, object: MirExpr, body: MirBlock },
    Break,
    Continue,
    /// A call into the runtime. `ty` is the result type, the type of `dest`
    /// when there is one; `target_ty` overrides the type argument of generic
    /// runtime calls when it differs from the result type.
    Runtime { op: RuntimeOp, args: Vec<MirExpr>, dest: Option<LocalId>, ty: TypeId, target_ty: Option<TypeId> },
    Switch { disc: Box<MirExpr>, cases: Vec<SwitchCase>, default: Option<MirBlock> },
    Try { body: MirBlock, catch_param: Option<LocalId>, catch: Option<MirBlock>, finally: Option<MirBlock> },
}

/// One arm of a `switch` over constants.
#[derive(Debug, PartialEq)]
pub struct SwitchCase {
    pub value: ConstValue,
    pub body: MirBlock,
}

#[derive(Debug, PartialEq)]
pub enum ConstValue {
    Int(i128),
    String(String),
}

/// A place that can be assigned to.
#[derive(Debug, PartialEq)]
pub enum MirPlace {
    Local { id: LocalId },
    Field { base: Box<MirPlaceBase>, field: FieldId, ty: TypeId },
    Index { base: Box<MirExpr>, index: Box<MirExpr>, ty: TypeId },
}

/// The base of a place projection.
#[derive(Debug, PartialEq)]
pub enum MirPlaceBase {
    Local(LocalId),
    Field { base: Box<MirPlaceBase>, field: FieldId, ty: TypeId },
    Index { base: Box<MirExpr>, index: Box<MirExpr>, ty: TypeId },
    Chain { base: Box<MirExpr>, ty: TypeId },
}

/// The type recorded on a place: none for a bare local.
pub open spec fn place_ty(p: MirPlace) -> Option<TypeId> {
    match p {
        MirPlace::Local { .. } => None,
        MirPlace::Field { ty, .. } => Some(ty),
        MirPlace::Index { ty, .. } => Some(ty),
    }
}

/// The type recorded on a place base: none for a bare local.
pub open spec fn place_base_ty(p: MirPlaceBase) -> Option<TypeId> {
    match p {
        MirPlaceBase::Local(_) => None,
        MirPlaceBase::Field { ty, .. } => Some(ty),
        MirPlaceBase::Index { ty, .. } => Some(ty),
        MirPlaceBase::Chain { ty, .. } => Some(ty),
    }
}

impl MirPlace {
    pub fn ty(&self) -> (t: Option<TypeId>)
        ensures
            t == place_ty(*self),
    {
        match self {
            MirPlace::Local { .. } => None,
            MirPlace::Field { ty, .. } => Some(*ty),
            MirPlace::Index { ty, .. } => Some(*ty),
        }
    }
}

impl MirPlaceBase {
    pub fn ty(&self) -> (t: Option<TypeId>)
        ensures
            t == place_base_ty(*self),
    {
        match self {
            MirPlaceBase::Local(_) => None,
            MirPlaceBase::Field { ty, .. } => Some(*ty),
            MirPlaceBase::Index { ty, .. } => Some(*ty),
            MirPlaceBase::Chain { ty, .. } => Some(*ty),
        }
    }
}

#[derive(Debug, Clone, Copy, PartialEq, Eq, Structural, Hash)]
pub enum BinaryOp {
    Add,
    Sub,
    Mul,
    Div,
    Mod,
    Eq,
    Ne,
    Lt,
    Le,
    Gt,
    Ge,
    And,
    Or,
    BitAnd,
    BitOr,
    BitXor,
    Shl,
    Shr,
}

#[derive(Debug, Clone, Copy, PartialEq, Eq, Structural, Hash)]
pub enum UnaryOp {
    Neg,
    Not,
    BitNot,
}

/// A MIR expression. Floating-point constants are kept as the bits of
/// their IEEE 754 double.
#[derive(Debug, PartialEq)]
pub enum MirExpr {
    Unit,
    Bool(bool),
    Int { value: i128, ty: TypeId },
    Float { bits: u64, ty: TypeId },
    String { id: String, ty: TypeId },
    Null { ty: TypeId },
    Local(LocalId),
    Global(String),
    Field { base: Box<MirExpr>, field: FieldId, ty: TypeId },
    Index { base: Box<MirExpr>, index: Box<MirExpr>, ty: TypeId },
    Call { callee: FunctionId, args: Vec<MirExpr>, ty: TypeId },
    IndirectCall { callee: Box<MirExpr>, args: Vec<MirExpr>, ty: TypeId },
    StructLiteral { struct_id: StructId, fields: Vec<(FieldId, MirExpr)>, ty: TypeId },
    ResultOk { value: Box<MirExpr>, ty: TypeId },
    ResultErr { error: Box<MirExpr>, ty: TypeId },
    Binary { op: BinaryOp, left: Box<MirExpr>, right: Box<MirExpr>, ty: TypeId },
    Unary { op: UnaryOp, expr: Box<MirExpr>, ty: TypeId },
    Await { expr: Box<MirExpr>, ty: TypeId },
    Yield { expr: Option<Box<MirExpr>>, ty: TypeId },
    Closure {
        params: Vec<MirParam>,
        captures: Vec<LocalId>,
        locals: Vec<MirLocalDecl>,
        body: MirBlock,
        ret_ty: TypeId,
        fn_ty: TypeId,
    },
    OptionalChain { base: Box<MirExpr>, ty: TypeId },
    TypeOf { expr: Box<MirExpr>, ty: TypeId },
    Cast { expr: Box<MirExpr>, ty: TypeId },
    TemplateStringsArray { cooked: Vec<String>, ty: TypeId },
    RegExp { pattern: String, flags: String, ty: TypeId },
    BigInt { value: String, ty: TypeId },
    Import { source: Box<MirExpr>, ty: TypeId },
}

/// The type recorded on an expression: none for unit, booleans, locals and
/// globals; a closure's type is its function type.
pub open spec fn mir_expr_ty(e: MirExpr) -> Option<TypeId> {
    match e {
        MirExpr::Unit | MirExpr::Bool(_) | MirExpr::Local(_) | MirExpr::Global(_) => None,
        MirExpr::Int { ty, .. } => Some(ty),
        MirExpr::Float { ty, .. } => Some(ty),
        MirExpr::String { ty, .. } => Some(ty),
        MirExpr::Null { ty } => Some(ty),
        MirExpr::Field { ty, .. } => Some(ty),
        MirExpr::Index { ty, .. } => Some(ty),
        MirExpr::Call { ty, .. } => Some(ty),
        MirExpr::IndirectCall { ty, .. } => Some(ty),
        MirExpr::StructLiteral { ty, .. } => Some(ty),
        MirExpr::ResultOk { ty, .. } => Some(ty),
        MirExpr::ResultErr { ty, .. } => Some(ty),
        MirExpr::Binary { ty, .. } => Some(ty),
        MirExpr::Unary { ty, .. } => Some(ty),
        MirExpr::Await { ty, .. } => Some(ty),
        MirExpr::Yield { ty, .. } => Some(ty),
        MirExpr::Closure { fn_ty, .. } => Some(fn_ty),
        MirExpr::OptionalChain { ty, .. } => Some(ty),
        MirExpr::TypeOf { ty, .. } => Some(ty),
        MirExpr::Cast { ty, .. } => Some(ty),
        MirExpr::TemplateStringsArray { ty, .. } => Some(ty),
        MirExpr::RegExp { ty, .. } => Some(ty),
        MirExpr::BigInt { ty, .. } => Some(ty),
        MirExpr::Import { ty, .. } => Some(ty),
    }
}

impl MirExpr {
    pub fn ty(&self) -> (t: Option<TypeId>)
        ensures
            t == mir_expr_ty(*self),
    {
        match self {
            MirExpr::Unit | MirExpr::Bool(_) | MirExpr::Local(_) | MirExpr::Global(_) => None,
            MirExpr::Int { ty, .. } => Some(*ty),
            MirExpr::Float { ty, .. } => Some(*ty),
            MirExpr::String { ty, .. } => Some(*ty),
            MirExpr::Null { ty } => Some(*ty),
            MirExpr::Field { ty, .. } => Some(*ty),
            MirExpr::Index { ty, .. } => Some(*ty),
            MirExpr::Call { ty, .. } => Some(*ty),
            MirExpr::IndirectCall { ty, .. } => Some(*ty),
            MirExpr::StructLiteral { ty, .. } => Some(*ty),
            MirExpr::ResultOk { ty, .. } => Some(*ty),
            MirExpr::ResultErr { ty, .. } => Some(*ty),
            MirExpr::Binary { ty, .. } => Some(*ty),
            MirExpr::Unary { ty, .. } => Some(*ty),
            MirExpr::Await { ty, .. } => Some(*ty),
            MirExpr::Yield { ty, .. } => Some(*ty),
            MirExpr::Closure { fn_ty, .. } => Some(*fn_ty),
            MirExpr::OptionalChain { ty, .. } => Some(*ty),
            MirExpr::TypeOf { ty, .. } => Some(*ty),
            MirExpr::Cast { ty, .. } => Some(*ty),
            MirExpr::TemplateStringsArray { ty, .. } => Some(*ty),
            MirExpr::RegExp { ty, .. } => Some(*ty),
            MirExpr::BigInt { ty, .. } => Some(*ty),
            MirExpr::Import { ty, .. } => Some(*ty),
        }
    }
}

/// An operation that the runtime library performs.
#[derive(Debug, Clone, Copy, PartialEq, Eq, Structural, Hash)]
pub enum RuntimeOp {
    StringConcat,
    StringEquals,
    StringLen,
    StringIndexOf,
    StringCharAt,
    StringFromCharCode,
    StringFromCodePoint,
    ArrayCreate,
    ArrayCreateWithLen,
    ArrayGet,
    ArraySet,
    ArrayLen,
    ArrayPush,
    ArrayFrom,
    ArrayFromString,
    ArrayFromMapped,
    ArrayFromLengthMapped,
    MapGet,
    MapSet,
    ResultOk,
    ResultErr,
    ResultUnwrapOk,
    PromiseCreate,
    PromiseResolve,
    PromiseAll,
    PromiseRace,
    PromiseAllSettled,
    PromiseAny,
    PromiseResolveStatic,
    PromiseRejectStatic,
    PromiseThenInstance,
    PromiseCatchInstance,
    PromiseFinallyInstance,
    HostConsoleLog,
    MathSqrt,
    MathAbs,
    MathFloor,
    MathCeil,
    MathRound,
    MathTrunc,
    MathSign,
    MathPow,
    MathLog,
    MathExp,
    MathSin,
    MathCos,
    MathTan,
    MathAsin,
    MathAcos,
    MathAtan,
    MathAtan2,
    MathMax,
    MathMin,
    MathRandom,
    TypeOf,
    OpIn,
    OpInstanceof,
    ObjectKeys,
    ArrayIsArray,
    ArrayIsArrayFalse,
    DateNow,
    DateNewFromMs,
    DateParse,
    DateValueOf,
    DateGetTime,
    DateGetFullYear,
    DateGetMonth,
    DateGetDate,
    DateGetHours,
    DateGetMinutes,
    DateGetSeconds,
    DateGetMilliseconds,
    DateToIsoString,
    DateIsInvalid,
    JsonParse,
    JsonParseString,
    JsonStringify,
    JsonStringifyString,
    SymbolNew,
    SymbolFor,
    SymbolKeyFor,
    ArrayBufferNew,
    ArrayBufferSlice,
    TypedArrayNew,
    WeakMapNew,
    WeakMapSet,
    WeakMapGet,
    WeakMapHas,
    WeakMapDelete,
    WeakMapClear,
    ArrayGetOrDefault,
    ArrayConcat,
    ArrayHole,
    GeneratorNext,
}

/// The operations that mutate their first argument in place.
pub open spec fn mutates_first_arg(op: RuntimeOp) -> bool {
    op == RuntimeOp::ArrayPush || op == RuntimeOp::ArraySet || op == RuntimeOp::MapSet
        || op == RuntimeOp::WeakMapSet || op == RuntimeOp::GeneratorNext
}

impl RuntimeOp {
    /// The position of the argument that the operation borrows mutably.
    pub fn mutably_borrowed_arg_index(&self) -> (r: Option<usize>)
        ensures
            r == (if mutates_first_arg(*self) { Some(0usize) } else { None }),
    {
        match self {
            RuntimeOp::ArrayPush | RuntimeOp::ArraySet | RuntimeOp::MapSet | RuntimeOp::WeakMapSet
            | RuntimeOp::GeneratorNext => Some(0),
            _ => None,
        }
    }
}

} // verus!
