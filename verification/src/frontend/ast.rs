//! The TypeScript syntax that the frontend lowers: a parsed module, kept as
//! plain values. Numbers are the bits of their IEEE 754 double.
use vstd::prelude::*;
use crate::base::Span;

verus! {

#[derive(Debug, Clone, Copy, PartialEq, Eq, Structural)]
pub enum BinaryOperator {
    Equality,
    Inequality,
    StrictEquality,
    StrictInequality,
    LessThan,
    LessEqualThan,
    GreaterThan,
    GreaterEqualThan,
    Addition,
    Subtraction,
    Multiplication,
    Division,
    Remainder,
    Exponential,
    ShiftLeft,
    ShiftRight,
    ShiftRightZeroFill,
    BitwiseOR,
    BitwiseXOR,
    BitwiseAnd,
    In,
    Instanceof,
}

#[derive(Debug, Clone, Copy, PartialEq, Eq, Structural)]
pub enum LogicalOperator {
    Or,
    And,
    Coalesce,
}

#[derive(Debug, Clone, Copy, PartialEq, Eq, Structural)]
pub enum UnaryOperator {
    UnaryPlus,
    UnaryNegation,
    LogicalNot,
    BitwiseNot,
    Typeof,
    Void,
    Delete,
}

#[derive(Debug, Clone, Copy, PartialEq, Eq, Structural)]
pub enum AssignmentOperator {
    Assign,
    Addition,
    Subtraction,
    Multiplication,
    Division,
    Remainder,
    Exponential,
    ShiftLeft,
    ShiftRight,
    ShiftRightZeroFill,
    BitwiseOR,
    BitwiseXOR,
    BitwiseAnd,
    LogicalOr,
    LogicalAnd,
    LogicalNullish,
}

#[derive(Debug, Clone, Copy, PartialEq, Eq, Structural)]
pub enum UpdateOperator {
    Increment,
    Decrement,
}

/// The keyword types that the resolver tells apart.
#[derive(Debug, Clone, Copy, PartialEq, Eq, Structural)]
pub enum TsKeyword {
    Any,
    Unknown,
    Number,
    String,
    Boolean,
    Void,
    Undefined,
    Null,
    Never,
    Other,
}

/// The name of a type reference: a plain identifier, or a qualified name
/// or `this`.
#[derive(Debug)]
pub enum TypeName {
    Ident(String),
    Other,
}

/// An element of a tuple type.
#[derive(Debug)]
pub enum TupleElement {
    Type(TsType),
    Optional(Span),
    Rest(Span),
}

/// A parameter of a function type.
#[derive(Debug)]
pub struct FnTypeParam {
    pub annotation: Option<TsType>,
    pub span: Span,
}

/// A type annotation.
#[derive(Debug)]
pub enum TsType {
    Keyword(TsKeyword, Span),
    Reference { name: TypeName, args: Option<Vec<TsType>>, span: Span },
    NamedTupleMember { label: String, span: Span },
    Union(Vec<TsType>, Span),
    Intersection(Vec<TsType>, Span),
    Tuple(Vec<TupleElement>, Span),
    Array(Box<TsType>, Span),
    Function {
        params: Vec<FnTypeParam>,
        rest: Option<Box<FnTypeParam>>,
        ret: Box<TsType>,
        type_params: Option<Span>,
        this_param: Option<Span>,
        span: Span,
    },
    Other(Span),
}

/// A binding pattern.
#[derive(Debug)]
pub enum BindingPattern {
    Ident(String, Span),
    Assign(Box<BindingPattern>, Span),
    Object { props: Vec<BindingPattern>, rest: Option<Box<BindingPattern>>, span: Span },
    Array { elements: Vec<Option<BindingPattern>>, rest: Option<Box<BindingPattern>>, span: Span },
}

/// A formal parameter.
#[derive(Debug)]
pub struct Param {
    pub pattern: BindingPattern,
    pub annotation: Option<TsType>,
    pub span: Span,
}

/// A function declaration or expression, or a method's value.
#[derive(Debug)]
pub struct Function {
    pub id: Option<String>,
    pub type_params: Vec<String>,
    pub params: Vec<Param>,
    pub ret: Option<TsType>,
    pub body: Option<Vec<Stmt>>,
    pub is_async: bool,
    pub is_generator: bool,
    pub span: Span,
}

/// An arrow function. `expression` marks the `x => expr` form, whose body
/// holds the one expression statement.
#[derive(Debug)]
pub struct Arrow {
    pub is_async: bool,
    pub has_type_params: bool,
    pub has_rest: bool,
    pub params: Vec<Param>,
    pub ret: Option<TsType>,
    pub expression: bool,
    pub body: Vec<Stmt>,
    pub span: Span,
}

#[derive(Debug, Clone, Copy, PartialEq, Eq, Structural)]
pub enum MethodKind {
    Method,
    Constructor,
    Getter,
    Setter,
}

/// A member of a class body. `key` is the member's static name, if it has one.
#[derive(Debug)]
pub enum ClassMember {
    Property { key: Option<String>, annotation: Option<TsType> },
    Method { key: Option<String>, kind: MethodKind, is_static: bool, value: Function, span: Span },
    Other,
}

/// A class declaration or expression.
#[derive(Debug)]
pub struct Class {
    pub id: Option<String>,
    pub type_params: Vec<String>,
    pub members: Vec<ClassMember>,
    pub super_class: Option<Box<Expr>>,
    pub span: Span,
}

/// A member access.
#[derive(Debug)]
pub enum Member {
    Static { object: Box<Expr>, property: String, span: Span },
    Computed { object: Box<Expr>, expression: Box<Expr>, span: Span },
    Private(Span),
}

/// A simple assignment target; `Wrapped` is a target inside a type
/// assertion or a non-null assertion, with the expression it wraps.
#[derive(Debug)]
pub enum SimpleTarget {
    Ident(String, Span),
    Member(Member),
    Wrapped(Option<Box<Expr>>),
}

/// The left side of an assignment.
#[derive(Debug)]
pub enum AssignTarget {
    Simple(SimpleTarget),
    Pattern(Span),
}

/// A call argument.
#[derive(Debug)]
pub enum Arg {
    Expr(Expr),
    Spread(Span),
}

/// An element of an array literal.
#[derive(Debug)]
pub enum ArrayElem {
    Expr(Expr),
    Spread(Expr, Span),
    Hole(Span),
}

/// The key of an object literal property.
#[derive(Debug)]
pub enum PropKey {
    Named(String),
    Computed(Option<Box<Expr>>, Span),
}

/// A property of an object literal; `init` is false for accessors.
#[derive(Debug)]
pub enum ObjProp {
    Spread(Expr, Span),
    Prop { init: bool, key: PropKey, value: Expr, span: Span },
}

/// A template literal: its parts (cooked text, if valid, and raw text)
/// and the expressions between them.
#[derive(Debug)]
pub struct Template {
    pub quasis: Vec<(Option<String>, String)>,
    pub exprs: Vec<Expr>,
    pub span: Span,
}

/// An expression.
#[derive(Debug)]
pub enum Expr {
    Bool(bool, Span),
    Number(u64, Span),
    Str(String, Span),
    Null(Span),
    Ident(String, Span),
    This(Span),
    Paren(Box<Expr>, Span),
    Binary { op: BinaryOperator, left: Box<Expr>, right: Box<Expr>, span: Span },
    Logical { op: LogicalOperator, left: Box<Expr>, right: Box<Expr>, span: Span },
    Unary { op: UnaryOperator, arg: Box<Expr>, span: Span },
    Update { op: UpdateOperator, prefix: bool, target: SimpleTarget, span: Span },
    Call { callee: Box<Expr>, args: Vec<Arg>, type_args: Option<Vec<TsType>>, span: Span },
    New { callee: Box<Expr>, args: Vec<Arg>, span: Span },
    Member(Member),
    Assign { op: AssignmentOperator, target: AssignTarget, value: Box<Expr>, span: Span },
    Await(Box<Expr>, Span),
    Yield { arg: Option<Box<Expr>>, delegate: bool, span: Span },
    Template(Template),
    TaggedTemplate { tag: Box<Expr>, quasi: Template, span: Span },
    Array(Vec<ArrayElem>, Span),
    Object(Vec<ObjProp>, Span),
    Conditional { test: Box<Expr>, cons: Box<Expr>, alt: Box<Expr>, span: Span },
    Sequence(Vec<Expr>, Span),
    Class(Box<Class>),
    RegExp { pattern: String, flags: String, span: Span },
    BigInt { value: String, span: Span },
    Import { source: Box<Expr>, has_options: bool, has_phase: bool, span: Span },
    Arrow(Box<Arrow>),
    Other(Span),
}

/// One declarator of a variable declaration.
#[derive(Debug)]
pub struct Declarator {
    pub id: BindingPattern,
    pub annotation: Option<TsType>,
    pub init: Option<Expr>,
    pub span: Span,
}

/// A `let`, `const` or `var` declaration.
#[derive(Debug)]
pub struct VarDecl {
    pub declarations: Vec<Declarator>,
    pub span: Span,
}

/// The start of a C-style `for`.
#[derive(Debug)]
pub enum ForInit {
    Var(VarDecl),
    Expr(Expr),
}

/// The binding of a `for ... of` or `for ... in`.
#[derive(Debug)]
pub enum ForLeft {
    Var(VarDecl),
    Target(AssignTarget, Span),
}

/// One case of a `switch`.
#[derive(Debug)]
pub struct SwitchCase {
    pub test: Option<Expr>,
    pub body: Vec<Stmt>,
}

/// A declaration.
#[derive(Debug)]
pub enum Decl {
    Function(Function),
    Class(Class),
    TypeAlias { name: String, ty: TsType, span: Span },
    Enum { name: String, members: Vec<String>, span: Span },
    Interface { name: String, span: Span },
    Var(VarDecl),
    /// A namespace, `declare global`, or import-equals declaration; `import_equals`
    /// tells the last apart.
    Unsupported { import_equals: bool, span: Span },
}

/// One specifier of an import declaration.
#[derive(Debug)]
pub enum ImportSpec {
    Named { imported: String, local: String },
    Default { local: String },
    Namespace { local: String },
}

/// A statement.
#[derive(Debug)]
pub enum Stmt {
    Block(Vec<Stmt>, Span),
    Decl(Decl),
    Expr(Expr, Span),
    Return(Option<Expr>, Span),
    If { test: Expr, cons: Box<Stmt>, alt: Option<Box<Stmt>>, span: Span },
    While { test: Expr, body: Box<Stmt>, span: Span },
    DoWhile { body: Box<Stmt>, test: Expr, span: Span },
    For { init: Option<ForInit>, test: Option<Expr>, update: Option<Expr>, body: Box<Stmt>, span: Span },
    ForOf { left: ForLeft, right: Expr, body: Box<Stmt>, span: Span },
    ForIn { left: ForLeft, right: Expr, body: Box<Stmt>, span: Span },
    Switch { disc: Expr, cases: Vec<SwitchCase>, span: Span },
    Throw(Expr, Span),
    Break { label: Option<String>, span: Span },
    Continue { label: Option<String>, span: Span },
    Labeled(Box<Stmt>, Span),
    Empty(Span),
    Other(Span),
    ExportNamed { decl: Option<Decl>, specifiers: Vec<(String, String)>, has_source: bool, span: Span },
    Import { source: String, specifiers: Option<Vec<ImportSpec>>, span: Span },
    ExportDefault(Span),
    ExportAll(Span),
    ExportAssignment(Span),
    NamespaceExport(Span),
}

/// A parsed module: its statements, and whether it is an ES module.
#[derive(Debug)]
pub struct Program {
    pub body: Vec<Stmt>,
    pub module: bool,
    pub source_len: u32,
}

/// The name a binding pattern binds, when it binds exactly one
/// identifier (possibly with a default value).
pub open spec fn pattern_name(p: BindingPattern) -> Option<Seq<char>>
    decreases p,
{
    match p {
        BindingPattern::Ident(name, _) => Some(name@),
        BindingPattern::Assign(left, _) => pattern_name(*left),
        _ => None,
    }
}

/// The name a binding pattern binds, when it binds exactly one identifier.
pub fn binding_pattern_name(p: &BindingPattern) -> (r: Option<String>)
    ensures
        match r {
            Some(s) => pattern_name(*p) == Some(s@),
            None => pattern_name(*p) is None,
        },
    decreases p,
{
    match p {
        BindingPattern::Ident(name, _) => Some(crate::text::string_clone(name)),
        BindingPattern::Assign(left, _) => binding_pattern_name(left),
        _ => None,
    }
}

/// The span of a statement.
pub open spec fn stmt_span_spec(s: Stmt) -> Span {
    match s {
        Stmt::Block(_, span) => span,
        Stmt::Decl(d) => decl_span_spec(d),
        Stmt::Expr(_, span) => span,
        Stmt::Return(_, span) => span,
        Stmt::If { span, .. } => span,
        Stmt::While { span, .. } => span,
        Stmt::DoWhile { span, .. } => span,
        Stmt::For { span, .. } => span,
        Stmt::ForOf { span, .. } => span,
        Stmt::ForIn { span, .. } => span,
        Stmt::Switch { span, .. } => span,
        Stmt::Throw(_, span) => span,
        Stmt::Break { span, .. } => span,
        Stmt::Continue { span, .. } => span,
        Stmt::Labeled(_, span) => span,
        Stmt::Empty(span) => span,
        Stmt::Other(span) => span,
        Stmt::ExportNamed { span, .. } => span,
        Stmt::Import { span, .. } => span,
        Stmt::ExportDefault(span) => span,
        Stmt::ExportAll(span) => span,
        Stmt::ExportAssignment(span) => span,
        Stmt::NamespaceExport(span) => span,
    }
}

/// The span of a declaration.
pub open spec fn decl_span_spec(d: Decl) -> Span {
    match d {
        Decl::Function(f) => f.span,
        Decl::Class(c) => c.span,
        Decl::TypeAlias { span, .. } => span,
        Decl::Enum { span, .. } => span,
        Decl::Interface { span, .. } => span,
        Decl::Var(v) => v.span,
        Decl::Unsupported { span, .. } => span,
    }
}

/// The span of a statement, computed.
pub fn stmt_span(s: &Stmt) -> (r: Span)
    ensures
        r == stmt_span_spec(*s),
{
    match s {
        Stmt::Block(_, span) => *span,
        Stmt::Decl(d) => decl_span(d),
        Stmt::Expr(_, span) => *span,
        Stmt::Return(_, span) => *span,
        Stmt::If { span, .. } => *span,
        Stmt::While { span, .. } => *span,
        Stmt::DoWhile { span, .. } => *span,
        Stmt::For { span, .. } => *span,
        Stmt::ForOf { span, .. } => *span,
        Stmt::ForIn { span, .. } => *span,
        Stmt::Switch { span, .. } => *span,
        Stmt::Throw(_, span) => *span,
        Stmt::Break { span, .. } => *span,
        Stmt::Continue { span, .. } => *span,
        Stmt::Labeled(_, span) => *span,
        Stmt::Empty(span) => *span,
        Stmt::Other(span) => *span,
        Stmt::ExportNamed { span, .. } => *span,
        Stmt::Import { span, .. } => *span,
        Stmt::ExportDefault(span) => *span,
        Stmt::ExportAll(span) => *span,
        Stmt::ExportAssignment(span) => *span,
        Stmt::NamespaceExport(span) => *span,
    }
}

/// The span of a declaration, computed.
pub fn decl_span(d: &Decl) -> (r: Span)
    ensures
        r == decl_span_spec(*d),
{
    match d {
        Decl::Function(f) => f.span,
        Decl::Class(c) => c.span,
        Decl::TypeAlias { span, .. } => *span,
        Decl::Enum { span, .. } => *span,
        Decl::Interface { span, .. } => *span,
        Decl::Var(v) => v.span,
        Decl::Unsupported { span, .. } => *span,
    }
}

/// The span of a type annotation.
pub open spec fn ts_span(t: TsType) -> Span {
    match t {
        TsType::Keyword(_, span) => span,
        TsType::Reference { span, .. } => span,
        TsType::NamedTupleMember { span, .. } => span,
        TsType::Union(_, span) => span,
        TsType::Intersection(_, span) => span,
        TsType::Tuple(_, span) => span,
        TsType::Array(_, span) => span,
        TsType::Function { span, .. } => span,
        TsType::Other(span) => span,
    }
}

/// The span of a type annotation.
pub fn ts_type_span(t: &TsType) -> (r: Span)
    ensures
        r == ts_span(*t),
{
    match t {
        TsType::Keyword(_, span) => *span,
        TsType::Reference { span, .. } => *span,
        TsType::NamedTupleMember { span, .. } => *span,
        TsType::Union(_, span) => *span,
        TsType::Intersection(_, span) => *span,
        TsType::Tuple(_, span) => *span,
        TsType::Array(_, span) => *span,
        TsType::Function { span, .. } => *span,
        TsType::Other(span) => *span,
    }
}

/// The span of a binding pattern.
pub(crate) fn pattern_span(p: &BindingPattern) -> (r: Span) {
    match p {
        BindingPattern::Ident(_, span) => *span,
        BindingPattern::Assign(_, span) => *span,
        BindingPattern::Object { span, .. } => *span,
        BindingPattern::Array { span, .. } => *span,
    }
}

/// The span of an expression node as written in the source.
pub(crate) fn expr_node_span(e: &Expr) -> (r: Span) {
    match e {
        Expr::Bool(_, s) | Expr::Number(_, s) | Expr::Str(_, s) | Expr::Null(s) | Expr::Ident(_, s) | Expr::This(s)
        | Expr::Paren(_, s) | Expr::Await(_, s) | Expr::Array(_, s) | Expr::Object(_, s) | Expr::Sequence(_, s)
        | Expr::Other(s) => *s,
        Expr::Binary { span, .. } | Expr::Logical { span, .. } | Expr::Unary { span, .. } | Expr::Update { span, .. }
        | Expr::Call { span, .. } | Expr::New { span, .. } | Expr::Assign { span, .. } | Expr::Yield { span, .. }
        | Expr::TaggedTemplate { span, .. } | Expr::Conditional { span, .. } | Expr::RegExp { span, .. }
        | Expr::BigInt { span, .. } | Expr::Import { span, .. } => *span,
        Expr::Member(m) => match m {
            Member::Static { span, .. } | Member::Computed { span, .. } => *span,
            Member::Private(span) => *span,
        },
        Expr::Template(t) => t.span,
        Expr::Class(c) => c.span,
        Expr::Arrow(a) => a.span,
    }
}

} // verus!
