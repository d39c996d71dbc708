//! Operators and literals of the source language as HIR operators and
//! expressions.
use vstd::prelude::*;
use crate::base::Span;
use crate::frontend::ast::{AssignmentOperator, BinaryOperator, LogicalOperator, UnaryOperator};
use crate::hir::expr::{HirBinaryOp, HirExpr, HirUnaryOp};
use crate::hir::view::ExprV;

verus! {

/// The HIR operator of a binary operator; exponentiation has none.
pub open spec fn binary_op_spec(op: BinaryOperator) -> Option<HirBinaryOp> {
    match op {
        BinaryOperator::Addition => Some(HirBinaryOp::Add),
        BinaryOperator::Subtraction => Some(HirBinaryOp::Sub),
        BinaryOperator::Multiplication => Some(HirBinaryOp::Mul),
        BinaryOperator::Division => Some(HirBinaryOp::Div),
        BinaryOperator::Remainder => Some(HirBinaryOp::Mod),
        BinaryOperator::Equality | BinaryOperator::StrictEquality => Some(HirBinaryOp::Eq),
        BinaryOperator::Inequality | BinaryOperator::StrictInequality => Some(HirBinaryOp::Ne),
        BinaryOperator::LessThan => Some(HirBinaryOp::Lt),
        BinaryOperator::LessEqualThan => Some(HirBinaryOp::Le),
        BinaryOperator::GreaterThan => Some(HirBinaryOp::Gt),
        BinaryOperator::GreaterEqualThan => Some(HirBinaryOp::Ge),
        BinaryOperator::BitwiseOR => Some(HirBinaryOp::BitOr),
        BinaryOperator::BitwiseXOR => Some(HirBinaryOp::BitXor),
        BinaryOperator::BitwiseAnd => Some(HirBinaryOp::BitAnd),
        BinaryOperator::ShiftLeft => Some(HirBinaryOp::Shl),
        BinaryOperator::ShiftRight => Some(HirBinaryOp::Shr),
        BinaryOperator::ShiftRightZeroFill => Some(HirBinaryOp::Usr),
        BinaryOperator::In => Some(HirBinaryOp::In),
        BinaryOperator::Instanceof => Some(HirBinaryOp::InstanceOf),
        BinaryOperator::Exponential => None,
    }
}

/// The HIR operator of a binary operator; exponentiation has none.
pub fn map_binary_op(op: BinaryOperator) -> (r: Option<HirBinaryOp>)
    ensures
        r == binary_op_spec(op),
{
    match op {
        BinaryOperator::Addition => Some(HirBinaryOp::Add),
        BinaryOperator::Subtraction => Some(HirBinaryOp::Sub),
        BinaryOperator::Multiplication => Some(HirBinaryOp::Mul),
        BinaryOperator::Division => Some(HirBinaryOp::Div),
        BinaryOperator::Remainder => Some(HirBinaryOp::Mod),
        BinaryOperator::Equality | BinaryOperator::StrictEquality => Some(HirBinaryOp::Eq),
        BinaryOperator::Inequality | BinaryOperator::StrictInequality => Some(HirBinaryOp::Ne),
        BinaryOperator::LessThan => Some(HirBinaryOp::Lt),
        BinaryOperator::LessEqualThan => Some(HirBinaryOp::Le),
        BinaryOperator::GreaterThan => Some(HirBinaryOp::Gt),
        BinaryOperator::GreaterEqualThan => Some(HirBinaryOp::Ge),
        BinaryOperator::BitwiseOR => Some(HirBinaryOp::BitOr),
        BinaryOperator::BitwiseXOR => Some(HirBinaryOp::BitXor),
        BinaryOperator::BitwiseAnd => Some(HirBinaryOp::BitAnd),
        BinaryOperator::ShiftLeft => Some(HirBinaryOp::Shl),
        BinaryOperator::ShiftRight => Some(HirBinaryOp::Shr),
        BinaryOperator::ShiftRightZeroFill => Some(HirBinaryOp::Usr),
        BinaryOperator::In => Some(HirBinaryOp::In),
        BinaryOperator::Instanceof => Some(HirBinaryOp::InstanceOf),
        BinaryOperator::Exponential => None,
    }
}

/// `&&` is `And`; `||` and `??` are both `Or`.
pub open spec fn logical_op_spec(op: LogicalOperator) -> HirBinaryOp {
    match op {
        LogicalOperator::And => HirBinaryOp::And,
        LogicalOperator::Or | LogicalOperator::Coalesce => HirBinaryOp::Or,
    }
}

/// `&&` is `And`; `||` and `??` are both `Or`.
pub fn map_logical_op(op: LogicalOperator) -> (r: HirBinaryOp)
    ensures
        r == logical_op_spec(op),
{
    match op {
        LogicalOperator::And => HirBinaryOp::And,
        LogicalOperator::Or | LogicalOperator::Coalesce => HirBinaryOp::Or,
    }
}

/// The HIR operator of a unary operator; unary plus has none.
pub open spec fn unary_op_spec(op: UnaryOperator) -> Option<HirUnaryOp> {
    match op {
        UnaryOperator::UnaryNegation => Some(HirUnaryOp::Neg),
        UnaryOperator::LogicalNot => Some(HirUnaryOp::Not),
        UnaryOperator::BitwiseNot => Some(HirUnaryOp::BitNot),
        UnaryOperator::Typeof => Some(HirUnaryOp::TypeOf),
        UnaryOperator::Void => Some(HirUnaryOp::Void),
        UnaryOperator::Delete => Some(HirUnaryOp::Delete),
        UnaryOperator::UnaryPlus => None,
    }
}

/// The HIR operator of a unary operator; unary plus has none.
pub fn map_unary_op(op: UnaryOperator) -> (r: Option<HirUnaryOp>)
    ensures
        r == unary_op_spec(op),
{
    match op {
        UnaryOperator::UnaryNegation => Some(HirUnaryOp::Neg),
        UnaryOperator::LogicalNot => Some(HirUnaryOp::Not),
        UnaryOperator::BitwiseNot => Some(HirUnaryOp::BitNot),
        UnaryOperator::Typeof => Some(HirUnaryOp::TypeOf),
        UnaryOperator::Void => Some(HirUnaryOp::Void),
        UnaryOperator::Delete => Some(HirUnaryOp::Delete),
        UnaryOperator::UnaryPlus => None,
    }
}

/// What an assignment operator does: a plain store, a store of a binary
/// operation, or nothing the HIR can say.
#[derive(Debug, Clone, Copy, PartialEq, Eq, Structural)]
pub enum CompoundOp {
    Assign,
    Binary(HirBinaryOp),
    Unsupported,
}

pub open spec fn compound_op_spec(op: AssignmentOperator) -> CompoundOp {
    match op {
        AssignmentOperator::Assign => CompoundOp::Assign,
        AssignmentOperator::Addition => CompoundOp::Binary(HirBinaryOp::Add),
        AssignmentOperator::Subtraction => CompoundOp::Binary(HirBinaryOp::Sub),
        AssignmentOperator::Multiplication => CompoundOp::Binary(HirBinaryOp::Mul),
        AssignmentOperator::Division => CompoundOp::Binary(HirBinaryOp::Div),
        AssignmentOperator::Remainder => CompoundOp::Binary(HirBinaryOp::Mod),
        AssignmentOperator::ShiftLeft => CompoundOp::Binary(HirBinaryOp::Shl),
        AssignmentOperator::ShiftRight => CompoundOp::Binary(HirBinaryOp::Shr),
        AssignmentOperator::ShiftRightZeroFill => CompoundOp::Binary(HirBinaryOp::Usr),
        AssignmentOperator::BitwiseOR => CompoundOp::Binary(HirBinaryOp::BitOr),
        AssignmentOperator::BitwiseXOR => CompoundOp::Binary(HirBinaryOp::BitXor),
        AssignmentOperator::BitwiseAnd => CompoundOp::Binary(HirBinaryOp::BitAnd),
        AssignmentOperator::LogicalAnd => CompoundOp::Binary(HirBinaryOp::And),
        AssignmentOperator::LogicalOr | AssignmentOperator::LogicalNullish => CompoundOp::Binary(HirBinaryOp::Or),
        AssignmentOperator::Exponential => CompoundOp::Unsupported,
    }
}

/// What an assignment operator does.
pub fn compound_op(op: AssignmentOperator) -> (r: CompoundOp)
    ensures
        r == compound_op_spec(op),
{
    match op {
        AssignmentOperator::Assign => CompoundOp::Assign,
        AssignmentOperator::Addition => CompoundOp::Binary(HirBinaryOp::Add),
        AssignmentOperator::Subtraction => CompoundOp::Binary(HirBinaryOp::Sub),
        AssignmentOperator::Multiplication => CompoundOp::Binary(HirBinaryOp::Mul),
        AssignmentOperator::Division => CompoundOp::Binary(HirBinaryOp::Div),
        AssignmentOperator::Remainder => CompoundOp::Binary(HirBinaryOp::Mod),
        AssignmentOperator::ShiftLeft => CompoundOp::Binary(HirBinaryOp::Shl),
        AssignmentOperator::ShiftRight => CompoundOp::Binary(HirBinaryOp::Shr),
        AssignmentOperator::ShiftRightZeroFill => CompoundOp::Binary(HirBinaryOp::Usr),
        AssignmentOperator::BitwiseOR => CompoundOp::Binary(HirBinaryOp::BitOr),
        AssignmentOperator::BitwiseXOR => CompoundOp::Binary(HirBinaryOp::BitXor),
        AssignmentOperator::BitwiseAnd => CompoundOp::Binary(HirBinaryOp::BitAnd),
        AssignmentOperator::LogicalAnd => CompoundOp::Binary(HirBinaryOp::And),
        AssignmentOperator::LogicalOr | AssignmentOperator::LogicalNullish => CompoundOp::Binary(HirBinaryOp::Or),
        AssignmentOperator::Exponential => CompoundOp::Unsupported,
    }
}

/// How a binary operator is written in the source.
pub open spec fn binary_token(op: BinaryOperator) -> Seq<char> {
    match op {
        BinaryOperator::Equality => "=="@,
        BinaryOperator::Inequality => "!="@,
        BinaryOperator::StrictEquality => "==="@,
        BinaryOperator::StrictInequality => "!=="@,
        BinaryOperator::LessThan => "<"@,
        BinaryOperator::LessEqualThan => "<="@,
        BinaryOperator::GreaterThan => ">"@,
        BinaryOperator::GreaterEqualThan => ">="@,
        BinaryOperator::Addition => "+"@,
        BinaryOperator::Subtraction => "-"@,
        BinaryOperator::Multiplication => "*"@,
        BinaryOperator::Division => "/"@,
        BinaryOperator::Remainder => "%"@,
        BinaryOperator::Exponential => "**"@,
        BinaryOperator::ShiftLeft => "<<"@,
        BinaryOperator::ShiftRight => ">>"@,
        BinaryOperator::ShiftRightZeroFill => ">>>"@,
        BinaryOperator::BitwiseOR => "|"@,
        BinaryOperator::BitwiseXOR => "^"@,
        BinaryOperator::BitwiseAnd => "&"@,
        BinaryOperator::In => "in"@,
        BinaryOperator::Instanceof => "instanceof"@,
    }
}

/// How a logical operator is written in the source.
pub open spec fn logical_token(op: LogicalOperator) -> Seq<char> {
    match op {
        LogicalOperator::And => "&&"@,
        LogicalOperator::Or => "||"@,
        LogicalOperator::Coalesce => "??"@,
    }
}

/// The binary operator that a compound assignment applies, as written in
/// the source (`+=` applies `+`); a plain store applies none.
pub open spec fn assignment_token(op: AssignmentOperator) -> Seq<char> {
    match op {
        AssignmentOperator::Assign => ""@,
        AssignmentOperator::Addition => "+"@,
        AssignmentOperator::Subtraction => "-"@,
        AssignmentOperator::Multiplication => "*"@,
        AssignmentOperator::Division => "/"@,
        AssignmentOperator::Remainder => "%"@,
        AssignmentOperator::Exponential => "**"@,
        AssignmentOperator::ShiftLeft => "<<"@,
        AssignmentOperator::ShiftRight => ">>"@,
        AssignmentOperator::ShiftRightZeroFill => ">>>"@,
        AssignmentOperator::BitwiseOR => "|"@,
        AssignmentOperator::BitwiseXOR => "^"@,
        AssignmentOperator::BitwiseAnd => "&"@,
        AssignmentOperator::LogicalOr => "||"@,
        AssignmentOperator::LogicalAnd => "&&"@,
        AssignmentOperator::LogicalNullish => "??"@,
    }
}

/// How a unary operator is written in the source.
pub open spec fn unary_token(op: UnaryOperator) -> Seq<char> {
    match op {
        UnaryOperator::UnaryPlus => "+"@,
        UnaryOperator::UnaryNegation => "-"@,
        UnaryOperator::LogicalNot => "!"@,
        UnaryOperator::BitwiseNot => "~"@,
        UnaryOperator::Typeof => "typeof"@,
        UnaryOperator::Void => "void"@,
        UnaryOperator::Delete => "delete"@,
    }
}

/// The source spellings of the operation that a HIR binary operator
/// performs: loose and strict equality are one operation, and so are `||`
/// and `??`.
pub open spec fn hir_binary_spellings(op: HirBinaryOp) -> Set<Seq<char>> {
    match op {
        HirBinaryOp::Add => set!["+"@],
        HirBinaryOp::Sub => set!["-"@],
        HirBinaryOp::Mul => set!["*"@],
        HirBinaryOp::Div => set!["/"@],
        HirBinaryOp::Mod => set!["%"@],
        HirBinaryOp::Eq => set!["=="@, "==="@],
        HirBinaryOp::Ne => set!["!="@, "!=="@],
        HirBinaryOp::Lt => set!["<"@],
        HirBinaryOp::Le => set!["<="@],
        HirBinaryOp::Gt => set![">"@],
        HirBinaryOp::Ge => set![">="@],
        HirBinaryOp::And => set!["&&"@],
        HirBinaryOp::Or => set!["||"@, "??"@],
        HirBinaryOp::BitAnd => set!["&"@],
        HirBinaryOp::BitOr => set!["|"@],
        HirBinaryOp::BitXor => set!["^"@],
        HirBinaryOp::Shl => set!["<<"@],
        HirBinaryOp::Shr => set![">>"@],
        HirBinaryOp::Usr => set![">>>"@],
        HirBinaryOp::In => set!["in"@],
        HirBinaryOp::InstanceOf => set!["instanceof"@],
    }
}

/// The source spelling of the operation that a HIR unary operator
/// performs.
pub open spec fn hir_unary_spelling(op: HirUnaryOp) -> Seq<char> {
    match op {
        HirUnaryOp::Neg => "-"@,
        HirUnaryOp::Not => "!"@,
        HirUnaryOp::BitNot => "~"@,
        HirUnaryOp::TypeOf => "typeof"@,
        HirUnaryOp::Void => "void"@,
        HirUnaryOp::Delete => "delete"@,
    }
}

/// Lowering keeps the meaning of every binary operator: the HIR operator
/// it gives performs the operation written in the source, and only
/// exponentiation (`**`) has no HIR operator.
pub proof fn law_binary_op_keeps_operation(op: BinaryOperator)
    ensures
        match binary_op_spec(op) {
            Some(h) => hir_binary_spellings(h).contains(binary_token(op)),
            None => binary_token(op) == "**"@,
        },
{
}

/// Lowering keeps the meaning of every logical operator.
pub proof fn law_logical_op_keeps_operation(op: LogicalOperator)
    ensures
        hir_binary_spellings(logical_op_spec(op)).contains(logical_token(op)),
{
}

/// Lowering keeps the meaning of every unary operator, and only unary plus
/// has no HIR operator.
pub proof fn law_unary_op_keeps_operation(op: UnaryOperator)
    ensures
        match unary_op_spec(op) {
            Some(h) => hir_unary_spelling(h) == unary_token(op),
            None => op == UnaryOperator::UnaryPlus,
        },
{
}

/// A compound assignment applies the binary operation that it is written
/// with; `**=` has none in the HIR, and `=` is a plain store.
pub proof fn law_compound_op_keeps_operation(op: AssignmentOperator)
    ensures
        match compound_op_spec(op) {
            CompoundOp::Binary(h) => hir_binary_spellings(h).contains(assignment_token(op)),
            CompoundOp::Assign => op == AssignmentOperator::Assign,
            CompoundOp::Unsupported => assignment_token(op) == "**"@,
        },
{
}

/// `x++` and `++x` add one to their target and `x--` and `--x` subtract
/// one; the postfix forms give the old value.
pub proof fn law_update_keeps_operation(
    op: crate::frontend::ast::UpdateOperator,
    prefix: bool,
    target: crate::frontend::ast::SimpleTarget,
    span: Span,
    r: ExprV,
)
    requires
        crate::frontend::lower::expr_shape(crate::frontend::ast::Expr::Update { op, prefix, target, span }, r),
    ensures
        r matches ExprV::CompoundUpdate { op: o, rhs, post, .. } && *rhs == ExprV::Int(1, Span { start: 0, end: 0 })
            && post == !prefix && hir_binary_spellings(o).contains(
            match op {
                crate::frontend::ast::UpdateOperator::Increment => "+"@,
                crate::frontend::ast::UpdateOperator::Decrement => "-"@,
            },
        ),
{
}

/// A label's text.
pub fn label_atom(label: &Option<String>) -> (r: Option<String>)
    ensures
        match (r, *label) {
            (Some(a), Some(b)) => a@ == b@,
            (None, None) => true,
            _ => false,
        },
{
    match label {
        Some(l) => Some(crate::text::string_clone(l)),
        None => None,
    }
}

/// The biased exponent field of a double's bits.
pub open spec fn exp_field(bits: u64) -> int {
    (bits / 0x10_0000_0000_0000) as int % 0x800
}

/// The fraction field of a double's bits.
pub open spec fn frac_field(bits: u64) -> int {
    bits as int % 0x10_0000_0000_0000
}

/// Whether the sign bit is set.
pub open spec fn sign_set(bits: u64) -> bool {
    bits >= 0x8000_0000_0000_0000
}

/// The magnitude of a finite double whose value is an integer below 2^53,
/// read off its bits: the significand shifted right by the fraction bits
/// that lie below the binary point. Zero when the exponent field is zero.
pub open spec fn int_magnitude(bits: u64) -> int {
    let e = exp_field(bits);
    if e == 0 {
        0
    } else {
        (frac_field(bits) + 0x10_0000_0000_0000) / vstd::arithmetic::power2::pow2((1075 - e) as nat) as int
    }
}

/// Whether a double is finite, has no fractional part, and is below 2^53
/// in magnitude: it is zero, or its unbiased exponent `e - 1023` is below
/// 53 and the fraction bits below the binary point are zero.
pub open spec fn is_safe_integer_bits(bits: u64) -> bool {
    let e = exp_field(bits);
    let f = frac_field(bits);
    (e == 0 && f == 0)
        || (1023 <= e && e < 1076 && f % vstd::arithmetic::power2::pow2((1075 - e) as nat) as int == 0)
}

/// The HIR literal of a number: an integer when the value is a safe
/// integer, otherwise the float's bits.
pub open spec fn number_spec(bits: u64, span: Span) -> ExprV {
    if is_safe_integer_bits(bits) {
        let m = int_magnitude(bits);
        ExprV::Int((if sign_set(bits) { -m } else { m }) as i64, span)
    } else {
        ExprV::Float(bits, span)
    }
}

/// The HIR literal of a number given by the bits of its double: an
/// integer when the value is a whole number below 2^53 in magnitude,
/// otherwise a float literal holding the same bits.
pub fn number_to_hir(bits: u64, span: Span) -> (r: HirExpr)
    ensures
        r@ == number_spec(bits, span),
{
    let e: u64 = (bits >> 52u64) & 0x7ffu64;
    let f: u64 = bits & 0xf_ffff_ffff_ffffu64;
    let neg: bool = (bits >> 63u64) == 1u64;
    proof {
        assert(e == (bits / 0x10_0000_0000_0000) % 0x800) by (bit_vector)
            requires e == (bits >> 52u64) & 0x7ffu64;
        assert(f == bits % 0x10_0000_0000_0000) by (bit_vector)
            requires f == bits & 0xf_ffff_ffff_ffffu64;
        assert(neg == (bits >= 0x8000_0000_0000_0000)) by (bit_vector)
            requires neg == ((bits >> 63u64) == 1u64);
    }
    if e == 0 && f == 0 {
        return HirExpr::Int(0, span);
    }
    if 1023 <= e && e < 1076 {
        let shift: u64 = 1075 - e;
        let pow: u64 = 1u64 << shift;
        proof {
            vstd::bits::lemma_u64_pow2_no_overflow(shift as nat);
            vstd::bits::lemma_u64_shl_is_mul(1u64, shift);
        }
        if f % pow == 0 {
            let m: u64 = (f + 0x10_0000_0000_0000u64) / pow;
            proof {
                assert(m <= 0x20_0000_0000_0000) by (nonlinear_arith)
                    requires
                        m == (f + 0x10_0000_0000_0000) / pow as int,
                        f < 0x10_0000_0000_0000,
                        pow >= 1;
            }
            let v: i64 = if neg { -(m as i64) } else { m as i64 };
            return HirExpr::Int(v, span);
        }
    }
    HirExpr::Float(bits, span)
}

} // verus!
