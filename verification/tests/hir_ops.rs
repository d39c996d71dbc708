#![allow(unused_imports)]
use ts_aot::base::{FieldId, FunctionId, LocalId, ModuleId, Span, TypeId};
use ts_aot::hir::decl::{HirClass, HirDecl, HirField, HirFunction, HirParam};
use ts_aot::hir::expr::{HirBinaryOp, HirCallee, HirExpr, HirUnaryOp, ObjectLiteralField};
use ts_aot::hir::program::HirProgram;
use ts_aot::hir::stmt::HirStmt;

fn sp() -> Span {
    Span::new(0, 0)
}

#[test]
fn binary_op_variants_are_distinct() {
    assert_ne!(HirBinaryOp::Add, HirBinaryOp::Sub);
    assert_ne!(HirBinaryOp::Eq, HirBinaryOp::Ne);
    assert_ne!(HirBinaryOp::BitAnd, HirBinaryOp::BitOr);
    assert_ne!(HirBinaryOp::Shl, HirBinaryOp::Shr);
}

#[test]
fn unary_op_variants_are_distinct() {
    assert_ne!(HirUnaryOp::Neg, HirUnaryOp::Not);
    assert_ne!(HirUnaryOp::BitNot, HirUnaryOp::TypeOf);
}

#[test]
fn expr_construction_does_not_panic() {
    let int_ty = TypeId::from_raw(0);
    let span = Span::new(0, 0);
    let expr = HirExpr::Int(42, span);
    match expr {
        HirExpr::Int(v, _) => assert_eq!(v, 42),
        _ => panic!("expected Int"),
    }
    assert_eq!(int_ty.raw(), 0);
}

#[test]
fn binary_expr_nests() {
    let int_ty = TypeId::from_raw(1);
    let span = Span::new(0, 0);
    let a = HirExpr::Int(1, span);
    let b = HirExpr::Int(2, span);
    let sum = HirExpr::Binary {
        op: HirBinaryOp::Add,
        lhs: Box::new(a),
        rhs: Box::new(b),
        ty: int_ty,
        span,
    };
    match sum {
        HirExpr::Binary { op, .. } => assert_eq!(op, HirBinaryOp::Add),
        _ => panic!("expected Binary"),
    }
}

#[test]
fn expr_supports_equality() {
    let span = Span::new(0, 0);
    let a = HirExpr::Int(42, span);
    let b = HirExpr::Int(42, span);
    let c = HirExpr::Int(7, span);
    assert_eq!(a, b);
    assert_ne!(a, c);
}

#[test]
fn span_returns_payload_span_for_simple_variants() {
    assert_eq!(HirExpr::Unit(Span::new(1, 2)).span(), Span::new(1, 2));
    assert_eq!(HirExpr::Bool(true, Span::new(3, 4)).span(), Span::new(3, 4));
    assert_eq!(HirExpr::Int(42, Span::new(5, 6)).span(), Span::new(5, 6));
    assert_eq!(
        HirExpr::String("x".to_string(), Span::new(7, 8)).span(),
        Span::new(7, 8)
    );
    assert_eq!(HirExpr::Null(Span::new(9, 10)).span(), Span::new(9, 10));
    assert_eq!(
        HirExpr::Undefined(Span::new(11, 12)).span(),
        Span::new(11, 12)
    );
}

#[test]
fn span_returns_struct_field_span_for_structured_variants() {
    let int_ty = TypeId::from_raw(0);
    let local = HirExpr::Local {
        id: LocalId::from_raw(0),
        ty: int_ty,
        span: Span::new(20, 21),
    };
    assert_eq!(local.span(), Span::new(20, 21));

    let call = HirExpr::Call {
        callee: HirCallee::Function(FunctionId::from_raw(0)),
        args: Vec::new(),
        type_args: Vec::new(),
        ty: int_ty,
        span: Span::new(30, 31),
    };
    assert_eq!(call.span(), Span::new(30, 31));

    let binary = HirExpr::Binary {
        op: HirBinaryOp::Add,
        lhs: Box::new(HirExpr::Int(1, Span::new(40, 41))),
        rhs: Box::new(HirExpr::Int(2, Span::new(42, 43))),
        ty: int_ty,
        span: Span::new(40, 43),
    };
    assert_eq!(binary.span(), Span::new(40, 43));

    let template = HirExpr::Template {
        tag: None,
        expressions: Vec::new(),
        cooked_parts: Vec::new(),
        raw_parts: Vec::new(),
        ty: int_ty,
        span: Span::new(50, 55),
    };
    assert_eq!(template.span(), Span::new(50, 55));
}

#[test]
fn span_returns_struct_field_span_for_newer_variants() {
    let int_ty = TypeId::from_raw(0);
    let new_expr = HirExpr::New {
        callee: Box::new(HirExpr::Global {
            name: "X".to_string(),
            ty: int_ty,
            span: Span::new(60, 61),
        }),
        args: Vec::new(),
        ty: int_ty,
        span: Span::new(60, 70),
    };
    assert_eq!(new_expr.span(), Span::new(60, 70));

    let opt_chain = HirExpr::OptionalChain {
        base: Box::new(HirExpr::Local {
            id: LocalId::from_raw(0),
            ty: int_ty,
            span: Span::new(80, 81),
        }),
        ty: int_ty,
        span: Span::new(80, 90),
    };
    assert_eq!(opt_chain.span(), Span::new(80, 90));

    let regexp = HirExpr::RegExp {
        pattern: "foo".to_string(),
        flags: "g".to_string(),
        ty: int_ty,
        span: Span::new(100, 110),
    };
    assert_eq!(regexp.span(), Span::new(100, 110));

    let bigint = HirExpr::BigInt {
        value: "42".to_string(),
        ty: int_ty,
        span: Span::new(120, 130),
    };
    assert_eq!(bigint.span(), Span::new(120, 130));

    let import = HirExpr::Import {
        source: Box::new(HirExpr::String(
            "mod".to_string(),
            Span::new(140, 145),
        )),
        ty: int_ty,
        span: Span::new(140, 150),
    };
    assert_eq!(import.span(), Span::new(140, 150));
}

#[test]
fn empty_program_has_no_decls() {
    let prog = HirProgram::new(ModuleId::from_raw(0));
    assert_eq!(prog.decl_count(), 0);
    assert!(prog.diagnostics.is_empty());
}

#[test]
fn push_decl_increments_count() {
    let mut prog = HirProgram::new(ModuleId::from_raw(7));
    prog.push_decl(HirDecl::Global {
        name: "1".to_string(),
        ty: TypeId::from_raw(2),
        init: None,
    });
    prog.push_decl(HirDecl::Class(HirClass {
        name: "3".to_string(),
        ty: TypeId::from_raw(5),
        fields: vec![HirField {
            name: "4".to_string(),
            ty: TypeId::from_raw(5),
        }],
        methods: vec![],
        extends: None,
        type_params: vec![],
    }));
    assert_eq!(prog.decl_count(), 2);
}

#[test]
fn program_module_id_is_preserved() {
    let prog = HirProgram::new(ModuleId::from_raw(99));
    assert_eq!(prog.module.raw(), 99);
}

#[test]
fn hir_function_minimal_construction() {
    let f = HirFunction {
        name: "1".to_string(),
        params: vec![],
        ret: TypeId::from_raw(2),
        throws: None,
        body: vec![],
        is_async: false,
        is_generator: false,
        is_exported: false,
        type_params: vec![],
    };
    assert!(!f.is_async);
    assert!(f.params.is_empty());
}
