#![allow(unused_imports)]
use ts_aot::base::{FieldId, FunctionId, GenericParamId, LocalId, ModuleId, Span, TypeId};
use ts_aot::hir::decl::{HirClass, HirDecl, HirEnumVariant, HirField, HirFunction, HirParam};
use ts_aot::hir::dump::decl::dump_decl;
use ts_aot::hir::dump::expr::{
    dump_body, dump_class, dump_expr_inline, dump_field, dump_function, dump_method, dump_param, dump_stmt, fmt_bin_op,
    fmt_un_op,
};
use ts_aot::hir::dump::program::dump_sym;
use ts_aot::hir::dump::Dumper;
use ts_aot::hir::expr::{HirBinaryOp, HirCallee, HirExpr, HirUnaryOp, ObjectLiteralField};
use ts_aot::hir::program::{HirExport, HirImport, HirProgram};
use ts_aot::hir::stmt::{HirCatchClause, HirStmt, HirSwitchCase};

fn sp() -> Span {
    Span::new(0, 0)
}

fn wrap(stmts: Vec<HirStmt>) -> HirStmt {
    HirStmt::Block(stmts)
}

fn dump(stmts: Vec<HirStmt>) -> String {
    let mut d = Dumper::new();
    dump_body(&stmts, &mut d);
    d.buf
}

fn empty_func(name: &str) -> HirFunction {
    HirFunction {
        name: name.to_string(),
        params: Vec::new(),
        ret: TypeId::from_raw(0),
        throws: None,
        body: Vec::new(),
        is_async: false,
        is_generator: false,
        is_exported: false,
        type_params: Vec::new(),
    }
}

#[test]
fn dump_block_stmt() {
    let stmts = wrap(vec![HirStmt::ret(None)]);
    let text = dump(vec![stmts]);
    assert!(text.contains("{"));
    assert!(text.contains("return"));
    assert!(text.contains("}"));
}

#[test]
fn dump_return_without_value() {
    let text = dump(vec![HirStmt::ret(None)]);
    assert!(text.contains("return\n") || text.ends_with("return\n"));
}

#[test]
fn dump_try_without_catch_binding() {
    let s = HirStmt::Try {
        body: Box::new(HirStmt::ret(None)),
        catch: Some(HirCatchClause::new(None, Box::new(HirStmt::ret(None)))),
        finally: None,
    };
    let text = dump(vec![s]);
    assert!(text.contains("catch {"));
}

#[test]
fn fmt_bin_op_variants() {
    let map: &[(&str, HirBinaryOp)] = &[
        ("+", HirBinaryOp::Add),
        ("-", HirBinaryOp::Sub),
        ("*", HirBinaryOp::Mul),
        ("/", HirBinaryOp::Div),
        ("%", HirBinaryOp::Mod),
        ("==", HirBinaryOp::Eq),
        ("!=", HirBinaryOp::Ne),
        ("<", HirBinaryOp::Lt),
        ("<=", HirBinaryOp::Le),
        (">", HirBinaryOp::Gt),
        (">=", HirBinaryOp::Ge),
        ("&&", HirBinaryOp::And),
        ("||", HirBinaryOp::Or),
        ("&", HirBinaryOp::BitAnd),
        ("|", HirBinaryOp::BitOr),
        ("^", HirBinaryOp::BitXor),
        ("<<", HirBinaryOp::Shl),
        (">>", HirBinaryOp::Shr),
        (">>>", HirBinaryOp::Usr),
        ("in", HirBinaryOp::In),
        ("instanceof", HirBinaryOp::InstanceOf),
    ];
    for (sym, op) in map {
        assert_eq!(fmt_bin_op(*op), *sym);
    }
}

#[test]
fn fmt_un_op_variants() {
    assert_eq!(fmt_un_op(HirUnaryOp::Neg), "-");
    assert_eq!(fmt_un_op(HirUnaryOp::Not), "!");
    assert_eq!(fmt_un_op(HirUnaryOp::BitNot), "~");
    assert_eq!(fmt_un_op(HirUnaryOp::TypeOf), "typeof");
    assert_eq!(fmt_un_op(HirUnaryOp::Void), "void");
    assert_eq!(fmt_un_op(HirUnaryOp::Delete), "delete");
}

#[test]
fn dump_indent_push_and_pop() {
    let mut d = Dumper::new();
    d.line("a");
    d.push();
    d.line("b");
    d.push();
    d.line("c");
    d.pop();
    d.line("d");
    d.pop();
    d.line("e");
    let expected = "a\n  b\n    c\n  d\ne\n";
    assert_eq!(d.buf, expected);
}

#[test]
fn dump_write_no_indent() {
    let mut d = Dumper::new();
    d.push();
    d.write("noindent");
    assert_eq!(d.buf, "noindent");
}

#[test]
fn dump_let_stmt_exact_text() {
    let s = HirStmt::let_(LocalId::from_raw(0), "x".to_string(), TypeId::from_raw(3), None);
    let text = dump(vec![s]);
    assert_eq!(text, "let x (id=0): 3\n");
}

#[test]
fn dump_return_with_int_value() {
    let text = dump(vec![HirStmt::ret(Some(HirExpr::Int(5, Span::new(0, 0))))]);
    assert!(text.contains("return 5"));
}

#[test]
fn dump_program_names_function() {
    let mut f = empty_func("compute");
    f.body = vec![HirStmt::ret(None)];
    let mut prog = HirProgram::new(ModuleId::from_raw(0));
    prog.push_decl(HirDecl::Function(f));
    let text = prog.dump_text();
    assert!(text.starts_with("HirProgram(module=0) {\n"));
    assert!(text.contains("fn compute"));
}

#[test]
fn program_finds_function_by_name() {
    let mut prog = HirProgram::new(ModuleId::from_raw(0));
    prog.push_decl(HirDecl::Interface { name: "I".to_string() });
    prog.push_decl(HirDecl::Function(empty_func("g")));
    let found = prog.find_function_by_name(&"g".to_string());
    assert_eq!(found.map(|f| f.name.clone()), Some("g".to_string()));
    assert!(prog.find_function_by_name(&"missing".to_string()).is_none());
    assert_eq!(prog.decl_count(), 2);
}

#[test]
fn program_finds_function_in_namespace_by_qualified_name() {
    let mut prog = HirProgram::new(ModuleId::from_raw(0));
    prog.push_decl(HirDecl::Namespace {
        name: "ns".to_string(),
        members: vec![HirDecl::Function(empty_func("inner"))],
    });
    let found = prog.find_function_by_qualified_name(&"ns::inner".to_string());
    assert_eq!(found.map(|f| f.name.clone()), Some("inner".to_string()));
    assert!(prog.find_function_by_qualified_name(&"inner".to_string()).is_none());
}

#[test]
fn dump_let_stmt_without_init() {
    let s = HirStmt::let_(
        LocalId::from_raw(0),
        "x".to_string(),
        TypeId::from_raw(3),
        None,
    );
    let text = dump(vec![s]);
    assert_eq!(text, "let x (id=0): 3\n");
}

#[test]
fn dump_let_stmt_with_init() {
    let s = HirStmt::let_(
        LocalId::from_raw(2),
        "y".to_string(),
        TypeId::from_raw(3),
        Some(HirExpr::Int(42, sp())),
    );
    let text = dump(vec![s]);
    assert!(text.contains("let y (id=2): 3 = 42"));
}

#[test]
fn dump_expr_stmt() {
    let text = dump(vec![HirStmt::expr(HirExpr::Int(7, sp()))]);
    assert!(text.contains("expr 7"));
}

#[test]
fn dump_if_stmt_with_else() {
    let s = HirStmt::If {
        cond: HirExpr::Bool(true, sp()),
        then: Box::new(HirStmt::ret(None)),
        otherwise: Some(Box::new(HirStmt::ret(Some(HirExpr::Int(0, sp()))))),
    };
    let text = dump(vec![s]);
    assert!(text.contains("if (true)"));
    assert!(text.contains("else"));
    assert!(text.contains("return 0"));
}

#[test]
fn dump_if_stmt_without_else() {
    let s = HirStmt::If {
        cond: HirExpr::Bool(false, sp()),
        then: Box::new(HirStmt::ret(None)),
        otherwise: None,
    };
    let text = dump(vec![s]);
    assert!(!text.contains("else"));
}

#[test]
fn dump_while_stmt() {
    let s = HirStmt::While {
        cond: HirExpr::Bool(true, sp()),
        body: Box::new(HirStmt::expr(HirExpr::Unit(sp()))),
    };
    let text = dump(vec![s]);
    assert!(text.contains("while (true)"));
}

#[test]
fn dump_dowhile_stmt() {
    let s = HirStmt::DoWhile {
        body: Box::new(HirStmt::ret(None)),
        cond: HirExpr::Bool(false, sp()),
    };
    let text = dump(vec![s]);
    assert!(text.contains("do {"));
    assert!(text.contains("} while (false)"));
}

#[test]
fn dump_for_of_stmt() {
    let s = HirStmt::ForOf {
        binding: LocalId::from_raw(1),
        iter: HirExpr::Unit(sp()),
        body: Box::new(HirStmt::expr(HirExpr::Unit(sp()))),
    };
    let text = dump(vec![s]);
    assert!(text.contains("for_of (id=1) in"));
}

#[test]
fn dump_for_in_stmt() {
    let s = HirStmt::ForIn {
        binding: LocalId::from_raw(2),
        iter: HirExpr::Unit(sp()),
        body: Box::new(HirStmt::expr(HirExpr::Unit(sp()))),
    };
    let text = dump(vec![s]);
    assert!(text.contains("for_in (id=2) in"));
}

#[test]
fn dump_switch_stmt() {
    let s = HirStmt::Switch {
        disc: HirExpr::Int(0, sp()),
        cases: vec![HirSwitchCase::new(
            Some(HirExpr::Int(1, sp())),
            vec![HirStmt::ret(None)],
        )],
    };
    let text = dump(vec![s]);
    assert!(text.contains("switch (0)"));
    assert!(text.contains("case 1:"));
}

#[test]
fn dump_return_with_value() {
    let text = dump(vec![HirStmt::ret(Some(HirExpr::Int(5, sp())))]);
    assert!(text.contains("return 5"));
}

#[test]
fn dump_throw_stmt() {
    let text = dump(vec![HirStmt::Throw {
        expr: HirExpr::Int(8, sp()),
    }]);
    assert!(text.contains("throw 8"));
}

#[test]
fn dump_break_stmt_with_and_without_label() {
    assert!(
        dump(vec![HirStmt::Break { label: None }])
            .trim_end()
            .ends_with("break")
    );
    assert!(
        dump(vec![HirStmt::Break {
            label: Some("L".to_string())
        }])
        .contains("break L")
    );
}

#[test]
fn dump_continue_stmt_with_and_without_label() {
    assert!(
        dump(vec![HirStmt::Continue { label: None }])
            .trim_end()
            .ends_with("continue")
    );
    assert!(
        dump(vec![HirStmt::Continue {
            label: Some("L".to_string())
        }])
        .contains("continue L")
    );
}

#[test]
fn dump_try_with_catch_and_finally() {
    let s = HirStmt::Try {
        body: Box::new(HirStmt::ret(None)),
        catch: Some(HirCatchClause::new(
            Some((LocalId::from_raw(0), "e".to_string())),
            Box::new(HirStmt::ret(None)),
        )),
        finally: Some(Box::new(HirStmt::ret(None))),
    };
    let text = dump(vec![s]);
    assert!(text.contains("try {"));
    assert!(text.contains("catch (id=0, name=e)"));
    assert!(text.contains("finally {"));
}

#[test]
fn dump_stmt_decl_emits_decl_prefix() {
    let s = HirStmt::Decl(HirDecl::Function(empty_func("nested")));
    let text = dump(vec![s]);
    assert!(text.contains("decl"));
    assert!(text.contains("fn nested"));
}

#[test]
fn dump_unit_expr() {
    let mut d = Dumper::new();
    dump_expr_inline(&HirExpr::Unit(sp()), &mut d);
    assert_eq!(d.buf, "()");
}

#[test]
fn dump_bool_expr() {
    let mut d = Dumper::new();
    dump_expr_inline(&HirExpr::Bool(true, sp()), &mut d);
    assert_eq!(d.buf, "true");
    let mut d = Dumper::new();
    dump_expr_inline(&HirExpr::Bool(false, sp()), &mut d);
    assert_eq!(d.buf, "false");
}

#[test]
fn dump_int_expr() {
    let mut d = Dumper::new();
    dump_expr_inline(&HirExpr::Int(123, sp()), &mut d);
    assert_eq!(d.buf, "123");
}

#[test]
fn dump_float_expr() {
    let mut d = Dumper::new();
    dump_expr_inline(&HirExpr::Float(7, sp()), &mut d);
    assert!(d.buf.contains("float(7)"));
}

#[test]
fn dump_string_expr() {
    let mut d = Dumper::new();
    dump_expr_inline(&HirExpr::String("hello".to_string(), sp()), &mut d);
    assert!(d.buf.contains("string(\"hello\")"));
}

#[test]
fn dump_null_and_undefined_expr() {
    let mut d = Dumper::new();
    dump_expr_inline(&HirExpr::Null(sp()), &mut d);
    assert_eq!(d.buf, "null");
    let mut d = Dumper::new();
    dump_expr_inline(&HirExpr::Undefined(sp()), &mut d);
    assert_eq!(d.buf, "undefined");
}

#[test]
fn dump_local_expr() {
    let mut d = Dumper::new();
    dump_expr_inline(
        &HirExpr::Local {
            id: LocalId::from_raw(4),
            ty: TypeId::from_raw(7),
            span: sp(),
        },
        &mut d,
    );
    assert_eq!(d.buf, "local(4):7");
}

#[test]
fn dump_global_expr() {
    let mut d = Dumper::new();
    dump_expr_inline(
        &HirExpr::Global {
            name: "MyG".to_string(),
            ty: TypeId::from_raw(2),
            span: sp(),
        },
        &mut d,
    );
    assert_eq!(d.buf, "global(MyG):2");
}

#[test]
fn dump_field_expr() {
    let mut d = Dumper::new();
    dump_expr_inline(
        &HirExpr::Field {
            owner: Box::new(HirExpr::Local {
                id: LocalId::from_raw(0),
                ty: TypeId::from_raw(1),
                span: sp(),
            }),
            field: FieldId::from_raw(2),
            field_name: "name".to_string(),
            ty: TypeId::from_raw(3),
            span: sp(),
        },
        &mut d,
    );
    assert!(d.buf.contains(".name"));
    assert!(d.buf.contains(":3"));
}

#[test]
fn dump_index_expr() {
    let mut d = Dumper::new();
    dump_expr_inline(
        &HirExpr::Index {
            owner: Box::new(HirExpr::Local {
                id: LocalId::from_raw(0),
                ty: TypeId::from_raw(1),
                span: sp(),
            }),
            index: Box::new(HirExpr::Int(2, sp())),
            ty: TypeId::from_raw(3),
            span: sp(),
        },
        &mut d,
    );
    assert!(d.buf.contains("[2]"));
    assert!(d.buf.contains(":3"));
}

#[test]
fn dump_call_expr_with_function_callee() {
    let mut d = Dumper::new();
    dump_expr_inline(
        &HirExpr::Call {
            callee: HirCallee::Function(FunctionId::from_raw(5)),
            args: vec![HirExpr::Int(1, sp()), HirExpr::Bool(true, sp())],
            ty: TypeId::from_raw(8),
            type_args: Vec::new(),
            span: sp(),
        },
        &mut d,
    );
    assert!(d.buf.contains("call_fn(5)(1, true):8"));
}

#[test]
fn dump_call_expr_with_indirect_callee() {
    let mut d = Dumper::new();
    dump_expr_inline(
        &HirExpr::Call {
            callee: HirCallee::Indirect(Box::new(HirExpr::Global {
                name: "f".to_string(),
                ty: TypeId::from_raw(0),
                span: sp(),
            })),
            args: vec![],
            type_args: Vec::new(),
            ty: TypeId::from_raw(0),
            span: sp(),
        },
        &mut d,
    );
    assert!(d.buf.contains("global(f)"));
}

#[test]
fn dump_call_expr_with_closure_callee() {
    let mut d = Dumper::new();
    dump_expr_inline(
        &HirExpr::Call {
            callee: HirCallee::Closure(LocalId::from_raw(3)),
            args: vec![],
            ty: TypeId::from_raw(0),
            type_args: Vec::new(),
            span: sp(),
        },
        &mut d,
    );
    assert!(d.buf.contains("closure(3)"));
}

#[test]
fn dump_call_expr_with_runtime_callee() {
    let mut d = Dumper::new();
    dump_expr_inline(
        &HirExpr::Call {
            callee: HirCallee::Runtime {
                name: "console_log".to_string(),
                ty: TypeId::from_raw(0),
            },
            args: vec![],
            ty: TypeId::from_raw(0),
            type_args: Vec::new(),
            span: sp(),
        },
        &mut d,
    );
    assert!(d.buf.contains("runtime(\"console_log\")"));
}

#[test]
fn dump_binary_expr() {
    let mut d = Dumper::new();
    dump_expr_inline(
        &HirExpr::Binary {
            op: HirBinaryOp::Add,
            lhs: Box::new(HirExpr::Int(1, sp())),
            rhs: Box::new(HirExpr::Int(2, sp())),
            ty: TypeId::from_raw(0),
            span: sp(),
        },
        &mut d,
    );
    assert_eq!(d.buf, "(1 + 2):0");
}

#[test]
fn dump_unary_expr() {
    let mut d = Dumper::new();
    dump_expr_inline(
        &HirExpr::Unary {
            op: HirUnaryOp::Neg,
            expr: Box::new(HirExpr::Int(5, sp())),
            ty: TypeId::from_raw(0),
            span: sp(),
        },
        &mut d,
    );
    assert_eq!(d.buf, "-(5):0");
}

#[test]
fn dump_struct_literal_expr() {
    let mut d = Dumper::new();
    dump_expr_inline(
        &HirExpr::StructLiteral {
            ty: TypeId::from_raw(0),
            fields: vec![(FieldId::from_raw(0), HirExpr::Int(7, sp()))],
            span: sp(),
        },
        &mut d,
    );
    assert!(d.buf.contains("struct{0:7}:0"));
}

#[test]
fn dump_array_literal_expr() {
    let mut d = Dumper::new();
    dump_expr_inline(
        &HirExpr::ArrayLiteral {
            elements: vec![HirExpr::Int(1, sp()), HirExpr::Int(2, sp())],
            ty: TypeId::from_raw(0),
            span: sp(),
        },
        &mut d,
    );
    assert!(d.buf.contains("[1, 2]:0"));
}

#[test]
fn dump_closure_expr() {
    let mut d = Dumper::new();
    dump_expr_inline(
        &HirExpr::Closure {
            id: LocalId::from_raw(0),
            params: vec![HirParam {
                name: "a".to_string(),
                ty: TypeId::from_raw(1),
            }],
            captures: vec![HirExpr::Int(2, sp())],
            body: vec![HirStmt::ret(Some(HirExpr::Int(3, sp())))],
            ty: TypeId::from_raw(4),
            span: sp(),
        },
        &mut d,
    );
    assert!(d.buf.contains("closure(id=0)"));
    assert!(d.buf.contains("a:1"));
    assert!(d.buf.contains("return 3"));
    assert!(d.buf.contains(":4"));
}

#[test]
fn dump_await_expr() {
    let mut d = Dumper::new();
    dump_expr_inline(
        &HirExpr::Await {
            expr: Box::new(HirExpr::Int(1, sp())),
            ty: TypeId::from_raw(0),
            span: sp(),
        },
        &mut d,
    );
    assert_eq!(d.buf, "await(1):0");
}

#[test]
fn dump_yield_expr_with_and_without_value() {
    let mut d = Dumper::new();
    dump_expr_inline(
        &HirExpr::Yield {
            expr: Some(Box::new(HirExpr::Int(2, sp()))),
            ty: TypeId::from_raw(0),
            span: sp(),
        },
        &mut d,
    );
    assert!(d.buf.contains("yield(2):0"));

    let mut d = Dumper::new();
    dump_expr_inline(
        &HirExpr::Yield {
            expr: None,
            ty: TypeId::from_raw(0),
            span: sp(),
        },
        &mut d,
    );
    assert!(d.buf.contains("yield(()):0"));
}

#[test]
fn dump_template_expr_without_tag() {
    let mut d = Dumper::new();
    dump_expr_inline(
        &HirExpr::Template {
            tag: None,
            expressions: vec![HirExpr::Int(1, sp())],
            cooked_parts: vec![None, None],
            raw_parts: vec![None, None],
            ty: TypeId::from_raw(0),
            span: sp(),
        },
        &mut d,
    );
    assert!(d.buf.contains("template["));
    assert!(d.buf.contains("1"));
}

#[test]
fn dump_template_expr_with_tag() {
    let mut d = Dumper::new();
    dump_expr_inline(
        &HirExpr::Template {
            tag: Some(Box::new(HirExpr::Global {
                name: "tag".to_string(),
                ty: TypeId::from_raw(0),
                span: sp(),
            })),
            expressions: vec![HirExpr::Int(1, sp())],
            cooked_parts: vec![None, None],
            raw_parts: vec![None, None],
            ty: TypeId::from_raw(0),
            span: sp(),
        },
        &mut d,
    );
    assert!(d.buf.contains("template(tag="));
}

#[test]
fn dump_new_expr() {
    let mut d = Dumper::new();
    dump_expr_inline(
        &HirExpr::New {
            callee: Box::new(HirExpr::Global {
                name: "Ctor".to_string(),
                ty: TypeId::from_raw(0),
                span: sp(),
            }),
            args: vec![HirExpr::Int(1, sp())],
            ty: TypeId::from_raw(0),
            span: sp(),
        },
        &mut d,
    );
    assert!(d.buf.contains("new global(Ctor):0"));
}

#[test]
fn dump_optional_chain_expr() {
    let mut d = Dumper::new();
    dump_expr_inline(
        &HirExpr::OptionalChain {
            base: Box::new(HirExpr::Int(1, sp())),
            ty: TypeId::from_raw(0),
            span: sp(),
        },
        &mut d,
    );
    assert!(d.buf.contains("opt("));
    assert!(d.buf.contains(":0"));
}

#[test]
fn dump_type_assertion_expr() {
    let mut d = Dumper::new();
    dump_expr_inline(
        &HirExpr::TypeAssertion {
            expr: Box::new(HirExpr::Int(3, sp())),
            target: TypeId::from_raw(5),
            span: sp(),
        },
        &mut d,
    );
    assert!(d.buf.contains("assert<5>(3)"));
}

#[test]
fn dump_assignment_expr() {
    let mut d = Dumper::new();
    dump_expr_inline(
        &HirExpr::Assignment {
            target: Box::new(HirExpr::Int(0, sp())),
            value: Box::new(HirExpr::Int(7, sp())),
            ty: TypeId::from_raw(3),
            span: sp(),
        },
        &mut d,
    );
    assert!(d.buf.contains("assign("));
    assert!(d.buf.contains("= 7"));
    assert!(d.buf.contains(":3"));
}

#[test]
fn dump_compound_update_pre() {
    let mut d = Dumper::new();
    dump_expr_inline(
        &HirExpr::CompoundUpdate {
            target: Box::new(HirExpr::Int(0, sp())),
            op: HirBinaryOp::Add,
            rhs: Box::new(HirExpr::Int(1, sp())),
            post: false,
            ty: TypeId::from_raw(0),
            span: sp(),
        },
        &mut d,
    );
    assert!(d.buf.contains("compound_update("));
    assert!(d.buf.contains(" + "));
    assert!(d.buf.contains("post=false"));
}

#[test]
fn dump_compound_update_post() {
    let mut d = Dumper::new();
    dump_expr_inline(
        &HirExpr::CompoundUpdate {
            target: Box::new(HirExpr::Int(0, sp())),
            op: HirBinaryOp::Sub,
            rhs: Box::new(HirExpr::Int(1, sp())),
            post: true,
            ty: TypeId::from_raw(0),
            span: sp(),
        },
        &mut d,
    );
    assert!(d.buf.contains("post=true"));
}

#[test]
fn dump_full_program_with_function_body() {
    let mut f = empty_func("compute");
    f.body = vec![HirStmt::ret(Some(HirExpr::Binary {
        op: HirBinaryOp::Add,
        lhs: Box::new(HirExpr::Int(1, sp())),
        rhs: Box::new(HirExpr::Int(2, sp())),
        ty: TypeId::from_raw(0),
        span: sp(),
    }))];
    let mut prog = HirProgram::new(ModuleId::from_raw(0));
    prog.push_decl(HirDecl::Function(f));
    let text = prog.dump_text();
    assert!(text.contains("fn compute"));
    assert!(text.contains("return (1 + 2):0"));
}

#[test]
fn dump_nested_block() {
    let inner = HirStmt::Block(vec![HirStmt::ret(Some(HirExpr::Int(1, sp())))]);
    let outer = HirStmt::Block(vec![inner]);
    let text = dump(vec![outer]);
    assert!(text.contains("{"));
    assert!(text.contains("}"));
    assert!(text.contains("return 1"));
}

#[test]
fn dump_switch_default_case() {
    let s = HirStmt::Switch {
        disc: HirExpr::Int(0, sp()),
        cases: vec![
            HirSwitchCase::new(Some(HirExpr::Int(1, sp())), vec![HirStmt::ret(None)]),
            HirSwitchCase::new(None, vec![HirStmt::ret(None)]),
        ],
    };
    let text = dump(vec![s]);
    assert!(text.contains("default:"));
}

#[test]
fn dump_function_with_async_flag() {
    let mut f = empty_func("a");
    f.is_async = true;
    let mut d = Dumper::new();
    dump_function(&f, &mut d);
    assert!(d.buf.contains("async fn a"));
}

#[test]
fn dump_function_with_params() {
    let mut f = empty_func("sum");
    f.params = vec![HirParam {
        name: "a".to_string(),
        ty: TypeId::from_raw(1),
    }];
    let mut d = Dumper::new();
    dump_function(&f, &mut d);
    assert!(d.buf.contains("a: 1"));
}

#[test]
fn dump_function_with_throws_and_exported_and_generator() {
    let mut f = empty_func("g");
    f.throws = Some(TypeId::from_raw(2));
    f.is_exported = true;
    f.is_generator = true;
    let mut d = Dumper::new();
    dump_function(&f, &mut d);
    assert!(d.buf.contains("throws 2"));
    assert!(d.buf.contains("exported"));
    assert!(d.buf.contains("generator"));
}

#[test]
fn dump_function_with_body_dumps_body_block() {
    let mut f = empty_func("withbody");
    f.body = vec![HirStmt::ret(Some(HirExpr::Int(7, sp())))];
    let mut d = Dumper::new();
    dump_function(&f, &mut d);
    assert!(d.buf.contains("body: {"));
    assert!(d.buf.contains("return 7"));
}

#[test]
fn dump_class_with_extends_and_methods() {
    let mut method = empty_func("m");
    method.params = vec![HirParam {
        name: "p".to_string(),
        ty: TypeId::from_raw(9),
    }];
    let class = HirClass {
        name: "K".to_string(),
        ty: TypeId::from_raw(0),
        fields: vec![HirField {
            name: "n".to_string(),
            ty: TypeId::from_raw(3),
        }],
        methods: vec![method],
        extends: Some("Base".to_string()),
        type_params: Vec::new(),
    };
    let mut d = Dumper::new();
    dump_class(&class, &mut d);
    assert!(d.buf.contains("class K extends Base"));
    assert!(d.buf.contains("field n: 3"));
    assert!(d.buf.contains("method m"));
    assert!(d.buf.contains("p: 9"));
}

#[test]
fn dump_method_emits_async_throws_body_braces_and_return_type() {
    let mut m = empty_func("doThing");
    m.is_async = true;
    m.throws = Some(TypeId::from_raw(8));
    m.ret = TypeId::from_raw(3);
    m.body = vec![HirStmt::ret(Some(HirExpr::Int(0, sp())))];
    let class = HirClass {
        name: "K".to_string(),
        ty: TypeId::from_raw(0),
        fields: Vec::new(),
        methods: vec![m],
        extends: None,
        type_params: Vec::new(),
    };
    let mut d = Dumper::new();
    dump_class(&class, &mut d);
    assert!(d.buf.contains("async method doThing"));
    assert!(d.buf.contains("-> 3"));
    assert!(d.buf.contains("throws 8"));
    assert!(d.buf.contains("body: {"));
    assert!(d.buf.contains("return 0"));
}

#[test]
fn dump_method_empty_body_emits_only_class_body_block() {
    let m = empty_func("empty");
    let class = HirClass {
        name: "K".to_string(),
        ty: TypeId::from_raw(0),
        fields: Vec::new(),
        methods: vec![m],
        extends: None,
        type_params: Vec::new(),
    };
    let mut d = Dumper::new();
    dump_class(&class, &mut d);
    assert!(d.buf.contains("method empty"));
    assert_eq!(d.buf.matches("body: {").count(), 1);
}

#[test]
fn dump_enum_with_and_without_values() {
    let variants = vec![
        HirEnumVariant {
            name: "A".to_string(),
            value: None,
        },
        HirEnumVariant {
            name: "B".to_string(),
            value: Some(HirExpr::Int(11, sp())),
        },
    ];
    let mut d = Dumper::new();
    dump_decl(&HirDecl::Enum { name: "E".to_string(), variants }, &mut d);
    assert!(d.buf.contains("enum E {"));
    assert!(d.buf.contains("A"));
    assert!(d.buf.contains("B = 11"));
}

#[test]
fn dump_global_with_init() {
    let mut d = Dumper::new();
    dump_decl(&HirDecl::Global { name: "g".to_string(), ty: TypeId::from_raw(4), init: Some(HirExpr::Int(99, sp())) }, &mut d);
    assert!(d.buf.contains("global g: 4"));
    assert!(d.buf.contains("= 99"));
}

#[test]
fn dump_global_without_init_omits_eq() {
    let mut d = Dumper::new();
    dump_decl(&HirDecl::Global { name: "g".to_string(), ty: TypeId::from_raw(4), init: None }, &mut d);
    assert!(d.buf.contains("global g: 4"));
    assert!(!d.buf.contains("= "));
}

#[test]
fn dump_namespace_with_member_decl() {
    let mut d = Dumper::new();
    dump_decl(&HirDecl::Namespace { name: "NS".to_string(), members: vec![HirDecl::Interface { name: "I".to_string() }] }, &mut d);
    assert!(d.buf.contains("namespace NS"));
    assert!(d.buf.contains("interface I"));
}

#[test]
fn dump_function_with_type_params() {
    let mut f = empty_func("id");
    f.type_params.push(GenericParamId::from_raw(0));
    let mut d = Dumper::new();
    dump_function(&f, &mut d);
    assert!(d.buf.contains("type_params:"));
}

#[test]
fn dump_type_alias_emits_target_raw() {
    let mut d = Dumper::new();
    dump_decl(
        &HirDecl::TypeAlias {
            name: "MyT".to_string(),
            target: TypeId::from_raw(7),
        },
        &mut d,
    );
    assert!(d.buf.contains("typealias MyT = 7"));
}

#[test]
fn dump_interface_emits_name() {
    let mut d = Dumper::new();
    dump_decl(
        &HirDecl::Interface {
            name: "IFace".to_string(),
        },
        &mut d,
    );
    assert!(d.buf.contains("interface IFace"));
}

#[test]
fn dump_global_decl_routes_through_dump_decl() {
    let mut d = Dumper::new();
    dump_decl(
        &HirDecl::Global {
            name: "gx".to_string(),
            ty: TypeId::from_raw(0),
            init: None,
        },
        &mut d,
    );
    assert!(d.buf.contains("global gx"));
}

#[test]
fn dump_enum_decl_routes_through_dump_decl() {
    let mut d = Dumper::new();
    dump_decl(
        &HirDecl::Enum {
            name: "E".to_string(),
            variants: vec![],
        },
        &mut d,
    );
    assert!(d.buf.contains("enum E {"));
}

#[test]
fn dump_function_decl_routes_through_dump_decl() {
    let mut d = Dumper::new();
    dump_decl(&HirDecl::Function(empty_func("f")), &mut d);
    assert!(d.buf.contains("fn f"));
}

#[test]
fn dump_class_decl_routes_through_dump_decl() {
    let mut d = Dumper::new();
    dump_decl(
        &HirDecl::Class(HirClass {
            name: "C".to_string(),
            ty: TypeId::from_raw(0),
            fields: vec![],
            methods: vec![],
            extends: None,
            type_params: vec![],
        }),
        &mut d,
    );
    assert!(d.buf.contains("class C"));
}

#[test]
fn function_param_to_string_contains_name_and_type() {
    let p = HirParam {
        name: "a".to_string(),
        ty: TypeId::from_raw(2),
    };
    assert_eq!(dump_param(&p), "a: 2");
}

#[test]
fn field_to_string_contains_name_and_type() {
    let f = HirField {
        name: "f".to_string(),
        ty: TypeId::from_raw(5),
    };
    assert_eq!(dump_field(&f), "f: 5");
}

#[test]
fn empty_enum_body_emits_empty_line() {
    let mut d = Dumper::new();
    dump_decl(&HirDecl::Enum { name: "E".to_string(), variants: Vec::new() }, &mut d);
    assert!(d.buf.contains("enum E {"));
}

#[test]
fn function_with_body_emits_open_close_braces() {
    let mut f = empty_func("body");
    f.body = vec![HirStmt::ret(Some(HirExpr::Int(0, sp())))];
    let mut d = Dumper::new();
    dump_function(&f, &mut d);
    assert!(d.buf.contains("body: {"));
    assert!(d.buf.contains("}"));
}

#[test]
fn module_id_propagates_through_dump_text() {
    let mut prog = HirProgram::new(ModuleId::from_raw(123));
    prog.push_decl(HirDecl::Function(empty_func("hello")));
    let text = prog.dump_text();
    assert!(text.contains("HirProgram(module=123)"));
    assert!(text.contains("fn hello"));
}

#[test]
fn dump_empty_program() {
    let prog = HirProgram::new(ModuleId::from_raw(0));
    let text = prog.dump_text();
    assert!(text.contains("HirProgram(module=0)"));
    assert!(text.contains("imports: ["));
    assert!(text.contains("exports: ["));
    assert!(text.contains("declarations: ["));
}

#[test]
fn dump_program_with_module_id() {
    let prog = HirProgram::new(ModuleId::from_raw(42));
    let text = prog.dump_text();
    assert!(text.contains("HirProgram(module=42)"));
}

#[test]
fn dump_program_with_import() {
    let mut prog = HirProgram::new(ModuleId::from_raw(0));
    prog.imports.push(HirImport {
        module: "./foo".to_string(),
        name: "bar".to_string(),
        alias: None,
    });
    let text = prog.dump_text();
    assert!(text.contains("import"));
    assert!(text.contains("bar"));
    assert!(text.contains("./foo"));
}

#[test]
fn dump_program_with_import_with_alias() {
    let mut prog = HirProgram::new(ModuleId::from_raw(0));
    prog.imports.push(HirImport {
        module: "./m".to_string(),
        name: "orig".to_string(),
        alias: Some("renamed".to_string()),
    });
    let text = prog.dump_text();
    assert!(text.contains("as renamed"));
}

#[test]
fn dump_program_with_export() {
    let mut prog = HirProgram::new(ModuleId::from_raw(0));
    prog.exports.push(HirExport {
        name: "hello".to_string(),
        alias: None,
    });
    let text = prog.dump_text();
    assert!(text.contains("export"));
    assert!(text.contains("hello"));
}

#[test]
fn dump_program_with_export_with_alias() {
    let mut prog = HirProgram::new(ModuleId::from_raw(0));
    prog.exports.push(HirExport {
        name: "inner".to_string(),
        alias: Some("outer".to_string()),
    });
    let text = prog.dump_text();
    assert!(text.contains("as outer"));
}

#[test]
fn dump_program_with_function_decl() {
    let mut prog = HirProgram::new(ModuleId::from_raw(0));
    prog.push_decl(HirDecl::Function(empty_func("alpha")));
    let text = prog.dump_text();
    assert!(text.contains("fn alpha"));
}

#[test]
fn dump_program_with_class_decl() {
    let mut prog = HirProgram::new(ModuleId::from_raw(0));
    prog.push_decl(HirDecl::Class(HirClass {
        name: "Beta".to_string(),
        ty: TypeId::from_raw(0),
        fields: vec![],
        methods: vec![],
        extends: None,
        type_params: vec![],
    }));
    let text = prog.dump_text();
    assert!(text.contains("class Beta"));
}

#[test]
fn dump_program_with_global_decl() {
    let mut prog = HirProgram::new(ModuleId::from_raw(0));
    prog.push_decl(HirDecl::Global {
        name: "g1".to_string(),
        ty: TypeId::from_raw(0),
        init: None,
    });
    let text = prog.dump_text();
    assert!(text.contains("global g1"));
}

#[test]
fn dump_program_with_type_alias() {
    let mut prog = HirProgram::new(ModuleId::from_raw(0));
    prog.push_decl(HirDecl::TypeAlias {
        name: "MyT".to_string(),
        target: TypeId::from_raw(7),
    });
    let text = prog.dump_text();
    assert!(text.contains("typealias MyT = 7"));
}

#[test]
fn dump_program_with_interface() {
    let mut prog = HirProgram::new(ModuleId::from_raw(0));
    prog.push_decl(HirDecl::Interface {
        name: "IFace".to_string(),
    });
    let text = prog.dump_text();
    assert!(text.contains("interface IFace"));
}

#[test]
fn dump_program_with_enum() {
    let mut prog = HirProgram::new(ModuleId::from_raw(0));
    prog.push_decl(HirDecl::Enum {
        name: "Color".to_string(),
        variants: vec![
            HirEnumVariant {
                name: "Red".to_string(),
                value: None,
            },
            HirEnumVariant {
                name: "Green".to_string(),
                value: Some(HirExpr::Int(0, sp())),
            },
        ],
    });
    let text = prog.dump_text();
    assert!(text.contains("enum Color"));
    assert!(text.contains("Red"));
    assert!(text.contains("Green"));
}

#[test]
fn dump_program_with_namespace_recurses_into_members() {
    let mut prog = HirProgram::new(ModuleId::from_raw(0));
    prog.push_decl(HirDecl::Namespace {
        name: "NS".to_string(),
        members: vec![HirDecl::Interface {
            name: "Nested".to_string(),
        }],
    });
    let text = prog.dump_text();
    assert!(text.contains("namespace NS"));
    assert!(text.contains("Nested"));
}

#[test]
fn dump_program_with_class_fields_and_extends() {
    let mut prog = HirProgram::new(ModuleId::from_raw(0));
    prog.push_decl(HirDecl::Class(HirClass {
        name: "Child".to_string(),
        ty: TypeId::from_raw(0),
        fields: vec![HirField {
            name: "x".to_string(),
            ty: TypeId::from_raw(3),
        }],
        methods: vec![empty_func("m")],
        extends: Some("Parent".to_string()),
        type_params: vec![],
    }));
    let text = prog.dump_text();
    assert!(text.contains("class Child extends Parent"));
    assert!(text.contains("x: 3"));
    assert!(text.contains("method m"));
}

#[test]
fn dump_sym_returns_atom_string() {
    let atom = String::from("helloworld");
    let d = Dumper::new();
    assert_eq!(dump_sym(&atom, &d), "helloworld");
}

#[test]
fn dump_showcase_full_program() {
    let mut f = HirFunction {
        name: "render".to_string(),
        params: vec![HirParam {
            name: "name".to_string(),
            ty: TypeId::from_raw(1),
        }],
        ret: TypeId::from_raw(2),
        throws: None,
        body: vec![HirStmt::ret(Some(HirExpr::Binary {
            op: HirBinaryOp::Add,
            lhs: Box::new(HirExpr::String("Hello, ".to_string(), sp())),
            rhs: Box::new(HirExpr::Local {
                id: LocalId::from_raw(0),
                ty: TypeId::from_raw(1),
                span: sp(),
            }),
            ty: TypeId::from_raw(2),
            span: sp(),
        }))],
        is_async: false,
        is_generator: false,
        is_exported: true,
        type_params: Vec::new(),
    };
    f.name = "render".to_string();
    let class = HirDecl::Class(HirClass {
        name: "Page".to_string(),
        ty: TypeId::from_raw(3),
        fields: vec![HirField {
            name: "title".to_string(),
            ty: TypeId::from_raw(1),
        }],
        methods: Vec::new(),
        extends: None,
        type_params: Vec::new(),
    });
    let mut prog = HirProgram::new(ModuleId::from_raw(0));
    prog.imports.push(HirImport {
        module: "./util".to_string(),
        name: "escape".to_string(),
        alias: None,
    });
    prog.exports.push(HirExport {
        name: "render".to_string(),
        alias: None,
    });
    prog.push_decl(HirDecl::Function(f));
    prog.push_decl(class);
    let text = prog.dump_text();
    assert!(text.contains("HirProgram(module=0)"));
    assert!(text.contains("import { escape } from \"./util\""));
    assert!(text.contains("export { render }"));
    assert!(text.contains("fn render"));
    assert!(text.contains("exported"));
    assert!(text.contains("Hello,"));
    assert!(text.contains("class Page"));
    assert!(text.contains("field title: 1"));
}
