use ts_aot::base::{Severity, Span};
use ts_aot::base::LocalId;
use ts_aot::frontend::ast::{
    ArrayElem, Arrow, BinaryOperator, BindingPattern, Decl, Param, Declarator, Expr, ForInit, Function, Program, Stmt, TsKeyword, TsType,
    TypeName, VarDecl,
};
use ts_aot::frontend::pass::{FrontendOutput, FrontendPass, ParsedModule};
use ts_aot::hir::decl::{HirDecl, HirFunction};
use ts_aot::hir::dump::Dumper;
use ts_aot::hir::expr::{HirCallee, HirExpr};
use ts_aot::hir::stmt::HirStmt;
use ts_aot::types::{Type, TypeTable};

fn sp() -> Span {
    Span::new(0, 0)
}

fn num(v: f64) -> Expr {
    Expr::Number(v.to_bits(), sp())
}

fn kw(k: TsKeyword) -> TsType {
    TsType::Keyword(k, sp())
}

fn reference(name: &str, args: Option<Vec<TsType>>) -> TsType {
    TsType::Reference { name: TypeName::Ident(name.to_string()), args, span: sp() }
}

fn function(name: &str, ret: Option<TsType>, body: Vec<Stmt>, is_generator: bool) -> Function {
    Function {
        id: Some(name.to_string()),
        type_params: Vec::new(),
        params: Vec::new(),
        ret,
        body: Some(body),
        is_async: false,
        is_generator,
        span: sp(),
    }
}

fn let_stmt(name: &str, init: Expr) -> Stmt {
    Stmt::Decl(Decl::Var(VarDecl {
        declarations: vec![Declarator {
            id: BindingPattern::Ident(name.to_string(), sp()),
            annotation: None,
            init: Some(init),
            span: sp(),
        }],
        span: sp(),
    }))
}

fn run(body: Vec<Stmt>) -> FrontendOutput {
    let parsed = ParsedModule { program: Program { body, module: true, source_len: 40 }, panicked: false, errors: Vec::new() };
    FrontendPass::new().run(&parsed)
}

fn run_fn(f: Function) -> FrontendOutput {
    run(vec![Stmt::Decl(Decl::Function(f))])
}

fn sole_function(out: &FrontendOutput) -> HirFunction {
    assert!(!out.diagnostics.has_errors(), "{:?}", out.diagnostics);
    out.program
        .declarations
        .iter()
        .find_map(|d| match d {
            HirDecl::Function(f) => Some(f.clone()),
            _ => None,
        })
        .expect("expected Function")
}

fn assert_e0401_for(ret: TsType, contains: &str) {
    let output = run_fn(function("f", Some(ret), Vec::new(), false));
    assert!(output.diagnostics.has_errors(), "banned type `{contains}` must trigger E0401");
    let found = output.diagnostics.iter().iter().any(|d| d.code.as_str() == "E0401" && d.message.contains(contains));
    assert!(found, "expected E0401 mentioning `{contains}`, got: {:?}", output.diagnostics);
}

#[test]
fn e0401_rejects_top_level_any() {
    assert_e0401_for(kw(TsKeyword::Any), "any");
}

#[test]
fn e0401_rejects_top_level_unknown() {
    assert_e0401_for(kw(TsKeyword::Unknown), "unknown");
}

#[test]
fn e0401_rejects_top_level_object() {
    assert_e0401_for(reference("Object", None), "Object");
}

#[test]
fn e0401_rejects_any_inside_array_element() {
    assert_e0401_for(TsType::Array(Box::new(kw(TsKeyword::Any)), sp()), "any");
}

#[test]
fn e0401_rejects_unknown_inside_array_element() {
    assert_e0401_for(TsType::Array(Box::new(kw(TsKeyword::Unknown)), sp()), "unknown");
}

#[test]
fn e0401_rejects_any_inside_generic_type_argument() {
    assert_e0401_for(reference("Vec", Some(vec![kw(TsKeyword::Any)])), "any");
}

#[test]
fn e0401_rejects_object_inside_generic_type_argument() {
    assert_e0401_for(reference("Vec", Some(vec![reference("Object", None)])), "Object");
}

#[test]
fn e0401_returns_type_error_marker_not_warning() {
    let mut types = TypeTable::new();
    let parsed = ParsedModule {
        program: Program {
            body: vec![Stmt::Decl(Decl::Function(function("f", Some(kw(TsKeyword::Unknown)), Vec::new(), false)))],
            module: true,
            source_len: 24,
        },
        panicked: false,
        errors: Vec::new(),
    };
    let output = FrontendPass::new().run_with_types(&parsed, &mut types);
    let error = output.diagnostics.iter().iter().find(|d| d.code.as_str() == "E0401").expect("E0401 must be emitted");
    assert_eq!(error.severity, Severity::Error);
    assert_eq!(
        error.message,
        "the type `unknown` is not supported in strict AOT mode. Use explicit types like `i64`, `string`, or a named struct instead."
    );
    match &output.program.declarations[0] {
        HirDecl::Function(f) => assert_eq!(types.resolve(f.ret), Some(&Type::Error)),
        other => panic!("expected Function, got {other:?}"),
    }
}

#[test]
fn body_walker_nested_blocks_get_distinct_local_ids() {
    let body = vec![
        let_stmt("a", num(1.0)),
        Stmt::Block(vec![let_stmt("b", num(2.0))], sp()),
        let_stmt("c", num(3.0)),
    ];
    let out = run_fn(function("f", Some(kw(TsKeyword::Void)), body, false));
    let f = sole_function(&out);
    let mut ids: Vec<u32> = Vec::new();
    collect_let_ids(&f.body, &mut ids);
    assert_eq!(ids, vec![0, 1, 2], "each binding gets a unique LocalId");
}

fn collect_let_ids(stmts: &[HirStmt], out: &mut Vec<u32>) {
    for s in stmts {
        match s {
            HirStmt::Let { id, .. } => out.push(id.raw()),
            HirStmt::Block(inner) => collect_let_ids(inner, out),
            _ => {}
        }
    }
}

fn c_for(body: Stmt) -> Stmt {
    Stmt::For {
        init: Some(ForInit::Var(VarDecl {
            declarations: vec![Declarator {
                id: BindingPattern::Ident("i".to_string(), sp()),
                annotation: None,
                init: Some(num(0.0)),
                span: sp(),
            }],
            span: sp(),
        })),
        test: Some(Expr::Binary {
            op: BinaryOperator::LessThan,
            left: Box::new(Expr::Ident("i".to_string(), sp())),
            right: Box::new(num(3.0)),
            span: sp(),
        }),
        update: Some(Expr::Assign {
            op: ts_aot::frontend::ast::AssignmentOperator::Assign,
            target: ts_aot::frontend::ast::AssignTarget::Simple(ts_aot::frontend::ast::SimpleTarget::Ident(
                "i".to_string(),
                sp(),
            )),
            value: Box::new(Expr::Binary {
                op: BinaryOperator::Addition,
                left: Box::new(Expr::Ident("i".to_string(), sp())),
                right: Box::new(num(1.0)),
                span: sp(),
            }),
            span: sp(),
        }),
        body: Box::new(body),
        span: sp(),
    }
}

#[test]
fn body_walker_c_style_for_desugars_to_block_with_while() {
    let out = run_fn(function("f", Some(kw(TsKeyword::Void)), vec![c_for(Stmt::Block(Vec::new(), sp()))], false));
    let f = sole_function(&out);
    match &f.body[0] {
        HirStmt::Block(inner) => {
            assert!(matches!(inner.first(), Some(HirStmt::Let { .. })), "for-init lowers to a Let: {inner:?}");
            assert!(matches!(inner.last(), Some(HirStmt::While { .. })), "for lowers to a While: {inner:?}");
        }
        other => panic!("expected desugared Block, got {other:?}"),
    }
}

#[test]
fn body_walker_c_for_runs_update_before_continue() {
    let body = Stmt::Block(vec![Stmt::Continue { label: None, span: sp() }], sp());
    let out = run_fn(function("f", Some(kw(TsKeyword::Void)), vec![c_for(body)], false));
    let f = sole_function(&out);
    let outer = match &f.body[0] {
        HirStmt::Block(o) => o,
        other => panic!("expected desugared Block, got {other:?}"),
    };
    let while_body = match outer.last() {
        Some(HirStmt::While { body, .. }) => body,
        other => panic!("expected While, got {other:?}"),
    };
    let stmts = match &**while_body {
        HirStmt::Block(s) => s,
        other => panic!("expected Block, got {other:?}"),
    };
    let inner = match &stmts[0] {
        HirStmt::Block(s) => s,
        other => panic!("expected the body block, got {other:?}"),
    };
    assert!(matches!(inner[0], HirStmt::Expr { expr: HirExpr::Assignment { .. } }));
    assert!(matches!(inner[1], HirStmt::Continue { .. }));
    assert!(matches!(stmts.last(), Some(HirStmt::Expr { expr: HirExpr::Assignment { .. } })));
}

fn yield_diagnostic_check(body: Vec<Stmt>, expected_substring: &str) {
    let output = run_fn(function("f", Some(reference("i64", None)), body, false));
    assert!(output.diagnostics.has_errors(), "`yield` in non-generator must produce a hard error");
    let found = output.diagnostics.iter().iter().any(|d| {
        d.code.as_str() == "E0500" && d.message.contains(expected_substring) && d.severity == Severity::Error
    });
    assert!(found, "expected E0500 error (not warning) mentioning `{expected_substring}`, got: {:?}", output.diagnostics);
}

#[test]
fn body_walker_yield_expression_in_non_generator_rejects_with_e0500_error() {
    yield_diagnostic_check(
        vec![
            Stmt::Expr(Expr::Yield { arg: Some(Box::new(num(1.0))), delegate: false, span: sp() }, sp()),
            Stmt::Return(Some(num(0.0)), sp()),
        ],
        "generator function",
    );
}

#[test]
fn body_walker_yield_in_generator_lowers_to_yield() {
    let body = vec![Stmt::Expr(Expr::Yield { arg: Some(Box::new(num(1.0))), delegate: false, span: sp() }, sp())];
    let out = run_fn(function("g", Some(reference("i64", None)), body, true));
    let f = sole_function(&out);
    assert!(f.is_generator);
    assert!(matches!(f.body[0], HirStmt::Expr { expr: HirExpr::Yield { .. } }));
}

#[test]
fn frontend_pass_walks_function_body() {
    let f = Function {
        id: Some("greet".to_string()),
        type_params: Vec::new(),
        params: vec![ts_aot::frontend::ast::Param {
            pattern: BindingPattern::Ident("name".to_string(), sp()),
            annotation: Some(kw(TsKeyword::String)),
            span: sp(),
        }],
        ret: Some(kw(TsKeyword::String)),
        body: Some(vec![Stmt::Return(Some(Expr::Ident("name".to_string(), sp())), sp())]),
        is_async: false,
        is_generator: false,
        span: sp(),
    };
    let out = run_fn(f);
    assert!(!out.diagnostics.has_errors(), "{:?}", out.diagnostics);
    assert_eq!(out.program.decl_count(), 1);
    match &out.program.declarations[0] {
        HirDecl::Function(f) => {
            assert_eq!(f.name, "greet");
            assert_eq!(f.params.len(), 1);
            match f.body.as_slice() {
                [HirStmt::Return { value: Some(HirExpr::Local { id, .. }) }] => assert_eq!(id.raw(), 0),
                other => panic!("expected body `return name;`, got {other:?}"),
            }
        }
        other => panic!("expected Function, got {other:?}"),
    }
}

#[test]
fn panicked_parse_reports_e0100_only() {
    let parsed = ParsedModule {
        program: Program { body: vec![let_stmt("x", num(1.0))], module: true, source_len: 9 },
        panicked: true,
        errors: vec!["ignored".to_string()],
    };
    let out = FrontendPass::new().run(&parsed);
    assert_eq!(out.diagnostics.len(), 1);
    let d = &out.diagnostics.iter()[0];
    assert_eq!(d.code, "E0100");
    assert_eq!(d.message, "internal parser panic");
    assert_eq!(d.span, Span::new(0, 9));
    assert_eq!(out.program.decl_count(), 0);
    assert_eq!(out.program.diagnostics.len(), 1);
}

#[test]
fn parse_errors_become_e0200_errors_first() {
    let parsed = ParsedModule {
        program: Program { body: Vec::new(), module: true, source_len: 19 },
        panicked: false,
        errors: vec!["Unexpected token".to_string()],
    };
    let out = FrontendPass::new().run(&parsed);
    assert!(out.diagnostics.has_errors());
    let d = &out.diagnostics.iter()[0];
    assert_eq!(d.code, "E0200");
    assert_eq!(d.message, "parse error: Unexpected token");
    assert_eq!(d.span, Span::new(0, 19));
}

#[test]
fn module_level_let_with_call_goes_to_tla_main() {
    let call = Expr::Call { callee: Box::new(Expr::Ident("g".to_string(), sp())), args: Vec::new(), type_args: None, span: sp() };
    let out = run(vec![let_stmt("x", call), let_stmt("y", num(2.0))]);
    assert!(!out.diagnostics.has_errors(), "{:?}", out.diagnostics);
    assert_eq!(out.program.tla_main_name.as_deref(), Some("__tla_main_0"));
    assert!(out.program.declarations.iter().any(|d| matches!(d, HirDecl::Global { name, .. } if name == "y")));
    assert!(out.program.declarations.iter().any(|d| matches!(d, HirDecl::Function(f) if f.name == "__tla_main_0")));
}

#[test]
fn script_mode_non_constant_top_level_let_is_e0300() {
    let call = Expr::Call { callee: Box::new(Expr::Ident("g".to_string(), sp())), args: Vec::new(), type_args: None, span: sp() };
    let parsed = ParsedModule {
        program: Program { body: vec![let_stmt("x", call)], module: false, source_len: 10 },
        panicked: false,
        errors: Vec::new(),
    };
    let out = FrontendPass::new().run(&parsed);
    assert!(out.diagnostics.iter().iter().any(|d| d.code == "E0300" && d.message.contains("top-level `let x = ...`")));
}

#[test]
fn reserved_main_function_is_e0510_in_module_mode() {
    let out = run_fn(function("main", Some(kw(TsKeyword::Void)), Vec::new(), false));
    let d = out.diagnostics.iter().iter().find(|d| d.code == "E0510").expect("E0510");
    assert_eq!(
        d.message,
        "function `main` is reserved in module mode (collides with synthesized entry point); rename or remove"
    );
}

#[test]
fn recursive_alias_is_reported_once_as_e0401_warning() {
    let alias = Stmt::Decl(Decl::TypeAlias { name: "A".to_string(), ty: reference("A", None), span: Span::new(2, 9) });
    let out = run(vec![alias]);
    let cycles: Vec<_> = out.diagnostics.iter().iter().filter(|d| d.code == "E0401").collect();
    assert_eq!(cycles.len(), 1);
    assert_eq!(cycles[0].severity, Severity::Warning);
    assert_eq!(cycles[0].message, "type alias `A` participates in a recursive cycle");
    assert_eq!(cycles[0].span, Span::new(2, 9));
}

#[test]
fn dump_indent_push_and_pop_works() {
    let mut d = Dumper::new();
    d.line("a");
    d.push();
    d.line("b");
    d.pop();
    d.line("c");
    let expected = "a\n  b\nc\n";
    assert_eq!(d.buf, expected);
}

#[test]
fn dump_clean_program_layout() {
    let out = run_fn(function("noop", Some(kw(TsKeyword::Void)), Vec::new(), false));
    let text = out.dump_text();
    assert!(text.starts_with("FrontendOutput {\n  source: \"module=0\"\n  diagnostics: 0 [\n    \n  ]\n  program:\n"));
    let program_line = text.lines().find(|l| l.contains("HirProgram(module=0)")).expect("program line");
    assert!(program_line.starts_with("    "));
    assert!(text.contains("fn noop"));
    assert!(text.ends_with("}\n"));
}

#[test]
fn dump_emits_parse_error_diagnostic_line() {
    let parsed = ParsedModule {
        program: Program { body: Vec::new(), module: true, source_len: 19 },
        panicked: false,
        errors: vec!["Unexpected token".to_string()],
    };
    let text = FrontendPass::new().run(&parsed).dump_text();
    assert!(text.contains("    error [E0200] parse error: Unexpected token (0..19)\n"));
}

fn local_decl(name: &str, annotation: TsType, init: Expr) -> Stmt {
    Stmt::Decl(Decl::Var(VarDecl {
        declarations: vec![Declarator {
            id: BindingPattern::Ident(name.to_string(), sp()),
            annotation: Some(annotation),
            init: Some(init),
            span: sp(),
        }],
        span: sp(),
    }))
}

fn ident(name: &str) -> Expr {
    Expr::Ident(name.to_string(), sp())
}

fn expr_stmt(e: Expr) -> Stmt {
    Stmt::Expr(e, sp())
}

fn array_of(k: TsKeyword) -> TsType {
    TsType::Array(Box::new(kw(k)), sp())
}

#[test]
fn array_spread_of_typed_arrays_lowers_to_runtime_concat() {
    let xs = local_decl("xs", array_of(TsKeyword::Number), Expr::Array(vec![ArrayElem::Expr(num(1.0))], sp()));
    let spread = Expr::Array(
        vec![ArrayElem::Spread(ident("xs"), sp()), ArrayElem::Expr(num(2.0)), ArrayElem::Hole(sp())],
        Span::new(3, 9),
    );
    let mut types = TypeTable::new();
    let parsed = ParsedModule {
        program: Program {
            body: vec![Stmt::Decl(Decl::Function(function("f", Some(kw(TsKeyword::Void)), vec![xs, expr_stmt(spread)], false)))],
            module: true,
            source_len: 40,
        },
        panicked: false,
        errors: Vec::new(),
    };
    let out = FrontendPass::new().run_with_types(&parsed, &mut types);
    let f = sole_function(&out);
    match &f.body[1] {
        HirStmt::Expr { expr: HirExpr::Call { callee: HirCallee::Runtime { name, ty }, args, ty: call_ty, span, .. } } => {
            assert_eq!(name, "__ts_aot_array_concat");
            assert_eq!(ty, call_ty);
            assert_eq!(*span, Span::new(3, 9));
            assert!(matches!(types.resolve(*ty), Some(Type::Array { .. })));
            assert_eq!(args.len(), 3);
            assert!(matches!(args[0], HirExpr::Local { .. }));
            assert!(matches!(&args[1], HirExpr::ArrayLiteral { elements, .. } if elements.len() == 1));
            assert!(matches!(&args[2], HirExpr::Call { callee: HirCallee::Runtime { name, .. }, .. } if name == "__ts_aot_array_hole"));
        },
        other => panic!("expected the runtime concatenation, got {other:?}"),
    }
}

#[test]
fn array_spread_with_disagreeing_element_types_is_a_placeholder() {
    let xs = local_decl("xs", array_of(TsKeyword::Number), Expr::Array(vec![ArrayElem::Expr(num(1.0))], sp()));
    let ys = local_decl("ys", array_of(TsKeyword::String), Expr::Array(Vec::new(), sp()));
    let spread = Expr::Array(
        vec![ArrayElem::Spread(ident("xs"), sp()), ArrayElem::Spread(ident("ys"), Span::new(5, 8))],
        Span::new(3, 9),
    );
    let out = run_fn(function("f", Some(kw(TsKeyword::Void)), vec![xs, ys, expr_stmt(spread)], false));
    let f = sole_function(&out);
    assert!(matches!(&f.body[2], HirStmt::Expr { expr: HirExpr::Unit(s) } if *s == Span::new(3, 9)));
    let last = out.diagnostics.iter().last().expect("a diagnostic").clone();
    assert_eq!(last.code, "E0500");
    assert_eq!(last.severity, Severity::Warning);
    assert_eq!(last.message, "array spread operands have incompatible element types");
    assert_eq!(last.span, Span::new(5, 8));
}

#[test]
fn empty_module_has_no_declarations_and_no_diagnostics() {
    let out = run(Vec::new());
    assert!(out.program.declarations.is_empty());
    assert!(out.program.imports.is_empty());
    assert!(out.program.exports.is_empty());
    assert!(out.diagnostics.iter().is_empty());
}

#[test]
fn run_matches_run_with_a_fresh_table() {
    let body = || vec![Stmt::Decl(Decl::Function(function("g", Some(kw(TsKeyword::Number)), vec![Stmt::Return(Some(num(1.0)), sp())], false)))];
    let parsed_a = ParsedModule { program: Program { body: body(), module: true, source_len: 40 }, panicked: false, errors: Vec::new() };
    let parsed_b = ParsedModule { program: Program { body: body(), module: true, source_len: 40 }, panicked: false, errors: Vec::new() };
    let a = FrontendPass::new().run(&parsed_a);
    let mut types = TypeTable::new();
    let b = FrontendPass::new().run_with_types(&parsed_b, &mut types);
    assert_eq!(a.dump_text(), b.dump_text());
    assert_eq!(format!("{:?}", a.diagnostics), format!("{:?}", b.diagnostics));
}

#[test]
fn self_referential_alias_warns_and_stands_for_the_error_type() {
    let alias = Stmt::Decl(Decl::TypeAlias { name: "A".to_string(), ty: reference("A", None), span: Span::new(0, 11) });
    let mut types = TypeTable::new();
    let parsed = ParsedModule { program: Program { body: vec![alias], module: true, source_len: 40 }, panicked: false, errors: Vec::new() };
    let out = FrontendPass::new().run_with_types(&parsed, &mut types);
    let cycles: Vec<_> = out.diagnostics.iter().iter().filter(|d| d.code == "E0401").collect();
    assert_eq!(cycles.len(), 1);
    assert_eq!(cycles[0].severity, Severity::Warning);
    let target = out
        .program
        .declarations
        .iter()
        .find_map(|d| match d {
            HirDecl::TypeAlias { name, target } if name == "A" => Some(*target),
            _ => None,
        })
        .expect("the alias is declared");
    assert_eq!(types.resolve(target), Some(&Type::Error));
}

fn arrow(params: Vec<(&str, TsType)>, body: Vec<Stmt>) -> Expr {
    Expr::Arrow(Box::new(Arrow {
        is_async: false,
        has_type_params: false,
        has_rest: false,
        params: params
            .into_iter()
            .map(|(n, t)| Param { pattern: BindingPattern::Ident(n.to_string(), sp()), annotation: Some(t), span: sp() })
            .collect(),
        ret: Some(kw(TsKeyword::Number)),
        expression: true,
        body,
        span: Span::new(1, 20),
    }))
}

#[test]
fn accepted_arrow_lowers_to_a_closure_with_a_leading_return() {
    let a = arrow(vec![("x", kw(TsKeyword::Number))], vec![expr_stmt(ident("x"))]);
    let mut types = TypeTable::new();
    let parsed = ParsedModule {
        program: Program {
            body: vec![Stmt::Decl(Decl::Function(function("f", Some(kw(TsKeyword::Void)), vec![expr_stmt(a)], false)))],
            module: true,
            source_len: 40,
        },
        panicked: false,
        errors: Vec::new(),
    };
    let out = FrontendPass::new().run_with_types(&parsed, &mut types);
    let f = sole_function(&out);
    match &f.body[0] {
        HirStmt::Expr { expr: HirExpr::Closure { id, params, captures, body, ty, span } } => {
            assert_eq!(*id, LocalId::from_raw(0));
            assert_eq!(params.len(), 1);
            assert_eq!(params[0].name, "x");
            assert!(captures.is_empty());
            assert!(matches!(&body[0], HirStmt::Return { value: Some(HirExpr::Local { .. }) }));
            assert!(matches!(types.resolve(*ty), Some(Type::Fn { err: None, .. })));
            assert_eq!(*span, Span::new(1, 20));
        },
        other => panic!("expected a closure, got {other:?}"),
    }
}

#[test]
fn arrow_capturing_an_outer_local_is_refused_with_p0005() {
    let y = local_decl("y", kw(TsKeyword::Number), num(1.0));
    let a = arrow(Vec::new(), vec![expr_stmt(ident("y"))]);
    let out = run_fn(function("f", Some(kw(TsKeyword::Void)), vec![y, expr_stmt(a)], false));
    let last = out.diagnostics.iter().last().expect("a diagnostic").clone();
    assert_eq!(last.code, "P0005");
    assert_eq!(last.severity, Severity::Error);
    let f = out
        .program
        .declarations
        .iter()
        .find_map(|d| match d {
            HirDecl::Function(f) => Some(f.clone()),
            _ => None,
        })
        .expect("function");
    assert!(matches!(&f.body[1], HirStmt::Expr { expr: HirExpr::Unit(s) } if *s == Span::new(1, 20)));
}
