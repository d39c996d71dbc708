use ts_aot::base::{Severity, Span};
use ts_aot::frontend::semantic::{analyze_semantic, error_span, semantic_diagnostics, short_message, strip_ansi, RawError};

#[test]
fn strip_ansi_removes_color_codes() {
    let raw = "\u{1b}[31merror: foo\u{1b}[0m";
    let out = strip_ansi(raw);
    assert_eq!(out, "error: foo");
}

#[test]
fn strip_ansi_passthrough_without_escapes() {
    let raw = "plain text";
    let out = strip_ansi(raw);
    assert_eq!(out, "plain text");
}

#[test]
fn short_message_picks_first_line() {
    let raw = "first line\nsecond line\nthird line";
    let out = short_message(raw, "fb");
    assert_eq!(out, "first line");
}

#[test]
fn short_message_trims_whitespace() {
    let raw = "   trimmed   \n   rest";
    let out = short_message(raw, "fb");
    assert_eq!(out, "trimmed");
}

#[test]
fn short_message_of_empty_text_is_the_fallback() {
    assert_eq!(short_message("", "fb"), "fb");
}

#[test]
fn short_message_strips_color_codes_after_trimming() {
    assert_eq!(short_message("  \u{1b}[1mbold\u{1b}[0m  \nmore", "fb"), "bold");
}

#[test]
fn error_span_clamps_to_u32() {
    assert_eq!(error_span(None), Span::new(0, 0));
    assert_eq!(error_span(Some((3, 4))), Span::new(3, 7));
    assert_eq!(error_span(Some((u64::from(u32::MAX) + 5, 1))), Span::new(u32::MAX, u32::MAX));
}

#[test]
fn semantic_diagnostics_skip_semantic_errors_after_a_parser_panic() {
    let parse = vec![RawError { message: "Unexpected token\nat 1:1".to_string(), label: Some((6, 1)) }];
    let sem = vec![RawError { message: "Redeclaration".to_string(), label: None }];
    let bag = semantic_diagnostics(&parse, true, &sem);
    assert_eq!(bag.len(), 1);
    let d = &bag.iter()[0];
    assert_eq!(d.severity, Severity::Error);
    assert_eq!(d.code, "P0001");
    assert_eq!(d.message, "Unexpected token");
    assert_eq!(d.span, Span::new(6, 7));
}

#[test]
fn semantic_diagnostics_list_parse_then_semantic_errors() {
    let parse = vec![RawError { message: "".to_string(), label: None }];
    let sem = vec![RawError { message: "Redeclaration".to_string(), label: None }];
    let bag = semantic_diagnostics(&parse, false, &sem);
    assert_eq!(bag.len(), 2);
    assert_eq!(bag.iter()[0].code, "P0001");
    assert_eq!(bag.iter()[0].message, "parse error");
    assert_eq!(bag.iter()[1].code, "S0001");
    assert_eq!(bag.iter()[1].message, "Redeclaration");
    assert!(bag.has_errors());
}

#[test]
fn analyze_semantic_returns_empty_for_valid_source() {
    let bag = analyze_semantic("test.ts", "function add(a: i32, b: i32): i32 { return a + b; }");
    assert!(!bag.has_errors());
    assert!(bag.is_empty());
}

#[test]
fn analyze_semantic_emits_parse_error_for_syntax_fault() {
    let bag = analyze_semantic("test.ts", "const = 1;");
    assert!(bag.has_errors());
    let codes: Vec<&str> = bag.iter().iter().map(|d| d.code.as_str()).collect();
    assert!(codes.contains(&"P0001"), "expected P0001, got {codes:?}");
}

#[test]
fn analyze_semantic_emits_semantic_error_for_type_mismatch() {
    let bag = analyze_semantic("test.ts", "const x: 1 = 2;");
    let codes: Vec<&str> = bag.iter().iter().map(|d| d.code.as_str()).collect();
    assert!(codes.contains(&"S0001") || codes.contains(&"P0001") || bag.is_empty(), "diagnostic codes: {codes:?}");
}

#[test]
fn diagnostic_severity_for_parse_error_is_error() {
    let bag = analyze_semantic("test.ts", "function (() {");
    let diag = bag.iter().iter().next().expect("at least one diagnostic");
    assert!(diag.severity == Severity::Error);
}

#[test]
fn parse_error_diagnostic_carries_real_span_not_default_zero() {
    let source = "const = 1;";
    let bag = analyze_semantic("test.ts", source);
    let diag = bag.iter().iter().find(|d| d.code.as_str() == "P0001").expect("expected P0001 diagnostic");
    assert!(diag.span != Span::new(0, 0));
    assert!(diag.span.end <= u32::try_from(source.len()).unwrap_or(u32::MAX));
}

#[test]
fn analyze_semantic_of_valid_declarations_lists_nothing() {
    let bag = analyze_semantic("test.ts", "let a: i32 = 1; const b = a;");
    assert_eq!(bag.len(), 0);
}

#[test]
fn strip_ansi_leaves_plain_text_and_drops_every_escape() {
    assert_eq!(strip_ansi("plain text"), "plain text");
    let out = strip_ansi("\u{1b}[1m\u{1b}[31mx\u{1b}[0m y");
    assert_eq!(out, "x y");
    assert!(!out.contains('\u{1b}'));
}

#[test]
fn analyze_semantic_flags_invalid_syntax_severity() {
    let bag = analyze_semantic("test.ts", "const = 1;");
    let diag = bag.iter().first().expect("at least one diagnostic");
    assert_eq!(diag.severity, Severity::Error);
}

#[test]
fn source_type_for_ts_extension_marks_typescript() {
    assert!(!ts_aot::frontend::semantic::uses_typescript_fallback("hello.ts"));
}

#[test]
fn source_type_for_unknown_extension_falls_back_to_typescript() {
    assert!(ts_aot::frontend::semantic::uses_typescript_fallback("hello"));
}

#[test]
fn with_semantic_returns_none_on_parse_error() {
    assert!(!ts_aot::frontend::semantic::semantic_accepts("test.ts", "const = 1;"));
}

#[test]
fn with_semantic_invokes_closure_on_valid_source() {
    assert!(ts_aot::frontend::semantic::semantic_accepts("test.ts", "const x: i32 = 1;"));
}

#[test]
fn unknown_extension_is_checked_as_typescript() {
    let bag = analyze_semantic("hello", "let x: number = 1;");
    assert!(bag.iter().is_empty(), "{:?}", bag);
}
