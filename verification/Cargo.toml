[package]
name = "ts_aot"
version = "0.1.0"
edition = "2021"
publish = false

[dependencies]
oxc_allocator = "=0.143.0"
oxc_ast = "=0.143.0"
oxc_diagnostics = "=0.143.0"
oxc_ecmascript = "=0.143.0"
oxc_parser = "=0.143.0"
oxc_semantic = "=0.143.0"
oxc_span = "=0.143.0"
oxc_str = "=0.143.0"
oxc_syntax = "=0.143.0"
miette = "=7.6.0"
