# ts_aot

The front half of an ahead-of-time compiler for a strict subset of
TypeScript, written in Verus: the intermediate representations and the
pass that lowers a parsed module to the high-level IR, with their
behaviour stated in contracts and proved.

Layout:

- `src/base.rs`, `src/text.rs`, `src/types.rs`: spans, ids, diagnostics,
  text helpers, and the interned type table.
- `src/hir/`: the high-level IR (expressions, statements, declarations,
  programs), its mathematical views, searches over bodies, visitors, and the
  text dump.
- `src/mir/`: the mid-level IR body types and the runtime features that its
  operations require.
- `src/frontend/`: the frontend's own AST of a parsed module, type
  resolution, scopes, the lowering to HIR (expressions, statements,
  declarations, type aliases, module statements), the pass and its dump,
  and the semantic check of a source file, which calls oxc's parser and
  semantic builder behind one trusted wrapper and shapes their diagnostics.
- `app/`: parsing with oxc and the conversion of the oxc AST into the
  frontend's AST, from which the library's pass runs.
- `tests/`: tests of the library on concrete values.
