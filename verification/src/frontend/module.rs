//! Module statements at the top level: named exports and imports; the
//! other forms are reported as unsupported.
use vstd::prelude::*;
use crate::base::{Diagnostic, Severity, Span};
use crate::frontend::ast::{ImportSpec, Stmt};
use crate::frontend::growth::{grew, lemma_grew_same_decls, lemma_grew_trans};
use crate::frontend::lower::SkeletonBuilder;
use crate::frontend::skeleton::{decl_lowered, makes_decl, top_decl};
use crate::hir::program::{HirExport, HirImport};
use crate::text::{push_str, str_eq, string_clone};

verus! {

broadcast use lemma_grew_trans;

/// The export that `export { local as exported }` records: under its own
/// name, with the exported name as an alias when the two differ.
pub open spec fn export_of(local: Seq<char>, exported: Seq<char>) -> (Seq<char>, Option<Seq<char>>) {
    (local, if exported == local { None } else { Some(exported) })
}

/// An export as plain values: the name, and its alias when there is one.
pub open spec fn export_v(e: HirExport) -> (Seq<char>, Option<Seq<char>>) {
    (e.name@, crate::hir::view::opt_str_v(e.alias))
}

/// The exports that `export { .. }` specifiers record, in order.
pub open spec fn exports_of(v: Seq<(String, String)>) -> Seq<(Seq<char>, Option<Seq<char>>)> {
    v.map_values(|p: (String, String)| export_of(p.0@, p.1@))
}

/// An import as plain values: the module, the imported name, and the
/// local alias when there is one.
pub open spec fn import_v(i: HirImport) -> (Seq<char>, Seq<char>, Option<Seq<char>>) {
    (i.module@, i.name@, crate::hir::view::opt_str_v(i.alias))
}

/// The imports that the named specifiers among `v` record, in order:
/// a local name that differs from the imported one becomes the alias.
pub open spec fn imports_of(source: Seq<char>, v: Seq<ImportSpec>) -> Seq<(Seq<char>, Seq<char>, Option<Seq<char>>)>
    decreases v.len(),
{
    if v.len() == 0 {
        Seq::empty()
    } else {
        imports_of(source, v.drop_last()) + match v.last() {
            ImportSpec::Named { imported, local } => seq![
                (source, imported@, if local@ == imported@ {
                    None
                } else {
                    Some(local@)
                }),
            ],
            _ => Seq::empty(),
        }
    }
}

impl SkeletonBuilder {
    /// Lowers a module statement (an `export` or an `import`).
    pub fn walk_module_declaration(&mut self, s: &Stmt)
        requires
            old(self).types.wf(),
        ensures
            final(self).types.wf(),
            grew(*old(self), *final(self)),
            s is ExportDefault || s is ExportAll || s is ExportAssignment || s is NamespaceExport || (s matches Stmt::ExportNamed {
                has_source,
                ..
            } && *has_source) ==> {
                &&& final(self).diagnostics@.len() == old(self).diagnostics@.len() + 1
                &&& final(self).diagnostics@.last().code@ == "E0300"@
                &&& final(self).diagnostics@.last().severity == Severity::Error
            },
            *s matches Stmt::ExportNamed { decl, specifiers, has_source, .. } ==> (!has_source && decl is None
                ==> final(self).program.exports@.map_values(|e: HirExport| export_v(e)) == old(
                self,
            ).program.exports@.map_values(|e: HirExport| export_v(e)) + exports_of(specifiers@)),
            s is ExportNamed ==> match top_decl(*s) {
                Some((d, e)) => makes_decl(d) ==> exists|k: int|
                    old(self).program.declarations@.len() <= k < final(self).program.declarations@.len()
                        && decl_lowered(d, e, #[trigger] final(self).program.declarations@[k]),
                None => true,
            },
            *s matches Stmt::Import { source, specifiers, .. } ==> match specifiers {
                Some(v) => final(self).program.imports@.map_values(|i: HirImport| import_v(i))
                    == old(self).program.imports@.map_values(|i: HirImport| import_v(i)) + imports_of(source@, v@),
                None => final(self).program.imports == old(self).program.imports,
            },
    {
        match s {
            Stmt::ExportNamed { decl, specifiers, has_source, span } => {
                if *has_source {
                    self.report_unsupported(
                        "E0300",
                        "re-export `export { ... } from \"...\"` is not supported in foundation",
                        *span,
                    );
                    return;
                }
                match decl {
                    Some(d) => self.handle_export_named_declaration(d),
                    None => {},
                }
                let ghost e0 = self.program.exports@;
                let ghost dd = self.program.declarations@;
                let mut i: usize = 0;
                while i < specifiers.len()
                    invariant
                        0 <= i <= specifiers@.len(),
                        self.program.declarations@ == dd,
                        self.types.wf(),
                        grew(*old(self), *self),
                        self.program.exports@.map_values(|e: HirExport| export_v(e)) == e0.map_values(
                            |e: HirExport| export_v(e),
                        ) + exports_of(specifiers@.subrange(0, i as int)),
                    decreases specifiers@.len() - i,
                {
                    let ghost m0 = self.program.exports@;
                    self.record_export_specifier(&specifiers[i].0, &specifiers[i].1);
                    proof {
                        assert(self.program.exports@.map_values(|e: HirExport| export_v(e)) =~= m0.map_values(
                            |e: HirExport| export_v(e),
                        ).push(export_v(self.program.exports@.last())));
                        assert(exports_of(specifiers@.subrange(0, i + 1)) =~= exports_of(specifiers@.subrange(0, i as int)).push(
                            export_of(specifiers@[i as int].0@, specifiers@[i as int].1@),
                        ));
                    }
                    i += 1;
                }
                proof {
                    assert(specifiers@.subrange(0, specifiers@.len() as int) =~= specifiers@);
                    match decl {
                        Some(d) => if makes_decl(*d) {
                            let k = dd.len() - 1;
                            assert(decl_lowered(*d, true, self.program.declarations@[k]));
                        },
                        None => {},
                    }
                }
            },
            Stmt::Import { source, specifiers, span } => self.handle_import_declaration(source, specifiers, *span),
            Stmt::ExportDefault(span) => {
                self.report_unsupported("E0300", "default export is not supported in foundation", *span)
            },
            Stmt::ExportAll(span) => {
                self.report_unsupported("E0300", "`export * from \"...\"` is not supported in foundation", *span)
            },
            Stmt::ExportAssignment(span) => {
                self.report_unsupported("E0300", "TS export assignment is not supported in foundation", *span)
            },
            Stmt::NamespaceExport(span) => {
                self.report_unsupported("E0300", "TS namespace export is not supported in foundation", *span)
            },
            _ => {},
        }
    }

    /// Records `export { local as exported }`.
    pub fn record_export_specifier(&mut self, local: &String, exported: &String)
        ensures
            final(self).program.declarations == old(self).program.declarations,
            final(self).program.exports@ == old(self).program.exports@.push(final(self).program.exports@.last()),
            (final(self).program.exports@.last().name@, crate::hir::view::opt_str_v(
                final(self).program.exports@.last().alias,
            )) == export_of(local@, exported@),
            final(self).types == old(self).types,
            grew(*old(self), *final(self)),
    {
        let alias = if *exported == *local {
            None
        } else {
            Some(string_clone(exported))
        };
        let ghost s0 = *self;
        self.program.exports.push(HirExport { name: string_clone(local), alias });
        proof {
            lemma_grew_same_decls(s0, *self);
        }
    }

    /// Records the named imports of an `import` statement; a side-effect
    /// import, a default import and a namespace import are `E0300` errors.
    pub fn handle_import_declaration(&mut self, source: &String, specifiers: &Option<Vec<ImportSpec>>, span: Span)
        ensures
            final(self).types == old(self).types,
            grew(*old(self), *final(self)),
            specifiers is None ==> final(self).diagnostics@.len() == old(self).diagnostics@.len() + 1
                && final(self).diagnostics@.last().code@ == "E0300"@,
            match specifiers {
                Some(v) => final(self).program.imports@.map_values(|i: HirImport| import_v(i))
                    == old(self).program.imports@.map_values(|i: HirImport| import_v(i)) + imports_of(source@, v@),
                None => final(self).program.imports == old(self).program.imports,
            },
    {
        match specifiers {
            None => {
                let mut m = String::from_str("side-effect import `import \"");
                push_str(&mut m, source.as_str());
                push_str(&mut m, "\"` is not supported in foundation");
                self.report(Diagnostic::error("E0300", m, span));
            },
            Some(v) => {
                let mut i: usize = 0;
                while i < v.len()
                    invariant
                        0 <= i <= v@.len(),
                        self.types == old(self).types,
                        grew(*old(self), *self),
                        self.program.imports@.map_values(|i: HirImport| import_v(i)) == old(
                            self,
                        ).program.imports@.map_values(|i: HirImport| import_v(i)) + imports_of(source@, v@.subrange(0, i as int)),
                    decreases v@.len() - i,
                {
                    let ghost m0 = self.program.imports@;
                    self.record_import_specifier(span, source, &v[i]);
                    proof {
                        assert(v@.subrange(0, i + 1).drop_last() =~= v@.subrange(0, i as int));
                        assert(v@.subrange(0, i + 1).last() == v@[i as int]);
                        match v@[i as int] {
                            ImportSpec::Named { .. } => {
                                assert(self.program.imports@ =~= m0.push(self.program.imports@.last()));
                                assert(self.program.imports@.map_values(|i: HirImport| import_v(i)) =~= m0.map_values(
                                    |i: HirImport| import_v(i),
                                ).push(import_v(self.program.imports@.last())));
                            },
                            _ => {},
                        }
                        assert(self.program.imports@.map_values(|i: HirImport| import_v(i)) =~= old(
                            self,
                        ).program.imports@.map_values(|i: HirImport| import_v(i)) + imports_of(source@, v@.subrange(0, i + 1)));
                    }
                    i += 1;
                }
                proof {
                    assert(v@.subrange(0, v@.len() as int) =~= v@);
                }
            },
        }
    }

    /// Records one specifier of an `import` statement.
    pub fn record_import_specifier(&mut self, span: Span, source: &String, spec: &ImportSpec)
        ensures
            final(self).types == old(self).types,
            grew(*old(self), *final(self)),
            match *spec {
                ImportSpec::Named { imported, local } => {
                    &&& final(self).program.imports@ == old(self).program.imports@.push(final(self).program.imports@.last())
                    &&& final(self).program.imports@.last().module@ == source@
                    &&& final(self).program.imports@.last().name@ == imported@
                    &&& crate::hir::view::opt_str_v(final(self).program.imports@.last().alias) == (if local@ == imported@ {
                        None
                    } else {
                        Some(local@)
                    })
                    &&& final(self).diagnostics == old(self).diagnostics
                },
                _ => {
                    &&& final(self).program.imports == old(self).program.imports
                    &&& final(self).diagnostics@.len() == old(self).diagnostics@.len() + 1
                    &&& final(self).diagnostics@.last().code@ == "E0300"@
                },
            },
    {
        match spec {
            ImportSpec::Named { imported, local } => {
                let alias = if *local == *imported {
                    None
                } else {
                    Some(string_clone(local))
                };
                let ghost s0 = *self;
                self.program.imports.push(HirImport { module: string_clone(source), name: string_clone(imported), alias });
                proof {
                    lemma_grew_same_decls(s0, *self);
                }
            },
            ImportSpec::Default { local } => {
                let mut m = String::from_str("default import `import ");
                push_str(&mut m, local.as_str());
                push_str(&mut m, " from \"");
                push_str(&mut m, source.as_str());
                push_str(&mut m, "\"` is not supported in foundation");
                self.report(Diagnostic::error("E0300", m, span));
            },
            ImportSpec::Namespace { local } => {
                let mut m = String::from_str("namespace import `import * as ");
                push_str(&mut m, local.as_str());
                push_str(&mut m, " from \"");
                push_str(&mut m, source.as_str());
                push_str(&mut m, "\"` is not supported in foundation");
                self.report(Diagnostic::error("E0300", m, span));
            },
        }
    }
}

} // verus!
