//! The dump of a whole program: its header, then imports, exports and
//! declarations, each in a bracketed section.
use vstd::prelude::*;
use crate::hir::dump::decl::dump_decl;
use crate::hir::dump::render::decls_text;
use crate::hir::dump::{deeper, line_at, Dumper};
use crate::hir::decl::HirDecl;
use crate::hir::program::{HirExport, HirImport, HirProgram};
use crate::hir::view::decls_v;
use crate::text::{debug_str, dec_nat, push_debug_str, push_str, push_u32_dec};

verus! {

broadcast use {crate::hir::dump::lemma_text_assoc, crate::hir::dump::lemma_text_empty};

/// The line of an import: `import { name } from "module" as alias`.
pub open spec fn import_text(imp: HirImport) -> Seq<char> {
    "import { "@ + imp.name@ + " } from "@ + debug_str(imp.module@)
        + (match imp.alias { Some(a) => " as "@ + a@, None => Seq::empty() })
}

/// The line of an export: `export { name } as alias`.
pub open spec fn export_text(exp: HirExport) -> Seq<char> {
    "export { "@ + exp.name@ + " }"@ + (match exp.alias { Some(a) => " as "@ + a@, None => Seq::empty() })
}

/// The first `k` imports, one line each at padding `p`.
pub open spec fn imports_text(s: Seq<HirImport>, p: Seq<char>, k: nat) -> Seq<char>
    decreases k,
{
    if k == 0 || k > s.len() {
        Seq::empty()
    } else {
        imports_text(s, p, (k - 1) as nat) + line_at(p, import_text(s[k - 1]))
    }
}

/// The first `k` exports, one line each at padding `p`.
pub open spec fn exports_text(s: Seq<HirExport>, p: Seq<char>, k: nat) -> Seq<char>
    decreases k,
{
    if k == 0 || k > s.len() {
        Seq::empty()
    } else {
        exports_text(s, p, (k - 1) as nat) + line_at(p, export_text(s[k - 1]))
    }
}

/// A bracketed section: its title line, its body one level deeper (or an
/// empty line when the body is empty), and a closing bracket.
pub open spec fn section(p: Seq<char>, title: Seq<char>, body: Seq<char>, empty: bool) -> Seq<char> {
    line_at(p, title) + body + (if empty { line_at(deeper(p), ""@) } else { Seq::empty() }) + line_at(p, "]"@)
}

/// The whole dump of a program.
pub open spec fn program_text(prog: HirProgram) -> Seq<char> {
    let p0 = Seq::<char>::empty();
    let p1 = deeper(p0);
    let p2 = deeper(p1);
    line_at(p0, "HirProgram(module="@ + dec_nat(prog.module.0 as nat) + ") {"@)
        + section(p1, "imports: ["@, imports_text(prog.imports@, p2, prog.imports@.len()), prog.imports@.len() == 0)
        + section(p1, "exports: ["@, exports_text(prog.exports@, p2, prog.exports@.len()), prog.exports@.len() == 0)
        + section(
            p1,
            "declarations: ["@,
            decls_text(decls_v(prog.declarations@), p2, prog.declarations@.len()),
            prog.declarations@.len() == 0,
        )
        + line_at(p0, "}"@)
}

/// The text of a symbol name.
pub fn dump_sym(id: &str, _d: &Dumper) -> (r: String)
    ensures
        r@ == id@,
{
    String::from_str(id)
}

/// Writes the line of one import.
pub fn dump_import(imp: &HirImport, d: &mut Dumper)
    ensures
        final(d).pad@ == old(d).pad@,
        final(d).buf@ == old(d).buf@ + line_at(old(d).pad@, import_text(*imp)),
{
    let mut line = String::new();
    push_str(&mut line, "import { ");
    let name = dump_sym(imp.name.as_str(), d);
    push_str(&mut line, name.as_str());
    push_str(&mut line, " } from ");
    push_debug_str(&mut line, imp.module.as_str());
    match &imp.alias {
        Some(a) => {
            push_str(&mut line, " as ");
            let alias = dump_sym(a.as_str(), d);
            push_str(&mut line, alias.as_str());
        },
        None => {},
    }
    d.line(line.as_str());
}

/// Writes the line of one export.
pub fn dump_export(exp: &HirExport, d: &mut Dumper)
    ensures
        final(d).pad@ == old(d).pad@,
        final(d).buf@ == old(d).buf@ + line_at(old(d).pad@, export_text(*exp)),
{
    let mut line = String::new();
    push_str(&mut line, "export { ");
    let name = dump_sym(exp.name.as_str(), d);
    push_str(&mut line, name.as_str());
    push_str(&mut line, " }");
    match &exp.alias {
        Some(a) => {
            push_str(&mut line, " as ");
            let alias = dump_sym(a.as_str(), d);
            push_str(&mut line, alias.as_str());
        },
        None => {},
    }
    d.line(line.as_str());
}

fn dump_imports(v: &Vec<HirImport>, d: &mut Dumper)
    ensures
        final(d).pad@ == old(d).pad@,
        final(d).buf@ == old(d).buf@ + imports_text(v@, old(d).pad@, v@.len()),
{
    let mut i: usize = 0;
    while i < v.len()
        invariant
            0 <= i <= v@.len(),
            d.pad@ == old(d).pad@,
            d.buf@ == old(d).buf@ + imports_text(v@, old(d).pad@, i as nat),
        decreases v@.len() - i,
    {
        dump_import(&v[i], d);
        i += 1;
    }
}

fn dump_exports(v: &Vec<HirExport>, d: &mut Dumper)
    ensures
        final(d).pad@ == old(d).pad@,
        final(d).buf@ == old(d).buf@ + exports_text(v@, old(d).pad@, v@.len()),
{
    let mut i: usize = 0;
    while i < v.len()
        invariant
            0 <= i <= v@.len(),
            d.pad@ == old(d).pad@,
            d.buf@ == old(d).buf@ + exports_text(v@, old(d).pad@, i as nat),
        decreases v@.len() - i,
    {
        dump_export(&v[i], d);
        i += 1;
    }
}

fn dump_decl_list(v: &Vec<HirDecl>, d: &mut Dumper)
    ensures
        final(d).pad@ == old(d).pad@,
        final(d).buf@ == old(d).buf@ + decls_text(decls_v(v@), old(d).pad@, v@.len()),
{
    let mut i: usize = 0;
    while i < v.len()
        invariant
            0 <= i <= v@.len(),
            d.pad@ == old(d).pad@,
            d.buf@ == old(d).buf@ + decls_text(decls_v(v@), old(d).pad@, i as nat),
        decreases v@.len() - i,
    {
        dump_decl(&v[i], d);
        i += 1;
    }
}

impl HirProgram {
    /// The program as indented text: a header line, then the imports,
    /// exports and declarations sections.
    pub fn dump_text(&self) -> (r: String)
        ensures
            r@ == program_text(*self),
    {
        let mut d = Dumper::new();
        let mut head = String::new();
        push_str(&mut head, "HirProgram(module=");
        push_u32_dec(&mut head, self.module.0);
        push_str(&mut head, ") {");
        d.line(head.as_str());
        d.push();
        d.line("imports: [");
        d.push();
        dump_imports(&self.imports, &mut d);
        if self.imports.len() == 0 {
            d.line("");
        }
        d.pop();
        d.line("]");
        d.line("exports: [");
        d.push();
        dump_exports(&self.exports, &mut d);
        if self.exports.len() == 0 {
            d.line("");
        }
        d.pop();
        d.line("]");
        d.line("declarations: [");
        d.push();
        dump_decl_list(&self.declarations, &mut d);
        if self.declarations.len() == 0 {
            d.line("");
        }
        d.pop();
        d.line("]");
        d.pop();
        d.line("}");
        d.buf
    }
}

} // verus!
