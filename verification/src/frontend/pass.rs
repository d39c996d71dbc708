//! The frontend pass: from a parsed module to a HIR program and the
//! diagnostics of the parse and of the lowering, and the text dump of
//! what it produced.
use vstd::prelude::*;
use crate::base::{seq_has_errors, Diagnostic, DiagnosticBag, ModuleId, Severity, Span};
use crate::frontend::ast::Program;
use crate::frontend::lower::{declares_yielding_function, has_yield_error, SkeletonBuilder};
use crate::frontend::skeleton::placed_in_order;
use crate::frontend::typing::{banned_return, has_banned_error};
use crate::hir::dump::program::program_text;
use crate::hir::dump::{deeper, line_at, Dumper};
use crate::hir::program::HirProgram;
use crate::text::{chars_of, dec_nat, push_str, push_u32_dec, string_from_chars};
use crate::types::TypeTable;

verus! {

/// What the parser hands to the frontend: the module as parsed, whether
/// the parser gave up, and the text of each syntax error it reported.
pub struct ParsedModule {
    pub program: Program,
    pub panicked: bool,
    pub errors: Vec<String>,
}

/// The frontend pass.
#[derive(Debug, Clone, Copy, Default)]
pub struct FrontendPass;

/// What the frontend pass produces: the lowered program, and every
/// diagnostic of the parse and of the lowering (which the program also
/// carries).
#[derive(Debug)]
pub struct FrontendOutput {
    pub program: HirProgram,
    pub diagnostics: DiagnosticBag,
}

/// The message of the diagnostic for a syntax error.
pub open spec fn parse_error_message(e: Seq<char>) -> Seq<char> {
    "parse error: "@ + e
}

/// The diagnostics the pass starts from: one error per syntax error, over
/// the whole source.
pub open spec fn parse_diagnostics_ok(d: Seq<Diagnostic>, errors: Seq<String>, fallback: Span) -> bool {
    &&& d.len() >= errors.len()
    &&& forall|i: int| 0 <= i < errors.len() ==> {
        &&& (#[trigger] d[i]).severity == Severity::Error
        &&& d[i].code@ == "E0200"@
        &&& d[i].message@ == parse_error_message(errors[i]@)
        &&& d[i].span == fallback
    }
}

/// What the pass gives for a parsed module, with the type table going from
/// `before` to `after`: the program carries every diagnostic; a parser
/// that gave up yields one error and an empty program, with the table
/// unchanged; otherwise each syntax error comes first as a diagnostic, each
/// banned return type and each generator is reported, and the declarations
/// follow the module's statements in order.
pub open spec fn pass_outcome(
    parsed: ParsedModule,
    out: FrontendOutput,
    before: Seq<crate::types::TypeV>,
    after: Seq<crate::types::TypeV>,
) -> bool {
    let fallback = Span { start: 0, end: parsed.program.source_len };
    &&& before.is_prefix_of(after)
    &&& out.program.diagnostics@ == out.diagnostics@
    &&& out.program.module == ModuleId(0)
    &&& parsed.panicked ==> {
        &&& out.diagnostics@.len() == 1
        &&& out.diagnostics@[0].severity == Severity::Error
        &&& out.diagnostics@[0].code@ == "E0100"@
        &&& out.diagnostics@[0].message@ == "internal parser panic"@
        &&& out.diagnostics@[0].span == fallback
        &&& out.program.declarations@.len() == 0
        &&& out.program.imports@.len() == 0
        &&& out.program.exports@.len() == 0
        &&& after == before
    }
    &&& !parsed.panicked ==> parse_diagnostics_ok(out.diagnostics@, parsed.errors@, fallback)
    &&& !parsed.panicked ==> forall|j: int|
        0 <= j < parsed.program.body@.len() ==> (banned_return(#[trigger] parsed.program.body@[j]) matches Some(n)
            ==> has_banned_error(out.diagnostics@, n))
    &&& !parsed.panicked ==> forall|j: int|
        0 <= j < parsed.program.body@.len() && declares_yielding_function(#[trigger] parsed.program.body@[j])
            ==> has_yield_error(out.diagnostics@)
    &&& !parsed.panicked && parsed.program.body@.len() == 0 ==> out.program.declarations@.len() == 0
        && out.diagnostics@.len() == parsed.errors@.len()
    &&& !parsed.panicked ==> exists|pos: Seq<int>| #[trigger] placed_in_order(parsed.program.body@, out.program.declarations@, pos)
}

impl FrontendPass {
    pub fn new() -> (p: FrontendPass) {
        FrontendPass
    }

    /// Runs the pass with a fresh type table: what `run_with_types` gives
    /// on a new table.
    pub fn run(&self, parsed: &ParsedModule) -> (out: FrontendOutput)
        ensures
            exists|after: Seq<crate::types::TypeV>| #[trigger] pass_outcome(*parsed, out, Seq::empty(), after),
    {
        let mut types = TypeTable::new();
        self.run_with_types(parsed, &mut types)
    }

    /// Runs the pass, interning types in `types`.
    pub fn run_with_types(&self, parsed: &ParsedModule, types: &mut TypeTable) -> (out: FrontendOutput)
        requires
            old(types).wf(),
        ensures
            final(types).wf(),
            pass_outcome(*parsed, out, old(types)@, final(types)@),
    {
        let fallback = Span::new(0, parsed.program.source_len);
        let mut diagnostics = DiagnosticBag::new();
        if parsed.panicked {
            diagnostics.push(Diagnostic::error("E0100", String::from_str("internal parser panic"), fallback));
            let mut program = HirProgram::new(ModuleId(0));
            program.diagnostics.extend_from(&diagnostics);
            return FrontendOutput { program, diagnostics };
        }
        let mut i: usize = 0;
        while i < parsed.errors.len()
            invariant
                0 <= i <= parsed.errors@.len(),
                diagnostics@.len() == i,
                forall|k: int| 0 <= k < i ==> {
                    &&& (#[trigger] diagnostics@[k]).severity == Severity::Error
                    &&& diagnostics@[k].code@ == "E0200"@
                    &&& diagnostics@[k].message@ == parse_error_message(parsed.errors@[k]@)
                    &&& diagnostics@[k].span == fallback
                },
            decreases parsed.errors@.len() - i,
        {
            let mut m = String::from_str("parse error: ");
            push_str(&mut m, parsed.errors[i].as_str());
            diagnostics.push(Diagnostic::error("E0200", m, fallback));
            i += 1;
        }
        let mut t = TypeTable::new();
        std::mem::swap(&mut t, types);
        let mut b = SkeletonBuilder::new(parsed.program.source_len, parsed.program.module, t);
        b.diagnostics = diagnostics;
        let ghost d0 = b.diagnostics@;
        b.build(&parsed.program);
        let ghost dfinal = b.diagnostics@;
        let ghost pos = choose|pos: Seq<int>| placed_in_order(parsed.program.body@, b.program.declarations@, pos);
        let ghost built = b.program.declarations@;
        proof {
            assert(d0.is_prefix_of(dfinal));
            assert forall|k: int| 0 <= k < parsed.errors@.len() implies dfinal[k] == d0[k] by {
                assert(dfinal.subrange(0, d0.len() as int)[k] == dfinal[k]);
            }
            assert(parse_diagnostics_ok(dfinal, parsed.errors@, fallback));
        }
        std::mem::swap(types, &mut b.types);
        let mut program = HirProgram::new(ModuleId(0));
        std::mem::swap(&mut program, &mut b.program);
        let mut out_diags = DiagnosticBag::new();
        std::mem::swap(&mut out_diags, &mut b.diagnostics);
        let mut carried = DiagnosticBag::new();
        carried.extend_from(&out_diags);
        program.diagnostics = carried;
        proof {
            assert(program.diagnostics@ =~= out_diags@);
            assert(program.declarations@ == built);
            assert(placed_in_order(parsed.program.body@, program.declarations@, pos));
        }
        FrontendOutput { program, diagnostics: out_diags }
    }
}

/// The index of the first newline of `s` at or after `i`, or the length of
/// `s` when there is none.
pub open spec fn first_nl(s: Seq<char>, i: int) -> int
    decreases s.len() - i,
{
    if i >= s.len() {
        s.len() as int
    } else if s[i] == '\n' {
        i
    } else {
        first_nl(s, i + 1)
    }
}

pub proof fn lemma_first_nl_bounds(s: Seq<char>, i: int)
    requires
        0 <= i,
    ensures
        i < s.len() ==> i <= first_nl(s, i) <= s.len(),
        first_nl(s, i) < s.len() ==> s[first_nl(s, i)] == '\n',
    decreases s.len() - i,
{
    if i < s.len() && s[i] != '\n' {
        lemma_first_nl_bounds(s, i + 1);
    }
}

/// The lines of `s` from position `start` on, as `str::lines` splits them
/// (at `\n` or `\r\n`; a final line ending adds no empty line), each
/// written at padding `pad`.
pub open spec fn reindent_from(s: Seq<char>, pad: Seq<char>, start: int) -> Seq<char>
    decreases s.len() - start,
{
    if start < 0 || start >= s.len() {
        Seq::empty()
    } else {
        let j = first_nl(s, start);
        proof {
            lemma_first_nl_bounds(s, start);
        }
        if j >= s.len() {
            line_at(pad, s.subrange(start, j))
        } else {
            let raw = s.subrange(start, j);
            let line = if raw.len() > 0 && raw.last() == '\r' { raw.drop_last() } else { raw };
            line_at(pad, line) + reindent_from(s, pad, j + 1)
        }
    }
}

/// The word that names a severity.
pub open spec fn severity_word(s: Severity) -> Seq<char> {
    match s {
        Severity::Error => "error"@,
        Severity::Warning => "warning"@,
        Severity::Note => "note"@,
    }
}

/// The dump line of one diagnostic.
pub open spec fn diagnostic_text(d: Diagnostic) -> Seq<char> {
    severity_word(d.severity) + " ["@ + d.code@ + "] "@ + d.message@ + " ("@ + dec_nat(d.span.start as nat) + ".."@
        + dec_nat(d.span.end as nat) + ")"@
}

/// The dump lines of the first `n` diagnostics, at padding `pad`.
pub open spec fn diagnostics_lines(ds: Seq<Diagnostic>, pad: Seq<char>, n: nat) -> Seq<char>
    decreases n,
{
    if n == 0 || n > ds.len() {
        Seq::empty()
    } else {
        diagnostics_lines(ds, pad, (n - 1) as nat) + line_at(pad, diagnostic_text(ds[n - 1]))
    }
}

/// The dump of a frontend output: the module, the diagnostics (an empty
/// list shows one blank line), then the program's own dump, indented.
pub open spec fn output_text(out: FrontendOutput) -> Seq<char> {
    let p1 = deeper(Seq::empty());
    let p2 = deeper(p1);
    let ds = out.diagnostics@;
    line_at(Seq::empty(), "FrontendOutput {"@)
        + line_at(p1, "source: \"module="@ + dec_nat(out.program.module.0 as nat) + "\""@)
        + line_at(p1, "diagnostics: "@ + dec_nat(ds.len()) + " ["@)
        + diagnostics_lines(ds, p2, ds.len())
        + (if ds.len() == 0 { line_at(p2, Seq::empty()) } else { Seq::empty() })
        + line_at(p1, "]"@)
        + line_at(p1, "program:"@)
        + reindent_from(program_text(out.program), p2, 0)
        + line_at(Seq::empty(), "}"@)
}

proof fn lemma_assoc(a: Seq<char>, b: Seq<char>, c: Seq<char>)
    ensures
        a + (b + c) == (a + b) + c,
{
    assert(a + (b + c) =~= (a + b) + c);
}

/// The severity word of a diagnostic.
fn severity_str(s: Severity) -> (r: &'static str)
    ensures
        r@ == severity_word(s),
{
    match s {
        Severity::Error => "error",
        Severity::Warning => "warning",
        Severity::Note => "note",
    }
}

/// The dump line of one diagnostic.
fn diagnostic_line(d: &Diagnostic) -> (r: String)
    ensures
        r@ == diagnostic_text(*d),
{
    let mut m = String::new();
    push_str(&mut m, severity_str(d.severity));
    push_str(&mut m, " [");
    push_str(&mut m, d.code.as_str());
    push_str(&mut m, "] ");
    push_str(&mut m, d.message.as_str());
    push_str(&mut m, " (");
    push_u32_dec(&mut m, d.span.start);
    push_str(&mut m, "..");
    push_u32_dec(&mut m, d.span.end);
    push_str(&mut m, ")");
    m
}

/// Writes the lines of `text` at the dumper's padding, as `str::lines`
/// splits them.
fn write_lines(d: &mut Dumper, text: &String)
    ensures
        final(d).pad@ == old(d).pad@,
        final(d).buf@ == old(d).buf@ + reindent_from(text@, old(d).pad@, 0),
{
    let v = chars_of(text.as_str());
    let ghost s = text@;
    let ghost pad = d.pad@;
    let ghost base = d.buf@;
    let mut start: usize = 0;
    while start < v.len()
        invariant
            v@ == s,
            d.pad@ == pad,
            0 <= start <= v@.len(),
            base + reindent_from(s, pad, 0) == d.buf@ + reindent_from(s, pad, start as int),
        decreases v@.len() - start,
    {
        let mut j: usize = start;
        while j < v.len() && v[j] != '\n'
            invariant
                v@ == s,
                start <= j <= v@.len(),
                first_nl(s, start as int) == first_nl(s, j as int),
            decreases v@.len() - j,
        {
            j += 1;
        }
        let mut line: Vec<char> = Vec::new();
        let mut k: usize = start;
        while k < j
            invariant
                v@ == s,
                start <= k <= j,
                j <= v@.len(),
                line@ == s.subrange(start as int, k as int),
            decreases j - k,
        {
            line.push(v[k]);
            k += 1;
            proof {
                assert(s.subrange(start as int, k as int) == s.subrange(start as int, k - 1).push(s[k - 1]));
            }
        }
        let ghost before = d.buf@;
        if j < v.len() {
            if line.len() > 0 && line[line.len() - 1] == '\r' {
                line.pop();
            }
            let ls = string_from_chars(&line);
            d.line(ls.as_str());
            proof {
                lemma_assoc(before, line_at(pad, line@), reindent_from(s, pad, j + 1));
            }
            start = j + 1;
        } else {
            let ls = string_from_chars(&line);
            d.line(ls.as_str());
            proof {
                assert(reindent_from(s, pad, j as int) == Seq::<char>::empty());
                assert(d.buf@ + Seq::<char>::empty() =~= d.buf@);
            }
            start = j;
        }
    }
    proof {
        assert(d.buf@ + Seq::<char>::empty() =~= d.buf@);
    }
}

impl FrontendOutput {
    /// The output as indented text: the module, the diagnostics one per
    /// line, then the program's dump.
    pub fn dump_text(&self) -> (r: String)
        ensures
            r@ == output_text(*self),
    {
        let mut d = Dumper::new();
        d.line("FrontendOutput {");
        d.push();
        let mut src = String::from_str("source: \"module=");
        push_u32_dec(&mut src, self.program.module.0);
        push_str(&mut src, "\"");
        d.line(src.as_str());
        let mut head = String::from_str("diagnostics: ");
        push_u32_dec_usize(&mut head, self.diagnostics.len());
        push_str(&mut head, " [");
        d.line(head.as_str());
        d.push();
        let ghost p2 = d.pad@;
        let ghost b0 = d.buf@;
        let mut i: usize = 0;
        while i < self.diagnostics.items.len()
            invariant
                0 <= i <= self.diagnostics@.len(),
                d.pad@ == p2,
                d.buf@ == b0 + diagnostics_lines(self.diagnostics@, p2, i as nat),
            decreases self.diagnostics@.len() - i,
        {
            let l = diagnostic_line(&self.diagnostics.items[i]);
            d.line(l.as_str());
            proof {
                lemma_assoc(b0, diagnostics_lines(self.diagnostics@, p2, i as nat), line_at(p2, l@));
            }
            i += 1;
        }
        if self.diagnostics.is_empty() {
            d.line("");
        }
        d.pop();
        d.line("]");
        d.line("program:");
        d.push();
        let text = self.program.dump_text();
        write_lines(&mut d, &text);
        d.pop();
        d.pop();
        d.line("}");
        proof {
            reveal_strlit("FrontendOutput {");
            reveal_strlit("source: \"module=");
            reveal_strlit("\"");
            reveal_strlit("diagnostics: ");
            reveal_strlit(" [");
            reveal_strlit("");
            reveal_strlit("]");
            reveal_strlit("program:");
            reveal_strlit("}");
            assert(d.buf@ =~= output_text(*self));
        }
        d.buf
    }
}

/// Appends the decimal rendering of a count.
fn push_u32_dec_usize(s: &mut String, n: usize)
    ensures
        final(s)@ == old(s)@ + dec_nat(n as nat),
{
    crate::text::push_u64_dec(s, n as u64);
}

} // verus!
