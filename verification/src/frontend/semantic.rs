//! Turning the parser's and the semantic checker's error reports into
//! diagnostics: one short, plain line per error, at the error's first label.
use vstd::prelude::*;
use crate::base::{Diagnostic, DiagnosticBag, Severity, Span};
use crate::text::{chars_of, push_char, string_from_chars};

verus! {

/// Whether `c` has the Unicode White_Space property (`char::is_whitespace`).
pub open spec fn is_ws(c: char) -> bool {
    ('\u{9}' <= c && c <= '\u{d}') || c == ' ' || c == '\u{85}' || c == '\u{a0}' || c == '\u{1680}'
        || ('\u{2000}' <= c && c <= '\u{200a}') || c == '\u{2028}' || c == '\u{2029}' || c == '\u{202f}'
        || c == '\u{205f}' || c == '\u{3000}'
}

/// Whether `c` is an ASCII letter.
pub open spec fn is_ascii_alpha(c: char) -> bool {
    ('a' <= c && c <= 'z') || ('A' <= c && c <= 'Z')
}

/// Whether `c` has the Unicode White_Space property.
pub fn is_whitespace(c: char) -> (b: bool)
    ensures
        b == is_ws(c),
{
    ('\u{9}' <= c && c <= '\u{d}') || c == ' ' || c == '\u{85}' || c == '\u{a0}' || c == '\u{1680}'
        || ('\u{2000}' <= c && c <= '\u{200a}') || c == '\u{2028}' || c == '\u{2029}' || c == '\u{202f}'
        || c == '\u{205f}' || c == '\u{3000}'
}

/// The text of `s` without ANSI escape sequences: an ESC character starts
/// a sequence, and the first ASCII letter after it ends it. `esc` says
/// whether a sequence is open when `s` starts.
pub open spec fn strip_from(s: Seq<char>, esc: bool) -> Seq<char>
    decreases s.len(),
{
    if s.len() == 0 {
        Seq::empty()
    } else if esc {
        strip_from(s.drop_first(), !is_ascii_alpha(s[0]))
    } else if s[0] == '\u{1b}' {
        strip_from(s.drop_first(), true)
    } else {
        seq![s[0]] + strip_from(s.drop_first(), false)
    }
}

/// Stripping leaves no escape character behind, and never lengthens the
/// text.
pub proof fn law_strip_removes_escapes(s: Seq<char>, esc: bool)
    ensures
        !strip_from(s, esc).contains('\u{1b}'),
        strip_from(s, esc).len() <= s.len(),
    decreases s.len(),
{
    if s.len() > 0 {
        if esc {
            law_strip_removes_escapes(s.drop_first(), !is_ascii_alpha(s[0]));
        } else if s[0] == '\u{1b}' {
            law_strip_removes_escapes(s.drop_first(), true);
        } else {
            law_strip_removes_escapes(s.drop_first(), false);
            let t = strip_from(s.drop_first(), false);
            assert forall|i: int| 0 <= i < (seq![s[0]] + t).len() implies (seq![s[0]] + t)[i] != '\u{1b}' by {
                if i > 0 {
                    assert((seq![s[0]] + t)[i] == t[i - 1]);
                }
            }
        }
    }
}

/// Text without an escape character is left as it is.
pub proof fn law_strip_plain_text(s: Seq<char>)
    requires
        !s.contains('\u{1b}'),
    ensures
        strip_from(s, false) == s,
    decreases s.len(),
{
    if s.len() > 0 {
        assert(s[0] != '\u{1b}');
        assert(!s.drop_first().contains('\u{1b}')) by {
            assert forall|i: int| 0 <= i < s.drop_first().len() implies s.drop_first()[i] != '\u{1b}' by {
                assert(s.drop_first()[i] == s[i + 1]);
            }
        }
        law_strip_plain_text(s.drop_first());
        assert(seq![s[0]] + s.drop_first() =~= s);
    }
}

/// The position of the first character of `s` from `i` on that is not
/// whitespace, or the length.
pub open spec fn skip_ws(s: Seq<char>, i: int) -> int
    decreases s.len() - i,
{
    if i >= s.len() || i < 0 {
        s.len() as int
    } else if is_ws(s[i]) {
        skip_ws(s, i + 1)
    } else {
        i
    }
}

/// The position after the last character of `s` before `j` that is not
/// whitespace, or zero.
pub open spec fn skip_ws_back(s: Seq<char>, j: int) -> int
    decreases j,
{
    if j <= 0 || j > s.len() {
        0
    } else if is_ws(s[j - 1]) {
        skip_ws_back(s, j - 1)
    } else {
        j
    }
}

/// `s` without leading and trailing whitespace (`str::trim`).
pub open spec fn trim(s: Seq<char>) -> Seq<char> {
    let a = skip_ws(s, 0);
    let b = skip_ws_back(s, s.len() as int);
    if a < b { s.subrange(a, b) } else { Seq::empty() }
}

/// The position of the first newline of `s` from `i` on, or the length.
pub open spec fn find_newline(s: Seq<char>, i: int) -> int
    decreases s.len() - i,
{
    if i >= s.len() || i < 0 {
        s.len() as int
    } else if s[i] == '\n' {
        i
    } else {
        find_newline(s, i + 1)
    }
}

/// The first line of `s`, as `str::lines` gives it: none for empty text;
/// a line ended by "\n" loses that and a "\r" before it.
pub open spec fn first_line(s: Seq<char>) -> Option<Seq<char>> {
    if s.len() == 0 {
        None
    } else {
        let k = find_newline(s, 0);
        if k < s.len() && k > 0 && s[k - 1] == '\r' {
            Some(s.subrange(0, k - 1))
        } else {
            Some(s.subrange(0, k))
        }
    }
}

/// The one-line form of an error message: its first line (or `fallback`
/// when it has none), trimmed, without ANSI escapes.
pub open spec fn short_spec(raw: Seq<char>, fallback: Seq<char>) -> Seq<char> {
    let line = match first_line(raw) {
        Some(l) => l,
        None => fallback,
    };
    strip_from(trim(line), false)
}

/// `s` without its ANSI escape sequences.
pub fn strip_ansi(s: &str) -> (r: String)
    ensures
        r@ == strip_from(s@, false),
{
    let v = chars_of(s);
    let mut out = String::new();
    let mut in_escape = false;
    let mut i: usize = 0;
    proof {
        assert(v@.subrange(0, v@.len() as int) == s@);
        assert(out@ + strip_from(s@, false) == strip_from(s@, false));
    }
    while i < v.len()
        invariant
            0 <= i <= v@.len(),
            v@ == s@,
            out@ + strip_from(v@.subrange(i as int, v@.len() as int), in_escape) == strip_from(s@, false),
        decreases v@.len() - i,
    {
        let c = v[i];
        proof {
            let rest = v@.subrange(i as int, v@.len() as int);
            assert(rest[0] == c);
            assert(rest.drop_first() == v@.subrange(i + 1, v@.len() as int));
        }
        if in_escape {
            if ('a' <= c && c <= 'z') || ('A' <= c && c <= 'Z') {
                in_escape = false;
            }
        } else if c == '\u{1b}' {
            in_escape = true;
        } else {
            let ghost before = out@;
            push_char(&mut out, c);
            proof {
                let rest = v@.subrange(i + 1, v@.len() as int);
                assert(before + (seq![c] + strip_from(rest, false)) == out@ + strip_from(rest, false));
            }
        }
        i += 1;
    }
    proof {
        assert(v@.subrange(v@.len() as int, v@.len() as int) == Seq::<char>::empty());
        assert(out@ + Seq::<char>::empty() == out@);
    }
    out
}

/// `s` without leading and trailing whitespace.
pub fn trim_chars(v: &Vec<char>) -> (r: Vec<char>)
    ensures
        r@ == trim(v@),
{
    let mut a: usize = 0;
    while a < v.len() && is_whitespace(v[a])
        invariant
            0 <= a <= v@.len(),
            skip_ws(v@, 0) == skip_ws(v@, a as int),
        decreases v@.len() - a,
    {
        a += 1;
    }
    let mut b: usize = v.len();
    proof {
        assert(skip_ws(v@, 0) == a);
    }
    while b > 0 && is_whitespace(v[b - 1])
        invariant
            0 <= b <= v@.len(),
            skip_ws_back(v@, v@.len() as int) == skip_ws_back(v@, b as int),
        decreases b,
    {
        b -= 1;
    }
    let mut out: Vec<char> = Vec::new();
    if a < b {
        let mut i: usize = a;
        while i < b
            invariant
                a <= i <= b,
                b <= v@.len(),
                out@ == v@.subrange(a as int, i as int),
            decreases b - i,
        {
            out.push(v[i]);
            i += 1;
        }
    }
    proof {
        if a < b {
            assert(out@ == trim(v@));
        } else {
            assert(out@ =~= trim(v@));
        }
    }
    out
}

/// The first line of `s`, as `str::lines` gives it.
pub fn first_line_of(v: &Vec<char>) -> (r: Option<Vec<char>>)
    ensures
        match r {
            Some(l) => first_line(v@) == Some(l@),
            None => first_line(v@) is None,
        },
{
    if v.len() == 0 {
        return None;
    }
    let mut k: usize = 0;
    while k < v.len() && v[k] != '\n'
        invariant
            0 <= k <= v@.len(),
            find_newline(v@, 0) == find_newline(v@, k as int),
        decreases v@.len() - k,
    {
        k += 1;
    }
    let end = if k < v.len() && k > 0 && v[k - 1] == '\r' { k - 1 } else { k };
    let mut out: Vec<char> = Vec::new();
    let mut i: usize = 0;
    while i < end
        invariant
            0 <= i <= end,
            end <= v@.len(),
            out@ == v@.subrange(0, i as int),
        decreases end - i,
    {
        out.push(v[i]);
        i += 1;
    }
    Some(out)
}

/// The one-line form of an error message: its first line (or `fallback`),
/// trimmed, without ANSI escapes.
pub fn short_message(raw: &str, fallback: &str) -> (r: String)
    ensures
        r@ == short_spec(raw@, fallback@),
{
    let v = chars_of(raw);
    let line = match first_line_of(&v) {
        Some(l) => l,
        None => chars_of(fallback),
    };
    let t = trim_chars(&line);
    let s = string_from_chars(&t);
    strip_ansi(s.as_str())
}

/// An error as the parser or the semantic checker reports it: its
/// rendered message and, when it has one, its first label as an offset
/// and a length in bytes.
pub struct RawError {
    pub message: String,
    pub label: Option<(u64, u64)>,
}

/// A byte offset as a span bound: offsets past `u32::MAX` stop there.
pub open spec fn clamp32(n: int) -> u32 {
    if n <= u32::MAX { n as u32 } else { u32::MAX }
}

/// The span of an error: its first label, or the empty span at 0.
pub open spec fn label_span_spec(label: Option<(u64, u64)>) -> Span {
    match label {
        Some((offset, len)) => Span { start: clamp32(offset as int), end: clamp32(offset + len) },
        None => Span { start: 0, end: 0 },
    }
}

/// The span of an error: its first label, or the empty span at 0.
pub fn error_span(label: Option<(u64, u64)>) -> (s: Span)
    ensures
        s == label_span_spec(label),
{
    match label {
        Some((offset, len)) => {
            let start: u32 = if offset <= 0xffff_ffffu64 { offset as u32 } else { u32::MAX };
            let end_wide: u128 = offset as u128 + len as u128;
            let end: u32 = if end_wide <= 0xffff_ffffu128 { end_wide as u32 } else { u32::MAX };
            Span::new(start, end)
        },
        None => Span::new(0, 0),
    }
}

/// Whether a diagnostic is the one made of a reported error.
pub open spec fn made_of(d: Diagnostic, e: RawError, code: Seq<char>, fallback: Seq<char>) -> bool {
    &&& d.severity == Severity::Error
    &&& d.code@ == code
    &&& d.message@ == short_spec(e.message@, fallback)
    &&& d.span == label_span_spec(e.label)
}

/// Appends one diagnostic per reported error, in order.
pub fn push_raw_errors(bag: &mut DiagnosticBag, errors: &Vec<RawError>, code: &str, fallback: &str)
    ensures
        final(bag)@.len() == old(bag)@.len() + errors@.len(),
        final(bag)@.subrange(0, old(bag)@.len() as int) == old(bag)@,
        forall|i: int| 0 <= i < errors@.len() ==> made_of(#[trigger] final(bag)@[old(bag)@.len() + i], errors@[i], code@, fallback@),
{
    let mut i: usize = 0;
    while i < errors.len()
        invariant
            0 <= i <= errors@.len(),
            bag@.len() == old(bag)@.len() + i,
            bag@.subrange(0, old(bag)@.len() as int) == old(bag)@,
            forall|j: int| 0 <= j < i ==> made_of(#[trigger] bag@[old(bag)@.len() + j], errors@[j], code@, fallback@),
        decreases errors@.len() - i,
    {
        let msg = short_message(errors[i].message.as_str(), fallback);
        let d = Diagnostic::error(code, msg, error_span(errors[i].label));
        let ghost before = bag@;
        bag.push(d);
        proof {
            assert(bag@.subrange(0, old(bag)@.len() as int) == before.subrange(0, old(bag)@.len() as int));
            assert forall|j: int| 0 <= j < i + 1 implies made_of(#[trigger] bag@[old(bag)@.len() + j], errors@[j], code@, fallback@) by {
                if j < i {
                    assert(bag@[old(bag)@.len() + j] == before[old(bag)@.len() + j]);
                }
            }
        }
        i += 1;
    }
}

/// The diagnostics of a semantic analysis: one `P0001` error per parse
/// error, then, unless the parser gave up, one `S0001` error per semantic
/// error.
pub fn semantic_diagnostics(parse_errors: &Vec<RawError>, panicked: bool, semantic_errors: &Vec<RawError>) -> (bag: DiagnosticBag)
    ensures
        bag@.len() == parse_errors@.len() + (if panicked { 0 } else { semantic_errors@.len() }),
        forall|i: int| 0 <= i < parse_errors@.len() ==> made_of(#[trigger] bag@[i], parse_errors@[i], "P0001"@, "parse error"@),
        !panicked ==> forall|i: int| 0 <= i < semantic_errors@.len() ==> made_of(#[trigger] bag@[parse_errors@.len() + i], semantic_errors@[i], "S0001"@, "semantic error"@),
{
    let mut bag = DiagnosticBag::new();
    push_raw_errors(&mut bag, parse_errors, "P0001", "parse error");
    if panicked {
        proof {
            assert forall|i: int| 0 <= i < parse_errors@.len() implies made_of(#[trigger] bag@[i], parse_errors@[i], "P0001"@, "parse error"@) by {
                assert(bag@[0 + i] == bag@[i]);
            }
        }
        return bag;
    }
    let ghost mid = bag@;
    push_raw_errors(&mut bag, semantic_errors, "S0001", "semantic error");
    proof {
        assert forall|i: int| 0 <= i < parse_errors@.len() implies made_of(#[trigger] bag@[i], parse_errors@[i], "P0001"@, "parse error"@) by {
            assert(bag@[i] == bag@.subrange(0, mid.len() as int)[i]);
            assert(mid[i] == bag@[i]);
            assert(mid[0 + i] == mid[i]);
        }
    }
    bag
}

/// An error as plain values: its message and its first label.
pub open spec fn raw_error_v(e: RawError) -> (Seq<char>, Option<(u64, u64)>) {
    (e.message@, e.label)
}

/// Errors as plain values, in order.
pub open spec fn raw_errors_v(s: Seq<RawError>) -> Seq<(Seq<char>, Option<(u64, u64)>)> {
    s.map_values(|e: RawError| raw_error_v(e))
}

/// The name of whether oxc gives a source type to a file of this name
/// (`oxc_span::SourceType::from_path` succeeds).
pub uninterp spec fn oxc_path_known(name: Seq<char>) -> bool;

/// The name of what oxc reports for a source file of the given name, with
/// the source type that the name gives: its parse errors, whether the
/// parser gave up, and the errors of its semantic analysis with syntax
/// checks on.
pub uninterp spec fn oxc_check(name: Seq<char>, source: Seq<char>) -> (
    Seq<(Seq<char>, Option<(u64, u64)>)>,
    bool,
    Seq<(Seq<char>, Option<(u64, u64)>)>,
);

/// The name of what oxc reports for a source parsed as TypeScript with the
/// default settings otherwise (`SourceType::default().with_typescript(true)`).
pub uninterp spec fn oxc_check_ts(source: Seq<char>) -> (
    Seq<(Seq<char>, Option<(u64, u64)>)>,
    bool,
    Seq<(Seq<char>, Option<(u64, u64)>)>,
);

/// Calls `oxc_span::SourceType::from_path` on the name and tells whether it
/// gave a source type. Claimed: the answer depends on the name alone.
#[verifier::external_body]
fn oxc_knows_path(name: &str) -> (b: bool)
    ensures
        b == oxc_path_known(name@),
{
    oxc_span::SourceType::from_path(name).is_ok()
}

/// Parses `source` with `oxc_parser::Parser::parse`, with the source type
/// that `SourceType::from_path` gives the name, and runs
/// `oxc_semantic::SemanticBuilder::build` with syntax checks on over the
/// program; each error becomes its rendered text (`OxcDiagnostic`'s
/// `Display`) and its first label's offset and length. Claimed: the
/// result is a function of the name and the source alone.
#[verifier::external_body]
fn oxc_parse_and_check(name: &str, source: &str) -> (r: (Vec<RawError>, bool, Vec<RawError>))
    requires
        oxc_path_known(name@),
    ensures
        (raw_errors_v(r.0@), r.1, raw_errors_v(r.2@)) == oxc_check(name@, source@),
{
    let allocator = oxc_allocator::Allocator::default();
    let ret = oxc_parser::Parser::new(&allocator, source, oxc_span::SourceType::from_path(name).unwrap()).parse();
    let conv = |e: &oxc_diagnostics::OxcDiagnostic| RawError {
        message: e.to_string(),
        label: e.labels.as_slice().first().map(|l| (l.offset() as u64, u64::from(l.len()))),
    };
    let sem = oxc_semantic::SemanticBuilder::new().with_check_syntax_error(true).build(&ret.program);
    (ret.diagnostics.iter().map(conv).collect(), ret.panicked, sem.diagnostics.iter().map(conv).collect())
}

/// As `oxc_parse_and_check`, with the source type
/// `SourceType::default().with_typescript(true)`. Claimed: the result is a
/// function of the source alone.
#[verifier::external_body]
fn oxc_parse_and_check_ts(source: &str) -> (r: (Vec<RawError>, bool, Vec<RawError>))
    ensures
        (raw_errors_v(r.0@), r.1, raw_errors_v(r.2@)) == oxc_check_ts(source@),
{
    let allocator = oxc_allocator::Allocator::default();
    let st = oxc_span::SourceType::default().with_typescript(true);
    let ret = oxc_parser::Parser::new(&allocator, source, st).parse();
    let conv = |e: &oxc_diagnostics::OxcDiagnostic| RawError {
        message: e.to_string(),
        label: e.labels.as_slice().first().map(|l| (l.offset() as u64, u64::from(l.len()))),
    };
    let sem = oxc_semantic::SemanticBuilder::new().with_check_syntax_error(true).build(&ret.program);
    (ret.diagnostics.iter().map(conv).collect(), ret.panicked, sem.diagnostics.iter().map(conv).collect())
}

/// Whether a file of this name is parsed as TypeScript with the default
/// settings, because oxc gives its name no source type.
pub fn uses_typescript_fallback(name: &str) -> (b: bool)
    ensures
        b == !oxc_path_known(name@),
{
    !oxc_knows_path(name)
}

/// What oxc reports for a source file: with the source type its name
/// gives, or as TypeScript when the name gives none.
pub open spec fn oxc_result(name: Seq<char>, source: Seq<char>) -> (
    Seq<(Seq<char>, Option<(u64, u64)>)>,
    bool,
    Seq<(Seq<char>, Option<(u64, u64)>)>,
) {
    if oxc_path_known(name) {
        oxc_check(name, source)
    } else {
        oxc_check_ts(source)
    }
}

/// Parses and checks a source file with oxc: its parse errors, whether the
/// parser gave up, and its semantic errors.
pub fn check_with_oxc(name: &str, source: &str) -> (r: (Vec<RawError>, bool, Vec<RawError>))
    ensures
        (raw_errors_v(r.0@), r.1, raw_errors_v(r.2@)) == oxc_result(name@, source@),
{
    if uses_typescript_fallback(name) {
        oxc_parse_and_check_ts(source)
    } else {
        oxc_parse_and_check(name, source)
    }
}

/// Whether a check found nothing: no parse error, no give-up, no semantic
/// error.
pub fn check_is_clean(parse_errors: &Vec<RawError>, panicked: bool, semantic_errors: &Vec<RawError>) -> (b: bool)
    ensures
        b == (parse_errors@.len() == 0 && !panicked && semantic_errors@.len() == 0),
{
    parse_errors.len() == 0 && !panicked && semantic_errors.len() == 0
}

/// Whether a source file parses and checks without any error, so that its
/// semantic model may be handed out.
pub fn semantic_accepts(name: &str, source: &str) -> (b: bool)
    ensures
        b == ({
            let (p, panicked, sem) = oxc_result(name@, source@);
            p.len() == 0 && !panicked && sem.len() == 0
        }),
{
    let (p, panicked, sem) = check_with_oxc(name, source);
    check_is_clean(&p, panicked, &sem)
}

/// Whether a diagnostic is the one made of an error given as plain values.
pub open spec fn made_of_v(d: Diagnostic, e: (Seq<char>, Option<(u64, u64)>), code: Seq<char>, fallback: Seq<char>) -> bool {
    &&& d.severity == Severity::Error
    &&& d.code@ == code
    &&& d.message@ == short_spec(e.0, fallback)
    &&& d.span == label_span_spec(e.1)
}

/// Parses and semantically checks a source file: one `P0001` error per
/// syntax error, then, unless the parser gave up, one `S0001` error per
/// error of the semantic analysis.
pub fn analyze_semantic(name: &str, source: &str) -> (d: DiagnosticBag)
    ensures
        ({
            let (p, panicked, sem) = oxc_result(name@, source@);
            &&& d@.len() == p.len() + (if panicked { 0 } else { sem.len() })
            &&& forall|i: int| 0 <= i < p.len() ==> made_of_v(#[trigger] d@[i], p[i], "P0001"@, "parse error"@)
            &&& !panicked ==> forall|i: int| 0 <= i < sem.len() ==> made_of_v(#[trigger] d@[p.len() + i], sem[i], "S0001"@, "semantic error"@)
        }),
{
    let (parse_errors, panicked, semantic_errors) = check_with_oxc(name, source);
    let d = semantic_diagnostics(&parse_errors, panicked, &semantic_errors);
    proof {
        let (p, k, sem) = oxc_result(name@, source@);
        assert forall|i: int| 0 <= i < p.len() implies made_of_v(#[trigger] d@[i], p[i], "P0001"@, "parse error"@) by {
            assert(made_of(d@[i], parse_errors@[i], "P0001"@, "parse error"@));
            assert(p[i] == raw_error_v(parse_errors@[i]));
        }
        if !k {
            assert forall|i: int| 0 <= i < sem.len() implies made_of_v(#[trigger] d@[p.len() + i], sem[i], "S0001"@, "semantic error"@) by {
                assert(made_of(d@[parse_errors@.len() + i], semantic_errors@[i], "S0001"@, "semantic error"@));
                assert(sem[i] == raw_error_v(semantic_errors@[i]));
            }
        }
    }
    d
}

} // verus!
