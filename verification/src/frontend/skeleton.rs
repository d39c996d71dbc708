//! The top level of a module: declarations, module-scope bindings, the
//! synthesized top-level function of a module, and the names it reserves.
use vstd::prelude::*;
use crate::base::{Diagnostic, ModuleId, Severity, Span, TypeId};
use crate::frontend::ast::{binding_pattern_name, decl_span, pattern_name, stmt_span, Decl, Expr, Program, Stmt, VarDecl};
use crate::frontend::growth::{grew, lemma_grew_same_decls, lemma_grew_trans};
use crate::frontend::lower::{declares_yielding_function, has_yield_error, lemma_yield_error_kept, SkeletonBuilder, TlaMainItem};
use crate::frontend::resolve::TypeParamMap;
use crate::frontend::scope::BodyScope;
use crate::hir::decl::{HirDecl, HirEnumVariant, HirFunction, HirParam};
use crate::hir::expr::HirExpr;
use crate::hir::program::{HirExport, HirProgram};
use crate::hir::stmt::HirStmt;
use crate::text::{chars_of, push_str, str_eq, string_clone};
use crate::types::{Type, TypeTable};

verus! {

broadcast use lemma_grew_trans;

/// The name a declaration takes from its optional identifier; none gives
/// the empty name.
pub open spec fn opt_name(id: Option<String>) -> Seq<char> {
    match id {
        Some(n) => n@,
        None => Seq::empty(),
    }
}

/// What a function declaration lowers to: its name, its parameters' names,
/// its flags and its body.
pub open spec fn function_lowered(f: crate::frontend::ast::Function, exported: bool, h: HirFunction) -> bool {
    &&& h.name@ == opt_name(f.id)
    &&& h.params@.len() == f.params@.len()
    &&& forall|i: int| 0 <= i < f.params@.len() ==> #[trigger] h.params@[i].name@ == crate::frontend::lower::param_name(f.params@[i])
    &&& h.type_params@.len() == f.type_params@.len()
    &&& h.is_async == f.is_async
    &&& h.is_generator == f.is_generator
    &&& h.is_exported == exported
    &&& h.throws is None
    &&& crate::frontend::lower::body_lowered(f.body, h.body@)
}

/// What a class declaration lowers to: its name, its fields' and methods'
/// names, and the class it extends.
pub open spec fn class_lowered(c: crate::frontend::ast::Class, h: crate::hir::decl::HirClass) -> bool {
    &&& h.name@ == opt_name(c.id)
    &&& h.type_params@.len() == c.type_params@.len()
    &&& h.fields@.map_values(|f: crate::hir::decl::HirField| f.name@) == crate::frontend::lower::field_names(c.members@, c.members@.len())
    &&& h.methods@.map_values(|f: HirFunction| f.name@) == crate::frontend::lower::method_names(c.members@, c.members@.len())
    &&& match c.super_class {
        Some(e) => crate::hir::view::opt_str_v(h.extends) == crate::frontend::lower::extends_spec(*e),
        None => h.extends is None,
    }
}

/// Whether a module-scope declaration lowers to one declaration of the
/// program of its own (a function, class, type alias, enum or interface).
pub open spec fn makes_decl(d: Decl) -> bool {
    d is Function || d is Class || d is TypeAlias || d is Enum || d is Interface
}

/// What a module-scope declaration `d` lowers to, `exported` telling
/// whether an `export` carried it.
pub open spec fn decl_lowered(d: Decl, exported: bool, h: HirDecl) -> bool {
    match d {
        Decl::Function(f) => h matches HirDecl::Function(hf) && function_lowered(f, exported, hf),
        Decl::Class(c) => h matches HirDecl::Class(hc) && class_lowered(c, hc),
        Decl::TypeAlias { name, .. } => h matches HirDecl::TypeAlias { name: n, .. } && n@ == name@,
        Decl::Enum { name, members, .. } => h matches HirDecl::Enum { name: n, variants } && n@ == name@
            && variants@.len() == members@.len() && forall|i: int| 0 <= i < members@.len() ==> (
        #[trigger] variants@[i]).name@ == members@[i]@ && variants@[i].value is None,
        Decl::Interface { name, .. } => h matches HirDecl::Interface { name: n } && n@ == name@,
        _ => false,
    }
}

/// The declaration a top-level statement carries, and whether it is
/// exported: a plain declaration, or one under `export` without `from`.
pub open spec fn top_decl(s: Stmt) -> Option<(Decl, bool)> {
    match s {
        Stmt::Decl(d) => Some((d, false)),
        Stmt::ExportNamed { decl: Some(d), has_source, .. } => if has_source {
            None
        } else {
            Some((d, true))
        },
        _ => None,
    }
}

/// Whether `decls` holds what the declaration that the top-level
/// statement `s` carries lowers to, where it lowers to one.
pub open spec fn top_decl_lowered(s: Stmt, decls: Seq<HirDecl>) -> bool {
    match top_decl(s) {
        Some((d, e)) => makes_decl(d) ==> exists|k: int| 0 <= k < decls.len() && decl_lowered(d, e, #[trigger] decls[k]),
        None => true,
    }
}

/// Whether a top-level statement carries a declaration that lowers to one
/// of its own.
pub open spec fn makes_top(s: Stmt) -> bool {
    match top_decl(s) {
        Some((d, _)) => makes_decl(d),
        None => false,
    }
}

/// Whether `h` is what the declaration that `s` carries lowers to.
pub open spec fn top_lowered(s: Stmt, h: HirDecl) -> bool {
    match top_decl(s) {
        Some((d, e)) => decl_lowered(d, e, h),
        None => false,
    }
}

/// The declarations that the top-level statements `body` carry stand in
/// `decls` at the places `pos`, in the order of the statements.
pub open spec fn placed_in_order(body: Seq<Stmt>, decls: Seq<HirDecl>, pos: Seq<int>) -> bool {
    &&& pos.len() == body.len()
    &&& forall|j: int| 0 <= j < body.len() && makes_top(#[trigger] body[j]) ==> 0 <= pos[j] < decls.len() && top_lowered(
        body[j],
        decls[pos[j]],
    )
    &&& forall|j1: int, j2: int|
        0 <= j1 < j2 < body.len() && makes_top(#[trigger] body[j1]) && makes_top(#[trigger] body[j2]) ==> pos[j1] < pos[j2]
}

/// Places in a list of declarations stay when it grows.
pub proof fn lemma_placed_grow(body: Seq<Stmt>, a: Seq<HirDecl>, b: Seq<HirDecl>, pos: Seq<int>)
    requires
        placed_in_order(body, a, pos),
        a.is_prefix_of(b),
    ensures
        placed_in_order(body, b, pos),
{
    assert forall|j: int| 0 <= j < body.len() && makes_top(#[trigger] body[j]) implies 0 <= pos[j] < b.len() && top_lowered(
        body[j],
        b[pos[j]],
    ) by {
        assert(b[pos[j]] == a[pos[j]]);
    }
}

/// What a list of declarations holds stays when it grows.
pub proof fn lemma_top_decl_lowered_grow(s: Stmt, a: Seq<HirDecl>, b: Seq<HirDecl>)
    requires
        top_decl_lowered(s, a),
        a.is_prefix_of(b),
    ensures
        top_decl_lowered(s, b),
{
    match top_decl(s) {
        Some((d, e)) => if makes_decl(d) {
            let k = choose|k: int| 0 <= k < a.len() && decl_lowered(d, e, #[trigger] a[k]);
            assert(b[k] == a[k]);
        },
        None => {},
    }
}

/// The prefix of the names that the synthesized top-level function may take.
pub open spec fn tla_prefix() -> Seq<char> {
    "__tla_main_"@
}

/// Whether `name` is `__tla_main_` followed by one or more ASCII digits.
pub open spec fn tla_reserved_spec(name: Seq<char>) -> bool {
    &&& name.len() > tla_prefix().len()
    &&& name.subrange(0, tla_prefix().len() as int) == tla_prefix()
    &&& forall|i: int| tla_prefix().len() <= i < name.len() ==> '0' <= #[trigger] name[i] <= '9'
}

/// The code and the reason of the error for a top-level name that module
/// mode reserves.
pub open spec fn reserved_spec(name: Seq<char>) -> Option<(Seq<char>, Seq<char>)> {
    if name == "main"@ {
        Some(("E0510"@, "synthesized entry point"@))
    } else if name == "__ts_aot_tla_main"@ {
        Some(("E0511"@, "mangled TLA main entry name"@))
    } else if tla_reserved_spec(name) {
        Some(("E0512"@, "generated TLA main name namespace"@))
    } else {
        None
    }
}

/// Whether `name` is one of the names of the synthesized top-level
/// function: `__tla_main_` followed by one or more ASCII digits.
pub fn is_tla_main_reserved_name(name: &str) -> (b: bool)
    ensures
        b == tla_reserved_spec(name@),
{
    let v = chars_of(name);
    let p = chars_of("__tla_main_");
    proof {
        reveal_strlit("__tla_main_");
    }
    if v.len() <= p.len() {
        return false;
    }
    let mut i: usize = 0;
    while i < p.len()
        invariant
            0 <= i <= p@.len(),
            p@ == tla_prefix(),
            v@ == name@,
            v@.len() > p@.len(),
            forall|j: int| 0 <= j < i ==> v@[j] == p@[j],
        decreases p@.len() - i,
    {
        if v[i] != p[i] {
            return false;
        }
        i += 1;
    }
    proof {
        assert(name@.subrange(0, tla_prefix().len() as int) =~= tla_prefix());
    }
    let mut k: usize = p.len();
    while k < v.len()
        invariant
            p@.len() <= k <= v@.len(),
            p@ == tla_prefix(),
            v@ == name@,
            forall|j: int| p@.len() <= j < k ==> '0' <= #[trigger] v@[j] <= '9',
        decreases v@.len() - k,
    {
        let c = v[k];
        if !('0' <= c && c <= '9') {
            return false;
        }
        k += 1;
    }
    true
}

/// The code and the reason of the error for a name that module mode reserves.
pub fn reserved_name_reason(name: &str) -> (r: Option<(&'static str, &'static str)>)
    ensures
        match r {
            Some((code, reason)) => reserved_spec(name@) == Some((code@, reason@)),
            None => reserved_spec(name@) is None,
        },
{
    if str_eq(name, "main") {
        return Some(("E0510", "synthesized entry point"));
    }
    if str_eq(name, "__ts_aot_tla_main") {
        return Some(("E0511", "mangled TLA main entry name"));
    }
    if is_tla_main_reserved_name(name) {
        return Some(("E0512", "generated TLA main name namespace"));
    }
    None
}

/// Whether an initializer is a literal that a module-scope global can hold
/// as it is: a boolean, a number, `null` or `undefined`.
pub open spec fn const_init_ast_spec(e: Expr) -> bool {
    match e {
        Expr::Bool(..) | Expr::Number(..) | Expr::Null(..) => true,
        Expr::Ident(n, _) => n@ == "undefined"@,
        _ => false,
    }
}

pub fn is_const_initializer_ast(e: &Expr) -> (b: bool)
    ensures
        b == const_init_ast_spec(*e),
{
    match e {
        Expr::Bool(..) | Expr::Number(..) | Expr::Null(..) => true,
        Expr::Ident(n, _) => str_eq(n.as_str(), "undefined"),
        _ => false,
    }
}

/// Whether a lowered initializer is a constant: unit, a boolean, a number
/// or `null`.
pub fn is_const_initializer(e: &HirExpr) -> (b: bool)
    ensures
        b == (e@ is Unit || e@ is Bool || e@ is Int || e@ is Float || e@ is Null),
{
    match e {
        HirExpr::Unit(_) | HirExpr::Bool(_, _) | HirExpr::Int(_, _) | HirExpr::Float(_, _) | HirExpr::Null(_) => true,
        _ => false,
    }
}

/// The name of the synthesized top-level function of a module.
pub open spec fn fixed_tla_main_name() -> Seq<char> {
    "__tla_main_0"@
}

/// Whether `v` holds `name`.
fn contains_name(v: &Vec<String>, name: &str) -> (b: bool)
    ensures
        b == exists|i: int| 0 <= i < v@.len() && #[trigger] v@[i]@ == name@,
{
    let mut i: usize = 0;
    while i < v.len()
        invariant
            0 <= i <= v@.len(),
            forall|j: int| 0 <= j < i ==> #[trigger] v@[j]@ != name@,
        decreases v@.len() - i,
    {
        if str_eq(v[i].as_str(), name) {
            return true;
        }
        i += 1;
    }
    false
}

/// `v` without the entries equal to `name`, in order.
fn without_name(v: &Vec<String>, name: &str) -> (r: Vec<String>)
    ensures
        forall|i: int| 0 <= i < r@.len() ==> #[trigger] r@[i]@ != name@,
        forall|i: int|
            #![trigger v@[i]]
            0 <= i < v@.len() && v@[i]@ != name@ ==> exists|j: int| #![trigger r@[j]] 0 <= j < r@.len() && r@[j]@ == v@[i]@,
{
    let mut r: Vec<String> = Vec::new();
    let mut i: usize = 0;
    while i < v.len()
        invariant
            0 <= i <= v@.len(),
            forall|k: int| 0 <= k < r@.len() ==> #[trigger] r@[k]@ != name@,
            forall|k: int|
                #![trigger v@[k]]
                0 <= k < i && v@[k]@ != name@ ==> exists|j: int| #![trigger r@[j]] 0 <= j < r@.len() && r@[j]@ == v@[k]@,
            forall|j: int|
                #![trigger r@[j]]
                0 <= j < r@.len() ==> exists|k: int| #![trigger v@[k]] 0 <= k < v@.len() && v@[k]@ == r@[j]@,
        decreases v@.len() - i,
    {
        if !str_eq(v[i].as_str(), name) {
            let ghost r0 = r@;
            r.push(string_clone(&v[i]));
            proof {
                assert(r@[r@.len() - 1]@ == v@[i as int]@);
                assert forall|k: int| #![trigger v@[k]] 0 <= k < i + 1 && v@[k]@ != name@ implies exists|j: int|
                    #![trigger r@[j]] 0 <= j < r@.len() && r@[j]@ == v@[k]@ by {
                    if k < i {
                        let j = choose|j: int| #![trigger r0[j]] 0 <= j < r0.len() && r0[j]@ == v@[k]@;
                        assert(r@[j] == r0[j]);
                    } else {
                        assert(r@[r@.len() - 1]@ == v@[k]@);
                    }
                }
                assert forall|j: int| #![trigger r@[j]] 0 <= j < r@.len() implies exists|k: int| #![trigger v@[k]] 0 <= k < v@.len() && v@[k]@
                    == r@[j]@ by {
                    if j < r0.len() {
                        assert(r@[j] == r0[j]);
                    } else {
                        assert(v@[i as int]@ == r@[j]@);
                    }
                }
            }
        }
        i += 1;
    }
    r
}

impl SkeletonBuilder {
    /// A builder for one module, over the given type table. In module mode
    /// the synthesized top-level function is named `__tla_main_0`.
    pub fn new(source_len: u32, module: bool, types: TypeTable) -> (b: SkeletonBuilder)
        ensures
            b.types == types,
            b.source_len == source_len,
            b.module == module,
            b.diagnostics@.len() == 0,
            b.program.module == ModuleId(0),
            b.program.declarations@.len() == 0,
            b.program.imports@.len() == 0,
            b.program.exports@.len() == 0,
            b.program.tla_main_name is None,
            b.is_generator_stack@.len() == 0,
            b.type_param_stack@.len() == 0,
            b.tla_main_body@.len() == 0,
            b.tla_only_bindings@.len() == 0,
            b.tla_main_name@ == (if module { fixed_tla_main_name() } else { Seq::empty() }),
    {
        let tla_main_name = if module {
            String::from_str("__tla_main_0")
        } else {
            String::new()
        };
        proof {
            reveal_strlit("__tla_main_0");
        }
        SkeletonBuilder {
            types,
            diagnostics: crate::base::DiagnosticBag::new(),
            program: HirProgram::new(ModuleId(0)),
            source_len,
            next_generic_param: 0,
            next_anon_class_id: 0,
            next_closure_id: 0,
            resolved_aliases: TypeParamMap::new(),
            is_generator_stack: Vec::new(),
            type_param_stack: Vec::new(),
            module,
            tla_main_body: Vec::new(),
            tla_main_name,
            tla_top_level_scope: BodyScope::new(0),
            top_level_function_spans: Vec::new(),
            tla_only_bindings: Vec::new(),
        }
    }

    /// Lowers a whole module: type aliases first, then every top-level
    /// statement in order; then the reserved names are checked and the
    /// synthesized top-level function is made.
    pub fn build(&mut self, program: &Program)
        requires
            old(self).types.wf(),
        ensures
            final(self).types.wf(),
            grew(*old(self), *final(self)),
            forall|j: int|
                0 <= j < program.body@.len() ==> (crate::frontend::typing::banned_return(#[trigger] program.body@[j]) matches Some(n)
                    ==> crate::frontend::typing::has_banned_error(final(self).diagnostics@, n)),
            forall|j: int|
                0 <= j < program.body@.len() && declares_yielding_function(#[trigger] program.body@[j])
                    ==> has_yield_error(final(self).diagnostics@),
            forall|j: int| 0 <= j < program.body@.len() ==> top_decl_lowered(#[trigger] program.body@[j], final(self).program.declarations@),
            program.body@.len() == 0 && old(self).program.declarations@.len() == 0 && old(self).tla_main_body@.len() == 0
                ==> final(self).program.declarations@.len() == 0 && final(self).diagnostics == old(self).diagnostics,
            exists|pos: Seq<int>| #[trigger] placed_in_order(program.body@, final(self).program.declarations@, pos),
    {
        self.pre_resolve_all_aliases(program);
        self.pre_collect_tla_only_bindings(program);
        let ghost s1 = *self;
        let ghost mut pos: Seq<int> = Seq::empty();
        proof {
            assert(placed_in_order(program.body@.subrange(0, 0), self.program.declarations@, pos));
        }
        let mut i: usize = 0;
        while i < program.body.len()
            invariant
                0 <= i <= program.body@.len(),
                self.types.wf(),
                grew(*old(self), *self),
                forall|j: int|
                    0 <= j < i ==> (crate::frontend::typing::banned_return(#[trigger] program.body@[j]) matches Some(n)
                        ==> crate::frontend::typing::has_banned_error(self.diagnostics@, n)),
                forall|j: int|
                    0 <= j < i && declares_yielding_function(#[trigger] program.body@[j]) ==> has_yield_error(self.diagnostics@),
                forall|j: int| 0 <= j < i ==> top_decl_lowered(#[trigger] program.body@[j], self.program.declarations@),
                i == 0 ==> *self == s1,
                placed_in_order(program.body@.subrange(0, i as int), self.program.declarations@, pos),
            decreases program.body@.len() - i,
        {
            let ghost d0 = self.diagnostics@;
            let ghost decls0 = self.program.declarations@;
            self.walk_top_level(&program.body[i]);
            proof {
                let body = program.body@;
                let decls = self.program.declarations@;
                let k: int = if makes_top(body[i as int]) {
                    choose|k: int| decls0.len() <= k < decls.len() && top_lowered(body[i as int], #[trigger] decls[k])
                } else {
                    -1
                };
                if makes_top(body[i as int]) {
                    match top_decl(body[i as int]) {
                        Some((d, e)) => {
                            let kk = choose|kk: int| decls0.len() <= kk < decls.len() && decl_lowered(d, e, #[trigger] decls[kk]);
                            assert(top_lowered(body[i as int], decls[kk]));
                        },
                        None => {},
                    }
                }
                let pos0 = pos;
                lemma_placed_grow(body.subrange(0, i as int), decls0, decls, pos0);
                pos = pos0.push(k);
                let sub = body.subrange(0, i + 1);
                assert forall|j: int| 0 <= j < sub.len() && makes_top(#[trigger] sub[j]) implies 0 <= pos[j] < decls.len() && top_lowered(
                    sub[j],
                    decls[pos[j]],
                ) by {
                    if j < i {
                        assert(sub[j] == body.subrange(0, i as int)[j]);
                    }
                }
                assert forall|j1: int, j2: int|
                    0 <= j1 < j2 < sub.len() && makes_top(#[trigger] sub[j1]) && makes_top(#[trigger] sub[j2]) implies pos[j1] < pos[j2] by {
                    assert(sub[j1] == body.subrange(0, i as int)[j1]);
                    if j2 < i {
                        assert(sub[j2] == body.subrange(0, i as int)[j2]);
                    }
                }
                assert(placed_in_order(sub, decls, pos));
                assert forall|j: int| 0 <= j < i + 1 implies top_decl_lowered(#[trigger] program.body@[j], self.program.declarations@) by {
                    if j < i {
                        lemma_top_decl_lowered_grow(program.body@[j], decls0, self.program.declarations@);
                    }
                }
                assert forall|j: int|
                    0 <= j < i + 1 implies (crate::frontend::typing::banned_return(#[trigger] program.body@[j]) matches Some(n)
                        ==> crate::frontend::typing::has_banned_error(self.diagnostics@, n)) by {
                    if j < i {
                        match crate::frontend::typing::banned_return(program.body@[j]) {
                            Some(n) => crate::frontend::typing::lemma_banned_error_kept(d0, self.diagnostics@, n),
                            None => {},
                        }
                    }
                }
                assert forall|j: int|
                    0 <= j < i + 1 && declares_yielding_function(#[trigger] program.body@[j]) implies has_yield_error(
                        self.diagnostics@,
                    ) by {
                    if j < i {
                        lemma_yield_error_kept(d0, self.diagnostics@);
                    }
                }
            }
            i += 1;
        }
        let ghost d1 = self.diagnostics@;
        let ghost decls1 = self.program.declarations@;
        self.check_reserved_names();
        self.finalize_tla_main();
        proof {
            assert(program.body@.subrange(0, program.body@.len() as int) == program.body@);
            lemma_placed_grow(program.body@, decls1, self.program.declarations@, pos);
            assert(placed_in_order(program.body@, self.program.declarations@, pos));
            assert forall|j: int| 0 <= j < program.body@.len() implies top_decl_lowered(#[trigger] program.body@[j], self.program.declarations@) by {
                lemma_top_decl_lowered_grow(program.body@[j], decls1, self.program.declarations@);
            }
            assert forall|j: int|
                0 <= j < program.body@.len() implies (crate::frontend::typing::banned_return(#[trigger] program.body@[j]) matches Some(n)
                    ==> crate::frontend::typing::has_banned_error(self.diagnostics@, n)) by {
                match crate::frontend::typing::banned_return(program.body@[j]) {
                    Some(n) => crate::frontend::typing::lemma_banned_error_kept(d1, self.diagnostics@, n),
                    None => {},
                }
            }
            assert forall|j: int|
                0 <= j < program.body@.len() && declares_yielding_function(#[trigger] program.body@[j]) implies has_yield_error(
                    self.diagnostics@,
                ) by {
                lemma_yield_error_kept(d1, self.diagnostics@);
            }
        }
    }

    /// In module mode, records the names of the module-scope bindings whose
    /// initializer is not a constant: they live inside the synthesized
    /// top-level function only.
    pub fn pre_collect_tla_only_bindings(&mut self, program: &Program)
        ensures
            *final(self) == (SkeletonBuilder { tla_only_bindings: final(self).tla_only_bindings, ..*old(self) }),
            !old(self).module ==> final(self).tla_only_bindings == old(self).tla_only_bindings,
            old(self).tla_only_bindings@.is_prefix_of(final(self).tla_only_bindings@),
    {
        if !self.module {
            return;
        }
        let ghost b0 = self.tla_only_bindings@;
        let mut i: usize = 0;
        while i < program.body.len()
            invariant
                0 <= i <= program.body@.len(),
                *self == (SkeletonBuilder { tla_only_bindings: self.tla_only_bindings, ..*old(self) }),
                b0.is_prefix_of(self.tla_only_bindings@),
                b0 == old(self).tla_only_bindings@,
            decreases program.body@.len() - i,
        {
            let decl: Option<&Decl> = match &program.body[i] {
                Stmt::Decl(d) => Some(d),
                Stmt::ExportNamed { decl: Some(d), .. } => Some(d),
                _ => None,
            };
            match decl {
                Some(Decl::Var(v)) => {
                    let mut k: usize = 0;
                    while k < v.declarations.len()
                        invariant
                            0 <= k <= v.declarations@.len(),
                            *self == (SkeletonBuilder { tla_only_bindings: self.tla_only_bindings, ..*old(self) }),
                            b0.is_prefix_of(self.tla_only_bindings@),
                        decreases v.declarations@.len() - k,
                    {
                        let d = &v.declarations[k];
                        match (binding_pattern_name(&d.id), &d.init) {
                            (Some(name), Some(init)) => {
                                if !is_const_initializer_ast(init) && !contains_name(&self.tla_only_bindings, name.as_str()) {
                                    let ghost before = self.tla_only_bindings@;
                                    self.tla_only_bindings.push(name);
                                    proof {
                                        assert forall|j: int| 0 <= j < b0.len() implies b0[j] == self.tla_only_bindings@[j] by {
                                            assert(b0[j] == before[j]);
                                        }
                                    }
                                }
                            },
                            _ => {},
                        }
                        k += 1;
                    }
                },
                _ => {},
            }
            i += 1;
        }
    }

    /// In module mode, reports every top-level function or global whose
    /// name collides with a name that the module's entry points use.
    pub fn check_reserved_names(&mut self)
        ensures
            *final(self) == (SkeletonBuilder { diagnostics: final(self).diagnostics, ..*old(self) }),
            old(self).diagnostics@.is_prefix_of(final(self).diagnostics@),
            !old(self).module ==> final(self).diagnostics@ == old(self).diagnostics@,
            old(self).program.declarations@.len() == 0 ==> *final(self) == *old(self),
            forall|i: int| old(self).diagnostics@.len() <= i < final(self).diagnostics@.len() ==> {
                &&& (#[trigger] final(self).diagnostics@[i]).severity == Severity::Error
                &&& final(self).diagnostics@[i].code@ == "E0510"@ || final(self).diagnostics@[i].code@ == "E0511"@
                    || final(self).diagnostics@[i].code@ == "E0512"@
            },
    {
        if !self.module {
            return;
        }
        let fallback = Span::new(0, self.source_len);
        let mut i: usize = 0;
        while i < self.program.declarations.len()
            invariant
                0 <= i <= self.program.declarations@.len(),
                *self == (SkeletonBuilder { diagnostics: self.diagnostics, ..*old(self) }),
                i == 0 ==> *self == *old(self),
                old(self).diagnostics@.is_prefix_of(self.diagnostics@),
                forall|k: int| old(self).diagnostics@.len() <= k < self.diagnostics@.len() ==> {
                    &&& (#[trigger] self.diagnostics@[k]).severity == Severity::Error
                    &&& self.diagnostics@[k].code@ == "E0510"@ || self.diagnostics@[k].code@ == "E0511"@
                        || self.diagnostics@[k].code@ == "E0512"@
                },
            decreases self.program.declarations@.len() - i,
        {
            let entry: Option<(String, &'static str, Span)> = match &self.program.declarations[i] {
                HirDecl::Function(f) => {
                    let span = match self.function_span(&f.name) {
                        Some(s) => s,
                        None => fallback,
                    };
                    Some((string_clone(&f.name), "function", span))
                },
                HirDecl::Global { name, .. } => Some((string_clone(name), "global", fallback)),
                _ => None,
            };
            match entry {
                Some((name, kind, span)) => match reserved_name_reason(name.as_str()) {
                    Some((code, reason)) => {
                        let mut m = String::from_str(kind);
                        push_str(&mut m, " `");
                        push_str(&mut m, name.as_str());
                        push_str(&mut m, "` is reserved in module mode (collides with ");
                        push_str(&mut m, reason);
                        push_str(&mut m, "); rename or remove");
                        let ghost d0 = self.diagnostics@;
                        self.diagnostics.push(Diagnostic::error(code, m, span));
                        proof {
                            reveal_strlit("E0510");
                            reveal_strlit("E0511");
                            reveal_strlit("E0512");
                            assert forall|j: int| 0 <= j < old(self).diagnostics@.len() implies old(self).diagnostics@[j]
                                == self.diagnostics@[j] by {
                                assert(old(self).diagnostics@[j] == d0[j]);
                            }
                        }
                    },
                    None => {},
                },
                None => {},
            }
            i += 1;
        }
    }

    /// The span recorded for the last top-level function named `name`.
    fn function_span(&self, name: &String) -> (r: Option<Span>) {
        let mut i: usize = self.top_level_function_spans.len();
        while i > 0
            invariant
                i <= self.top_level_function_spans@.len(),
            decreases i,
        {
            i -= 1;
            if self.top_level_function_spans[i].0 == *name {
                return Some(self.top_level_function_spans[i].1);
            }
        }
        None
    }

    /// In module mode, turns the recorded top-level statements into the
    /// synthesized top-level function (async when it awaits), unless there
    /// are none.
    pub fn finalize_tla_main(&mut self)
        requires
            old(self).types.wf(),
        ensures
            final(self).types.wf(),
            grew(*old(self), *final(self)),
            !old(self).module ==> *final(self) == *old(self),
            old(self).module && old(self).tla_main_body@.len() > 0 ==> {
                &&& final(self).program.declarations@.len() == old(self).program.declarations@.len() + 1
                &&& final(self).program.declarations@.last() matches HirDecl::Function(f)
                    && f.name@ == old(self).tla_main_name@ && f.body@.len() == old(self).tla_main_body@.len()
                    && f.params@.len() == 0 && !f.is_generator && !f.is_exported
                &&& final(self).program.tla_main_name matches Some(n) && n@ == old(self).tla_main_name@
            },
            old(self).module && old(self).tla_main_body@.len() == 0 ==> final(self).program == old(self).program,
            final(self).diagnostics == old(self).diagnostics,
    {
        if !self.module {
            return;
        }
        let mut items: Vec<TlaMainItem> = Vec::new();
        std::mem::swap(&mut items, &mut self.tla_main_body);
        let unit_ty = self.intern(&Type::Void);
        let mut body: Vec<HirStmt> = Vec::new();
        let mut rest = items;
        let mut reversed: Vec<TlaMainItem> = Vec::new();
        while rest.len() > 0
            invariant
                reversed@.len() + rest@.len() == old(self).tla_main_body@.len(),
            decreases rest@.len(),
        {
            match rest.pop() {
                Some(x) => reversed.push(x),
                None => {},
            }
        }
        while reversed.len() > 0
            invariant
                body@.len() + reversed@.len() == old(self).tla_main_body@.len(),
            decreases reversed@.len(),
        {
            match reversed.pop() {
                Some(TlaMainItem::Let(s)) => body.push(s),
                Some(TlaMainItem::Expr(e)) => body.push(HirStmt::Expr { expr: e }),
                None => {},
            }
        }
        if body.len() == 0 {
            return;
        }
        let is_async = crate::hir::search::body_contains_await(&body);
        let f = HirFunction {
            name: string_clone(&self.tla_main_name),
            params: Vec::new(),
            ret: unit_ty,
            throws: None,
            body,
            is_async,
            is_generator: false,
            is_exported: false,
            type_params: Vec::new(),
        };
        let ghost s1 = *self;
        self.program.push_decl(HirDecl::Function(f));
        self.program.tla_main_name = Some(string_clone(&self.tla_main_name));
        proof {
            assert(s1.program.declarations@.is_prefix_of(self.program.declarations@));
            assert(grew(s1, *self)) by {
                assert(self.types@.subrange(0, s1.types@.len() as int) =~= s1.types@);
                assert(self.diagnostics@.subrange(0, s1.diagnostics@.len() as int) =~= s1.diagnostics@);
            }
        }
    }

    /// Lowers one top-level statement.
    pub fn walk_top_level(&mut self, s: &Stmt)
        requires
            old(self).types.wf(),
        ensures
            final(self).types.wf(),
            grew(*old(self), *final(self)),
            crate::frontend::typing::banned_return(*s) matches Some(n)
                ==> crate::frontend::typing::has_banned_error(final(self).diagnostics@, n),
            declares_yielding_function(*s) ==> has_yield_error(final(self).diagnostics@),
            match top_decl(*s) {
                Some((d, e)) => makes_decl(d) ==> exists|k: int|
                    old(self).program.declarations@.len() <= k < final(self).program.declarations@.len()
                        && decl_lowered(d, e, #[trigger] final(self).program.declarations@[k]),
                None => true,
            },
    {
        match s {
            Stmt::Decl(d) => {
                self.walk_declaration(d);
                proof {
                    if makes_decl(*d) {
                        let k = self.program.declarations@.len() - 1;
                        assert(decl_lowered(*d, false, self.program.declarations@[k]));
                    }
                }
            },
            Stmt::ExportNamed { .. } | Stmt::Import { .. } | Stmt::ExportDefault(_) | Stmt::ExportAll(_)
            | Stmt::ExportAssignment(_) | Stmt::NamespaceExport(_) => self.walk_module_declaration(s),
            Stmt::Expr(e, _) => {
                if self.module {
                    let x = self.walk_top_level_expr(e);
                    self.tla_main_body.push(TlaMainItem::Expr(x));
                }
            },
            Stmt::Empty(_) => {},
            _ => self.report_unsupported("E0300", "top-level statement is not supported by foundation pass", stmt_span(s)),
        }
    }

    /// Lowers an expression at module scope, in the scope of the
    /// synthesized top-level function.
    pub fn walk_top_level_expr(&mut self, e: &Expr) -> (r: HirExpr)
        requires
            old(self).types.wf(),
        ensures
            final(self).types.wf(),
            grew(*old(self), *final(self)),
            crate::hir::expr::expr_span(r@) == crate::frontend::lower::lowered_span(*e),
    {
        let ghost s0 = *self;
        self.is_generator_stack.push(false);
        let mut scope = BodyScope::new(0);
        std::mem::swap(&mut scope, &mut self.tla_top_level_scope);
        let ghost s1 = *self;
        proof {
            assert(self.inv());
        }
        let r = self.walk_expr(e, &mut scope);
        std::mem::swap(&mut scope, &mut self.tla_top_level_scope);
        self.is_generator_stack.pop();
        proof {
            assert(self.is_generator_stack@ =~= s0.is_generator_stack@);
        }
        r
    }

    /// Lowers a declaration at module scope.
    pub fn walk_declaration(&mut self, d: &Decl)
        requires
            old(self).types.wf(),
        ensures
            final(self).types.wf(),
            grew(*old(self), *final(self)),
            makes_decl(*d) ==> final(self).program.declarations@.len() > old(self).program.declarations@.len()
                && decl_lowered(*d, false, final(self).program.declarations@.last()),
            crate::frontend::typing::banned_return(Stmt::Decl(*d)) matches Some(n)
                ==> crate::frontend::typing::has_banned_error(final(self).diagnostics@, n),
            declares_yielding_function(Stmt::Decl(*d)) ==> has_yield_error(final(self).diagnostics@),
    {
        match d {
            Decl::Function(f) => {
                let span = f.span;
                let hir_fn = self.build_function(f, false);
                let ghost d1 = self.diagnostics@;
                self.top_level_function_spans.push((string_clone(&hir_fn.name), span));
                self.push_decl(HirDecl::Function(hir_fn));
                proof {
                    assert(self.diagnostics@ == d1);
                }
            },
            Decl::Class(c) => {
                let hir_class = self.build_class(c, false);
                self.push_decl(HirDecl::Class(hir_class));
            },
            Decl::TypeAlias { name, ty, .. } => self.handle_type_alias(name, ty),
            Decl::Enum { name, members, .. } => self.handle_enum(name, members),
            Decl::Interface { name, .. } => self.handle_interface(name),
            Decl::Var(v) => self.handle_variable_declaration(v),
            Decl::Unsupported { import_equals, span } => {
                if *import_equals {
                    self.report_unsupported("E0300", "TS import-equals declarations are not supported by foundation pass", *span);
                } else {
                    self.report_unsupported("E0300", "declaration form is not supported by foundation pass", *span);
                }
            },
        }
    }

    /// Appends a declaration to the program.
    pub fn push_decl(&mut self, d: HirDecl)
        ensures
            final(self).program.declarations@ == old(self).program.declarations@.push(d),
            final(self).types == old(self).types,
            final(self).diagnostics == old(self).diagnostics,
            final(self).program.exports == old(self).program.exports,
            final(self).program.imports == old(self).program.imports,
            grew(*old(self), *final(self)),
    {
        let ghost s0 = *self;
        self.program.push_decl(d);
        proof {
            assert(self.types@.subrange(0, s0.types@.len() as int) =~= s0.types@);
            assert(self.diagnostics@.subrange(0, s0.diagnostics@.len() as int) =~= s0.diagnostics@);
            assert(self.program.declarations@.subrange(0, s0.program.declarations@.len() as int) =~= s0.program.declarations@);
        }
    }

    /// Records an export of `name` under its own name.
    pub fn record_export(&mut self, name: &str)
        ensures
            final(self).program.exports@.len() == old(self).program.exports@.len() + 1,
            final(self).program.exports@.last().name@ == name@,
            final(self).program.exports@.last().alias is None,
            final(self).program.exports@.subrange(0, old(self).program.exports@.len() as int) == old(self).program.exports@,
            final(self).types == old(self).types,
            final(self).diagnostics == old(self).diagnostics,
            final(self).program.declarations == old(self).program.declarations,
            final(self).program.module == old(self).program.module,
            final(self).is_generator_stack == old(self).is_generator_stack,
    {
        self.program.exports.push(HirExport { name: String::from_str(name), alias: None });
    }

    /// Lowers a declaration that an `export` statement carries, and records
    /// the exports it makes.
    pub fn handle_export_named_declaration(&mut self, d: &Decl)
        requires
            old(self).types.wf(),
        ensures
            final(self).types.wf(),
            grew(*old(self), *final(self)),
            makes_decl(*d) ==> final(self).program.declarations@.len() > old(self).program.declarations@.len()
                && decl_lowered(*d, true, final(self).program.declarations@.last()),
    {
        match d {
            Decl::Function(f) => {
                let hir_fn = self.build_function(f, true);
                if f.id.is_none() {
                    self.report_unsupported("E0300", "exported function declaration must have a name", f.span);
                }
                let name = string_clone(&hir_fn.name);
                self.push_decl(HirDecl::Function(hir_fn));
                if name.unicode_len() > 0 {
                    self.export_keep(name.as_str());
                }
            },
            Decl::Class(c) => {
                let hir_class = self.build_class(c, true);
                let name = string_clone(&hir_class.name);
                self.push_decl(HirDecl::Class(hir_class));
                if name.unicode_len() > 0 {
                    self.export_keep(name.as_str());
                }
            },
            Decl::TypeAlias { name, ty, .. } => {
                self.handle_type_alias(name, ty);
                self.export_keep(name.as_str());
            },
            Decl::Enum { name, members, .. } => {
                self.handle_enum(name, members);
                self.export_keep(name.as_str());
            },
            Decl::Interface { name, .. } => {
                self.handle_interface(name);
                self.export_keep(name.as_str());
            },
            Decl::Var(v) => {
                let mut i: usize = 0;
                while i < v.declarations.len()
                    invariant
                        0 <= i <= v.declarations@.len(),
                        self.types.wf(),
                        grew(*old(self), *self),
                    decreases v.declarations@.len() - i,
                {
                    match binding_pattern_name(&v.declarations[i].id) {
                        Some(n) => self.export_keep(n.as_str()),
                        None => {},
                    }
                    i += 1;
                }
                self.handle_variable_declaration(v);
            },
            Decl::Unsupported { span, .. } => {
                self.report_unsupported("E0300", "exported declaration form is not supported", *span);
            },
        }
    }

    /// Records an export, keeping the growth of the state.
    fn export_keep(&mut self, name: &str)
        ensures
            grew(*old(self), *final(self)),
            final(self).types == old(self).types,
            final(self).program.declarations == old(self).program.declarations,
    {
        let ghost s0 = *self;
        self.record_export(name);
        proof {
            lemma_grew_same_decls(s0, *self);
        }
    }

    /// Lowers a type alias at module scope to a declaration.
    pub fn handle_type_alias(&mut self, name: &String, ty: &crate::frontend::ast::TsType)
        requires
            old(self).types.wf(),
        ensures
            final(self).types.wf(),
            grew(*old(self), *final(self)),
            final(self).program.declarations@.len() == old(self).program.declarations@.len() + 1,
            final(self).program.declarations@.last() matches HirDecl::TypeAlias { name: n, .. } && n@ == name@,
    {
        let target = self.resolve_ts_type(Some(ty));
        self.push_decl(HirDecl::TypeAlias { name: string_clone(name), target });
    }

    /// Lowers an enum to a declaration whose variants carry no values.
    pub fn handle_enum(&mut self, name: &String, members: &Vec<String>)
        ensures
            final(self).types == old(self).types,
            grew(*old(self), *final(self)),
            final(self).program.declarations@.len() == old(self).program.declarations@.len() + 1,
            final(self).program.declarations@.last() matches HirDecl::Enum { name: n, variants } && n@ == name@
                && variants@.len() == members@.len() && forall|i: int| 0 <= i < members@.len() ==> (
            #[trigger] variants@[i]).name@ == members@[i]@ && variants@[i].value is None,
    {
        let mut variants: Vec<HirEnumVariant> = Vec::new();
        let mut i: usize = 0;
        while i < members.len()
            invariant
                0 <= i <= members@.len(),
                variants@.len() == i,
                forall|k: int| 0 <= k < i ==> (#[trigger] variants@[k]).name@ == members@[k]@ && variants@[k].value is None,
            decreases members@.len() - i,
        {
            variants.push(HirEnumVariant { name: string_clone(&members[i]), value: None });
            i += 1;
        }
        self.push_decl(HirDecl::Enum { name: string_clone(name), variants });
    }

    /// Lowers an interface to a declaration of its name.
    pub fn handle_interface(&mut self, name: &String)
        ensures
            final(self).types == old(self).types,
            grew(*old(self), *final(self)),
            final(self).program.declarations@.len() == old(self).program.declarations@.len() + 1,
            final(self).program.declarations@.last() matches HirDecl::Interface { name: n } && n@ == name@,
    {
        self.push_decl(HirDecl::Interface { name: string_clone(name) });
    }

    /// Lowers a variable declaration at module scope, declarator by
    /// declarator; a destructuring declarator is an `E0300` error.
    pub fn handle_variable_declaration(&mut self, v: &VarDecl)
        requires
            old(self).types.wf(),
        ensures
            final(self).types.wf(),
            grew(*old(self), *final(self)),
    {
        let mut i: usize = 0;
        while i < v.declarations.len()
            invariant
                0 <= i <= v.declarations@.len(),
                self.types.wf(),
                grew(*old(self), *self),
            decreases v.declarations@.len() - i,
        {
            let d = &v.declarations[i];
            match binding_pattern_name(&d.id) {
                Some(name) => {
                    let ty = self.resolve_ts_type_from_annotation(&d.annotation);
                    let init = match &d.init {
                        Some(x) => Some(self.walk_top_level_expr(x)),
                        None => None,
                    };
                    self.emit_top_level_let(name, ty, init, v.span);
                },
                None => {
                    self.report_unsupported(
                        "E0300",
                        "variable declaration with destructuring is not supported in foundation",
                        v.span,
                    );
                },
            }
            i += 1;
        }
    }

    /// Places a module-scope binding: a constant or missing initializer
    /// makes a global; any other initializer runs inside the synthesized
    /// top-level function in module mode, and is an `E0300` error in
    /// script mode.
    pub fn emit_top_level_let(&mut self, name: String, ty: TypeId, init: Option<HirExpr>, span: Span)
        ensures
            final(self).types == old(self).types,
            grew(*old(self), *final(self)),
            match init {
                Some(x) => if x@ is Unit || x@ is Bool || x@ is Int || x@ is Float || x@ is Null {
                    &&& final(self).program.declarations@ == old(self).program.declarations@.push(
                        HirDecl::Global { name, ty, init: Some(x) },
                    )
                    &&& final(self).diagnostics == old(self).diagnostics
                } else if old(self).module {
                    &&& final(self).program.declarations == old(self).program.declarations
                    &&& final(self).tla_main_body@.len() == old(self).tla_main_body@.len() + 1
                    &&& final(self).tla_main_body@.last() matches TlaMainItem::Let(HirStmt::Let { name: n, ty: t, init: i, .. })
                        && n == name && t == ty && i == Some(x)
                } else {
                    &&& final(self).program.declarations == old(self).program.declarations
                    &&& final(self).diagnostics@.len() == old(self).diagnostics@.len() + 1
                    &&& final(self).diagnostics@.last().code@ == "E0300"@
                    &&& final(self).diagnostics@.last().severity == Severity::Error
                },
                None => final(self).program.declarations@ == old(self).program.declarations@.push(
                    HirDecl::Global { name, ty, init: None },
                ) && final(self).diagnostics == old(self).diagnostics,
            },
    {
        match init {
            Some(init_expr) => {
                if is_const_initializer(&init_expr) {
                    self.forget_tla_only(name.as_str());
                    self.push_decl(HirDecl::Global { name, ty, init: Some(init_expr) });
                } else if self.module {
                    let id = self.tla_top_level_scope.declare(name.as_str(), ty);
                    self.tla_main_body.push(TlaMainItem::Let(HirStmt::Let { id, name, ty, init: Some(init_expr) }));
                } else {
                    let mut m = String::from_str("top-level `let ");
                    push_str(&mut m, name.as_str());
                    push_str(
                        &mut m,
                        " = ...` with a non-constant initializer is not supported in script mode. Wrap the source as a module (e.g. rename to .mts or pass --module) so the initializer runs inside __tla_main, or use a const literal initializer (number, bool).",
                    );
                    self.report(Diagnostic::error("E0300", m, span));
                }
            },
            None => {
                self.forget_tla_only(name.as_str());
                self.push_decl(HirDecl::Global { name, ty, init: None });
            },
        }
    }

    /// Drops `name` from the bindings that live inside the synthesized
    /// top-level function only.
    fn forget_tla_only(&mut self, name: &str)
        ensures
            *final(self) == (SkeletonBuilder { tla_only_bindings: final(self).tla_only_bindings, ..*old(self) }),
            forall|i: int| 0 <= i < final(self).tla_only_bindings@.len() ==> #[trigger] final(self).tla_only_bindings@[i]@
                != name@,
    {
        let r = without_name(&self.tla_only_bindings, name);
        self.tla_only_bindings = r;
    }
}

} // verus!
