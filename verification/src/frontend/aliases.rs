//! Type aliases of a module, resolved before anything else in dependency
//! order; an alias that reaches itself again is reported and resolves to
//! the error type.
use vstd::prelude::*;
use crate::base::{Diagnostic, Severity, Span};
use crate::frontend::ast::{decl_span, Decl, Program, Stmt, TsType, TupleElement, TypeName};
use crate::frontend::growth::{grew, lemma_grew_same_decls, lemma_grew_trans};
use crate::frontend::lower::SkeletonBuilder;
use crate::frontend::scope::names_v;
use crate::text::{push_str, str_eq, string_clone};
use crate::types::Type;

verus! {

broadcast use lemma_grew_trans;

/// How many of the names `a` are not among `vis`.
pub open spec fn outside(a: Seq<Seq<char>>, vis: Seq<Seq<char>>) -> nat
    decreases a.len(),
{
    if a.len() == 0 {
        0
    } else {
        outside(a.drop_last(), vis) + (if vis.contains(a.last()) { 0nat } else { 1nat })
    }
}

/// Marking one more name of `a` as visited leaves fewer names outside.
proof fn lemma_outside_shrinks(a: Seq<Seq<char>>, vis: Seq<Seq<char>>, n: Seq<char>)
    ensures
        outside(a, vis.push(n)) <= outside(a, vis),
        a.contains(n) && !vis.contains(n) ==> outside(a, vis.push(n)) < outside(a, vis),
    decreases a.len(),
{
    if a.len() > 0 {
        lemma_outside_shrinks(a.drop_last(), vis, n);
        assert(forall|x: Seq<char>| vis.contains(x) ==> vis.push(n).contains(x)) by {
            assert forall|x: Seq<char>| vis.contains(x) implies vis.push(n).contains(x) by {
                let j = choose|j: int| 0 <= j < vis.len() && vis[j] == x;
                assert(vis.push(n)[j] == x);
            }
        }
        assert(vis.push(n)[vis.len() as int] == n);
        if a.contains(n) && !vis.contains(n) && !a.drop_last().contains(n) {
            let j = choose|j: int| 0 <= j < a.len() && a[j] == n;
            if j < a.len() - 1 {
                assert(a.drop_last()[j] == n);
            }
            assert(a.last() == n);
        }
    }
}

/// The names of the aliases that the first `n` statements declare,
/// directly or in an `export`, in order.
pub open spec fn alias_names(stmts: Seq<Stmt>, n: nat) -> Seq<Seq<char>>
    decreases n,
{
    if n == 0 || n > stmts.len() {
        Seq::empty()
    } else {
        alias_names(stmts, (n - 1) as nat) + match stmts[n - 1] {
            Stmt::Decl(Decl::TypeAlias { name, .. }) => seq![name@],
            Stmt::ExportNamed { decl: Some(Decl::TypeAlias { name, .. }), .. } => seq![name@],
            _ => Seq::empty(),
        }
    }
}

/// The names of the aliases that the statements declare, directly or in
/// an `export`, in order.
pub fn collect_alias_names(stmts: &Vec<Stmt>) -> (r: Vec<String>)
    ensures
        names_v(r@) == alias_names(stmts@, stmts@.len()),
{
    let mut names: Vec<String> = Vec::new();
    let mut i: usize = 0;
    proof {
        assert(names_v(names@) =~= Seq::<Seq<char>>::empty());
    }
    while i < stmts.len()
        invariant
            0 <= i <= stmts@.len(),
            names_v(names@) == alias_names(stmts@, i as nat),
        decreases stmts@.len() - i,
    {
        let ghost before = names@;
        match &stmts[i] {
            Stmt::Decl(Decl::TypeAlias { name, .. }) => names.push(string_clone(name)),
            Stmt::ExportNamed { decl: Some(Decl::TypeAlias { name, .. }), .. } => names.push(string_clone(name)),
            _ => {},
        }
        proof {
            assert(names_v(names@) =~= alias_names(stmts@, (i + 1) as nat)) by {
                if names@.len() > before.len() {
                    assert(names_v(names@) =~= names_v(before).push(names@.last()@));
                }
            }
        }
        i += 1;
    }
    names
}

/// The type that the first alias named `name` stands for, and the span of
/// the statement that declares it.
fn find_alias<'a>(program: &'a Program, name: &str) -> (r: Option<(&'a TsType, Span)>) {
    let mut i: usize = 0;
    while i < program.body.len()
        decreases program.body@.len() - i,
    {
        match &program.body[i] {
            Stmt::Decl(d) => match d {
                Decl::TypeAlias { name: n, ty, .. } => {
                    if str_eq(n.as_str(), name) {
                        return Some((ty, decl_span(d)));
                    }
                },
                _ => {},
            },
            Stmt::ExportNamed { decl: Some(Decl::TypeAlias { name: n, ty, .. }), span, .. } => {
                if str_eq(n.as_str(), name) {
                    return Some((ty, *span));
                }
            },
            _ => {},
        }
        i += 1;
    }
    None
}

/// The names that a type refers to by a plain identifier, in the order a
/// walk of the type meets them.
#[verifier::loop_isolation(false)]
fn collect_type_refs(t: &TsType, out: &mut Vec<String>)
    decreases t,
{
    match t {
        TsType::Reference { name, args, .. } => {
            match name {
                TypeName::Ident(n) => out.push(string_clone(n)),
                TypeName::Other => {},
            }
            match args {
                Some(a) => {
                    let mut i: usize = 0;
                    while i < a.len()
                        decreases a@.len() - i,
                    {
                        proof {
                            assert(decreases_to!(t => args));
                            assert(decreases_to!(args => a));
                            assert(decreases_to!(a => a@));
                            assert(decreases_to!(a@ => a@[i as int]));
                        }
                        collect_type_refs(&a[i], out);
                        i += 1;
                    }
                },
                None => {},
            }
        },
        TsType::Union(v, _) | TsType::Intersection(v, _) => {
            let mut i: usize = 0;
            while i < v.len()
                decreases v@.len() - i,
            {
                proof {
                    assert(decreases_to!(t => v));
                    assert(decreases_to!(v => v@));
                    assert(decreases_to!(v@ => v@[i as int]));
                }
                collect_type_refs(&v[i], out);
                i += 1;
            }
        },
        TsType::Tuple(v, _) => {
            let mut i: usize = 0;
            while i < v.len()
                decreases v@.len() - i,
            {
                proof {
                    assert(decreases_to!(t => v));
                    assert(decreases_to!(v => v@));
                    assert(decreases_to!(v@ => v@[i as int]));
                }
                match &v[i] {
                    TupleElement::Type(x) => collect_type_refs(x, out),
                    _ => {},
                }
                i += 1;
            }
        },
        TsType::Array(e, _) => collect_type_refs(e, out),
        TsType::Function { params, rest, ret, .. } => {
            let mut i: usize = 0;
            while i < params.len()
                decreases params@.len() - i,
            {
                proof {
                    assert(decreases_to!(t => params));
                    assert(decreases_to!(params => params@));
                    assert(decreases_to!(params@ => params@[i as int]));
                }
                match &params[i].annotation {
                    Some(x) => collect_type_refs(x, out),
                    None => {},
                }
                i += 1;
            }
            match rest {
                Some(r) => match &r.annotation {
                    Some(x) => collect_type_refs(x, out),
                    None => {},
                },
                None => {},
            }
            collect_type_refs(ret, out);
        },
        _ => {},
    }
}

/// Whether `v` holds `name`.
fn has_name(v: &Vec<String>, name: &str) -> (b: bool)
    ensures
        b == names_v(v@).contains(name@),
{
    let mut i: usize = 0;
    while i < v.len()
        invariant
            0 <= i <= v@.len(),
            forall|j: int| 0 <= j < i ==> names_v(v@)[j] != name@,
        decreases v@.len() - i,
    {
        if str_eq(v[i].as_str(), name) {
            proof {
                assert(names_v(v@)[i as int] == name@);
            }
            return true;
        }
        i += 1;
    }
    false
}

/// The message of the warning for an alias that reaches itself.
pub open spec fn cycle_message(name: Seq<char>) -> Seq<char> {
    "type alias `"@ + name + "` participates in a recursive cycle"@
}

impl SkeletonBuilder {
    /// Resolves every type alias of the module, each after the aliases it
    /// refers to.
    pub fn pre_resolve_all_aliases(&mut self, program: &Program)
        requires
            old(self).types.wf(),
        ensures
            final(self).types.wf(),
            grew(*old(self), *final(self)),
            forall|k: Seq<char>| #[trigger] old(self).resolved_aliases@.contains_key(k) ==> final(self).resolved_aliases@.contains_key(k),
            forall|j: int|
                0 <= j < alias_names(program.body@, program.body@.len()).len() ==> final(self).resolved_aliases@.contains_key(
                    #[trigger] alias_names(program.body@, program.body@.len())[j],
                ),
            program.body@.len() == 0 ==> *final(self) == *old(self),
    {
        let names = collect_alias_names(&program.body);
        let mut visiting: Vec<String> = Vec::new();
        let mut i: usize = 0;
        while i < names.len()
            invariant
                0 <= i <= names@.len(),
                self.types.wf(),
                grew(*old(self), *self),
                visiting@.len() == 0,
                names_v(names@) == alias_names(program.body@, program.body@.len()),
                forall|k: Seq<char>| #[trigger] old(self).resolved_aliases@.contains_key(k) ==> self.resolved_aliases@.contains_key(k),
                forall|j: int| 0 <= j < i ==> self.resolved_aliases@.contains_key(#[trigger] names_v(names@)[j]),
                i == 0 ==> *self == *old(self),
            decreases names@.len() - i,
        {
            proof {
                assert(names_v(names@)[i as int] == names@[i as int]@);
            }
            self.resolve_alias_chain(names[i].as_str(), &names, &mut visiting, program);
            i += 1;
        }
    }

    /// Resolves the alias `name` after the aliases it refers to. `visiting`
    /// holds the aliases being resolved around this one: meeting one of
    /// them again is a cycle, reported as an `E0401` warning, and the alias
    /// then stands for the error type.
    pub fn resolve_alias_chain(&mut self, name: &str, alias_set: &Vec<String>, visiting: &mut Vec<String>, program: &Program)
        requires
            old(self).types.wf(),
            names_v(alias_set@).contains(name@),
        ensures
            final(self).types.wf(),
            grew(*old(self), *final(self)),
            final(visiting)@ == old(visiting)@,
            final(self).resolved_aliases@.contains_key(name@),
            forall|k: Seq<char>| #[trigger] old(self).resolved_aliases@.contains_key(k) ==> final(self).resolved_aliases@.contains_key(k),
            old(self).resolved_aliases@.contains_key(name@) ==> *final(self) == *old(self),
            !old(self).resolved_aliases@.contains_key(name@) && names_v(old(visiting)@).contains(name@) ==> {
                &&& final(self).diagnostics@.len() == old(self).diagnostics@.len() + 1
                &&& final(self).diagnostics@.last().severity == Severity::Warning
                &&& final(self).diagnostics@.last().code@ == "E0401"@
                &&& final(self).diagnostics@.last().message@ == cycle_message(name@)
                &&& crate::frontend::resolve::names_type(
                    final(self).types@,
                    final(self).resolved_aliases@[name@],
                    crate::types::TypeV::Error,
                )
            },
        decreases outside(names_v(alias_set@), names_v(old(visiting)@)),
    {
        match self.resolved_aliases.get(name) {
            Some(_) => return,
            None => {},
        }
        if has_name(visiting, name) {
            self.record_alias_cycle(name, program);
            let id = self.intern(&Type::Error);
            let ghost s1 = *self;
            self.resolved_aliases.bind(name, id);
            proof {
                lemma_grew_same_decls(s1, *self);
            }
            return;
        }
        let ghost v0 = visiting@;
        visiting.push(String::from_str(name));
        proof {
            assert(names_v(visiting@) == names_v(v0).push(name@));
            lemma_outside_shrinks(names_v(alias_set@), names_v(v0), name@);
        }
        match find_alias(program, name) {
            Some((rhs, _)) => {
                let mut deps: Vec<String> = Vec::new();
                collect_type_refs(rhs, &mut deps);
                let mut i: usize = 0;
                while i < deps.len()
                    invariant
                        0 <= i <= deps@.len(),
                        self.types.wf(),
                        grew(*old(self), *self),
                        v0 == old(visiting)@,
                        forall|k: Seq<char>| #[trigger] old(self).resolved_aliases@.contains_key(k) ==> self.resolved_aliases@.contains_key(k),
                        visiting@ == v0.push(visiting@.last()),
                        visiting@.last()@ == name@,
                        names_v(visiting@) == names_v(v0).push(name@),
                        outside(names_v(alias_set@), names_v(visiting@)) < outside(names_v(alias_set@), names_v(v0)),
                    decreases deps@.len() - i,
                {
                    if has_name(alias_set, deps[i].as_str()) {
                        let known = self.resolved_aliases.get(deps[i].as_str()).is_some();
                        if !known {
                            self.resolve_alias_chain(deps[i].as_str(), alias_set, visiting, program);
                        }
                    }
                    i += 1;
                }
                let target = self.resolve_ts_type(Some(rhs));
                visiting.pop();
                proof {
                    assert(visiting@ =~= v0);
                }
                let ghost s1 = *self;
                self.resolved_aliases.bind(name, target);
                proof {
                    lemma_grew_same_decls(s1, *self);
                }
            },
            None => {
                visiting.pop();
                proof {
                    assert(visiting@ =~= v0);
                }
                let id = self.intern(&Type::Error);
                let ghost s1 = *self;
                self.resolved_aliases.bind(name, id);
                proof {
                    lemma_grew_same_decls(s1, *self);
                }
            },
        }
    }

    /// Reports the alias `name` as part of a cycle, at its declaration or,
    /// failing that, over the whole source.
    pub fn record_alias_cycle(&mut self, name: &str, program: &Program)
        ensures
            final(self).diagnostics@.len() == old(self).diagnostics@.len() + 1,
            final(self).diagnostics@.last().severity == Severity::Warning,
            final(self).diagnostics@.last().code@ == "E0401"@,
            final(self).diagnostics@.last().message@ == cycle_message(name@),
            final(self).types == old(self).types,
            grew(*old(self), *final(self)),
            crate::frontend::growth::rest_unchanged(*old(self), *final(self)),
    {
        let span = match find_alias(program, name) {
            Some((_, s)) => s,
            None => Span::new(0, self.source_len),
        };
        let mut m = String::from_str("type alias `");
        push_str(&mut m, name);
        push_str(&mut m, "` participates in a recursive cycle");
        self.report(Diagnostic::warning("E0401", m, span));
    }
}

} // verus!
