//! Type annotations as the builder resolves them: strict mode's banned
//! types, the generic parameters of a declaration, and the fallback for
//! a missing annotation.
use vstd::prelude::*;
use crate::base::{Diagnostic, GenericParamId, Severity, Span, TypeId};
use crate::frontend::ast::{ts_span, ts_type_span, TsType};
use crate::frontend::growth::grew;
use crate::frontend::lower::SkeletonBuilder;
use crate::frontend::resolve::{
    banned_spec, banned_type_name, intern_in, names_type, names_type_with, resolve_simple_type, resolves,
    TypeParamMap,
};
use crate::text::push_str;
use crate::types::{Type, TypeTable, TypeV};

verus! {

/// The message of the error that strict mode reports for a banned type.
pub open spec fn banned_message(name: Seq<char>) -> Seq<char> {
    "the type `"@ + name
        + "` is not supported in strict AOT mode. Use explicit types like `i64`, `string`, or a named struct instead."@
}

/// Whether `ds` holds the error that strict mode reports for the banned
/// type `name`.
pub open spec fn has_banned_error(ds: Seq<Diagnostic>, name: Seq<char>) -> bool {
    exists|i: int|
        #![trigger ds[i]]
        0 <= i < ds.len() && ds[i].code@ == "E0401"@ && ds[i].severity == Severity::Error && ds[i].message@
            == banned_message(name)
}

/// Diagnostics that only grow keep the errors they held.
pub proof fn lemma_banned_error_kept(a: Seq<Diagnostic>, b: Seq<Diagnostic>, name: Seq<char>)
    requires
        a.is_prefix_of(b),
        has_banned_error(a, name),
    ensures
        has_banned_error(b, name),
{
    let i = choose|i: int|
        #![trigger a[i]]
        0 <= i < a.len() && a[i].code@ == "E0401"@ && a[i].severity == Severity::Error && a[i].message@
            == banned_message(name);
    assert(b.subrange(0, a.len() as int)[i] == b[i]);
    assert(a[i] == b[i]);
}

/// The banned type that a top-level function declaration names as its
/// return type, if any.
pub open spec fn banned_return(s: crate::frontend::ast::Stmt) -> Option<Seq<char>> {
    match s {
        crate::frontend::ast::Stmt::Decl(crate::frontend::ast::Decl::Function(f)) => match f.ret {
            Some(t) => banned_spec(t),
            None => None,
        },
        _ => None,
    }
}

/// `n` plus one, stopping at the largest `u32`.
pub open spec fn sat_inc(n: u32) -> u32 {
    if n == u32::MAX {
        n
    } else {
        (n + 1) as u32
    }
}

/// The id that the `i`-th parameter gets when numbering starts at `start`.
pub open spec fn sat_add(start: u32, i: nat) -> u32
    decreases i,
{
    if i == 0 {
        start
    } else {
        sat_inc(sat_add(start, (i - 1) as nat))
    }
}

impl SkeletonBuilder {
    /// Resolves an optional annotation with the given generic parameters
    /// in scope. A banned type (`any`, `unknown`, `Object`, also as an
    /// array element or a type argument) is an `E0401` error and gives the
    /// error type; a missing annotation is an `E0400` warning over the
    /// whole source and gives the error type.
    pub fn resolve_ts_type_with_params(&mut self, ty: Option<&TsType>, type_params: Option<&TypeParamMap>) -> (id: TypeId)
        requires
            old(self).types.wf(),
        ensures
            final(self).types.wf(),
            grew(*old(self), *final(self)),
            crate::frontend::growth::rest_unchanged(*old(self), *final(self)),
            match ty {
                Some(t) => match banned_spec(*t) {
                    Some(n) => {
                        &&& final(self).diagnostics@.len() == old(self).diagnostics@.len() + 1
                        &&& final(self).diagnostics@.last().severity == Severity::Error
                        &&& final(self).diagnostics@.last().code@ == "E0401"@
                        &&& final(self).diagnostics@.last().message@ == banned_message(n)
                        &&& final(self).diagnostics@.last().span == ts_span(*t)
                        &&& names_type(final(self).types@, id, TypeV::Error)
                    },
                    None => resolves(final(self).types@, id, *t, Some(&old(self).resolved_aliases), type_params),
                },
                None => {
                    &&& final(self).diagnostics@.len() == old(self).diagnostics@.len() + 1
                    &&& final(self).diagnostics@.last().severity == Severity::Warning
                    &&& final(self).diagnostics@.last().code@ == "E0400"@
                    &&& final(self).diagnostics@.last().message@ == "could not resolve type annotation"@
                    &&& final(self).diagnostics@.last().span == Span { start: 0, end: old(self).source_len }
                    &&& names_type(final(self).types@, id, TypeV::Error)
                },
            },
    {
        let ghost s0 = *self;
        match ty {
            Some(t) => {
                match banned_type_name(t) {
                    Some(name) => {
                        let mut m = String::from_str("the type `");
                        push_str(&mut m, name);
                        push_str(
                            &mut m,
                            "` is not supported in strict AOT mode. Use explicit types like `i64`, `string`, or a named struct instead.",
                        );
                        let span = ts_type_span(t);
                        self.report(Diagnostic::error("E0401", m, span));
                        return self.error_ty();
                    },
                    None => {},
                }
                let r = resolve_simple_type(
                    Some(t),
                    &mut self.types,
                    Some(&self.resolved_aliases),
                    type_params,
                    &mut self.diagnostics,
                    true,
                );
                proof {
                    crate::frontend::growth::lemma_grew_same_decls(s0, *self);
                }
                match r {
                    Some(id) => id,
                    None => self.error_ty(),
                }
            },
            None => {
                self.report(
                    Diagnostic::warning(
                        "E0400",
                        String::from_str("could not resolve type annotation"),
                        Span::new(0, self.source_len),
                    ),
                );
                self.error_ty()
            },
        }
    }

    /// Resolves an optional annotation with no generic parameters in scope.
    pub fn resolve_ts_type(&mut self, ty: Option<&TsType>) -> (id: TypeId)
        requires
            old(self).types.wf(),
        ensures
            final(self).types.wf(),
            grew(*old(self), *final(self)),
            crate::frontend::growth::rest_unchanged(*old(self), *final(self)),
            match ty {
                Some(t) => match banned_spec(*t) {
                    Some(n) => {
                        &&& final(self).diagnostics@.len() == old(self).diagnostics@.len() + 1
                        &&& final(self).diagnostics@.last().code@ == "E0401"@
                        &&& final(self).diagnostics@.last().message@ == banned_message(n)
                        &&& names_type(final(self).types@, id, TypeV::Error)
                    },
                    None => true,
                },
                None => true,
            },
            match ty {
                Some(t) => banned_spec(*t) is None ==> resolves(
                    final(self).types@,
                    id,
                    *t,
                    Some(&old(self).resolved_aliases),
                    None,
                ),
                None => true,
            },
            ty is None ==> final(self).diagnostics@.last().code@ == "E0400"@ && names_type(
                final(self).types@,
                id,
                TypeV::Error,
            ),
    {
        self.resolve_ts_type_with_params(ty, None)
    }

    /// Resolves an optional type annotation (the same as [`Self::resolve_ts_type`]).
    pub fn resolve_ts_type_from_annotation(&mut self, ann: &Option<TsType>) -> (id: TypeId)
        requires
            old(self).types.wf(),
        ensures
            final(self).types.wf(),
            grew(*old(self), *final(self)),
            crate::frontend::growth::rest_unchanged(*old(self), *final(self)),
            match *ann {
                Some(t) => match banned_spec(t) {
                    Some(n) => {
                        &&& final(self).diagnostics@.len() == old(self).diagnostics@.len() + 1
                        &&& final(self).diagnostics@.last().code@ == "E0401"@
                        &&& final(self).diagnostics@.last().message@ == banned_message(n)
                        &&& names_type(final(self).types@, id, TypeV::Error)
                    },
                    None => true,
                },
                None => true,
            },
            match *ann {
                Some(t) => banned_spec(t) is None ==> resolves(
                    final(self).types@,
                    id,
                    t,
                    Some(&old(self).resolved_aliases),
                    None,
                ),
                None => true,
            },
            *ann is None ==> final(self).diagnostics@.last().code@ == "E0400"@ && names_type(
                final(self).types@,
                id,
                TypeV::Error,
            ),
    {
        match ann {
            Some(t) => self.resolve_ts_type_with_params(Some(t), None),
            None => self.resolve_ts_type_with_params(None, None),
        }
    }

    /// Resolves an optional type annotation with generic parameters in scope.
    pub fn resolve_ts_type_from_annotation_with_params(
        &mut self,
        ann: &Option<TsType>,
        type_params: Option<&TypeParamMap>,
    ) -> (id: TypeId)
        requires
            old(self).types.wf(),
        ensures
            final(self).types.wf(),
            grew(*old(self), *final(self)),
            crate::frontend::growth::rest_unchanged(*old(self), *final(self)),
            match *ann {
                Some(t) => match banned_spec(t) {
                    Some(n) => {
                        &&& final(self).diagnostics@.len() == old(self).diagnostics@.len() + 1
                        &&& final(self).diagnostics@.last().severity == Severity::Error
                        &&& final(self).diagnostics@.last().code@ == "E0401"@
                        &&& final(self).diagnostics@.last().message@ == banned_message(n)
                        &&& names_type(final(self).types@, id, TypeV::Error)
                    },
                    None => true,
                },
                None => true,
            },
            match *ann {
                Some(t) => banned_spec(t) is None ==> resolves(
                    final(self).types@,
                    id,
                    t,
                    Some(&old(self).resolved_aliases),
                    type_params,
                ),
                None => true,
            },
            *ann is None ==> final(self).diagnostics@.last().code@ == "E0400"@ && names_type(
                final(self).types@,
                id,
                TypeV::Error,
            ),
    {
        match ann {
            Some(t) => self.resolve_ts_type_with_params(Some(t), type_params),
            None => self.resolve_ts_type_with_params(None, type_params),
        }
    }
}

/// Numbers the generic parameters `params` of a declaration from
/// `*next_id` on (stopping at the largest id), interns a generic-parameter
/// type for each and binds its name to it.
pub fn build_type_param_context(
    types: &mut TypeTable,
    next_id: &mut u32,
    params: &Vec<String>,
) -> (r: (Vec<GenericParamId>, TypeParamMap))
    requires
        old(types).wf(),
    ensures
        final(types).wf(),
        old(types)@.is_prefix_of(final(types)@),
        r.0@.len() == params@.len(),
        forall|i: int| 0 <= i < params@.len() ==> #[trigger] r.0@[i].0 == sat_add(*old(next_id), i as nat),
        *final(next_id) == sat_add(*old(next_id), params@.len()),
        r.1@.dom() == params@.map_values(|p: String| p@).to_set(),
        forall|k: Seq<char>| #[trigger] r.1@.contains_key(k) ==> names_type_with(
            final(types)@,
            r.1@[k],
            |tv: TypeV| tv is GenericParam,
        ),
{
    let mut ids: Vec<GenericParamId> = Vec::new();
    let mut map = TypeParamMap::new();
    let mut i: usize = 0;
    while i < params.len()
        invariant
            0 <= i <= params@.len(),
            types.wf(),
            old(types)@.is_prefix_of(types@),
            ids@.len() == i,
            forall|j: int| 0 <= j < i ==> #[trigger] ids@[j].0 == sat_add(*old(next_id), j as nat),
            *next_id == sat_add(*old(next_id), i as nat),
            map@.dom() == params@.subrange(0, i as int).map_values(|p: String| p@).to_set(),
            forall|k: Seq<char>| #[trigger] map@.contains_key(k) ==> names_type_with(
                types@,
                map@[k],
                |tv: TypeV| tv is GenericParam,
            ),
        decreases params@.len() - i,
    {
        let id = GenericParamId(*next_id);
        *next_id = next_id.saturating_add(1);
        let ghost t0 = types@;
        let ghost m0 = map@;
        let type_id = intern_in(types, &Type::GenericParam { id });
        map.bind(params[i].as_str(), type_id);
        ids.push(id);
        proof {
            assert forall|k: Seq<char>| #[trigger] map@.contains_key(k) implies names_type_with(
                types@,
                map@[k],
                |tv: TypeV| tv is GenericParam,
            ) by {
                if k != params@[i as int]@ {
                    let p = |tv: TypeV| tv is GenericParam;
                    assert(names_type_with(t0, m0[k], p));
                    if m0[k].0 < t0.len() {
                        assert(types@[m0[k].0 as int] == t0[m0[k].0 as int]);
                    }
                }
            }
            assert(params@.subrange(0, i + 1) == params@.subrange(0, i as int).push(params@[i as int]));
            assert(params@.subrange(0, i + 1).map_values(|p: String| p@) == params@.subrange(0, i as int).map_values(
                |p: String| p@,
            ).push(params@[i as int]@));
            params@.subrange(0, i as int).map_values(|p: String| p@).lemma_push_to_set_commute(params@[i as int]@);
            assert(map@.dom() =~= params@.subrange(0, i + 1).map_values(|p: String| p@).to_set());
            lemma_prefix_trans(old(types)@, t0, types@);
        }
        i += 1;
    }
    proof {
        assert(params@.subrange(0, params@.len() as int) == params@);
    }
    (ids, map)
}

proof fn lemma_prefix_trans(a: Seq<TypeV>, b: Seq<TypeV>, c: Seq<TypeV>)
    requires
        a.is_prefix_of(b),
        b.is_prefix_of(c),
    ensures
        a.is_prefix_of(c),
{
    assert forall|i: int| 0 <= i < a.len() implies a[i] == c[i] by {
        assert(a[i] == b[i]);
    }
}

} // verus!
