//! Lexical scopes of one function body: nested frames of bindings, plus
//! names that are known to be declared later in a frame (function
//! declarations and `var`s), whose local id is given out on first use.
use vstd::prelude::*;
use crate::base::{LocalId, TypeId};
use crate::text::string_clone;

verus! {

/// A binding of a frame.
pub struct LocalEntry {
    pub name: String,
    pub id: LocalId,
    pub ty: TypeId,
}

/// A name declared later in a frame; `allocated` holds its id once one
/// has been given out.
pub struct PredeclaredEntry {
    pub name: String,
    pub ty: TypeId,
    pub allocated: Option<LocalId>,
}

/// The binding of `k` in a frame: the last entry for `k` wins.
pub open spec fn frame_get(s: Seq<LocalEntry>, k: Seq<char>) -> Option<(LocalId, TypeId)>
    decreases s.len(),
{
    if s.len() == 0 {
        None
    } else if s.last().name@ == k {
        Some((s.last().id, s.last().ty))
    } else {
        frame_get(s.drop_last(), k)
    }
}

/// The predeclaration of `k` in a frame: the last entry for `k` wins.
pub open spec fn pre_get(s: Seq<PredeclaredEntry>, k: Seq<char>) -> Option<(TypeId, Option<LocalId>)>
    decreases s.len(),
{
    if s.len() == 0 {
        None
    } else if s.last().name@ == k {
        Some((s.last().ty, s.last().allocated))
    } else {
        pre_get(s.drop_last(), k)
    }
}

/// A frame of bindings as a map from names.
pub open spec fn frame_map(s: Seq<LocalEntry>) -> Map<Seq<char>, (LocalId, TypeId)> {
    Map::new(|k: Seq<char>| frame_get(s, k) is Some, |k: Seq<char>| frame_get(s, k)->0)
}

/// A frame of predeclarations as a map from names.
pub open spec fn pre_map(s: Seq<PredeclaredEntry>) -> Map<Seq<char>, (TypeId, Option<LocalId>)> {
    Map::new(|k: Seq<char>| pre_get(s, k) is Some, |k: Seq<char>| pre_get(s, k)->0)
}

/// The model of a body scope: the next local id to give out, the frames
/// of bindings and the frames of predeclarations, innermost last.
pub struct ScopeV {
    pub next: u32,
    pub scopes: Seq<Map<Seq<char>, (LocalId, TypeId)>>,
    pub pre: Seq<Map<Seq<char>, (TypeId, Option<LocalId>)>>,
}

/// The binding of `k` in the innermost frame that has one.
pub open spec fn scopes_get(f: Seq<Map<Seq<char>, (LocalId, TypeId)>>, k: Seq<char>) -> Option<(LocalId, TypeId)>
    decreases f.len(),
{
    if f.len() == 0 {
        None
    } else if f.last().contains_key(k) {
        Some(f.last()[k])
    } else {
        scopes_get(f.drop_last(), k)
    }
}

/// The index of the innermost predeclaration frame that holds `k`.
pub open spec fn pre_frame_of(f: Seq<Map<Seq<char>, (TypeId, Option<LocalId>)>>, k: Seq<char>) -> Option<nat>
    decreases f.len(),
{
    if f.len() == 0 {
        None
    } else if f.last().contains_key(k) {
        Some((f.len() - 1) as nat)
    } else {
        pre_frame_of(f.drop_last(), k)
    }
}

/// The id counter after giving out one id: it stops at the largest id.
pub open spec fn bump(n: u32) -> u32 {
    if n < u32::MAX { (n + 1) as u32 } else { n }
}

/// Replaces the innermost frame of a non-empty list of frames.
pub open spec fn set_last<V>(f: Seq<V>, v: V) -> Seq<V> {
    f.update(f.len() - 1, v)
}

/// The id that a predeclaration gives out: the one it holds, or the next
/// fresh one.
pub open spec fn pre_id(p: (TypeId, Option<LocalId>), next: u32) -> LocalId {
    match p.1 {
        Some(id) => id,
        None => LocalId(next),
    }
}

/// The counter after a predeclaration gave out its id.
pub open spec fn pre_next(p: (TypeId, Option<LocalId>), next: u32) -> u32 {
    match p.1 {
        Some(_) => next,
        None => bump(next),
    }
}

/// The scope after `declare(k, ty)`, and the id it returns.
pub open spec fn declare_spec(v: ScopeV, k: Seq<char>, ty: TypeId) -> (ScopeV, LocalId) {
    if v.scopes.len() > 0 && v.scopes.last().contains_key(k) {
        (v, v.scopes.last()[k].0)
    } else if v.pre.len() > 0 && v.pre.last().contains_key(k) {
        let p = v.pre.last()[k];
        let id = pre_id(p, v.next);
        (ScopeV {
            next: pre_next(p, v.next),
            scopes: if v.scopes.len() > 0 { set_last(v.scopes, v.scopes.last().insert(k, (id, ty))) } else { v.scopes },
            pre: set_last(v.pre, v.pre.last().remove(k)),
        }, id)
    } else {
        let id = LocalId(v.next);
        (ScopeV {
            next: bump(v.next),
            scopes: if v.scopes.len() > 0 { set_last(v.scopes, v.scopes.last().insert(k, (id, ty))) } else { v.scopes },
            pre: v.pre,
        }, id)
    }
}

/// The scope after `lookup(k)`, and what it returns.
pub open spec fn lookup_spec(v: ScopeV, k: Seq<char>) -> (ScopeV, Option<(LocalId, TypeId)>) {
    match scopes_get(v.scopes, k) {
        Some(e) => (v, Some(e)),
        None => match pre_frame_of(v.pre, k) {
            Some(i) => {
                let p = v.pre[i as int][k];
                let id = pre_id(p, v.next);
                (ScopeV {
                    next: pre_next(p, v.next),
                    scopes: v.scopes,
                    pre: v.pre.update(i as int, v.pre[i as int].insert(k, (p.0, Some(id)))),
                }, Some((id, p.0)))
            },
            None => (v, None),
        },
    }
}

/// The scope after `predeclare(k, ty)`.
pub open spec fn predeclare_spec(v: ScopeV, k: Seq<char>, ty: TypeId) -> ScopeV {
    if v.scopes.len() > 0 && v.scopes.last().contains_key(k) {
        v
    } else if v.pre.len() > 0 && !v.pre.last().contains_key(k) {
        ScopeV { pre: set_last(v.pre, v.pre.last().insert(k, (ty, None))), ..v }
    } else {
        v
    }
}

/// The scope after `push()`: a new empty innermost frame.
pub open spec fn push_spec(v: ScopeV) -> ScopeV {
    ScopeV { next: v.next, scopes: v.scopes.push(Map::empty()), pre: v.pre.push(Map::empty()) }
}

/// The scope after `pop()`: the innermost frame dropped, if there is one.
pub open spec fn pop_spec(v: ScopeV) -> ScopeV {
    ScopeV {
        next: v.next,
        scopes: if v.scopes.len() > 0 { v.scopes.drop_last() } else { v.scopes },
        pre: if v.pre.len() > 0 { v.pre.drop_last() } else { v.pre },
    }
}

/// A call on a body scope.
pub enum ScopeOp {
    Declare(Seq<char>, TypeId),
    Lookup(Seq<char>),
    Predeclare(Seq<char>, TypeId),
    Push,
    Pop,
}

/// The scope after one call, and the id the call returns, if any.
pub open spec fn scope_step(v: ScopeV, op: ScopeOp) -> (ScopeV, Option<LocalId>) {
    match op {
        ScopeOp::Declare(k, ty) => (declare_spec(v, k, ty).0, Some(declare_spec(v, k, ty).1)),
        ScopeOp::Lookup(k) => (lookup_spec(v, k).0, match lookup_spec(v, k).1 {
            Some((id, _)) => Some(id),
            None => None,
        }),
        ScopeOp::Predeclare(k, ty) => (predeclare_spec(v, k, ty), None),
        ScopeOp::Push => (push_spec(v), None),
        ScopeOp::Pop => (pop_spec(v), None),
    }
}

/// The scope after a sequence of calls.
pub open spec fn run_scope(v: ScopeV, ops: Seq<ScopeOp>) -> ScopeV
    decreases ops.len(),
{
    if ops.len() == 0 {
        v
    } else {
        scope_step(run_scope(v, ops.drop_last()), ops.last()).0
    }
}

/// The ids that a sequence of calls gives out for the first time, in
/// order: those of the calls that advance the counter.
pub open spec fn new_ids(v: ScopeV, ops: Seq<ScopeOp>) -> Seq<u32>
    decreases ops.len(),
{
    if ops.len() == 0 {
        Seq::empty()
    } else {
        let w = run_scope(v, ops.drop_last());
        new_ids(v, ops.drop_last()) + if scope_step(w, ops.last()).0.next != w.next {
            seq![w.next]
        } else {
            Seq::empty()
        }
    }
}

/// The names bound or predeclared in any frame.
pub open spec fn all_names(v: ScopeV) -> Set<Seq<char>> {
    Set::new(|k: Seq<char>|
        (exists|i: int| 0 <= i < v.scopes.len() && v.scopes[i].contains_key(k))
        || (exists|i: int| 0 <= i < v.pre.len() && v.pre[i].contains_key(k)))
}

/// The bindings of one function body.
pub struct BodyScope {
    next_local: u32,
    scopes: Vec<Vec<LocalEntry>>,
    predeclared: Vec<Vec<PredeclaredEntry>>,
}

impl View for BodyScope {
    type V = ScopeV;

    closed spec fn view(&self) -> ScopeV {
        ScopeV {
            next: self.next_local,
            scopes: self.scopes@.map_values(|f: Vec<LocalEntry>| frame_map(f@)),
            pre: self.predeclared@.map_values(|f: Vec<PredeclaredEntry>| pre_map(f@)),
        }
    }
}

proof fn lemma_frame_push(s: Seq<LocalEntry>, e: LocalEntry)
    ensures
        frame_map(s.push(e)) == frame_map(s).insert(e.name@, (e.id, e.ty)),
{
    assert forall|k: Seq<char>| #[trigger] frame_get(s.push(e), k) == (if k == e.name@ {
        Some((e.id, e.ty))
    } else {
        frame_get(s, k)
    }) by {
        assert(s.push(e).drop_last() == s);
    }
    assert(frame_map(s.push(e)) =~= frame_map(s).insert(e.name@, (e.id, e.ty)));
}

proof fn lemma_pre_push(s: Seq<PredeclaredEntry>, e: PredeclaredEntry)
    ensures
        pre_map(s.push(e)) == pre_map(s).insert(e.name@, (e.ty, e.allocated)),
{
    assert forall|k: Seq<char>| #[trigger] pre_get(s.push(e), k) == (if k == e.name@ {
        Some((e.ty, e.allocated))
    } else {
        pre_get(s, k)
    }) by {
        assert(s.push(e).drop_last() == s);
    }
    assert(pre_map(s.push(e)) =~= pre_map(s).insert(e.name@, (e.ty, e.allocated)));
}

proof fn lemma_frame_empty()
    ensures
        frame_map(Seq::<LocalEntry>::empty()) == Map::<Seq<char>, (LocalId, TypeId)>::empty(),
        pre_map(Seq::<PredeclaredEntry>::empty()) == Map::<Seq<char>, (TypeId, Option<LocalId>)>::empty(),
{
    assert(frame_map(Seq::<LocalEntry>::empty()) =~= Map::<Seq<char>, (LocalId, TypeId)>::empty());
    assert(pre_map(Seq::<PredeclaredEntry>::empty()) =~= Map::<Seq<char>, (TypeId, Option<LocalId>)>::empty());
}

/// Whether `k` occurs among the names of the first `n` entries.
pub open spec fn pre_has_prefix(s: Seq<PredeclaredEntry>, k: Seq<char>, n: int) -> bool {
    exists|j: int| 0 <= j < n && s[j].name@ == k
}

proof fn lemma_pre_get_none(s: Seq<PredeclaredEntry>, k: Seq<char>)
    ensures
        (pre_get(s, k) is None) == (forall|j: int| 0 <= j < s.len() ==> s[j].name@ != k),
    decreases s.len(),
{
    if s.len() > 0 {
        lemma_pre_get_none(s.drop_last(), k);
        if s.last().name@ != k {
            assert forall|j: int| 0 <= j < s.len() - 1 implies s.drop_last()[j] == s[j] by {}
        }
    }
}

proof fn lemma_frame_get_none(s: Seq<LocalEntry>, k: Seq<char>)
    ensures
        (frame_get(s, k) is None) == (forall|j: int| 0 <= j < s.len() ==> s[j].name@ != k),
    decreases s.len(),
{
    if s.len() > 0 {
        lemma_frame_get_none(s.drop_last(), k);
        if s.last().name@ != k {
            assert forall|j: int| 0 <= j < s.len() - 1 implies s.drop_last()[j] == s[j] by {}
        }
    }
}

/// Dropping every entry named `k` from the first `n` entries.
pub open spec fn without(s: Seq<PredeclaredEntry>, k: Seq<char>) -> Seq<PredeclaredEntry>
    decreases s.len(),
{
    if s.len() == 0 {
        s
    } else if s.last().name@ == k {
        without(s.drop_last(), k)
    } else {
        without(s.drop_last(), k).push(s.last())
    }
}

proof fn lemma_without(s: Seq<PredeclaredEntry>, k: Seq<char>)
    ensures
        pre_map(without(s, k)) == pre_map(s).remove(k),
    decreases s.len(),
{
    if s.len() == 0 {
        assert(pre_map(s) =~= Map::<Seq<char>, (TypeId, Option<LocalId>)>::empty());
        assert(pre_map(without(s, k)) =~= pre_map(s).remove(k));
    } else {
        lemma_without(s.drop_last(), k);
        if s.last().name@ == k {
            assert forall|x: Seq<char>| #[trigger] pre_get(s, x) == (if x == k {
                pre_get(s, x)
            } else {
                pre_get(s.drop_last(), x)
            }) by {}
            assert(pre_map(without(s, k)) =~= pre_map(s).remove(k));
        } else {
            lemma_pre_push(without(s.drop_last(), k), s.last());
            assert forall|x: Seq<char>| #[trigger] pre_get(s, x) == (if x == s.last().name@ {
                Some((s.last().ty, s.last().allocated))
            } else {
                pre_get(s.drop_last(), x)
            }) by {}
            assert(pre_map(without(s, k)) =~= pre_map(s).remove(k));
        }
    }
}

proof fn lemma_scopes_get_frames(f: Seq<Vec<LocalEntry>>, k: Seq<char>, i: int)
    requires
        0 <= i <= f.len(),
        forall|j: int| i <= j < f.len() ==> !frame_map(#[trigger] f[j]@).contains_key(k),
    ensures
        scopes_get(f.map_values(|v: Vec<LocalEntry>| frame_map(v@)), k) == scopes_get(
            f.subrange(0, i).map_values(|v: Vec<LocalEntry>| frame_map(v@)),
            k,
        ),
    decreases f.len() - i,
{
    if i < f.len() {
        let g = f.drop_last();
        assert(f.map_values(|v: Vec<LocalEntry>| frame_map(v@)).drop_last() == g.map_values(
            |v: Vec<LocalEntry>| frame_map(v@),
        ));
        assert(f.subrange(0, i) == g.subrange(0, i));
        lemma_scopes_get_frames(g, k, i);
    } else {
        assert(f.subrange(0, i) == f);
    }
}

proof fn lemma_pre_frame_of(f: Seq<Vec<PredeclaredEntry>>, k: Seq<char>, i: int)
    requires
        0 <= i <= f.len(),
        forall|j: int| i <= j < f.len() ==> !pre_map(#[trigger] f[j]@).contains_key(k),
    ensures
        pre_frame_of(f.map_values(|v: Vec<PredeclaredEntry>| pre_map(v@)), k) == pre_frame_of(
            f.subrange(0, i).map_values(|v: Vec<PredeclaredEntry>| pre_map(v@)),
            k,
        ),
    decreases f.len() - i,
{
    if i < f.len() {
        let g = f.drop_last();
        assert(f.map_values(|v: Vec<PredeclaredEntry>| pre_map(v@)).drop_last() == g.map_values(
            |v: Vec<PredeclaredEntry>| pre_map(v@),
        ));
        assert(f.subrange(0, i) == g.subrange(0, i));
        lemma_pre_frame_of(g, k, i);
    } else {
        assert(f.subrange(0, i) == f);
    }
}

fn str_eq_string(a: &String, b: &str) -> (r: bool)
    ensures
        r == (a@ == b@),
{
    crate::text::str_eq(a.as_str(), b)
}

/// Where `k` is bound in a frame: the position of its last entry.
fn frame_find(f: &Vec<LocalEntry>, k: &str) -> (r: Option<usize>)
    ensures
        match r {
            Some(i) => i < f@.len() && frame_get(f@, k@) == Some((f@[i as int].id, f@[i as int].ty)),
            None => frame_get(f@, k@) is None,
        },
{
    let mut i: usize = f.len();
    proof {
        assert(f@.subrange(0, f@.len() as int) == f@);
    }
    while i > 0
        invariant
            i <= f@.len(),
            frame_get(f@, k@) == frame_get(f@.subrange(0, i as int), k@),
        decreases i,
    {
        let j = i - 1;
        proof {
            assert(f@.subrange(0, i as int).drop_last() == f@.subrange(0, j as int));
        }
        if str_eq_string(&f[j].name, k) {
            return Some(j);
        }
        i = j;
    }
    None
}

/// Where `k` is predeclared in a frame: the position of its last entry.
fn pre_find(f: &Vec<PredeclaredEntry>, k: &str) -> (r: Option<usize>)
    ensures
        match r {
            Some(i) => i < f@.len() && pre_get(f@, k@) == Some((f@[i as int].ty, f@[i as int].allocated))
                && f@[i as int].name@ == k@
                && forall|j: int| i < j < f@.len() ==> f@[j].name@ != k@,
            None => pre_get(f@, k@) is None,
        },
{
    let mut i: usize = f.len();
    proof {
        assert(f@.subrange(0, f@.len() as int) == f@);
    }
    while i > 0
        invariant
            i <= f@.len(),
            pre_get(f@, k@) == pre_get(f@.subrange(0, i as int), k@),
            forall|j: int| i <= j < f@.len() ==> f@[j].name@ != k@,
        decreases i,
    {
        let j = i - 1;
        proof {
            assert(f@.subrange(0, i as int).drop_last() == f@.subrange(0, j as int));
        }
        if str_eq_string(&f[j].name, k) {
            return Some(j);
        }
        i = j;
    }
    None
}

/// The frame without its entries for `k`.
fn pre_without(f: &Vec<PredeclaredEntry>, k: &str) -> (r: Vec<PredeclaredEntry>)
    ensures
        pre_map(r@) == pre_map(f@).remove(k@),
{
    let mut out: Vec<PredeclaredEntry> = Vec::new();
    let mut i: usize = 0;
    while i < f.len()
        invariant
            0 <= i <= f@.len(),
            pre_map(out@) == pre_map(without(f@.subrange(0, i as int), k@)),
        decreases f@.len() - i,
    {
        proof {
            assert(f@.subrange(0, i + 1).drop_last() == f@.subrange(0, i as int));
        }
        if !str_eq_string(&f[i].name, k) {
            let e = PredeclaredEntry { name: string_clone(&f[i].name), ty: f[i].ty, allocated: f[i].allocated };
            let ghost before = out@;
            out.push(e);
            proof {
                lemma_pre_push(before, e);
                lemma_pre_push(without(f@.subrange(0, i as int), k@), f@[i as int]);
            }
        }
        i += 1;
    }
    proof {
        assert(f@.subrange(0, f@.len() as int) == f@);
        lemma_without(f@, k@);
    }
    out
}


/// The names of the views of a list of strings.
pub open spec fn names_v(s: Seq<String>) -> Seq<Seq<char>> {
    s.map_values(|x: String| x@)
}

/// The names that the first `n` binding frames and the first `m`
/// predeclaration frames mention, with `j` entries of frame `n` and
/// `l` entries of predeclaration frame `m`.
pub open spec fn names_upto(
    scopes: Seq<Vec<LocalEntry>>,
    pre: Seq<Vec<PredeclaredEntry>>,
    n: int,
    j: int,
    m: int,
    l: int,
) -> Set<Seq<char>> {
    Set::new(|k: Seq<char>|
        (exists|a: int, b: int| 0 <= a < n && 0 <= b < scopes[a]@.len() && #[trigger] scopes[a]@[b].name@ == k)
        || (exists|b: int| 0 <= b < j && n < scopes.len() && #[trigger] scopes[n]@[b].name@ == k)
        || (exists|a: int, b: int| 0 <= a < m && 0 <= b < pre[a]@.len() && #[trigger] pre[a]@[b].name@ == k)
        || (exists|b: int| 0 <= b < l && m < pre.len() && #[trigger] pre[m]@[b].name@ == k))
}

/// Appends `name` unless it is there already.
fn push_unique(seen: &mut Vec<String>, name: &String)
    requires
        names_v(old(seen)@).no_duplicates(),
    ensures
        names_v(final(seen)@).no_duplicates(),
        names_v(final(seen)@).to_set() == names_v(old(seen)@).to_set().insert(name@),
{
    let mut i: usize = 0;
    while i < seen.len()
        invariant
            0 <= i <= seen@.len(),
            seen@ == old(seen)@,
            names_v(old(seen)@).no_duplicates(),
            forall|j: int| 0 <= j < i ==> seen@[j]@ != name@,
        decreases seen@.len() - i,
    {
        if seen[i] == *name {
            proof {
                assert(names_v(seen@)[i as int] == name@);
                assert(names_v(seen@).to_set().insert(name@) =~= names_v(seen@).to_set());
            }
            return;
        }
        i += 1;
    }
    let ghost before = seen@;
    seen.push(string_clone(name));
    proof {
        assert(names_v(seen@) == names_v(before).push(name@));
        names_v(before).lemma_push_to_set_commute(name@);
        assert forall|a: int, b: int| 0 <= a < b < names_v(seen@).len() implies names_v(seen@)[a] != names_v(seen@)[b] by {
            if b == before.len() {
                assert(names_v(seen@)[a] == before[a]@);
            }
        }
    }
}

impl BodyScope {
    /// A scope for a body whose parameters take the first `param_count` ids.
    pub fn new(param_count: u32) -> (s: BodyScope)
        ensures
            s@ == (ScopeV {
                next: param_count,
                scopes: seq![Map::<Seq<char>, (LocalId, TypeId)>::empty()],
                pre: seq![Map::<Seq<char>, (TypeId, Option<LocalId>)>::empty()],
            }),
    {
        let mut scopes: Vec<Vec<LocalEntry>> = Vec::new();
        scopes.push(Vec::new());
        let mut predeclared: Vec<Vec<PredeclaredEntry>> = Vec::new();
        predeclared.push(Vec::new());
        let s = BodyScope { next_local: param_count, scopes, predeclared };
        proof {
            lemma_frame_empty();
            assert(s@.scopes =~= seq![Map::<Seq<char>, (LocalId, TypeId)>::empty()]);
            assert(s@.pre =~= seq![Map::<Seq<char>, (TypeId, Option<LocalId>)>::empty()]);
        }
        s
    }

    /// Opens a nested frame.
    pub fn push(&mut self)
        ensures
            final(self)@ == push_spec(old(self)@),
    {
        self.scopes.push(Vec::new());
        self.predeclared.push(Vec::new());
        proof {
            lemma_frame_empty();
            assert(self@.scopes =~= old(self)@.scopes.push(Map::empty()));
            assert(self@.pre =~= old(self)@.pre.push(Map::empty()));
        }
    }

    /// Closes the innermost frame.
    pub fn pop(&mut self)
        ensures
            final(self)@ == pop_spec(old(self)@),
    {
        self.scopes.pop();
        self.predeclared.pop();
        proof {
            if old(self).scopes@.len() > 0 {
                assert(self@.scopes =~= old(self)@.scopes.drop_last());
            }
            if old(self).predeclared@.len() > 0 {
                assert(self@.pre =~= old(self)@.pre.drop_last());
            }
        }
    }

    fn alloc_id(&mut self) -> (id: LocalId)
        ensures
            id == LocalId(old(self)@.next),
            final(self)@ == (ScopeV { next: bump(old(self)@.next), ..old(self)@ }),
            final(self).scopes == old(self).scopes,
            final(self).predeclared == old(self).predeclared,
    {
        let raw = self.next_local;
        self.next_local = raw.saturating_add(1);
        LocalId(raw)
    }

    /// Adds a binding to the innermost frame, if there is one.
    fn insert(&mut self, name: &str, id: LocalId, ty: TypeId)
        ensures
            final(self)@ == (ScopeV {
                scopes: if old(self)@.scopes.len() > 0 {
                    set_last(old(self)@.scopes, old(self)@.scopes.last().insert(name@, (id, ty)))
                } else {
                    old(self)@.scopes
                },
                ..old(self)@
            }),
    {
        let n = self.scopes.len();
        if n > 0 {
            let mut top: Vec<LocalEntry> = Vec::new();
            std::mem::swap(&mut top, &mut self.scopes[n - 1]);
            let ghost before = top@;
            let e = LocalEntry { name: String::from_str(name), id, ty };
            top.push(e);
            proof {
                lemma_frame_push(before, e);
            }
            self.scopes.set(n - 1, top);
            proof {
                assert(self@.scopes =~= set_last(old(self)@.scopes, old(self)@.scopes.last().insert(name@, (id, ty))));
            }
        }
    }

    /// Binds `name` in the innermost frame and returns its id: the id it
    /// has there already, or the id of its predeclaration, or a fresh one.
    pub fn declare(&mut self, name: &str, ty: TypeId) -> (id: LocalId)
        ensures
            (final(self)@, id) == declare_spec(old(self)@, name@, ty),
    {
        let n = self.scopes.len();
        if n > 0 {
            match frame_find(&self.scopes[n - 1], name) {
                Some(i) => {
                    return self.scopes[n - 1][i].id;
                },
                None => {},
            }
        }
        let m = self.predeclared.len();
        if m > 0 {
            match pre_find(&self.predeclared[m - 1], name) {
                Some(i) => {
                    let ty_pre = self.predeclared[m - 1][i].ty;
                    let allocated = self.predeclared[m - 1][i].allocated;
                    let rest = pre_without(&self.predeclared[m - 1], name);
                    self.predeclared.set(m - 1, rest);
                    let id = match allocated {
                        Some(id) => id,
                        None => self.alloc_id(),
                    };
                    self.insert(name, id, ty);
                    proof {
                        assert(self@.pre =~= set_last(old(self)@.pre, old(self)@.pre.last().remove(name@)));
                    }
                    return id;
                },
                None => {},
            }
        }
        let id = self.alloc_id();
        self.insert(name, id, ty);
        id
    }

    /// Records that `name` will be declared later in the innermost frame,
    /// unless it is bound there or predeclared there already.
    pub fn predeclare(&mut self, name: &str, ty: TypeId)
        ensures
            final(self)@ == predeclare_spec(old(self)@, name@, ty),
    {
        let n = self.scopes.len();
        if n > 0 {
            match frame_find(&self.scopes[n - 1], name) {
                Some(_) => return,
                None => {},
            }
        }
        let m = self.predeclared.len();
        if m > 0 {
            match pre_find(&self.predeclared[m - 1], name) {
                Some(_) => {},
                None => {
                    let mut top: Vec<PredeclaredEntry> = Vec::new();
                    std::mem::swap(&mut top, &mut self.predeclared[m - 1]);
                    let ghost before = top@;
                    let e = PredeclaredEntry { name: String::from_str(name), ty, allocated: None };
                    top.push(e);
                    proof {
                        lemma_pre_push(before, e);
                    }
                    self.predeclared.set(m - 1, top);
                    proof {
                        assert(self@.pre =~= set_last(old(self)@.pre, old(self)@.pre.last().insert(name@, (ty, None))));
                    }
                },
            }
        }
    }

    /// Binds a parameter with a given id, dropping any predeclaration of
    /// the same name in the innermost frame.
    pub fn declare_param(&mut self, name: &str, id: LocalId, ty: TypeId)
        ensures
            final(self)@ == (ScopeV {
                next: old(self)@.next,
                scopes: if old(self)@.scopes.len() > 0 {
                    set_last(old(self)@.scopes, old(self)@.scopes.last().insert(name@, (id, ty)))
                } else {
                    old(self)@.scopes
                },
                pre: if old(self)@.pre.len() > 0 {
                    set_last(old(self)@.pre, old(self)@.pre.last().remove(name@))
                } else {
                    old(self)@.pre
                },
            }),
    {
        let m = self.predeclared.len();
        if m > 0 {
            let rest = pre_without(&self.predeclared[m - 1], name);
            self.predeclared.set(m - 1, rest);
            proof {
                assert(self@.pre =~= set_last(old(self)@.pre, old(self)@.pre.last().remove(name@)));
            }
        }
        self.insert(name, id, ty);
    }

    /// The id and type that `name` has here: its binding in the innermost
    /// frame that binds it, or else its innermost predeclaration, which gets
    /// its id on the first lookup.
    pub fn lookup(&mut self, name: &str) -> (r: Option<(LocalId, TypeId)>)
        ensures
            (final(self)@, r) == lookup_spec(old(self)@, name@),
    {
        let mut i: usize = self.scopes.len();
        while i > 0
            invariant
                i <= self.scopes@.len(),
                self == old(self),
                forall|j: int| i <= j < self.scopes@.len() ==> !frame_map(#[trigger] self.scopes@[j]@).contains_key(name@),
            decreases i,
        {
            let j = i - 1;
            match frame_find(&self.scopes[j], name) {
                Some(x) => {
                    proof {
                        lemma_scopes_get_frames(self.scopes@, name@, i as int);
                        let g = self.scopes@.subrange(0, i as int).map_values(|v: Vec<LocalEntry>| frame_map(v@));
                        assert(g.last() == frame_map(self.scopes@[j as int]@));
                    }
                    return Some((self.scopes[j][x].id, self.scopes[j][x].ty));
                },
                None => {},
            }
            i = j;
        }
        proof {
            lemma_scopes_get_frames(self.scopes@, name@, 0);
        }
        let mut k: usize = self.predeclared.len();
        while k > 0
            invariant
                k <= self.predeclared@.len(),
                self == old(self),
                scopes_get(self@.scopes, name@) is None,
                forall|j: int| k <= j < self.predeclared@.len() ==> !pre_map(#[trigger] self.predeclared@[j]@).contains_key(name@),
            decreases k,
        {
            let j = k - 1;
            match pre_find(&self.predeclared[j], name) {
                Some(x) => {
                    proof {
                        lemma_pre_frame_of(self.predeclared@, name@, k as int);
                        let g = self.predeclared@.subrange(0, k as int).map_values(|v: Vec<PredeclaredEntry>| pre_map(v@));
                        assert(g.last() == pre_map(self.predeclared@[j as int]@));
                    }
                    let ty = self.predeclared[j][x].ty;
                    let id = match self.predeclared[j][x].allocated {
                        Some(id) => {
                            proof {
                                let m = old(self)@.pre[j as int];
                                assert(m.insert(name@, (ty, Some(id))) =~= m);
                                assert(old(self)@.pre.update(j as int, m.insert(name@, (ty, Some(id)))) =~= old(self)@.pre);
                            }
                            id
                        },
                        None => {
                            let id = self.alloc_id();
                            let ghost before = self.predeclared@[j as int]@;
                            assert(x < before.len());
                            let mut frame: Vec<PredeclaredEntry> = Vec::new();
                            std::mem::swap(&mut frame, &mut self.predeclared[j]);
                            assert(frame@ == before);
                            let e = PredeclaredEntry { name: string_clone(&frame[x].name), ty, allocated: Some(id) };
                            frame.set(x, e);
                            proof {
                                assert forall|y: Seq<char>| #[trigger] pre_get(frame@, y) == (if y == name@ {
                                    Some((ty, Some(id)))
                                } else {
                                    pre_get(before, y)
                                }) by {
                                    lemma_pre_get_update(before, x as int, e, y);
                                }
                                assert(pre_map(frame@) =~= pre_map(before).insert(name@, (ty, Some(id))));
                            }
                            self.predeclared.set(j, frame);
                            proof {
                                assert(self@.pre =~= old(self)@.pre.update(j as int, old(self)@.pre[j as int].insert(name@, (ty, Some(id)))));
                            }
                            id
                        },
                    };
                    return Some((id, ty));
                },
                None => {},
            }
            k = j;
        }
        proof {
            lemma_pre_frame_of(self.predeclared@, name@, 0);
        }
        None
    }

    /// Every name bound or predeclared in some frame, each once.
    #[verifier::spinoff_prover]
    pub fn names(&self) -> (r: Vec<String>)
        ensures
            names_v(r@).no_duplicates(),
            names_v(r@).to_set() == all_names(self@),
    {
        let mut seen: Vec<String> = Vec::new();
        let ghost sc = self.scopes@;
        let ghost pr = self.predeclared@;
        proof {
            assert(names_v(seen@).to_set() =~= names_upto(sc, pr, 0, 0, 0, 0));
        }
        let mut i: usize = 0;
        while i < self.scopes.len()
            invariant
                0 <= i <= sc.len(),
                sc == self.scopes@,
                pr == self.predeclared@,
                names_v(seen@).no_duplicates(),
                names_v(seen@).to_set() == names_upto(sc, pr, i as int, 0, 0, 0),
            decreases sc.len() - i,
        {
            let frame = &self.scopes[i];
            let mut j: usize = 0;
            while j < frame.len()
                invariant
                    0 <= i < sc.len(),
                    0 <= j <= sc[i as int]@.len(),
                    frame@ == sc[i as int]@,
                    sc == self.scopes@,
                    pr == self.predeclared@,
                    names_v(seen@).no_duplicates(),
                    names_v(seen@).to_set() == names_upto(sc, pr, i as int, j as int, 0, 0),
                decreases sc[i as int]@.len() - j,
            {
                push_unique(&mut seen, &frame[j].name);
                proof {
                    assert(names_upto(sc, pr, i as int, j + 1, 0, 0) =~= names_upto(sc, pr, i as int, j as int, 0, 0).insert(frame@[j as int].name@));
                }
                j += 1;
            }
            proof {
                assert(names_upto(sc, pr, i + 1, 0, 0, 0) =~= names_upto(sc, pr, i as int, j as int, 0, 0));
            }
            i += 1;
        }
        let mut m: usize = 0;
        while m < self.predeclared.len()
            invariant
                0 <= m <= pr.len(),
                sc == self.scopes@,
                pr == self.predeclared@,
                names_v(seen@).no_duplicates(),
                names_v(seen@).to_set() == names_upto(sc, pr, sc.len() as int, 0, m as int, 0),
            decreases pr.len() - m,
        {
            let frame = &self.predeclared[m];
            let mut l: usize = 0;
            while l < frame.len()
                invariant
                    0 <= m < pr.len(),
                    0 <= l <= pr[m as int]@.len(),
                    frame@ == pr[m as int]@,
                    sc == self.scopes@,
                    pr == self.predeclared@,
                    names_v(seen@).no_duplicates(),
                    names_v(seen@).to_set() == names_upto(sc, pr, sc.len() as int, 0, m as int, l as int),
                decreases pr[m as int]@.len() - l,
            {
                push_unique(&mut seen, &frame[l].name);
                proof {
                    assert(names_upto(sc, pr, sc.len() as int, 0, m as int, l + 1) =~= names_upto(sc, pr, sc.len() as int, 0, m as int, l as int).insert(frame@[l as int].name@));
                }
                l += 1;
            }
            proof {
                assert(names_upto(sc, pr, sc.len() as int, 0, m + 1, 0) =~= names_upto(sc, pr, sc.len() as int, 0, m as int, l as int));
            }
            m += 1;
        }
        proof {
            let nu = names_upto(sc, pr, sc.len() as int, 0, pr.len() as int, 0);
            assert forall|k: Seq<char>| nu.contains(k) implies all_names(self@).contains(k) by {
                if exists|a: int, b: int| 0 <= a < sc.len() && 0 <= b < sc[a]@.len() && #[trigger] sc[a]@[b].name@ == k {
                    let (a, b) = choose|a: int, b: int| 0 <= a < sc.len() && 0 <= b < sc[a]@.len() && #[trigger] sc[a]@[b].name@ == k;
                    lemma_frame_get_none(sc[a]@, k);
                    assert(self@.scopes[a] == frame_map(sc[a]@));
                    assert(self@.scopes[a].contains_key(k));
                } else {
                    let (a, b) = choose|a: int, b: int| 0 <= a < pr.len() && 0 <= b < pr[a]@.len() && #[trigger] pr[a]@[b].name@ == k;
                    lemma_pre_get_none(pr[a]@, k);
                    assert(self@.pre[a] == pre_map(pr[a]@));
                    assert(self@.pre[a].contains_key(k));
                }
            }
            assert forall|k: Seq<char>| all_names(self@).contains(k) implies nu.contains(k) by {
                if exists|a: int| 0 <= a < self@.scopes.len() && self@.scopes[a].contains_key(k) {
                    let a = choose|a: int| 0 <= a < self@.scopes.len() && self@.scopes[a].contains_key(k);
                    assert(self@.scopes[a] == frame_map(sc[a]@));
                    lemma_frame_get_none(sc[a]@, k);
                    let b = choose|b: int| 0 <= b < sc[a]@.len() && sc[a]@[b].name@ == k;
                    assert(sc[a]@[b].name@ == k);
                } else {
                    let a = choose|a: int| 0 <= a < self@.pre.len() && self@.pre[a].contains_key(k);
                    assert(self@.pre[a] == pre_map(pr[a]@));
                    lemma_pre_get_none(pr[a]@, k);
                    let b = choose|b: int| 0 <= b < pr[a]@.len() && pr[a]@[b].name@ == k;
                    assert(pr[a]@[b].name@ == k);
                }
            }
            assert(nu =~= all_names(self@));
        }
        seen
    }
}

proof fn lemma_pre_get_update(s: Seq<PredeclaredEntry>, x: int, e: PredeclaredEntry, y: Seq<char>)
    requires
        0 <= x < s.len(),
        e.name@ == s[x].name@,
        forall|j: int| x < j < s.len() ==> s[j].name@ != e.name@,
    ensures
        pre_get(s.update(x, e), y) == (if y == e.name@ { Some((e.ty, e.allocated)) } else { pre_get(s, y) }),
    decreases s.len(),
{
    let t = s.update(x, e);
    if x == s.len() - 1 {
        assert(t.drop_last() == s.drop_last());
    } else {
        assert(t.drop_last() == s.drop_last().update(x, e));
        lemma_pre_get_update(s.drop_last(), x, e, y);
    }
}

/// A name declared in a body with an open frame is then found by lookup,
/// with the id that the declaration returned, and the lookup changes nothing.
pub proof fn law_lookup_after_declare(v: ScopeV, k: Seq<char>, ty: TypeId)
    requires
        v.scopes.len() > 0,
    ensures
        ({
            let (v2, id) = declare_spec(v, k, ty);
            &&& lookup_spec(v2, k).0 == v2
            &&& lookup_spec(v2, k).1 matches Some((found, _)) && found == id
        }),
{
    let (v2, id) = declare_spec(v, k, ty);
    assert(v2.scopes.len() == v.scopes.len());
    assert(v2.scopes.last().contains_key(k));
    let e = v2.scopes.last()[k];
    assert(e.0 == id);
}

/// Declaring a name that the innermost frame neither binds nor
/// predeclares gives out the next fresh id and advances the counter.
pub proof fn law_declare_fresh(v: ScopeV, k: Seq<char>, ty: TypeId)
    requires
        !(v.scopes.len() > 0 && v.scopes.last().contains_key(k)),
        !(v.pre.len() > 0 && v.pre.last().contains_key(k)),
    ensures
        declare_spec(v, k, ty).1 == LocalId(v.next),
        declare_spec(v, k, ty).0.next == bump(v.next),
{
}

/// Two fresh declarations in a row get different ids while the counter
/// has room.
pub proof fn law_fresh_ids_distinct(v: ScopeV, a: Seq<char>, b: Seq<char>, ta: TypeId, tb: TypeId)
    requires
        v.next < u32::MAX,
        v.scopes.len() > 0,
        !v.scopes.last().contains_key(a),
        !(v.pre.len() > 0 && v.pre.last().contains_key(a)),
        a != b,
        !v.scopes.last().contains_key(b),
        !(v.pre.len() > 0 && v.pre.last().contains_key(b)),
    ensures
        declare_spec(declare_spec(v, a, ta).0, b, tb).1 != declare_spec(v, a, ta).1,
{
    let v1 = declare_spec(v, a, ta).0;
    assert(v1.scopes.last() == v.scopes.last().insert(a, (LocalId(v.next), ta)));
    assert(!v1.scopes.last().contains_key(b));
    assert(v1.pre == v.pre);
}

/// Every id that the frames hold, and every id that a predeclaration was
/// already given, is below the counter.
pub open spec fn ids_below(v: ScopeV) -> bool {
    &&& forall|i: int, k: Seq<char>| 0 <= i < v.scopes.len() && #[trigger] v.scopes[i].contains_key(k) ==> v.scopes[i][k].0.0
        < v.next
    &&& forall|i: int, k: Seq<char>| 0 <= i < v.pre.len() && #[trigger] v.pre[i].contains_key(k) ==> (v.pre[i][k].1 matches Some(
        id,
    ) ==> id.0 < v.next)
}

/// While the counter has room, a declaration keeps every held id below
/// the counter, and a name the innermost frame did not hold gets an id
/// that no frame held before: ids are never given out twice.
pub proof fn law_declare_ids_fresh(v: ScopeV, k: Seq<char>, ty: TypeId)
    requires
        ids_below(v),
        v.next < u32::MAX,
    ensures
        ids_below(declare_spec(v, k, ty).0),
        !(v.scopes.len() > 0 && v.scopes.last().contains_key(k)) && !(v.pre.len() > 0 && v.pre.last().contains_key(k))
            ==> forall|i: int, k2: Seq<char>| 0 <= i < v.scopes.len() && #[trigger] v.scopes[i].contains_key(k2)
            ==> v.scopes[i][k2].0 != declare_spec(v, k, ty).1,
{
    let (v2, id) = declare_spec(v, k, ty);
    if v.scopes.len() > 0 && v.scopes.last().contains_key(k) {
    } else if v.pre.len() > 0 && v.pre.last().contains_key(k) {
        let p = v.pre.last()[k];
        assert(v.pre[v.pre.len() - 1].contains_key(k));
        assert(id.0 < v2.next);
        assert forall|i: int, k2: Seq<char>| 0 <= i < v2.scopes.len() && #[trigger] v2.scopes[i].contains_key(k2) implies v2.scopes[i][k2].0.0
            < v2.next by {
            if i == v.scopes.len() - 1 && k2 == k {
            } else {
                assert(v.scopes[i].contains_key(k2));
            }
        }
        assert forall|i: int, k2: Seq<char>| 0 <= i < v2.pre.len() && #[trigger] v2.pre[i].contains_key(k2) implies (v2.pre[i][k2].1 matches Some(
            id2,
        ) ==> id2.0 < v2.next) by {
            assert(v.pre[i].contains_key(k2));
        }
    } else {
        assert forall|i: int, k2: Seq<char>| 0 <= i < v2.scopes.len() && #[trigger] v2.scopes[i].contains_key(k2) implies v2.scopes[i][k2].0.0
            < v2.next by {
            if i == v.scopes.len() - 1 && k2 == k {
            } else {
                assert(v.scopes[i].contains_key(k2));
            }
        }
        assert forall|i: int, k2: Seq<char>| 0 <= i < v2.pre.len() && #[trigger] v2.pre[i].contains_key(k2) implies (v2.pre[i][k2].1 matches Some(
            id2,
        ) ==> id2.0 < v2.next) by {
            assert(v.pre[i].contains_key(k2));
        }
    }
}

/// One call never moves the counter back; a call that moves it gives out
/// the id the counter stood at, and moves it by one.
pub proof fn law_step_counter(v: ScopeV, op: ScopeOp)
    requires
        v.next < u32::MAX,
    ensures
        scope_step(v, op).0.next >= v.next,
        scope_step(v, op).0.next != v.next ==> scope_step(v, op).0.next == v.next + 1 && scope_step(v, op).1 == Some(
            LocalId(v.next),
        ),
{
}

/// Over any sequence of calls on a body scope, while the counter has room,
/// every id given out for the first time is at least the counter it
/// started from (the number of parameters for a new scope) and below the
/// counter at the end, and each is given out once: the ids given out are
/// strictly increasing, so no two calls ever give out the same new id.
pub proof fn law_scope_ids_never_reused(v: ScopeV, ops: Seq<ScopeOp>)
    requires
        run_scope(v, ops).next < u32::MAX,
    ensures
        run_scope(v, ops).next >= v.next,
        forall|i: int| 0 <= i < new_ids(v, ops).len() ==> v.next <= #[trigger] new_ids(v, ops)[i] < run_scope(v, ops).next,
        forall|i: int, j: int| 0 <= i < j < new_ids(v, ops).len() ==> #[trigger] new_ids(v, ops)[i] < #[trigger] new_ids(v, ops)[j],
    decreases ops.len(),
{
    if ops.len() > 0 {
        let w = run_scope(v, ops.drop_last());
        let w2 = scope_step(w, ops.last()).0;
        assert(w2 == run_scope(v, ops));
        if w.next == u32::MAX {
            lemma_step_counter_top(w, ops.last());
        } else {
            law_step_counter(w, ops.last());
        }
        law_scope_ids_never_reused(v, ops.drop_last());
        let a = new_ids(v, ops.drop_last());
        let b = new_ids(v, ops);
        assert forall|i: int| 0 <= i < b.len() implies v.next <= #[trigger] b[i] < w2.next by {
            if i < a.len() {
                assert(b[i] == a[i]);
            }
        }
        assert forall|i: int, j: int| 0 <= i < j < b.len() implies #[trigger] b[i] < #[trigger] b[j] by {
            assert(b[i] == a[i]);
            if j < a.len() {
                assert(b[j] == a[j]);
            }
        }
    }
}

/// At the top of the counter, a call leaves it where it is.
proof fn lemma_step_counter_top(v: ScopeV, op: ScopeOp)
    requires
        v.next == u32::MAX,
    ensures
        scope_step(v, op).0.next == v.next,
{
}

/// Opening and closing a frame leaves the scope as it was.
pub proof fn law_push_pop(v: ScopeV)
    ensures
        v.scopes.push(Map::empty()).drop_last() == v.scopes,
        v.pre.push(Map::empty()).drop_last() == v.pre,
{
    assert(v.scopes.push(Map::empty()).drop_last() =~= v.scopes);
    assert(v.pre.push(Map::empty()).drop_last() =~= v.pre);
}

} // verus!
