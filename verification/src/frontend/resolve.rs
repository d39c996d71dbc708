//! Resolving type annotations to interned types.
use vstd::prelude::*;
use crate::base::{Diagnostic, DiagnosticBag, GenericParamId, Span, TypeId};
use crate::frontend::ast::{FnTypeParam, TsKeyword, TsType, TupleElement, TypeName};
use crate::text::{push_str, push_u64_dec, str_eq, string_clone};
use crate::types::{Type, TypeTable, TypeV};

verus! {

/// An entry of a name map.
pub struct NameEntry {
    pub name: String,
    pub ty: TypeId,
}

/// The type bound to `k`: the last entry for `k` wins.
pub open spec fn names_get(s: Seq<NameEntry>, k: Seq<char>) -> Option<TypeId>
    decreases s.len(),
{
    if s.len() == 0 {
        None
    } else if s.last().name@ == k {
        Some(s.last().ty)
    } else {
        names_get(s.drop_last(), k)
    }
}

/// Type names bound to type ids: the generic parameters in scope, or the
/// resolved type aliases of a module.
pub struct TypeParamMap {
    entries: Vec<NameEntry>,
}

impl View for TypeParamMap {
    type V = Map<Seq<char>, TypeId>;

    closed spec fn view(&self) -> Map<Seq<char>, TypeId> {
        Map::new(|k: Seq<char>| names_get(self.entries@, k) is Some, |k: Seq<char>| names_get(self.entries@, k)->0)
    }
}

impl TypeParamMap {
    pub fn new() -> (m: TypeParamMap)
        ensures
            m@ == Map::<Seq<char>, TypeId>::empty(),
    {
        let m = TypeParamMap { entries: Vec::new() };
        proof {
            assert(m@ =~= Map::<Seq<char>, TypeId>::empty());
        }
        m
    }

    /// Binds `name` to `ty`, replacing any earlier binding of `name`.
    pub fn bind(&mut self, name: &str, ty: TypeId)
        ensures
            final(self)@ == old(self)@.insert(name@, ty),
    {
        let e = NameEntry { name: String::from_str(name), ty };
        let ghost before = self.entries@;
        self.entries.push(e);
        proof {
            assert forall|k: Seq<char>| #[trigger] names_get(self.entries@, k) == (if k == name@ {
                Some(ty)
            } else {
                names_get(before, k)
            }) by {
                assert(self.entries@.drop_last() == before);
            }
            assert(self@ =~= old(self)@.insert(name@, ty));
        }
    }

    /// The type bound to `name`.
    pub fn get(&self, name: &str) -> (r: Option<TypeId>)
        ensures
            match r {
                Some(t) => self@.contains_key(name@) && self@[name@] == t,
                None => !self@.contains_key(name@),
            },
    {
        let mut i: usize = self.entries.len();
        proof {
            assert(self.entries@.subrange(0, i as int) == self.entries@);
        }
        while i > 0
            invariant
                i <= self.entries@.len(),
                names_get(self.entries@, name@) == names_get(self.entries@.subrange(0, i as int), name@),
            decreases i,
        {
            let j = i - 1;
            proof {
                assert(self.entries@.subrange(0, i as int).drop_last() == self.entries@.subrange(0, j as int));
            }
            if str_eq(self.entries[j].name.as_str(), name) {
                return Some(self.entries[j].ty);
            }
            i = j;
        }
        None
    }

    pub fn is_empty(&self) -> (b: bool)
        ensures
            b == (self@ == Map::<Seq<char>, TypeId>::empty()),
    {
        proof {
            if self.entries@.len() > 0 {
                let k = self.entries@.last().name@;
                assert(names_get(self.entries@, k) is Some);
                assert(self@.contains_key(k));
            } else {
                assert(self@ =~= Map::<Seq<char>, TypeId>::empty());
            }
        }
        self.entries.len() == 0
    }

    /// Binds every binding of `other` here, in the order they were made,
    /// so that `other`'s bindings win.
    pub fn bind_all(&mut self, other: &TypeParamMap)
        ensures
            final(self)@ == old(self)@.union_prefer_right(other@),
    {
        let mut i: usize = 0;
        while i < other.entries.len()
            invariant
                0 <= i <= other.entries@.len(),
                forall|k: Seq<char>| #[trigger] names_get(self.entries@, k) == (match names_get(other.entries@.subrange(0, i as int), k) {
                    Some(t) => Some(t),
                    None => names_get(old(self).entries@, k),
                }),
            decreases other.entries@.len() - i,
        {
            let ghost before = self.entries@;
            let e = NameEntry { name: string_clone(&other.entries[i].name), ty: other.entries[i].ty };
            self.entries.push(e);
            proof {
                assert forall|k: Seq<char>| #[trigger] names_get(self.entries@, k) == (match names_get(other.entries@.subrange(0, i + 1), k) {
                    Some(t) => Some(t),
                    None => names_get(old(self).entries@, k),
                }) by {
                    assert(self.entries@.drop_last() == before);
                    assert(other.entries@.subrange(0, i + 1).drop_last() == other.entries@.subrange(0, i as int));
                    assert(other.entries@.subrange(0, i + 1).last() == other.entries@[i as int]);
                    assert(names_get(before, k) == (match names_get(other.entries@.subrange(0, i as int), k) {
                        Some(t) => Some(t),
                        None => names_get(old(self).entries@, k),
                    }));
                }
            }
            i += 1;
        }
        proof {
            assert(other.entries@.subrange(0, other.entries@.len() as int) == other.entries@);
            assert(self@ =~= old(self)@.union_prefer_right(other@));
        }
    }
}

/// Whether entry `j` is the last entry for its name.
pub open spec fn last_entry(s: Seq<NameEntry>, j: int) -> bool {
    forall|j2: int| j < j2 < s.len() ==> #[trigger] s[j2].name@ != s[j].name@
}

/// `e` is entry `j` of `s`, and no later entry binds its name again.
pub open spec fn entry_at(s: Seq<NameEntry>, j: int, e: (String, TypeId)) -> bool {
    &&& 0 <= j < s.len()
    &&& last_entry(s, j)
    &&& e.0@ == s[j].name@
    &&& e.1 == s[j].ty
}

/// The last entry for a name gives its binding.
proof fn lemma_names_get_last(s: Seq<NameEntry>, j: int)
    requires
        0 <= j < s.len(),
        last_entry(s, j),
    ensures
        names_get(s, s[j].name@) == Some(s[j].ty),
    decreases s.len(),
{
    if j < s.len() - 1 {
        assert(s.last().name@ != s[j].name@);
        assert(s.drop_last()[j] == s[j]);
        assert forall|j2: int| j < j2 < s.drop_last().len() implies #[trigger] s.drop_last()[j2].name@ != s.drop_last()[j].name@ by {
            assert(s.drop_last()[j2] == s[j2]);
        }
        lemma_names_get_last(s.drop_last(), j);
    }
}

/// A bound name has a last entry.
proof fn lemma_names_get_has_last(s: Seq<NameEntry>, k: Seq<char>)
    requires
        names_get(s, k) is Some,
    ensures
        exists|j: int| 0 <= j < s.len() && last_entry(s, j) && #[trigger] s[j].name@ == k,
    decreases s.len(),
{
    if s.last().name@ == k {
        assert(last_entry(s, s.len() - 1));
        assert(s[s.len() - 1].name@ == k);
    } else {
        lemma_names_get_has_last(s.drop_last(), k);
        let j = choose|j: int| 0 <= j < s.drop_last().len() && last_entry(s.drop_last(), j) && #[trigger] s.drop_last()[j].name@ == k;
        assert(s.drop_last()[j] == s[j]);
        assert forall|j2: int| j < j2 < s.len() implies #[trigger] s[j2].name@ != s[j].name@ by {
            if j2 < s.len() - 1 {
                assert(s.drop_last()[j2] == s[j2]);
            }
        }
        assert(s[j].name@ == k);
    }
}

impl TypeParamMap {
    /// Whether a later entry binds the name of entry `i` again.
    fn has_later_entry(&self, i: usize) -> (b: bool)
        requires
            i < self.entries@.len(),
        ensures
            b == exists|j2: int| i < j2 < self.entries@.len() && #[trigger] self.entries@[j2].name@ == self.entries@[i as int].name@,
    {
        let mut later = false;
        let n: usize = self.entries.len();
        let mut j: usize = i + 1;
        while j < self.entries.len()
            invariant
                i < j <= self.entries@.len(),
                later == exists|j2: int| i < j2 < j && #[trigger] self.entries@[j2].name@ == self.entries@[i as int].name@,
            decreases self.entries@.len() - j,
        {
            if str_eq(self.entries[j].name.as_str(), self.entries[i].name.as_str()) {
                later = true;
            }
            j += 1;
        }
        later
    }

    /// The bindings, one per bound name, each with the type it is bound to.
    pub fn iter_bindings(&self) -> (r: Vec<(String, TypeId)>)
        ensures
            forall|i: int| 0 <= i < r@.len() ==> self@.contains_key(#[trigger] r@[i].0@) && self@[r@[i].0@] == r@[i].1,
            forall|k: Seq<char>| #[trigger] self@.contains_key(k) ==> exists|i: int| 0 <= i < r@.len() && #[trigger] r@[i].0@ == k,
            forall|i: int, j: int| 0 <= i < j < r@.len() ==> r@[i].0@ != r@[j].0@,
    {
        let mut r: Vec<(String, TypeId)> = Vec::new();
        let ghost es = self.entries@;
        let ghost mut src: Seq<int> = Seq::empty();
        let mut i: usize = 0;
        while i < self.entries.len()
            invariant
                0 <= i <= es.len(),
                es == self.entries@,
                src.len() == r@.len(),
                forall|a: int| 0 <= a < r@.len() ==> #[trigger] entry_at(es, src[a], r@[a]),
                forall|a: int| #![trigger src[a]] 0 <= a < src.len() ==> src[a] < i,
                forall|a: int, b: int| 0 <= a < b < r@.len() ==> src[a] < src[b],
                forall|j: int| 0 <= j < i && last_entry(es, j) ==> exists|a: int| 0 <= a < r@.len() && #[trigger] src[a] == j,
            decreases es.len() - i,
        {
            let later = self.has_later_entry(i);
            if !later {
                let ghost r0 = r@;
                let ghost s0 = src;
                r.push((string_clone(&self.entries[i].name), self.entries[i].ty));
                proof {
                    src = src.push(i as int);
                    assert(last_entry(es, i as int));
                    assert forall|a: int| #![trigger src[a]] 0 <= a < src.len() implies src[a] < i + 1 by {
                        if a < s0.len() {
                            assert(src[a] == s0[a]);
                        }
                    }
                    assert forall|a: int| 0 <= a < r@.len() implies #[trigger] entry_at(es, src[a], r@[a]) by {
                        if a < r0.len() {
                            assert(entry_at(es, s0[a], r0[a]));
                            assert(r@[a] == r0[a]);
                            assert(src[a] == s0[a]);
                        } else {
                            assert(src[a] == i);
                            assert(r@[a].0@ == es[i as int].name@);
                        }
                    }
                    assert forall|a: int, b: int| 0 <= a < b < r@.len() implies src[a] < src[b] by {
                        if b < r0.len() {
                            assert(src[a] == s0[a]);
                            assert(src[b] == s0[b]);
                        } else {
                            assert(src[a] == s0[a]);
                            assert(r@[a] == r0[a]);
                            assert(entry_at(es, s0[a], r0[a]));
                        }
                    }
                    assert forall|j: int| 0 <= j < i + 1 && last_entry(es, j) implies exists|a: int| 0 <= a < r@.len() && #[trigger] src[a] == j by {
                        if j < i {
                            let a = choose|a: int| 0 <= a < r0.len() && #[trigger] s0[a] == j;
                            assert(src[a] == s0[a]);
                        } else {
                            assert(src[r0.len() as int] == j);
                        }
                    }
                }
            } else {
                proof {
                    let j2 = choose|j2: int| i < j2 < es.len() && #[trigger] es[j2].name@ == es[i as int].name@;
                    assert(!last_entry(es, i as int));
                    assert forall|a: int| #![trigger src[a]] 0 <= a < src.len() implies src[a] < i + 1 by {
                    }
                }
            }
            i += 1;
        }
        proof {
            assert forall|a: int| 0 <= a < r@.len() implies self@.contains_key(#[trigger] r@[a].0@) && self@[r@[a].0@] == r@[a].1 by {
                assert(entry_at(es, src[a], r@[a]));
                lemma_names_get_last(es, src[a]);
            }
            assert forall|k: Seq<char>| #[trigger] self@.contains_key(k) implies exists|a: int| 0 <= a < r@.len() && #[trigger] r@[a].0@ == k by {
                lemma_names_get_has_last(es, k);
                let j = choose|j: int| 0 <= j < es.len() && last_entry(es, j) && #[trigger] es[j].name@ == k;
                let a = choose|a: int| 0 <= a < r@.len() && #[trigger] src[a] == j;
                assert(entry_at(es, src[a], r@[a]));
                assert(r@[a].0@ == k);
            }
            assert forall|a: int, b: int| 0 <= a < b < r@.len() implies r@[a].0@ != r@[b].0@ by {
                assert(entry_at(es, src[a], r@[a]));
                assert(entry_at(es, src[b], r@[b]));
                assert(src[a] < src[b]);
                assert(last_entry(es, src[a]));
                assert(es[src[b]].name@ != es[src[a]].name@);
            }
        }
        r
    }
}

impl Default for TypeParamMap {
    fn default() -> (m: Self)
        ensures
            m@ == Map::<Seq<char>, TypeId>::empty(),
    {
        TypeParamMap::new()
    }
}

/// The interned type that a plain type name denotes, if any.
pub open spec fn type_from_ident_spec(s: Seq<char>) -> Option<TypeV> {
    if s == "i8"@ {
        Some(TypeV::I8)
    } else if s == "i16"@ {
        Some(TypeV::I16)
    } else if s == "i32"@ || s == "number"@ {
        Some(TypeV::I32)
    } else if s == "i64"@ {
        Some(TypeV::I64)
    } else if s == "u8"@ {
        Some(TypeV::U8)
    } else if s == "u16"@ {
        Some(TypeV::U16)
    } else if s == "u32"@ {
        Some(TypeV::U32)
    } else if s == "u64"@ {
        Some(TypeV::U64)
    } else if s == "f32"@ {
        Some(TypeV::F32)
    } else if s == "f64"@ {
        Some(TypeV::F64)
    } else if s == "string"@ {
        Some(TypeV::String)
    } else if s == "boolean"@ || s == "bool"@ {
        Some(TypeV::Bool)
    } else if s == "void"@ || s == "undefined"@ {
        Some(TypeV::Void)
    } else if s == "null"@ {
        Some(TypeV::Null)
    } else if s == "never"@ {
        Some(TypeV::Never)
    } else {
        None
    }
}

/// The names by which the source writes each primitive type: each integer
/// and float type by its own name and width, `number` as the 32-bit
/// integer, `boolean` or `bool`, `void` or `undefined`.
pub open spec fn primitive_names(t: TypeV) -> Set<Seq<char>> {
    match t {
        TypeV::I8 => set!["i8"@],
        TypeV::I16 => set!["i16"@],
        TypeV::I32 => set!["i32"@, "number"@],
        TypeV::I64 => set!["i64"@],
        TypeV::U8 => set!["u8"@],
        TypeV::U16 => set!["u16"@],
        TypeV::U32 => set!["u32"@],
        TypeV::U64 => set!["u64"@],
        TypeV::F32 => set!["f32"@],
        TypeV::F64 => set!["f64"@],
        TypeV::String => set!["string"@],
        TypeV::Bool => set!["boolean"@, "bool"@],
        TypeV::Void => set!["void"@, "undefined"@],
        TypeV::Null => set!["null"@],
        TypeV::Never => set!["never"@],
        _ => Set::empty(),
    }
}

/// Each name of a primitive type resolves to that type, and the banned
/// names `any`, `unknown` and `Object` resolve to no primitive.
pub proof fn law_primitive_names_resolve(t: TypeV, name: Seq<char>)
    ensures
        primitive_names(t).contains(name) ==> type_from_ident_spec(name) == Some(t),
        type_from_ident_spec("any"@) is None,
        type_from_ident_spec("unknown"@) is None,
        type_from_ident_spec("Object"@) is None,
{
    reveal_strlit("i8");
    assert("i8"@.len() == 2 && "i8"@[0] == 'i' && "i8"@[1] == '8');
    reveal_strlit("i16");
    assert("i16"@.len() == 3 && "i16"@[0] == 'i' && "i16"@[1] == '1' && "i16"@[2] == '6');
    reveal_strlit("i32");
    assert("i32"@.len() == 3 && "i32"@[0] == 'i' && "i32"@[1] == '3' && "i32"@[2] == '2');
    reveal_strlit("number");
    assert("number"@.len() == 6 && "number"@[0] == 'n' && "number"@[1] == 'u' && "number"@[2] == 'm' && "number"@[3] == 'b' && "number"@[4] == 'e' && "number"@[5] == 'r');
    reveal_strlit("i64");
    assert("i64"@.len() == 3 && "i64"@[0] == 'i' && "i64"@[1] == '6' && "i64"@[2] == '4');
    reveal_strlit("u8");
    assert("u8"@.len() == 2 && "u8"@[0] == 'u' && "u8"@[1] == '8');
    reveal_strlit("u16");
    assert("u16"@.len() == 3 && "u16"@[0] == 'u' && "u16"@[1] == '1' && "u16"@[2] == '6');
    reveal_strlit("u32");
    assert("u32"@.len() == 3 && "u32"@[0] == 'u' && "u32"@[1] == '3' && "u32"@[2] == '2');
    reveal_strlit("u64");
    assert("u64"@.len() == 3 && "u64"@[0] == 'u' && "u64"@[1] == '6' && "u64"@[2] == '4');
    reveal_strlit("f32");
    assert("f32"@.len() == 3 && "f32"@[0] == 'f' && "f32"@[1] == '3' && "f32"@[2] == '2');
    reveal_strlit("f64");
    assert("f64"@.len() == 3 && "f64"@[0] == 'f' && "f64"@[1] == '6' && "f64"@[2] == '4');
    reveal_strlit("string");
    assert("string"@.len() == 6 && "string"@[0] == 's' && "string"@[1] == 't' && "string"@[2] == 'r' && "string"@[3] == 'i' && "string"@[4] == 'n' && "string"@[5] == 'g');
    reveal_strlit("boolean");
    assert("boolean"@.len() == 7 && "boolean"@[0] == 'b' && "boolean"@[1] == 'o' && "boolean"@[2] == 'o' && "boolean"@[3] == 'l' && "boolean"@[4] == 'e' && "boolean"@[5] == 'a' && "boolean"@[6] == 'n');
    reveal_strlit("bool");
    assert("bool"@.len() == 4 && "bool"@[0] == 'b' && "bool"@[1] == 'o' && "bool"@[2] == 'o' && "bool"@[3] == 'l');
    reveal_strlit("void");
    assert("void"@.len() == 4 && "void"@[0] == 'v' && "void"@[1] == 'o' && "void"@[2] == 'i' && "void"@[3] == 'd');
    reveal_strlit("undefined");
    assert("undefined"@.len() == 9 && "undefined"@[0] == 'u' && "undefined"@[1] == 'n' && "undefined"@[2] == 'd' && "undefined"@[3] == 'e' && "undefined"@[4] == 'f' && "undefined"@[5] == 'i' && "undefined"@[6] == 'n' && "undefined"@[7] == 'e' && "undefined"@[8] == 'd');
    reveal_strlit("null");
    assert("null"@.len() == 4 && "null"@[0] == 'n' && "null"@[1] == 'u' && "null"@[2] == 'l' && "null"@[3] == 'l');
    reveal_strlit("never");
    assert("never"@.len() == 5 && "never"@[0] == 'n' && "never"@[1] == 'e' && "never"@[2] == 'v' && "never"@[3] == 'e' && "never"@[4] == 'r');
    reveal_strlit("any");
    assert("any"@.len() == 3 && "any"@[0] == 'a' && "any"@[1] == 'n' && "any"@[2] == 'y');
    reveal_strlit("unknown");
    assert("unknown"@.len() == 7 && "unknown"@[0] == 'u' && "unknown"@[1] == 'n' && "unknown"@[2] == 'k' && "unknown"@[3] == 'n' && "unknown"@[4] == 'o' && "unknown"@[5] == 'w' && "unknown"@[6] == 'n');
    reveal_strlit("Object");
    assert("Object"@.len() == 6 && "Object"@[0] == 'O' && "Object"@[1] == 'b' && "Object"@[2] == 'j' && "Object"@[3] == 'e' && "Object"@[4] == 'c' && "Object"@[5] == 't');
}

/// The type that a plain type name denotes, if any.
pub fn type_from_ident(s: &str) -> (r: Option<Type>)
    ensures
        match r {
            Some(t) => type_from_ident_spec(s@) == Some(t@),
            None => type_from_ident_spec(s@) is None,
        },
{
    if str_eq(s, "i8") {
        Some(Type::I8)
    } else if str_eq(s, "i16") {
        Some(Type::I16)
    } else if str_eq(s, "i32") || str_eq(s, "number") {
        Some(Type::I32)
    } else if str_eq(s, "i64") {
        Some(Type::I64)
    } else if str_eq(s, "u8") {
        Some(Type::U8)
    } else if str_eq(s, "u16") {
        Some(Type::U16)
    } else if str_eq(s, "u32") {
        Some(Type::U32)
    } else if str_eq(s, "u64") {
        Some(Type::U64)
    } else if str_eq(s, "f32") {
        Some(Type::F32)
    } else if str_eq(s, "f64") {
        Some(Type::F64)
    } else if str_eq(s, "string") {
        Some(Type::String)
    } else if str_eq(s, "boolean") || str_eq(s, "bool") {
        Some(Type::Bool)
    } else if str_eq(s, "void") || str_eq(s, "undefined") {
        Some(Type::Void)
    } else if str_eq(s, "null") {
        Some(Type::Null)
    } else if str_eq(s, "never") {
        Some(Type::Never)
    } else {
        None
    }
}

/// The name of a type that strict mode rejects (`any`, `unknown`,
/// `Object`), found at the top of `t`, inside an array element type, or
/// in the first type argument of a reference that holds one.
pub open spec fn banned_spec(t: TsType) -> Option<Seq<char>>
    decreases t, 0nat,
{
    match t {
        TsType::Keyword(TsKeyword::Any, _) => Some("any"@),
        TsType::Keyword(TsKeyword::Unknown, _) => Some("unknown"@),
        TsType::Reference { name, args, .. } => {
            if name matches TypeName::Ident(n) && n@ == "Object"@ {
                Some("Object"@)
            } else {
                match args {
                    Some(a) => banned_in(a@, 0),
                    None => None,
                }
            }
        },
        TsType::Array(element, _) => banned_spec(*element),
        _ => None,
    }
}

/// The first banned name among the types of `s` from position `i` on.
pub open spec fn banned_in(s: Seq<TsType>, i: nat) -> Option<Seq<char>>
    decreases s, s.len() - i,
{
    if i >= s.len() {
        None
    } else {
        match banned_spec(s[i as int]) {
            Some(n) => Some(n),
            None => banned_in(s, i + 1),
        }
    }
}

/// The name of a banned type in `t`, if any.
pub fn banned_type_name(t: &TsType) -> (r: Option<&'static str>)
    ensures
        match r {
            Some(n) => banned_spec(*t) == Some(n@),
            None => banned_spec(*t) is None,
        },
    decreases t, 0nat,
{
    match t {
        TsType::Keyword(TsKeyword::Any, _) => Some("any"),
        TsType::Keyword(TsKeyword::Unknown, _) => Some("unknown"),
        TsType::Reference { name, args, .. } => {
            match name {
                TypeName::Ident(n) => {
                    if str_eq(n.as_str(), "Object") {
                        return Some("Object");
                    }
                },
                TypeName::Other => {},
            }
            match args {
                Some(a) => banned_in_args(a),
                None => None,
            }
        },
        TsType::Array(element, _) => banned_type_name(element),
        _ => None,
    }
}

fn banned_in_args(a: &Vec<TsType>) -> (r: Option<&'static str>)
    ensures
        match r {
            Some(n) => banned_in(a@, 0) == Some(n@),
            None => banned_in(a@, 0) is None,
        },
    decreases a, 1nat,
{
    let mut i: usize = 0;
    while i < a.len()
        invariant
            0 <= i <= a@.len(),
            banned_in(a@, 0) == banned_in(a@, i as nat),
        decreases a@.len() - i,
    {
        proof {
            assert(decreases_to!(a => a@[i as int]));
        }
        match banned_type_name(&a[i]) {
            Some(n) => return Some(n),
            None => {},
        }
        i += 1;
    }
    None
}

/// Whether `id` names `tv` in table `t`: it is stored there, or the table
/// is full and `id` is the id that a full table answers.
pub open spec fn names_type(t: Seq<TypeV>, id: TypeId, tv: TypeV) -> bool {
    (id.0 < t.len() && t[id.0 as int] == tv) || (t.len() >= u32::MAX && id.0 == u32::MAX)
}

/// Whether `id` names a type of table `t` that satisfies `p`.
pub open spec fn names_type_with(t: Seq<TypeV>, id: TypeId, p: spec_fn(TypeV) -> bool) -> bool {
    (id.0 < t.len() && p(t[id.0 as int])) || (t.len() >= u32::MAX && id.0 == u32::MAX)
}

/// Everything that the resolver leaves behind is well formed and extends
/// what was there: the type table only grows, and diagnostics are only
/// appended.
pub open spec fn grows(t0: Seq<TypeV>, t1: Seq<TypeV>, d0: Seq<Diagnostic>, d1: Seq<Diagnostic>) -> bool {
    t0.is_prefix_of(t1) && d0.is_prefix_of(d1)
}

/// The type of a keyword that the resolver maps to a type of its own.
pub open spec fn keyword_type(k: TsKeyword) -> TypeV {
    match k {
        TsKeyword::Never => TypeV::Never,
        TsKeyword::Number => TypeV::I32,
        TsKeyword::String => TypeV::String,
        TsKeyword::Boolean => TypeV::Bool,
        TsKeyword::Void | TsKeyword::Undefined => TypeV::Void,
        TsKeyword::Null => TypeV::Null,
        _ => TypeV::Error,
    }
}

/// How a type keyword is written in the source; `any`, `unknown` and the
/// other keywords name no primitive type.
pub open spec fn keyword_name(k: TsKeyword) -> Option<Seq<char>> {
    match k {
        TsKeyword::Number => Some("number"@),
        TsKeyword::String => Some("string"@),
        TsKeyword::Boolean => Some("boolean"@),
        TsKeyword::Void => Some("void"@),
        TsKeyword::Undefined => Some("undefined"@),
        TsKeyword::Null => Some("null"@),
        TsKeyword::Never => Some("never"@),
        _ => None,
    }
}

/// A keyword type is the primitive type of the same name (`number` is the
/// 32-bit integer, as the name `number` is); a keyword that names no
/// primitive type is the error type.
pub proof fn law_keyword_types_match_names(k: TsKeyword)
    ensures
        match keyword_name(k) {
            Some(n) => primitive_names(keyword_type(k)).contains(n),
            None => keyword_type(k) == TypeV::Error,
        },
{
}

proof fn lemma_prefix_trans(a: Seq<TypeV>, b: Seq<TypeV>, c: Seq<TypeV>)
    requires
        a.is_prefix_of(b),
        b.is_prefix_of(c),
    ensures
        a.is_prefix_of(c),
{
    assert forall|i: int| 0 <= i < a.len() implies a[i] == c[i] by {
        assert(a[i] == b[i]);
    }
}

proof fn lemma_dprefix_trans(a: Seq<Diagnostic>, b: Seq<Diagnostic>, c: Seq<Diagnostic>)
    requires
        a.is_prefix_of(b),
        b.is_prefix_of(c),
    ensures
        a.is_prefix_of(c),
{
    assert forall|i: int| 0 <= i < a.len() implies a[i] == c[i] by {
        assert(a[i] == b[i]);
    }
}

/// Interns `ty`, keeping the table growing.
pub fn intern_in(types: &mut TypeTable, ty: &Type) -> (id: TypeId)
    requires
        old(types).wf(),
    ensures
        final(types).wf(),
        old(types)@.is_prefix_of(final(types)@),
        names_type(final(types)@, id, ty@),
        crate::types::interned(old(types)@, final(types)@, ty@, id),
{
    let id = types.intern(ty);
    proof {
        if !old(types)@.contains(ty@) && old(types)@.len() < u32::MAX {
            assert(final(types)@[old(types)@.len() as int] == ty@);
        }
    }
    id
}

/// Pushes a warning when reporting is on.
fn warn(diags: &mut DiagnosticBag, report: bool, code: &str, message: String, span: Span)
    ensures
        old(diags)@.is_prefix_of(final(diags)@),
        !report ==> final(diags)@ == old(diags)@,
        report ==> final(diags)@ == old(diags)@.push(Diagnostic {
            severity: crate::base::Severity::Warning,
            code: final(diags)@.last().code,
            message,
            span,
        }) && final(diags)@.last().code@ == code@,
{
    if report {
        diags.push(Diagnostic::warning(code, message, span));
    }
}

/// The message that names a count: `prefix`, the count, `suffix`.
fn count_message(prefix: &str, n: usize, suffix: &str) -> (s: String)
    ensures
        s@ == prefix@ + crate::text::dec_nat(n as nat) + suffix@,
{
    let mut s = String::from_str(prefix);
    push_u64_dec(&mut s, n as u64);
    push_str(&mut s, suffix);
    s
}


/// The binding of `n` in an optional name map.
pub open spec fn opt_lookup(m: Option<&TypeParamMap>, n: Seq<char>) -> Option<TypeId> {
    match m {
        Some(m) => if m@.contains_key(n) { Some(m@[n]) } else { None },
        None => None,
    }
}

/// Whether the table is full and `id` is the id that a full table answers.
pub open spec fn full_at(tab: Seq<TypeV>, id: TypeId) -> bool {
    tab.len() >= u32::MAX && id.0 == u32::MAX
}

/// The id that a name is bound to: by the generic parameters in scope
/// first, else by the aliases.
pub open spec fn bound_name(n: Seq<char>, aliases: Option<&TypeParamMap>, params: Option<&TypeParamMap>) -> Option<TypeId> {
    match opt_lookup(params, n) {
        Some(p) => Some(p),
        None => opt_lookup(aliases, n),
    }
}

/// What the resolver promises of the id it gives for a type annotation, in
/// the table `tab` it leaves behind: a name bound to a generic parameter
/// or an alias gives its binding; anything else gives a type of the table
/// (or the id of a full table) whose parts are in turn what the
/// annotation's parts resolve to. A `WeakMap` whose key or value is not
/// supported, and a generic reference with the wrong number of arguments,
/// give the error type.
pub open spec fn resolves(
    tab: Seq<TypeV>,
    id: TypeId,
    t: TsType,
    aliases: Option<&TypeParamMap>,
    params: Option<&TypeParamMap>,
) -> bool
    decreases t,
{
    match t {
        TsType::Reference { name: TypeName::Ident(n), args, .. } => match bound_name(n@, aliases, params) {
            Some(b) => id == b,
            None => full_at(tab, id) || (id.0 < tab.len() && {
                let tv = tab[id.0 as int];
                if n@ == "Array"@ {
                    match args {
                        Some(a) => if a@.len() == 1 {
                            tv matches TypeV::Array { element } && resolves(tab, element, a@[0], aliases, params)
                        } else {
                            tv is Error
                        },
                        None => tv is Error,
                    }
                } else if n@ == "Promise"@ {
                    match args {
                        Some(a) => if a@.len() == 1 {
                            tv matches TypeV::Promise { ok, err } && err is None && resolves(tab, ok, a@[0], aliases, params)
                        } else {
                            tv is Error
                        },
                        None => tv is Error,
                    }
                } else if n@ == "WeakMap"@ {
                    match args {
                        Some(a) => if a@.len() == 2 {
                            tv is Error || (tv matches TypeV::WeakMap { key, value } && resolves(tab, key, a@[0], aliases, params)
                                && resolves(tab, value, a@[1], aliases, params))
                        } else {
                            tv is Error
                        },
                        None => tv is Error,
                    }
                } else {
                    match type_from_ident_spec(n@) {
                        Some(x) => tv == x,
                        None => tv is Error,
                    }
                }
            }),
        },
        _ => full_at(tab, id) || (id.0 < tab.len() && {
            let tv = tab[id.0 as int];
            match t {
                TsType::Keyword(k, _) => tv == keyword_type(k),
                TsType::Union(v, _) => {
                    ||| (tv matches TypeV::Union { variants } && variants.len() == v@.len()
                        && forall|i: int| 0 <= i < v@.len() ==> resolves(tab, #[trigger] variants[i], v@[i], aliases, params))
                    ||| (tv matches TypeV::Optional { inner } && exists|i: int|
                        0 <= i < v@.len() && resolves(tab, inner, #[trigger] v@[i], aliases, params))
                },
                TsType::Intersection(v, _) => tv matches TypeV::Intersection { parts }
                    && (forall|i: int, j: int| 0 <= i < j < parts.len() ==> parts[i].0 < parts[j].0)
                    && exists|ids: Seq<TypeId>| #[trigger] ids.to_set() == parts.to_set() && ids.len() == v@.len()
                        && forall|i: int| 0 <= i < v@.len() ==> resolves(tab, #[trigger] ids[i], v@[i], aliases, params),
                TsType::Tuple(v, _) => tv matches TypeV::Tuple { elements } && elements.len() == v@.len()
                    && forall|i: int| 0 <= i < v@.len() ==> tuple_part(tab, #[trigger] elements[i], v@[i], aliases, params),
                TsType::Array(e, _) => tv matches TypeV::Array { element } && resolves(tab, element, *e, aliases, params),
                TsType::Function { params: ps, rest, ret, .. } => match rest {
                    Some(_) => tv is Error,
                    None => tv matches TypeV::Fn { params: fps, ret: r, err } && err is None && fps.len() == ps@.len()
                        && resolves(tab, r, *ret, aliases, params)
                        && forall|i: int| 0 <= i < ps@.len() ==> fn_part(tab, #[trigger] fps[i], ps@[i], aliases, params),
                },
                _ => tv is Error,
            }
        }),
    }
}

/// What a tuple element resolves to: its type, or the error type for an
/// optional or rest element.
pub open spec fn tuple_part(
    tab: Seq<TypeV>,
    id: TypeId,
    e: TupleElement,
    aliases: Option<&TypeParamMap>,
    params: Option<&TypeParamMap>,
) -> bool
    decreases e,
{
    match e {
        TupleElement::Type(t) => resolves(tab, id, t, aliases, params),
        _ => names_type(tab, id, TypeV::Error),
    }
}

/// What a parameter of a function type resolves to: its annotation, or
/// the error type when it has none.
pub open spec fn fn_part(
    tab: Seq<TypeV>,
    id: TypeId,
    p: FnTypeParam,
    aliases: Option<&TypeParamMap>,
    params: Option<&TypeParamMap>,
) -> bool
    decreases p,
{
    match p.annotation {
        Some(t) => resolves(tab, id, t, aliases, params),
        None => names_type(tab, id, TypeV::Error),
    }
}

/// A table that grew keeps naming what it named.
proof fn lemma_named_grow(t0: Seq<TypeV>, t1: Seq<TypeV>, id: TypeId, tv: TypeV)
    requires
        t0.is_prefix_of(t1),
        t1.len() <= u32::MAX,
        names_type(t0, id, tv),
    ensures
        names_type(t1, id, tv),
{
    if id.0 < t0.len() {
        assert(t1[id.0 as int] == t0[id.0 as int]);
    }
}

/// What an annotation resolved to stays so as the table grows.
pub proof fn lemma_resolves_grow(
    t0: Seq<TypeV>,
    t1: Seq<TypeV>,
    id: TypeId,
    t: TsType,
    aliases: Option<&TypeParamMap>,
    params: Option<&TypeParamMap>,
)
    requires
        t0.is_prefix_of(t1),
        t1.len() <= u32::MAX,
        resolves(t0, id, t, aliases, params),
    ensures
        resolves(t1, id, t, aliases, params),
    decreases t,
{
    if t0.len() >= u32::MAX {
        assert(t1 =~= t0);
    } else {
        if id.0 < t0.len() {
            assert(t1[id.0 as int] == t0[id.0 as int]);
        }
        match t {
            TsType::Reference { name: TypeName::Ident(n), args, .. } => {
                if bound_name(n@, aliases, params) is None {
                    match args {
                        Some(a) => {
                            if a@.len() >= 1 {
                                assert(decreases_to!(t => a@[0]));
                                if resolves(t0, id, t, aliases, params) && id.0 < t0.len() {
                                    match t0[id.0 as int] {
                                        TypeV::Array { element } => {
                                            if resolves(t0, element, a@[0], aliases, params) {
                                                lemma_resolves_grow(t0, t1, element, a@[0], aliases, params);
                                            }
                                        },
                                        TypeV::Promise { ok, .. } => {
                                            if resolves(t0, ok, a@[0], aliases, params) {
                                                lemma_resolves_grow(t0, t1, ok, a@[0], aliases, params);
                                            }
                                        },
                                        TypeV::WeakMap { key, value } => {
                                            if a@.len() == 2 {
                                                assert(decreases_to!(t => a@[1]));
                                                if resolves(t0, key, a@[0], aliases, params) {
                                                    lemma_resolves_grow(t0, t1, key, a@[0], aliases, params);
                                                }
                                                if resolves(t0, value, a@[1], aliases, params) {
                                                    lemma_resolves_grow(t0, t1, value, a@[1], aliases, params);
                                                }
                                            }
                                        },
                                        _ => {},
                                    }
                                }
                            }
                        },
                        None => {},
                    }
                }
            },
            TsType::Union(v, _) => {
                match t0[id.0 as int] {
                    TypeV::Union { variants } => {
                        if variants.len() == v@.len() {
                            assert forall|i: int| 0 <= i < v@.len() && resolves(t0, variants[i], v@[i], aliases, params)
                                implies resolves(t1, #[trigger] variants[i], v@[i], aliases, params) by {
                                assert(decreases_to!(t => v@[i]));
                                lemma_resolves_grow(t0, t1, variants[i], v@[i], aliases, params);
                            }
                        }
                    },
                    TypeV::Optional { inner } => {
                        if exists|i: int| 0 <= i < v@.len() && resolves(t0, inner, #[trigger] v@[i], aliases, params) {
                            let i = choose|i: int| 0 <= i < v@.len() && resolves(t0, inner, #[trigger] v@[i], aliases, params);
                            assert(decreases_to!(t => v@[i]));
                            lemma_resolves_grow(t0, t1, inner, v@[i], aliases, params);
                        }
                    },
                    _ => {},
                }
            },
            TsType::Intersection(v, _) => {
                match t0[id.0 as int] {
                    TypeV::Intersection { parts } => {
                        if exists|ids: Seq<TypeId>| #[trigger] ids.to_set() == parts.to_set() && ids.len() == v@.len()
                            && forall|i: int| 0 <= i < v@.len() ==> resolves(t0, #[trigger] ids[i], v@[i], aliases, params) {
                            let ids = choose|ids: Seq<TypeId>| #[trigger] ids.to_set() == parts.to_set() && ids.len() == v@.len()
                                && forall|i: int| 0 <= i < v@.len() ==> resolves(t0, #[trigger] ids[i], v@[i], aliases, params);
                            assert forall|i: int| 0 <= i < v@.len() implies resolves(t1, #[trigger] ids[i], v@[i], aliases, params) by {
                                assert(decreases_to!(t => v@[i]));
                                lemma_resolves_grow(t0, t1, ids[i], v@[i], aliases, params);
                            }
                        }
                    },
                    _ => {},
                }
            },
            TsType::Tuple(v, _) => {
                match t0[id.0 as int] {
                    TypeV::Tuple { elements } => {
                        if elements.len() == v@.len() {
                            assert forall|i: int| 0 <= i < v@.len() && tuple_part(t0, elements[i], v@[i], aliases, params)
                                implies tuple_part(t1, #[trigger] elements[i], v@[i], aliases, params) by {
                                assert(decreases_to!(t => v@[i]));
                                match v@[i] {
                                    TupleElement::Type(e) => {
                                        assert(decreases_to!(t => e));
                                        lemma_resolves_grow(t0, t1, elements[i], e, aliases, params);
                                    },
                                    _ => lemma_named_grow(t0, t1, elements[i], TypeV::Error),
                                }
                            }
                        }
                    },
                    _ => {},
                }
            },
            TsType::Array(e, _) => {
                match t0[id.0 as int] {
                    TypeV::Array { element } => {
                        if resolves(t0, element, *e, aliases, params) {
                            lemma_resolves_grow(t0, t1, element, *e, aliases, params);
                        }
                    },
                    _ => {},
                }
            },
            TsType::Function { params: ps, rest, ret, .. } => {
                match t0[id.0 as int] {
                    TypeV::Fn { params: fps, ret: r, .. } => {
                        if rest is None && fps.len() == ps@.len() {
                            if resolves(t0, r, *ret, aliases, params) {
                                lemma_resolves_grow(t0, t1, r, *ret, aliases, params);
                            }
                            assert forall|i: int| 0 <= i < ps@.len() && fn_part(t0, fps[i], ps@[i], aliases, params)
                                implies fn_part(t1, #[trigger] fps[i], ps@[i], aliases, params) by {
                                assert(decreases_to!(t => ps@[i]));
                                match ps@[i].annotation {
                                    Some(a) => {
                                        assert(decreases_to!(t => a));
                                        lemma_resolves_grow(t0, t1, fps[i], a, aliases, params);
                                    },
                                    None => lemma_named_grow(t0, t1, fps[i], TypeV::Error),
                                }
                            }
                        }
                    },
                    _ => {},
                }
            },
            _ => {},
        }
    }
}


/// Resolves `t` with the given generic parameters and aliases in scope.
pub fn resolve_type(
    t: &TsType,
    types: &mut TypeTable,
    aliases: Option<&TypeParamMap>,
    params: Option<&TypeParamMap>,
    diags: &mut DiagnosticBag,
    report: bool,
) -> (id: TypeId)
    requires
        old(types).wf(),
    ensures
        final(types).wf(),
        grows(old(types)@, final(types)@, old(diags)@, final(diags)@),
        !report ==> final(diags)@ == old(diags)@,
        resolves(final(types)@, id, *t, aliases, params),
    decreases t, 2nat,
{
    match t {
        TsType::Keyword(k, _) => {
            let ty = match k {
                TsKeyword::Never => Type::Never,
                TsKeyword::Number => Type::I32,
                TsKeyword::String => Type::String,
                TsKeyword::Boolean => Type::Bool,
                TsKeyword::Void | TsKeyword::Undefined => Type::Void,
                TsKeyword::Null => Type::Null,
                _ => Type::Error,
            };
            intern_in(types, &ty)
        },
        TsType::NamedTupleMember { label, span } => {
            let mut m = String::from_str("named tuple element `");
            push_str(&mut m, label.as_str());
            push_str(&mut m, ":` is not supported in Phase 4 — use `[T]` instead");
            warn(diags, report, "E0402", m, *span);
            intern_in(types, &Type::Error)
        },
        TsType::Reference { name, args, span } => resolve_reference(name, args, *span, types, aliases, params, diags, report),
        TsType::Union(v, _) => resolve_union(v, types, aliases, params, diags, report),
        TsType::Intersection(v, _) => resolve_intersection(v, types, aliases, params, diags, report),
        TsType::Tuple(v, _) => resolve_tuple(v, types, aliases, params, diags, report),
        TsType::Array(e, _) => {
            let inner = resolve_type(e, types, aliases, params, diags, report);
            let ghost mid = types@;
            let id = intern_in(types, &Type::Array { element: inner });
            proof {
                lemma_prefix_trans(old(types)@, mid, types@);
                lemma_resolves_grow(mid, types@, inner, **e, aliases, params);
            }
            id
        },
        TsType::Function { .. } => resolve_function(t, types, aliases, params, diags, report),
        TsType::Other(_) => intern_in(types, &Type::Error),
    }
}

/// Resolves an optional annotation: `None` when there is none.
pub fn resolve_simple_type(
    ty: Option<&TsType>,
    types: &mut TypeTable,
    aliases: Option<&TypeParamMap>,
    params: Option<&TypeParamMap>,
    diags: &mut DiagnosticBag,
    report: bool,
) -> (r: Option<TypeId>)
    requires
        old(types).wf(),
    ensures
        final(types).wf(),
        grows(old(types)@, final(types)@, old(diags)@, final(diags)@),
        !report ==> final(diags)@ == old(diags)@,
        ty is None ==> r is None && final(types)@ == old(types)@ && final(diags)@ == old(diags)@,
        ty matches Some(t) ==> r matches Some(id) && resolves(final(types)@, id, *t, aliases, params),
{
    match ty {
        Some(t) => Some(resolve_type(t, types, aliases, params, diags, report)),
        None => None,
    }
}


/// The generic references that take one type argument.
#[derive(Clone, Copy, PartialEq, Eq, Structural)]
pub enum SingleArg {
    Array,
    Promise,
}

/// Resolves a reference to a named type.
fn resolve_reference(
    name: &TypeName,
    args: &Option<Vec<TsType>>,
    span: Span,
    types: &mut TypeTable,
    aliases: Option<&TypeParamMap>,
    params: Option<&TypeParamMap>,
    diags: &mut DiagnosticBag,
    report: bool,
) -> (id: TypeId)
    requires
        old(types).wf(),
    ensures
        final(types).wf(),
        grows(old(types)@, final(types)@, old(diags)@, final(diags)@),
        !report ==> final(diags)@ == old(diags)@,
        resolves(final(types)@, id, TsType::Reference { name: *name, args: *args, span }, aliases, params),
    decreases args, 1nat,
{
    match name {
        TypeName::Ident(n) => {
            match params {
                Some(m) => match m.get(n.as_str()) {
                    Some(p) => return p,
                    None => {},
                },
                None => {},
            }
            match aliases {
                Some(m) => match m.get(n.as_str()) {
                    Some(a) => return a,
                    None => {},
                },
                None => {},
            }
            if str_eq(n.as_str(), "Array") {
                return resolve_single_arg(SingleArg::Array, args, span, types, aliases, params, diags, report);
            }
            if str_eq(n.as_str(), "Promise") {
                return resolve_single_arg(SingleArg::Promise, args, span, types, aliases, params, diags, report);
            }
            if str_eq(n.as_str(), "WeakMap") {
                return resolve_weakmap(args, span, types, aliases, params, diags, report);
            }
            match type_from_ident(n.as_str()) {
                Some(t) => intern_in(types, &t),
                None => intern_in(types, &Type::Error),
            }
        },
        TypeName::Other => intern_in(types, &Type::Error),
    }
}

/// `Array<T>` or `Promise<T>`: exactly one type argument, else an error type.
fn resolve_single_arg(
    kind: SingleArg,
    args: &Option<Vec<TsType>>,
    span: Span,
    types: &mut TypeTable,
    aliases: Option<&TypeParamMap>,
    params: Option<&TypeParamMap>,
    diags: &mut DiagnosticBag,
    report: bool,
) -> (id: TypeId)
    requires
        old(types).wf(),
    ensures
        final(types).wf(),
        grows(old(types)@, final(types)@, old(diags)@, final(diags)@),
        !report ==> final(diags)@ == old(diags)@,
        full_at(final(types)@, id) || (id.0 < final(types)@.len() && {
            let tv = final(types)@[id.0 as int];
            match *args {
                Some(a) => if a@.len() == 1 {
                    &&& kind == SingleArg::Array ==> (tv matches TypeV::Array { element }
                        && resolves(final(types)@, element, a@[0], aliases, params))
                    &&& kind == SingleArg::Promise ==> (tv matches TypeV::Promise { ok, err } && err is None
                        && resolves(final(types)@, ok, a@[0], aliases, params))
                } else {
                    tv is Error
                },
                None => tv is Error,
            }
        }),
    decreases args, 0nat,
{
    let name = match kind {
        SingleArg::Array => "Array",
        SingleArg::Promise => "Promise",
    };
    match args {
        Some(a) => {
            if a.len() == 1 {
                proof {
                    assert(decreases_to!(args => a@[0]));
                }
                let inner = resolve_type(&a[0], types, aliases, params, diags, report);
                let ghost mid = types@;
                let ty = match kind {
                    SingleArg::Array => Type::Array { element: inner },
                    SingleArg::Promise => Type::Promise { ok: inner, err: None },
                };
                let id = intern_in(types, &ty);
                proof {
                    lemma_prefix_trans(old(types)@, mid, types@);
                    lemma_resolves_grow(mid, types@, inner, a@[0], aliases, params);
                }
                id
            } else {
                let mut m = String::from_str(name);
                push_str(&mut m, "<T> requires exactly one type argument, got ");
                push_u64_dec(&mut m, a.len() as u64);
                warn(diags, report, "E0403", m, span);
                intern_in(types, &Type::Error)
            }
        },
        None => {
            let mut m = String::from_str(name);
            push_str(&mut m, " used without type arguments");
            warn(diags, report, "E0403", m, span);
            intern_in(types, &Type::Error)
        },
    }
}

/// Whether a type may be a `WeakMap` key: not the error type, and a
/// struct or the type with id 0.
fn is_supported_weakmap_key_type(key: TypeId, types: &TypeTable) -> (b: bool)
    ensures
        b == (!(key.0 < types@.len() && types@[key.0 as int] is Error) && (key.0 == 0 || (key.0 < types@.len()
            && types@[key.0 as int] is Struct))),
{
    match types.resolve(key) {
        Some(t) => match t {
            Type::Error => false,
            Type::Struct { .. } => true,
            _ => key.0 == 0,
        },
        None => key.0 == 0,
    }
}

/// Whether a type may be a `WeakMap` value: `i64`, or the type with id 0.
fn is_supported_weakmap_value_type(value: TypeId, types: &TypeTable) -> (b: bool)
    ensures
        b == (value.0 == 0 || (value.0 < types@.len() && types@[value.0 as int] is I64)),
{
    if value.0 == 0 {
        return true;
    }
    match types.resolve(value) {
        Some(t) => match t {
            Type::I64 => true,
            _ => false,
        },
        None => false,
    }
}

/// `WeakMap<K, V>` with a struct key and an `i64` value, else an error type.
fn resolve_weakmap(
    args: &Option<Vec<TsType>>,
    span: Span,
    types: &mut TypeTable,
    aliases: Option<&TypeParamMap>,
    params: Option<&TypeParamMap>,
    diags: &mut DiagnosticBag,
    report: bool,
) -> (id: TypeId)
    requires
        old(types).wf(),
    ensures
        final(types).wf(),
        grows(old(types)@, final(types)@, old(diags)@, final(diags)@),
        !report ==> final(diags)@ == old(diags)@,
        full_at(final(types)@, id) || (id.0 < final(types)@.len() && {
            let tv = final(types)@[id.0 as int];
            match *args {
                Some(a) => if a@.len() == 2 {
                    tv is Error || (tv matches TypeV::WeakMap { key, value }
                        && resolves(final(types)@, key, a@[0], aliases, params)
                        && resolves(final(types)@, value, a@[1], aliases, params))
                } else {
                    tv is Error
                },
                None => tv is Error,
            }
        }),
    decreases args, 0nat,
{
    match args {
        Some(a) => {
            if a.len() == 2 {
                proof {
                    assert(decreases_to!(args => a@[0]));
                    assert(decreases_to!(args => a@[1]));
                }
                let key = resolve_type(&a[0], types, aliases, params, diags, report);
                let ghost t1 = types@;
                let ghost d1 = diags@;
                let value = resolve_type(&a[1], types, aliases, params, diags, report);
                let ghost t2 = types@;
                let ghost d2 = diags@;
                proof {
                    lemma_prefix_trans(old(types)@, t1, t2);
                    lemma_dprefix_trans(old(diags)@, d1, d2);
                }
                if !is_supported_weakmap_key_type(key, types) {
                    let is_error = match types.resolve(key) {
                        Some(t) => match t {
                            Type::Error => true,
                            _ => false,
                        },
                        None => false,
                    };
                    let mut m = String::from_str("WeakMap<K, V> key must be a struct type. ");
                    if is_error {
                        push_str(&mut m, "the bare `object` type is not supported as a WeakMap key until a full identity-bearing handle (an object wrapper that preserves address across function boundaries) is available; use a concrete struct type instead.");
                    } else {
                        push_str(&mut m, "WeakMap keys must be concrete struct types so the compiler can emit an identity-bearing handle; got key type ");
                        push_type_option_debug(&mut m, types.resolve(key));
                    }
                    warn(diags, report, "E0403", m, span);
                    let id = intern_in(types, &Type::Error);
                    proof {
                        lemma_prefix_trans(old(types)@, t2, types@);
                        lemma_dprefix_trans(old(diags)@, d2, diags@);
                    }
                    return id;
                }
                if !is_supported_weakmap_value_type(value, types) {
                    let mut m = String::from_str("WeakMap<K, V> value must resolve to i64; runtime helpers take i64 by value. Got value type ");
                    push_type_option_debug(&mut m, types.resolve(value));
                    warn(diags, report, "E0403", m, span);
                    let id = intern_in(types, &Type::Error);
                    proof {
                        lemma_prefix_trans(old(types)@, t2, types@);
                        lemma_dprefix_trans(old(diags)@, d2, diags@);
                    }
                    return id;
                }
                let id = intern_in(types, &Type::WeakMap { key, value });
                proof {
                    lemma_prefix_trans(old(types)@, t2, types@);
                    lemma_resolves_grow(t1, types@, key, a@[0], aliases, params);
                    lemma_resolves_grow(t2, types@, value, a@[1], aliases, params);
                }
                id
            } else {
                let m = count_message("WeakMap<K, V> requires exactly two type arguments, got ", a.len(), "");
                warn(diags, report, "E0403", m, span);
                intern_in(types, &Type::Error)
            }
        },
        None => {
            let m = String::from_str("WeakMap<K, V> requires type arguments; bare `WeakMap` is not a valid type annotation. Use `WeakMap<K, V>` with concrete key/value types.");
            warn(diags, report, "E0403", m, span);
            intern_in(types, &Type::Error)
        },
    }
}

/// Appends the debug form of an optional type: `Some(..)` or `None`.
fn push_type_option_debug(s: &mut String, t: Option<&Type>)
    ensures
        final(s)@ == old(s)@ + match t {
            Some(t) => "Some("@ + crate::types::type_debug_text(t@) + ")"@,
            None => "None"@,
        },
{
    match t {
        Some(t) => {
            push_str(s, "Some(");
            crate::types::push_type_debug(s, t);
            push_str(s, ")");
        },
        None => push_str(s, "None"),
    }
    proof {
        assert(s@ =~= old(s)@ + match t {
            Some(t) => "Some("@ + crate::types::type_debug_text(t@) + ")"@,
            None => "None"@,
        });
    }
}

/// The one type of a union that is neither null nor void, when all the
/// others are null or void and none is the error type.
pub open spec fn nullable_from(tab: Seq<TypeV>, v: Seq<TypeId>, i: int, found: Option<TypeId>) -> Option<TypeId>
    decreases v.len() - i,
{
    if i >= v.len() || i < 0 {
        found
    } else {
        let t = if v[i].0 < tab.len() { Some(tab[v[i].0 as int]) } else { None };
        match t {
            Some(TypeV::Null) | Some(TypeV::Void) => nullable_from(tab, v, i + 1, found),
            Some(TypeV::Error) => None,
            _ => if found is Some { None } else { nullable_from(tab, v, i + 1, Some(v[i])) },
        }
    }
}

/// The one non-nullish member of a union of a nullish type and one other.
pub fn nullable_inner(variants: &Vec<TypeId>, types: &TypeTable) -> (r: Option<TypeId>)
    ensures
        r == nullable_from(types@, variants@, 0, None),
{
    let mut non_nullish: Option<TypeId> = None;
    let mut i: usize = 0;
    while i < variants.len()
        invariant
            0 <= i <= variants@.len(),
            nullable_from(types@, variants@, 0, None) == nullable_from(types@, variants@, i as int, non_nullish),
        decreases variants@.len() - i,
    {
        let v = variants[i];
        match types.resolve(v) {
            Some(t) => match t {
                Type::Null | Type::Void => {},
                Type::Error => return None,
                _ => {
                    if non_nullish.is_some() {
                        return None;
                    }
                    non_nullish = Some(v);
                },
            },
            None => {
                if non_nullish.is_some() {
                    return None;
                }
                non_nullish = Some(v);
            },
        }
        i += 1;
    }
    non_nullish
}

/// Resolves each type of `v` in order.
fn resolve_each(
    v: &Vec<TsType>,
    types: &mut TypeTable,
    aliases: Option<&TypeParamMap>,
    params: Option<&TypeParamMap>,
    diags: &mut DiagnosticBag,
    report: bool,
) -> (ids: Vec<TypeId>)
    requires
        old(types).wf(),
    ensures
        final(types).wf(),
        grows(old(types)@, final(types)@, old(diags)@, final(diags)@),
        !report ==> final(diags)@ == old(diags)@,
        ids@.len() == v@.len(),
        forall|i: int| 0 <= i < v@.len() ==> resolves(final(types)@, #[trigger] ids@[i], v@[i], aliases, params),
    decreases v, 1nat,
{
    let mut ids: Vec<TypeId> = Vec::new();
    let mut i: usize = 0;
    while i < v.len()
        invariant
            0 <= i <= v@.len(),
            ids@.len() == i,
            types.wf(),
            grows(old(types)@, types@, old(diags)@, diags@),
            !report ==> diags@ == old(diags)@,
            forall|j: int| 0 <= j < i ==> resolves(types@, #[trigger] ids@[j], v@[j], aliases, params),
        decreases v@.len() - i,
    {
        proof {
            assert(decreases_to!(v => v@[i as int]));
        }
        let ghost t0 = types@;
        let ghost d0 = diags@;
        let id = resolve_type(&v[i], types, aliases, params, diags, report);
        proof {
            lemma_prefix_trans(old(types)@, t0, types@);
            lemma_dprefix_trans(old(diags)@, d0, diags@);
            assert forall|j: int| 0 <= j < i implies resolves(types@, #[trigger] ids@[j], v@[j], aliases, params) by {
                lemma_resolves_grow(t0, types@, ids@[j], v@[j], aliases, params);
            }
        }
        ids.push(id);
        i += 1;
    }
    ids
}

/// A union: `T | null` becomes an optional `T`, anything else a union of
/// its members in order.
fn resolve_union(
    v: &Vec<TsType>,
    types: &mut TypeTable,
    aliases: Option<&TypeParamMap>,
    params: Option<&TypeParamMap>,
    diags: &mut DiagnosticBag,
    report: bool,
) -> (id: TypeId)
    requires
        old(types).wf(),
    ensures
        final(types).wf(),
        grows(old(types)@, final(types)@, old(diags)@, final(diags)@),
        !report ==> final(diags)@ == old(diags)@,
        full_at(final(types)@, id) || (id.0 < final(types)@.len() && {
            let tv = final(types)@[id.0 as int];
            ||| (tv matches TypeV::Union { variants } && variants.len() == v@.len()
                && forall|i: int| 0 <= i < v@.len() ==> resolves(final(types)@, #[trigger] variants[i], v@[i], aliases, params))
            ||| (tv matches TypeV::Optional { inner } && exists|i: int|
                0 <= i < v@.len() && resolves(final(types)@, inner, #[trigger] v@[i], aliases, params))
        }),
    decreases v, 2nat,
{
    let variants = resolve_each(v, types, aliases, params, diags, report);
    let ghost mid = types@;
    let id = match nullable_inner(&variants, types) {
        Some(inner) => {
            let id = intern_in(types, &Type::Optional { inner });
            proof {
                lemma_nullable_member(mid, variants@, 0, None);
                let j = choose|j: int| 0 <= j < variants@.len() && variants@[j] == inner;
                lemma_resolves_grow(mid, types@, inner, v@[j], aliases, params);
            }
            id
        },
        None => {
            let ghost vs = variants@;
            let id = intern_in(types, &Type::Union { variants });
            proof {
                assert forall|i: int| 0 <= i < v@.len() implies resolves(types@, #[trigger] vs[i], v@[i], aliases, params) by {
                    lemma_resolves_grow(mid, types@, vs[i], v@[i], aliases, params);
                }
            }
            id
        },
    };
    proof {
        lemma_prefix_trans(old(types)@, mid, types@);
    }
    id
}

/// The type that a nullable union keeps is one of its members.
proof fn lemma_nullable_member(tab: Seq<TypeV>, v: Seq<TypeId>, i: int, found: Option<TypeId>)
    requires
        0 <= i,
    ensures
        nullable_from(tab, v, i, found) matches Some(x) ==> found == Some(x) || exists|j: int| i <= j < v.len() && v[j] == x,
    decreases v.len() - i,
{
    if i < v.len() {
        let t = if v[i].0 < tab.len() { Some(tab[v[i].0 as int]) } else { None };
        match t {
            Some(TypeV::Null) | Some(TypeV::Void) => lemma_nullable_member(tab, v, i + 1, found),
            Some(TypeV::Error) => {},
            _ => if found is None {
                lemma_nullable_member(tab, v, i + 1, Some(v[i]));
            },
        }
    }
}

/// `v` sorted by raw id, each id once.
pub fn sort_dedup(v: &Vec<TypeId>) -> (r: Vec<TypeId>)
    ensures
        forall|i: int, j: int| 0 <= i < j < r@.len() ==> r@[i].0 < r@[j].0,
        r@.to_set() == v@.to_set(),
{
    let mut out: Vec<TypeId> = Vec::new();
    let mut i: usize = 0;
    while i < v.len()
        invariant
            0 <= i <= v@.len(),
            forall|a: int, b: int| 0 <= a < b < out@.len() ==> out@[a].0 < out@[b].0,
            out@.to_set() == v@.subrange(0, i as int).to_set(),
        decreases v@.len() - i,
    {
        let x = v[i];
        let mut k: usize = 0;
        while k < out.len() && out[k].0 < x.0
            invariant
                0 <= k <= out@.len(),
                forall|a: int| 0 <= a < k ==> out@[a].0 < x.0,
            decreases out@.len() - k,
        {
            k += 1;
        }
        let ghost before = out@;
        if k < out.len() && out[k].0 == x.0 {
            proof {
                assert(out@[k as int] == x);
                assert(before.to_set().insert(x) =~= before.to_set());
            }
        } else {
            out.insert(k, x);
            proof {
                assert(out@ == before.subrange(0, k as int).push(x) + before.subrange(k as int, before.len() as int));
                assert forall|a: int, b: int| 0 <= a < b < out@.len() implies out@[a].0 < out@[b].0 by {
                    if b < k {
                        assert(out@[a] == before[a] && out@[b] == before[b]);
                    } else if b == k {
                        assert(out@[a] == before[a]);
                    } else if a == k {
                        assert(out@[b] == before[b - 1]);
                    } else if a < k {
                        assert(out@[a] == before[a] && out@[b] == before[b - 1]);
                    } else {
                        assert(out@[a] == before[a - 1] && out@[b] == before[b - 1]);
                    }
                }
                assert forall|y: TypeId| out@.to_set().contains(y) == before.to_set().insert(x).contains(y) by {
                    if out@.to_set().contains(y) {
                        let j = choose|j: int| 0 <= j < out@.len() && out@[j] == y;
                        if j < k {
                            assert(before[j] == y);
                        } else if j > k {
                            assert(before[j - 1] == y);
                        }
                    }
                    if before.to_set().contains(y) {
                        let j = choose|j: int| 0 <= j < before.len() && before[j] == y;
                        if j < k {
                            assert(out@[j] == y);
                        } else {
                            assert(out@[j + 1] == y);
                        }
                    }
                    if y == x {
                        assert(out@[k as int] == x);
                    }
                }
                assert(out@.to_set() =~= before.to_set().insert(x));
            }
        }
        proof {
            assert(v@.subrange(0, i + 1) == v@.subrange(0, i as int).push(x));
            v@.subrange(0, i as int).lemma_push_to_set_commute(x);
        }
        i += 1;
    }
    proof {
        assert(v@.subrange(0, v@.len() as int) == v@);
    }
    out
}

/// An intersection: its parts, sorted by id with duplicates dropped.
fn resolve_intersection(
    v: &Vec<TsType>,
    types: &mut TypeTable,
    aliases: Option<&TypeParamMap>,
    params: Option<&TypeParamMap>,
    diags: &mut DiagnosticBag,
    report: bool,
) -> (id: TypeId)
    requires
        old(types).wf(),
    ensures
        final(types).wf(),
        grows(old(types)@, final(types)@, old(diags)@, final(diags)@),
        !report ==> final(diags)@ == old(diags)@,
        full_at(final(types)@, id) || (id.0 < final(types)@.len() && {
            let tv = final(types)@[id.0 as int];
            tv matches TypeV::Intersection { parts }
                && (forall|i: int, j: int| 0 <= i < j < parts.len() ==> parts[i].0 < parts[j].0)
                && exists|ids: Seq<TypeId>| #[trigger] ids.to_set() == parts.to_set() && ids.len() == v@.len()
                    && forall|i: int| 0 <= i < v@.len() ==> resolves(final(types)@, #[trigger] ids[i], v@[i], aliases, params)
        }),
    decreases v, 2nat,
{
    let parts = resolve_each(v, types, aliases, params, diags, report);
    let sorted = sort_dedup(&parts);
    let ghost mid = types@;
    let ghost ss = sorted@;
    let id = intern_in(types, &Type::Intersection { parts: sorted });
    proof {
        lemma_prefix_trans(old(types)@, mid, types@);
        assert forall|i: int| 0 <= i < v@.len() implies resolves(types@, #[trigger] parts@[i], v@[i], aliases, params) by {
            lemma_resolves_grow(mid, types@, parts@[i], v@[i], aliases, params);
        }
        assert(parts@.to_set() == ss.to_set());
    }
    id
}

/// A tuple: each plain element resolved; optional and rest elements are
/// reported and become error types.
fn resolve_tuple(
    v: &Vec<TupleElement>,
    types: &mut TypeTable,
    aliases: Option<&TypeParamMap>,
    params: Option<&TypeParamMap>,
    diags: &mut DiagnosticBag,
    report: bool,
) -> (id: TypeId)
    requires
        old(types).wf(),
    ensures
        final(types).wf(),
        grows(old(types)@, final(types)@, old(diags)@, final(diags)@),
        !report ==> final(diags)@ == old(diags)@,
        full_at(final(types)@, id) || (id.0 < final(types)@.len() && {
            let tv = final(types)@[id.0 as int];
            tv matches TypeV::Tuple { elements } && elements.len() == v@.len()
                && forall|i: int| 0 <= i < v@.len() ==> tuple_part(final(types)@, #[trigger] elements[i], v@[i], aliases, params)
        }),
    decreases v, 2nat,
{
    let mut elements: Vec<TypeId> = Vec::new();
    let mut i: usize = 0;
    while i < v.len()
        invariant
            0 <= i <= v@.len(),
            elements@.len() == i,
            types.wf(),
            grows(old(types)@, types@, old(diags)@, diags@),
            !report ==> diags@ == old(diags)@,
            forall|j: int| 0 <= j < i ==> tuple_part(types@, #[trigger] elements@[j], v@[j], aliases, params),
        decreases v@.len() - i,
    {
        proof {
            assert(decreases_to!(v => v@[i as int]));
        }
        let ghost t0 = types@;
        let ghost d0 = diags@;
        let id = match &v[i] {
            TupleElement::Type(t) => resolve_type(t, types, aliases, params, diags, report),
            TupleElement::Optional(span) => {
                warn(diags, report, "E0402", String::from_str("optional tuple element `T?` is not supported in Phase 4"), *span);
                intern_in(types, &Type::Error)
            },
            TupleElement::Rest(span) => {
                warn(diags, report, "E0402", String::from_str("rest tuple element `...T` is not supported in Phase 4"), *span);
                intern_in(types, &Type::Error)
            },
        };
        proof {
            lemma_prefix_trans(old(types)@, t0, types@);
            lemma_dprefix_trans(old(diags)@, d0, diags@);
            assert forall|j: int| 0 <= j < i implies tuple_part(types@, #[trigger] elements@[j], v@[j], aliases, params) by {
                lemma_tuple_part_grow(t0, types@, elements@[j], v@[j], aliases, params);
            }
        }
        elements.push(id);
        i += 1;
    }
    let ghost mid = types@;
    let ghost es = elements@;
    let id = intern_in(types, &Type::Tuple { elements });
    proof {
        lemma_prefix_trans(old(types)@, mid, types@);
        assert forall|j: int| 0 <= j < v@.len() implies tuple_part(types@, #[trigger] es[j], v@[j], aliases, params) by {
            lemma_tuple_part_grow(mid, types@, es[j], v@[j], aliases, params);
        }
    }
    id
}

/// What a tuple element resolved to stays so as the table grows.
proof fn lemma_tuple_part_grow(
    t0: Seq<TypeV>,
    t1: Seq<TypeV>,
    id: TypeId,
    e: TupleElement,
    aliases: Option<&TypeParamMap>,
    params: Option<&TypeParamMap>,
)
    requires
        t0.is_prefix_of(t1),
        t1.len() <= u32::MAX,
        tuple_part(t0, id, e, aliases, params),
    ensures
        tuple_part(t1, id, e, aliases, params),
{
    match e {
        TupleElement::Type(t) => lemma_resolves_grow(t0, t1, id, t, aliases, params),
        _ => lemma_named_grow(t0, t1, id, TypeV::Error),
    }
}

/// What a function type's parameter resolved to stays so as the table grows.
proof fn lemma_fn_part_grow(
    t0: Seq<TypeV>,
    t1: Seq<TypeV>,
    id: TypeId,
    p: FnTypeParam,
    aliases: Option<&TypeParamMap>,
    params: Option<&TypeParamMap>,
)
    requires
        t0.is_prefix_of(t1),
        t1.len() <= u32::MAX,
        fn_part(t0, id, p, aliases, params),
    ensures
        fn_part(t1, id, p, aliases, params),
{
    match p.annotation {
        Some(t) => lemma_resolves_grow(t0, t1, id, t, aliases, params),
        None => lemma_named_grow(t0, t1, id, TypeV::Error),
    }
}

/// A function type: its parameter types and return type. Generic
/// parameters, a `this` parameter and a rest parameter are reported; a
/// function type with a rest parameter is an error type.
#[verifier::loop_isolation(false)]
fn resolve_function(
    t: &TsType,
    types: &mut TypeTable,
    aliases: Option<&TypeParamMap>,
    params: Option<&TypeParamMap>,
    diags: &mut DiagnosticBag,
    report: bool,
) -> (id: TypeId)
    requires
        old(types).wf(),
        t is Function,
    ensures
        final(types).wf(),
        grows(old(types)@, final(types)@, old(diags)@, final(diags)@),
        !report ==> final(diags)@ == old(diags)@,
        resolves(final(types)@, id, *t, aliases, params),
    decreases t, 1nat,
{
    match t {
        TsType::Function { params: ps, rest, ret, type_params, this_param, .. } => {
            let ghost d_start = diags@;
            match type_params {
                Some(sp) => warn(diags, report, "E0404", String::from_str("function type generics `<T>` are not supported in Phase 4"), *sp),
                None => {},
            }
            let ghost d_a = diags@;
            match this_param {
                Some(sp) => warn(diags, report, "E0404", String::from_str("function type `this:` parameter is not supported in Phase 4"), *sp),
                None => {},
            }
            let ghost d_b = diags@;
            match rest {
                Some(r) => warn(diags, report, "E0404", String::from_str("function type rest parameter `...args: T` is not supported in Phase 4"), r.span),
                None => {},
            }
            proof {
                lemma_dprefix_trans(d_start, d_a, d_b);
                lemma_dprefix_trans(d_start, d_b, diags@);
            }
            if rest.is_some() {
                return intern_in(types, &Type::Error);
            }
            let ghost d0 = diags@;
            let mut out: Vec<TypeId> = Vec::new();
            let mut i: usize = 0;
            while i < ps.len()
                invariant
                    0 <= i <= ps@.len(),
                    out@.len() == i,
                    types.wf(),
                    grows(old(types)@, types@, d0, diags@),
                    old(diags)@.is_prefix_of(d0),
                    !report ==> diags@ == old(diags)@,
                    forall|j: int| 0 <= j < i ==> fn_part(types@, #[trigger] out@[j], ps@[j], aliases, params),
                decreases ps@.len() - i,
            {
                let ghost t0 = types@;
                let ghost d1 = diags@;
                let id = match &ps[i].annotation {
                    Some(a) => {
                        proof {
                            assert(decreases_to!(t => ps@[i as int]));
                            assert(decreases_to!(ps@[i as int] => ps@[i as int].annotation));
                        }
                        resolve_type(a, types, aliases, params, diags, report)
                    },
                    None => {
                        warn(diags, report, "E0404", String::from_str("function type parameter without type annotation is not supported in Phase 4 — use `(a: T)` instead"), ps[i].span);
                        intern_in(types, &Type::Error)
                    },
                };
                proof {
                    lemma_prefix_trans(old(types)@, t0, types@);
                    lemma_dprefix_trans(d0, d1, diags@);
                    assert forall|j: int| 0 <= j < i implies fn_part(types@, #[trigger] out@[j], ps@[j], aliases, params) by {
                        lemma_fn_part_grow(t0, types@, out@[j], ps@[j], aliases, params);
                    }
                }
                out.push(id);
                i += 1;
            }
            let ghost t1 = types@;
            let ghost d1 = diags@;
            let r = resolve_type(ret, types, aliases, params, diags, report);
            let ghost t2 = types@;
            let ghost os = out@;
            let id = intern_in(types, &Type::Fn { params: out, ret: r, err: None });
            proof {
                assert forall|j: int| 0 <= j < ps@.len() implies fn_part(types@, #[trigger] os[j], ps@[j], aliases, params) by {
                    lemma_fn_part_grow(t1, types@, os[j], ps@[j], aliases, params);
                }
                lemma_resolves_grow(t2, types@, r, **ret, aliases, params);
                lemma_prefix_trans(old(types)@, t1, t2);
                lemma_prefix_trans(old(types)@, t2, types@);
                lemma_dprefix_trans(d0, d1, diags@);
                lemma_dprefix_trans(old(diags)@, d0, diags@);
            }
            id
        },
        _ => intern_in(types, &Type::Error),
    }
}

} // verus!
