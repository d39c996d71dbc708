//! The compiler's type language and the interning table that gives each
//! distinct type one `TypeId`.
use vstd::prelude::*;
use crate::base::{GenericParamId, StructId, TypeId};

verus! {

/// A type of the compiled language.
#[derive(Debug, PartialEq, Eq, Hash)]
pub enum Type {
    Void,
    Bool,
    I8,
    I16,
    I32,
    I64,
    U8,
    U16,
    U32,
    U64,
    F32,
    F64,
    String,
    Null,
    Never,
    Error,
    Array { element: TypeId },
    Optional { inner: TypeId },
    Union { variants: Vec<TypeId> },
    Intersection { parts: Vec<TypeId> },
    Tuple { elements: Vec<TypeId> },
    Promise { ok: TypeId, err: Option<TypeId> },
    WeakMap { key: TypeId, value: TypeId },
    Fn { params: Vec<TypeId>, ret: TypeId, err: Option<TypeId> },
    GenericParam { id: GenericParamId },
    Struct { id: StructId },
}

/// The mathematical model of a [`Type`]: lists of ids become sequences.
pub enum TypeV {
    Void,
    Bool,
    I8,
    I16,
    I32,
    I64,
    U8,
    U16,
    U32,
    U64,
    F32,
    F64,
    String,
    Null,
    Never,
    Error,
    Array { element: TypeId },
    Optional { inner: TypeId },
    Union { variants: Seq<TypeId> },
    Intersection { parts: Seq<TypeId> },
    Tuple { elements: Seq<TypeId> },
    Promise { ok: TypeId, err: Option<TypeId> },
    WeakMap { key: TypeId, value: TypeId },
    Fn { params: Seq<TypeId>, ret: TypeId, err: Option<TypeId> },
    GenericParam { id: GenericParamId },
    Struct { id: StructId },
}

impl View for Type {
    type V = TypeV;

    open spec fn view(&self) -> TypeV {
        match *self {
            Type::Void => TypeV::Void,
            Type::Bool => TypeV::Bool,
            Type::I8 => TypeV::I8,
            Type::I16 => TypeV::I16,
            Type::I32 => TypeV::I32,
            Type::I64 => TypeV::I64,
            Type::U8 => TypeV::U8,
            Type::U16 => TypeV::U16,
            Type::U32 => TypeV::U32,
            Type::U64 => TypeV::U64,
            Type::F32 => TypeV::F32,
            Type::F64 => TypeV::F64,
            Type::String => TypeV::String,
            Type::Null => TypeV::Null,
            Type::Never => TypeV::Never,
            Type::Error => TypeV::Error,
            Type::Array { element } => TypeV::Array { element },
            Type::Optional { inner } => TypeV::Optional { inner },
            Type::Union { variants } => TypeV::Union { variants: variants@ },
            Type::Intersection { parts } => TypeV::Intersection { parts: parts@ },
            Type::Tuple { elements } => TypeV::Tuple { elements: elements@ },
            Type::Promise { ok, err } => TypeV::Promise { ok, err },
            Type::WeakMap { key, value } => TypeV::WeakMap { key, value },
            Type::Fn { params, ret, err } => TypeV::Fn { params: params@, ret, err },
            Type::GenericParam { id } => TypeV::GenericParam { id },
            Type::Struct { id } => TypeV::Struct { id },
        }
    }
}

/// A copy of a vector of type ids.
pub fn clone_ids(v: &Vec<TypeId>) -> (r: Vec<TypeId>)
    ensures
        r@ == v@,
{
    let mut out: Vec<TypeId> = Vec::new();
    let mut i: usize = 0;
    while i < v.len()
        invariant
            0 <= i <= v@.len(),
            out@ == v@.subrange(0, i as int),
        decreases v@.len() - i,
    {
        out.push(v[i]);
        i += 1;
    }
    proof {
        assert(out@ == v@);
    }
    out
}

/// Whether two vectors of type ids are equal.
pub fn ids_eq(a: &Vec<TypeId>, b: &Vec<TypeId>) -> (r: bool)
    ensures
        r == (a@ == b@),
{
    if a.len() != b.len() {
        proof {
            assert(a@.len() != b@.len());
        }
        return false;
    }
    let mut i: usize = 0;
    while i < a.len()
        invariant
            a@.len() == b@.len(),
            0 <= i <= a@.len(),
            forall|j: int| 0 <= j < i ==> a@[j] == b@[j],
        decreases a@.len() - i,
    {
        if a[i] != b[i] {
            proof {
                assert(a@[i as int] != b@[i as int]);
                assert(a@ != b@);
            }
            return false;
        }
        i += 1;
    }
    proof {
        assert(a@ == b@);
    }
    true
}

impl Clone for Type {
    fn clone(&self) -> (r: Self)
        ensures
            r@ == self@,
    {
        match self {
            Type::Void => Type::Void,
            Type::Bool => Type::Bool,
            Type::I8 => Type::I8,
            Type::I16 => Type::I16,
            Type::I32 => Type::I32,
            Type::I64 => Type::I64,
            Type::U8 => Type::U8,
            Type::U16 => Type::U16,
            Type::U32 => Type::U32,
            Type::U64 => Type::U64,
            Type::F32 => Type::F32,
            Type::F64 => Type::F64,
            Type::String => Type::String,
            Type::Null => Type::Null,
            Type::Never => Type::Never,
            Type::Error => Type::Error,
            Type::Array { element } => Type::Array { element: *element },
            Type::Optional { inner } => Type::Optional { inner: *inner },
            Type::Union { variants } => Type::Union { variants: clone_ids(variants) },
            Type::Intersection { parts } => Type::Intersection { parts: clone_ids(parts) },
            Type::Tuple { elements } => Type::Tuple { elements: clone_ids(elements) },
            Type::Promise { ok, err } => Type::Promise { ok: *ok, err: *err },
            Type::WeakMap { key, value } => Type::WeakMap { key: *key, value: *value },
            Type::Fn { params, ret, err } => Type::Fn { params: clone_ids(params), ret: *ret, err: *err },
            Type::GenericParam { id } => Type::GenericParam { id: *id },
            Type::Struct { id } => Type::Struct { id: *id },
        }
    }
}

/// Whether two types are equal.
pub fn type_eq(a: &Type, b: &Type) -> (r: bool)
    ensures
        r == (a@ == b@),
{
    match (a, b) {
        (Type::Void, Type::Void) => true,
        (Type::Bool, Type::Bool) => true,
        (Type::I8, Type::I8) => true,
        (Type::I16, Type::I16) => true,
        (Type::I32, Type::I32) => true,
        (Type::I64, Type::I64) => true,
        (Type::U8, Type::U8) => true,
        (Type::U16, Type::U16) => true,
        (Type::U32, Type::U32) => true,
        (Type::U64, Type::U64) => true,
        (Type::F32, Type::F32) => true,
        (Type::F64, Type::F64) => true,
        (Type::String, Type::String) => true,
        (Type::Null, Type::Null) => true,
        (Type::Never, Type::Never) => true,
        (Type::Error, Type::Error) => true,
        (Type::Array { element: x }, Type::Array { element: y }) => *x == *y,
        (Type::Optional { inner: x }, Type::Optional { inner: y }) => *x == *y,
        (Type::Union { variants: x }, Type::Union { variants: y }) => ids_eq(x, y),
        (Type::Intersection { parts: x }, Type::Intersection { parts: y }) => ids_eq(x, y),
        (Type::Tuple { elements: x }, Type::Tuple { elements: y }) => ids_eq(x, y),
        (Type::Promise { ok: o1, err: e1 }, Type::Promise { ok: o2, err: e2 }) => *o1 == *o2 && *e1 == *e2,
        (Type::WeakMap { key: k1, value: v1 }, Type::WeakMap { key: k2, value: v2 }) => *k1 == *k2 && *v1 == *v2,
        (Type::Fn { params: p1, ret: r1, err: e1 }, Type::Fn { params: p2, ret: r2, err: e2 }) =>
            ids_eq(p1, p2) && *r1 == *r2 && *e1 == *e2,
        (Type::GenericParam { id: x }, Type::GenericParam { id: y }) => *x == *y,
        (Type::Struct { id: x }, Type::Struct { id: y }) => *x == *y,
        _ => false,
    }
}

/// The interning table: each distinct type is stored once, and its
/// `TypeId` is its position in the table.
#[derive(Debug)]
pub struct TypeTable {
    types: Vec<Type>,
}

impl View for TypeTable {
    type V = Seq<TypeV>;

    closed spec fn view(&self) -> Seq<TypeV> {
        self.types@.map_values(|t: Type| t@)
    }
}

/// What interning `tv` in table `t0` leaves, `t1`, and answers, `id`:
/// the id of `tv` where it is stored already; else a fresh id at the end,
/// or `u32::MAX` when the table is full.
pub open spec fn interned(t0: Seq<TypeV>, t1: Seq<TypeV>, tv: TypeV, id: TypeId) -> bool {
    &&& t0.contains(tv) ==> t1 == t0 && id.0 < t1.len() && t1[id.0 as int] == tv
    &&& !t0.contains(tv) && t0.len() < u32::MAX ==> t1 == t0.push(tv) && id.0 == t0.len()
    &&& !t0.contains(tv) && t0.len() >= u32::MAX ==> t1 == t0 && id.0 == u32::MAX
}

/// No type occurs twice in the table.
pub open spec fn no_duplicates(s: Seq<TypeV>) -> bool {
    forall|i: int, j: int| 0 <= i < s.len() && 0 <= j < s.len() && i != j ==> s[i] != s[j]
}

impl TypeTable {
    /// The table's invariant: every type occurs at most once, and every
    /// position is addressable by a `TypeId`.
    pub open spec fn wf(&self) -> bool {
        &&& no_duplicates(self@)
        &&& self@.len() <= u32::MAX
    }

    pub fn new() -> (t: TypeTable)
        ensures
            t.wf(),
            t@ == Seq::<TypeV>::empty(),
    {
        TypeTable { types: Vec::new() }
    }

    pub fn len(&self) -> (n: usize)
        ensures
            n == self@.len(),
    {
        self.types.len()
    }

    /// Whether the table is well formed: no type stored twice, and no more
    /// types than ids.
    pub fn is_wf(&self) -> (b: bool)
        ensures
            b == self.wf(),
    {
        let n = self.types.len();
        if n > 0xFFFF_FFFFusize {
            return false;
        }
        let ghost s = self@;
        let mut i: usize = 0;
        while i < n
            invariant
                0 <= i <= n,
                n == self.types@.len(),
                s == self@,
                s.len() == n,
                forall|a: int, b: int| 0 <= a < i && a < b < n ==> s[a] != s[b],
            decreases n - i,
        {
            let mut j: usize = i + 1;
            while j < n
                invariant
                    i < j <= n,
                    n == self.types@.len(),
                    s == self@,
                    s.len() == n,
                    forall|b: int| i < b < j ==> s[i as int] != s[b],
                decreases n - j,
            {
                proof {
                    assert(s[i as int] == self.types@[i as int]@);
                    assert(s[j as int] == self.types@[j as int]@);
                }
                if type_eq(&self.types[i], &self.types[j]) {
                    proof {
                        assert(!no_duplicates(s));
                    }
                    return false;
                }
                j += 1;
            }
            i += 1;
        }
        proof {
            assert forall|a: int, b: int| 0 <= a < s.len() && 0 <= b < s.len() && a != b implies s[a] != s[b] by {
                if a > b {
                    assert(s[b] != s[a]);
                }
            }
        }
        true
    }

    /// The position of `ty` in the table, if it is there.
    pub fn lookup(&self, ty: &Type) -> (r: Option<TypeId>)
        requires
            self.wf(),
        ensures
            match r {
                Some(id) => id.0 < self@.len() && self@[id.0 as int] == ty@,
                None => !self@.contains(ty@),
            },
    {
        let mut i: usize = 0;
        while i < self.types.len()
            invariant
                0 <= i <= self.types@.len(),
                forall|j: int| 0 <= j < i ==> self@[j] != ty@,
                self@.len() == self.types@.len(),
                self.wf(),
            decreases self.types@.len() - i,
        {
            if type_eq(&self.types[i], ty) {
                assert(self@[i as int] == self.types@[i as int]@);
                return Some(TypeId(i as u32));
            }
            i += 1;
        }
        None
    }

    /// The id of `ty`: the existing one when the table already holds `ty`,
    /// otherwise a fresh id at the end of the table. A full table (one
    /// entry per possible id) takes no new type and answers `u32::MAX`.
    pub fn intern(&mut self, ty: &Type) -> (id: TypeId)
        requires
            old(self).wf(),
        ensures
            final(self).wf(),
            interned(old(self)@, final(self)@, ty@, id),
            old(self)@.contains(ty@) ==> final(self)@ == old(self)@ && id.0 < final(self)@.len()
                && final(self)@[id.0 as int] == ty@,
            !old(self)@.contains(ty@) && old(self)@.len() < u32::MAX ==> final(self)@ == old(self)@.push(ty@)
                && id.0 == old(self)@.len(),
            !old(self)@.contains(ty@) && old(self)@.len() >= u32::MAX ==> final(self)@ == old(self)@ && id.0
                == u32::MAX,
    {
        match self.lookup(ty) {
            Some(id) => id,
            None => {
                let n = self.types.len();
                if n >= 0xffff_ffffusize {
                    return TypeId(u32::MAX);
                }
                let c = ty.clone();
                self.types.push(c);
                proof {
                    assert(self@ == old(self)@.push(ty@));
                    assert forall|i: int, j: int|
                        0 <= i < self@.len() && 0 <= j < self@.len() && i != j
                        implies self@[i] != self@[j] by {
                        if i == n as int {
                            assert(old(self)@[j] == self@[j]);
                        } else if j == n as int {
                            assert(old(self)@[i] == self@[i]);
                        } else {
                            assert(old(self)@[i] == self@[i]);
                            assert(old(self)@[j] == self@[j]);
                        }
                    }
                }
                TypeId(n as u32)
            },
        }
    }

    /// Whether the table holds no type.
    pub fn is_empty(&self) -> (b: bool)
        ensures
            b == (self@.len() == 0),
    {
        self.types.len() == 0
    }

    /// The type stored under `id`, if `id` is in range.
    pub fn resolve(&self, id: TypeId) -> (r: Option<&Type>)
        ensures
            match r {
                Some(t) => id.0 < self@.len() && t@ == self@[id.0 as int],
                None => id.0 >= self@.len(),
            },
    {
        if (id.0 as usize) < self.types.len() {
            Some(&self.types[id.0 as usize])
        } else {
            None
        }
    }
}

/// Interning a type in a table that is not full, then reading its id
/// back, gives the type.
pub proof fn law_resolve_after_intern(before: Seq<TypeV>, after: Seq<TypeV>, id: TypeId, ty: TypeV)
    requires
        interned(before, after, ty, id),
        before.len() < u32::MAX,
    ensures
        id.0 < after.len(),
        after[id.0 as int] == ty,
{
}

/// Interning the same type twice gives one id and leaves the table as the
/// first interning left it.
pub proof fn law_intern_twice(t0: Seq<TypeV>, t1: Seq<TypeV>, t2: Seq<TypeV>, ty: TypeV, a: TypeId, b: TypeId)
    requires
        no_duplicates(t1),
        interned(t0, t1, ty, a),
        interned(t1, t2, ty, b),
    ensures
        a == b,
        t2 == t1,
{
    if !t0.contains(ty) && t0.len() < u32::MAX {
        assert(t1[t0.len() as int] == ty);
    }
}

/// Two types with the same id in one well-formed table are the same type:
/// interning is injective.
pub proof fn law_intern_injective(t: TypeTable, a: TypeId, b: TypeId)
    requires
        t.wf(),
        a.0 < t@.len(),
        b.0 < t@.len(),
        t@[a.0 as int] == t@[b.0 as int],
    ensures
        a == b,
{
}

/// The debug text of a type id: `TypeId(n)`.
pub open spec fn id_debug(t: TypeId) -> Seq<char> {
    "TypeId("@ + crate::text::dec_nat(t.0 as nat) + ")"@
}

/// The first `k` ids of `s`, in debug text, separated by `, `.
pub open spec fn ids_items(s: Seq<TypeId>, k: nat) -> Seq<char>
    decreases k,
{
    if k == 0 || k > s.len() {
        Seq::empty()
    } else {
        ids_items(s, (k - 1) as nat) + (if k > 1 { ", "@ } else { Seq::empty() }) + id_debug(s[k - 1])
    }
}

/// The debug text of a list of ids: `[TypeId(1), TypeId(2)]`.
pub open spec fn ids_debug(s: Seq<TypeId>) -> Seq<char> {
    "["@ + ids_items(s, s.len()) + "]"@
}

/// The debug text of an optional id: `Some(TypeId(n))` or `None`.
pub open spec fn opt_id_debug(o: Option<TypeId>) -> Seq<char> {
    match o {
        Some(t) => "Some("@ + id_debug(t) + ")"@,
        None => "None"@,
    }
}

/// The debug text of a type, as Rust's derived `Debug` writes it: the
/// variant's name, and its fields as `{ name: value, .. }`.
pub open spec fn type_debug_text(t: TypeV) -> Seq<char> {
    match t {
        TypeV::Void => "Void"@,
        TypeV::Bool => "Bool"@,
        TypeV::I8 => "I8"@,
        TypeV::I16 => "I16"@,
        TypeV::I32 => "I32"@,
        TypeV::I64 => "I64"@,
        TypeV::U8 => "U8"@,
        TypeV::U16 => "U16"@,
        TypeV::U32 => "U32"@,
        TypeV::U64 => "U64"@,
        TypeV::F32 => "F32"@,
        TypeV::F64 => "F64"@,
        TypeV::String => "String"@,
        TypeV::Null => "Null"@,
        TypeV::Never => "Never"@,
        TypeV::Error => "Error"@,
        TypeV::Array { element } => "Array { element: "@ + id_debug(element) + " }"@,
        TypeV::Optional { inner } => "Optional { inner: "@ + id_debug(inner) + " }"@,
        TypeV::Union { variants } => "Union { variants: "@ + ids_debug(variants) + " }"@,
        TypeV::Intersection { parts } => "Intersection { parts: "@ + ids_debug(parts) + " }"@,
        TypeV::Tuple { elements } => "Tuple { elements: "@ + ids_debug(elements) + " }"@,
        TypeV::Promise { ok, err } => "Promise { ok: "@ + id_debug(ok) + ", err: "@ + opt_id_debug(err) + " }"@,
        TypeV::WeakMap { key, value } => "WeakMap { key: "@ + id_debug(key) + ", value: "@ + id_debug(value) + " }"@,
        TypeV::Fn { params, ret, err } => "Fn { params: "@ + ids_debug(params) + ", ret: "@ + id_debug(ret) + ", err: "@
            + opt_id_debug(err) + " }"@,
        TypeV::GenericParam { id } => "GenericParam { id: GenericParamId("@ + crate::text::dec_nat(id.0 as nat)
            + ") }"@,
        TypeV::Struct { id } => "Struct { id: StructId("@ + crate::text::dec_nat(id.0 as nat) + ") }"@,
    }
}

/// Appends the debug text of a type id.
pub fn push_id_debug(s: &mut String, t: TypeId)
    ensures
        final(s)@ == old(s)@ + id_debug(t),
{
    crate::text::push_str(s, "TypeId(");
    crate::text::push_u32_dec(s, t.0);
    crate::text::push_str(s, ")");
    proof {
        assert(s@ =~= old(s)@ + id_debug(t));
    }
}

/// Appends the debug text of a list of ids.
pub fn push_ids_debug(s: &mut String, v: &Vec<TypeId>)
    ensures
        final(s)@ == old(s)@ + ids_debug(v@),
{
    crate::text::push_str(s, "[");
    let ghost s0 = s@;
    let mut i: usize = 0;
    while i < v.len()
        invariant
            0 <= i <= v@.len(),
            s@ == s0 + ids_items(v@, i as nat),
        decreases v@.len() - i,
    {
        if i > 0 {
            crate::text::push_str(s, ", ");
        }
        push_id_debug(s, v[i]);
        proof {
            assert(s@ =~= s0 + ids_items(v@, (i + 1) as nat));
        }
        i += 1;
    }
    crate::text::push_str(s, "]");
    proof {
        assert(s@ =~= old(s)@ + ids_debug(v@));
    }
}

/// Appends the debug text of an optional id.
pub fn push_opt_id_debug(s: &mut String, o: Option<TypeId>)
    ensures
        final(s)@ == old(s)@ + opt_id_debug(o),
{
    match o {
        Some(t) => {
            crate::text::push_str(s, "Some(");
            push_id_debug(s, t);
            crate::text::push_str(s, ")");
        },
        None => crate::text::push_str(s, "None"),
    }
    proof {
        assert(s@ =~= old(s)@ + opt_id_debug(o));
    }
}

/// Appends the debug text of a type, as the derived `Debug` writes it.
pub fn push_type_debug(s: &mut String, t: &Type)
    ensures
        final(s)@ == old(s)@ + type_debug_text(t@),
{
    let ghost s0 = s@;
    match t {
        Type::Void => crate::text::push_str(s, "Void"),
        Type::Bool => crate::text::push_str(s, "Bool"),
        Type::I8 => crate::text::push_str(s, "I8"),
        Type::I16 => crate::text::push_str(s, "I16"),
        Type::I32 => crate::text::push_str(s, "I32"),
        Type::I64 => crate::text::push_str(s, "I64"),
        Type::U8 => crate::text::push_str(s, "U8"),
        Type::U16 => crate::text::push_str(s, "U16"),
        Type::U32 => crate::text::push_str(s, "U32"),
        Type::U64 => crate::text::push_str(s, "U64"),
        Type::F32 => crate::text::push_str(s, "F32"),
        Type::F64 => crate::text::push_str(s, "F64"),
        Type::String => crate::text::push_str(s, "String"),
        Type::Null => crate::text::push_str(s, "Null"),
        Type::Never => crate::text::push_str(s, "Never"),
        Type::Error => crate::text::push_str(s, "Error"),
        Type::Array { element } => {
            crate::text::push_str(s, "Array { element: ");
            push_id_debug(s, *element);
            crate::text::push_str(s, " }");
        },
        Type::Optional { inner } => {
            crate::text::push_str(s, "Optional { inner: ");
            push_id_debug(s, *inner);
            crate::text::push_str(s, " }");
        },
        Type::Union { variants } => {
            crate::text::push_str(s, "Union { variants: ");
            push_ids_debug(s, variants);
            crate::text::push_str(s, " }");
        },
        Type::Intersection { parts } => {
            crate::text::push_str(s, "Intersection { parts: ");
            push_ids_debug(s, parts);
            crate::text::push_str(s, " }");
        },
        Type::Tuple { elements } => {
            crate::text::push_str(s, "Tuple { elements: ");
            push_ids_debug(s, elements);
            crate::text::push_str(s, " }");
        },
        Type::Promise { ok, err } => {
            crate::text::push_str(s, "Promise { ok: ");
            push_id_debug(s, *ok);
            crate::text::push_str(s, ", err: ");
            push_opt_id_debug(s, *err);
            crate::text::push_str(s, " }");
        },
        Type::WeakMap { key, value } => {
            crate::text::push_str(s, "WeakMap { key: ");
            push_id_debug(s, *key);
            crate::text::push_str(s, ", value: ");
            push_id_debug(s, *value);
            crate::text::push_str(s, " }");
        },
        Type::Fn { params, ret, err } => {
            crate::text::push_str(s, "Fn { params: ");
            push_ids_debug(s, params);
            crate::text::push_str(s, ", ret: ");
            push_id_debug(s, *ret);
            crate::text::push_str(s, ", err: ");
            push_opt_id_debug(s, *err);
            crate::text::push_str(s, " }");
        },
        Type::GenericParam { id } => {
            crate::text::push_str(s, "GenericParam { id: GenericParamId(");
            crate::text::push_u32_dec(s, id.0);
            crate::text::push_str(s, ") }");
        },
        Type::Struct { id } => {
            crate::text::push_str(s, "Struct { id: StructId(");
            crate::text::push_u32_dec(s, id.0);
            crate::text::push_str(s, ") }");
        },
    }
    proof {
        assert(s@ =~= s0 + type_debug_text(t@));
    }
}

} // verus!
