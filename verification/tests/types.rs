use ts_aot::base::{DiagnosticBag, GenericParamId, StructId, TypeId};
use ts_aot::frontend::resolve::{resolve_simple_type, type_from_ident, TypeParamMap};
use ts_aot::types::{Type, TypeTable};

#[test]
fn interning_the_same_type_twice_gives_one_id() {
    let mut t = TypeTable::new();
    assert!(t.is_empty());
    let a = t.intern(&Type::I32);
    let b = t.intern(&Type::String);
    let c = t.intern(&Type::I32);
    assert_eq!(a, c);
    assert_ne!(a, b);
    assert_eq!(t.len(), 2);
    assert_eq!(t.resolve(a), Some(&Type::I32));
    assert_eq!(t.resolve(b), Some(&Type::String));
    assert_eq!(t.lookup(&Type::String), Some(b));
    assert_eq!(t.lookup(&Type::Bool), None);
}

#[test]
fn compound_types_are_interned_by_content() {
    let mut t = TypeTable::new();
    let i = t.intern(&Type::I32);
    let arr1 = t.intern(&Type::Array { element: i });
    let arr2 = t.intern(&Type::Array { element: i });
    assert_eq!(arr1, arr2);
    let u = t.intern(&Type::Union { variants: vec![i, arr1] });
    assert_eq!(t.resolve(u), Some(&Type::Union { variants: vec![i, arr1] }));
    assert_eq!(t.resolve(TypeId::from_raw(99)), None);
}

fn debug_text(t: &Type) -> String {
    let mut s = String::new();
    ts_aot::types::push_type_debug(&mut s, t);
    s
}

#[test]
fn type_debug_text_matches_the_derived_debug() {
    let samples = vec![
        Type::Void,
        Type::I64,
        Type::Error,
        Type::Array { element: TypeId::from_raw(3) },
        Type::Optional { inner: TypeId::from_raw(0) },
        Type::Union { variants: vec![TypeId::from_raw(1), TypeId::from_raw(22)] },
        Type::Tuple { elements: vec![] },
        Type::Promise { ok: TypeId::from_raw(4), err: None },
        Type::Promise { ok: TypeId::from_raw(4), err: Some(TypeId::from_raw(5)) },
        Type::WeakMap { key: TypeId::from_raw(7), value: TypeId::from_raw(8) },
        Type::Fn { params: vec![TypeId::from_raw(1)], ret: TypeId::from_raw(2), err: None },
        Type::GenericParam { id: GenericParamId::from_raw(9) },
        Type::Struct { id: StructId::from_raw(12) },
    ];
    for t in &samples {
        assert_eq!(debug_text(t), format!("{:?}", t));
    }
}

#[test]
fn type_debug_text_of_a_struct_type() {
    assert_eq!(debug_text(&Type::Struct { id: StructId::from_raw(12) }), "Struct { id: StructId(12) }");
}

#[test]
fn type_resolver_type_from_ident_maps_primitives() {
    assert_eq!(type_from_ident("i32"), Some(Type::I32));
    assert_eq!(type_from_ident("string"), Some(Type::String));
    assert_eq!(type_from_ident("bool"), Some(Type::Bool));
    assert_eq!(type_from_ident("boolean"), Some(Type::Bool));
    assert_eq!(type_from_ident("void"), Some(Type::Void));
    assert_eq!(type_from_ident("f64"), Some(Type::F64));
}

#[test]
fn type_resolver_type_from_ident_unknown_returns_none() {
    assert_eq!(type_from_ident("Promise"), None);
    assert_eq!(type_from_ident("MyClass"), None);
    assert_eq!(type_from_ident(""), None);
}

#[test]
fn type_resolver_type_param_map_binds_and_resolves() {
    let mut m = TypeParamMap::new();
    let ty = TypeId::from_raw(7);
    m.bind("T", ty);
    assert_eq!(m.get("T"), Some(ty));
    assert_eq!(m.get("U"), None);
    assert!(!m.is_empty());
}

#[test]
fn type_resolver_type_param_map_empty_by_default() {
    let m = TypeParamMap::default();
    assert!(m.is_empty());
    assert_eq!(m.get("anything"), None);
}

#[test]
fn type_resolver_resolve_simple_type_returns_none_for_none_input() {
    let mut types = TypeTable::new();
    let result = resolve_simple_type(None, &mut types, None, None, &mut DiagnosticBag::new(), false);
    assert!(result.is_none());
    assert!(types.is_empty());
}

#[test]
fn mod_type_from_ident_maps_primitives() {
    assert_eq!(type_from_ident("i32"), Some(Type::I32));
    assert_eq!(type_from_ident("string"), Some(Type::String));
    assert_eq!(type_from_ident("bool"), Some(Type::Bool));
    assert_eq!(type_from_ident("boolean"), Some(Type::Bool));
    assert_eq!(type_from_ident("void"), Some(Type::Void));
    assert_eq!(type_from_ident("f64"), Some(Type::F64));
}

#[test]
fn mod_type_from_ident_unknown_returns_none() {
    assert_eq!(type_from_ident("Promise"), None);
    assert_eq!(type_from_ident("MyClass"), None);
    assert_eq!(type_from_ident(""), None);
}

#[test]
fn mod_type_param_map_binds_and_resolves() {
    let mut m = TypeParamMap::new();
    let ty = TypeId::from_raw(7);
    m.bind("T", ty);
    assert_eq!(m.get("T"), Some(ty));
    assert_eq!(m.get("U"), None);
    assert!(!m.is_empty());
}

#[test]
fn mod_type_param_map_empty_by_default() {
    let m = TypeParamMap::default();
    assert!(m.is_empty());
    assert_eq!(m.get("anything"), None);
}

#[test]
fn mod_resolve_simple_type_returns_none_for_none_input() {
    let mut types = TypeTable::new();
    let result = resolve_simple_type(None, &mut types, None, None, &mut DiagnosticBag::new(), false);
    assert!(result.is_none());
    assert!(types.is_empty());
}

#[test]
fn a_table_the_library_builds_is_well_formed() {
    let mut t = TypeTable::new();
    assert!(t.is_wf());
    t.intern(&Type::I32);
    t.intern(&Type::String);
    t.intern(&Type::I32);
    assert!(t.is_wf());
    assert_eq!(t.len(), 2);
}
