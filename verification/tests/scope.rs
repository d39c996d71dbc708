use ts_aot::base::{LocalId, TypeId};
use ts_aot::frontend::resolve::TypeParamMap;
use ts_aot::frontend::scope::BodyScope;

#[test]
fn declared_names_are_found_with_fresh_ids() {
    let ty = TypeId::from_raw(1);
    let mut s = BodyScope::new(2);
    let a = s.declare("a", ty);
    let b = s.declare("b", ty);
    assert_eq!(a, LocalId::from_raw(2));
    assert_eq!(b, LocalId::from_raw(3));
    assert_eq!(s.lookup("a"), Some((a, ty)));
    assert_eq!(s.lookup("missing"), None);
}

#[test]
fn inner_frame_shadows_and_pop_restores() {
    let t1 = TypeId::from_raw(1);
    let t2 = TypeId::from_raw(2);
    let mut s = BodyScope::new(0);
    let outer = s.declare("x", t1);
    s.push();
    let inner = s.declare("x", t2);
    assert_ne!(outer, inner);
    assert_eq!(s.lookup("x"), Some((inner, t2)));
    s.pop();
    assert_eq!(s.lookup("x"), Some((outer, t1)));
}

#[test]
fn predeclared_name_gets_its_id_on_first_lookup_and_keeps_it() {
    let ty = TypeId::from_raw(5);
    let mut s = BodyScope::new(0);
    s.predeclare("f", ty);
    let first = s.lookup("f").expect("predeclared");
    let later = s.declare("f", ty);
    assert_eq!(first.0, later);
    let names = s.names();
    assert_eq!(names, vec!["f".to_string()]);
}

#[test]
fn type_param_map_binds_and_resolves() {
    let mut m = TypeParamMap::new();
    assert!(m.is_empty());
    let ty = TypeId::from_raw(7);
    m.bind("T", ty);
    assert_eq!(m.get("T"), Some(ty));
    assert_eq!(m.get("U"), None);
    assert!(!m.is_empty());
    m.bind("T", TypeId::from_raw(8));
    assert_eq!(m.get("T"), Some(TypeId::from_raw(8)));
}

#[test]
fn type_param_map_empty_by_default() {
    let m = TypeParamMap::default();
    assert!(m.is_empty());
    assert_eq!(m.get("anything"), None);
}

#[test]
fn type_param_map_iter_bindings_round_trips_bindings() {
    let mut m = TypeParamMap::new();
    let ty = TypeId::from_raw(42);
    m.bind("T", ty);
    let collected: std::collections::HashMap<String, TypeId> = m.iter_bindings().into_iter().collect();
    assert_eq!(collected.get("T"), Some(&ty));
}

#[test]
fn iter_bindings_gives_each_name_once_with_its_last_binding() {
    let mut m = TypeParamMap::new();
    m.bind("T", TypeId::from_raw(1));
    m.bind("U", TypeId::from_raw(2));
    m.bind("T", TypeId::from_raw(3));
    let mut got = m.iter_bindings();
    got.sort_by(|a, b| a.0.cmp(&b.0));
    assert_eq!(got, vec![("T".to_string(), TypeId::from_raw(3)), ("U".to_string(), TypeId::from_raw(2))]);
}

#[test]
fn ids_are_never_reused_after_a_frame_is_popped() {
    let ty = TypeId::from_raw(1);
    let mut s = BodyScope::new(1);
    let a = s.declare("a", ty);
    s.push();
    let b = s.declare("b", ty);
    s.pop();
    s.push();
    let c = s.declare("c", ty);
    s.pop();
    let d = s.declare("d", ty);
    let ids = [a, b, c, d];
    assert_eq!(ids, [LocalId::from_raw(1), LocalId::from_raw(2), LocalId::from_raw(3), LocalId::from_raw(4)]);
    assert_eq!(s.declare("a", ty), a);
}
