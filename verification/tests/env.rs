use rlang::ast::LocalBindings;
use rlang::error::{ErrorKind, FileLocation};
use rlang::state::{Bindings, ChainMap, IDTracker};
use rlang::types::{Formula, FormulaSchema, Ident, InternalType, MetaType, MetaValue};

fn loc() -> FileLocation {
    FileLocation::new("env.rl", 1, 2)
}

#[test]
fn interning_mints_monotonic_ids() {
    let mut t = IDTracker::new();
    assert_eq!(t.get_id("alpha"), 0);
    assert_eq!(t.get_id("beta"), 1);
    assert_eq!(t.get_id("alpha"), 0);
    assert_eq!(t.get_id_nomake("beta"), Some(1));
    assert_eq!(t.get_id_nomake("gamma"), None);
    assert_eq!(t.get_name(&0).map(|s| s.as_str()), Some("alpha"));
    assert_eq!(t.get_name(&2), None);
}

#[test]
fn interning_reclaims_last_id_only() {
    let mut t = IDTracker::new();
    assert_eq!(t.get_id("alpha"), 0);
    assert_eq!(t.get_id("beta"), 1);
    t.remove(&1);
    assert_eq!(t.get_id_nomake("beta"), None);
    assert_eq!(t.get_id("gamma"), 1);
    assert_eq!(t.get_id("alpha"), 0);
}

#[test]
fn chain_map_shadows_and_restores() {
    let mut m: ChainMap<usize> = ChainMap::new();
    assert!(m.is_empty());
    assert_eq!(m.insert(1, 10), None);
    assert_eq!(m.get(&1), Some(&10));
    assert!(!m.is_empty());

    let mut child = m.new_child();
    // The child reads through to the parent...
    assert_eq!(child.get(&1), Some(&10));
    // ...but writes only to itself.
    assert_eq!(child.insert(1, 20), None);
    assert_eq!(child.get(&1), Some(&20));
    assert_eq!(child.insert(2, 30), None);

    let parent = child.parent().ok().unwrap();
    assert_eq!(parent.get(&1), Some(&10));
    assert_eq!(parent.get(&2), None);
}

#[test]
fn chain_map_base_has_no_parent() {
    let m: ChainMap<usize> = ChainMap::new();
    assert_eq!(m.parent().err(), Some("cannot take parent of base map"));
}

#[test]
fn chain_map_insert_returns_previous_value() {
    let mut m: ChainMap<usize> = ChainMap::new();
    assert_eq!(m.insert(5, 1), None);
    assert_eq!(m.insert(5, 2), Some(1));
    assert_eq!(m.get(&5), Some(&2));
}

#[test]
fn chain_map_is_empty_looks_through_all_levels() {
    let mut m: ChainMap<usize> = ChainMap::new();
    m.insert(1, 1);
    let child = m.new_child();
    assert!(!child.is_empty());
}

#[test]
fn bindings_mint_fresh_locals() {
    let mut g = Bindings::new();
    assert_eq!(g.new_local(), 0);
    assert_eq!(g.new_local(), 1);
    assert_eq!(g.new_local(), 2);
}

#[test]
fn duplicate_binding_is_reported() {
    let mut g = Bindings::new();
    let x = g.get_id("x");
    assert!(g.insert_object_noval(x, MetaType::Type, &loc()).is_ok());
    let err = g.insert_object_noval(x, MetaType::Type, &loc()).err().unwrap();
    match err.error {
        ErrorKind::BindingExists { name } => assert_eq!(name, "x"),
        other => panic!("unexpected error {:?}", other),
    }
    assert_eq!(err.location.line, 1);
    assert_eq!(err.location.col, 2);
}

#[test]
fn declare_then_define_goes_through_anytype() {
    let mut g = Bindings::new();
    let x = g.get_id("x");
    let o = g.get_id("o");
    assert!(g.insert_object_noval(o, MetaType::Type, &loc()).is_ok());

    // Defining an undeclared binding is refused...
    let itype = InternalType::Named(Ident::Global(o));
    let err = g
        .insert_object_anytype(x, MetaType::Type, MetaValue::Type(itype.clone()), &loc())
        .err();
    assert!(err.is_some());

    // ...but declaring first and then defining succeeds.
    let y = g.get_id("y");
    assert!(g.insert_object_noval(y, MetaType::Type, &loc()).is_ok());
    assert!(g
        .insert_object_anytype(y, MetaType::Type, MetaValue::Type(itype), &loc())
        .is_ok());
    assert!(g.get_value(&y).is_some());
}

#[test]
fn insert_object_stores_type_and_value() {
    let mut g = Bindings::new();
    let o = g.get_id("o");
    assert!(g.insert_object_noval(o, MetaType::Type, &loc()).is_ok());
    let a = g.get_id("a");
    let itype = InternalType::Named(Ident::Global(o));
    assert!(g
        .insert_object(a, MetaType::Term(itype), MetaValue::Formula(Formula::False), &loc())
        .is_ok());
    match g.get_type(&a) {
        Some(MetaType::Term(InternalType::Named(Ident::Global(id)))) => assert_eq!(id, o),
        other => panic!("unexpected type {:?}", other),
    }
    assert!(g.get_value(&a).is_some());
    let (mtype, mval) = g.get_type_value(&a).unwrap();
    assert!(matches!(mtype, MetaType::Term(_)));
    assert!(mval.is_some());
    assert!(g.get_type(&o).is_some());
    assert!(g.get_value(&o).is_none());
    let unknown = g.get_id("unknown");
    assert!(g.get_type(&unknown).is_none());
}

#[test]
fn theorems_are_recorded_once() {
    let mut g = Bindings::new();
    let t = g.get_id("thm");
    let stmt = FormulaSchema::Formula(Formula::False);
    assert!(g.insert_theorem(t, stmt, &loc()).is_ok());
    assert!(g.get_theorem(&t).is_some());
    let dup = FormulaSchema::Formula(Formula::False);
    let err = g.insert_theorem(t, dup, &loc()).err().unwrap();
    assert!(matches!(err.error, ErrorKind::BindingExists { .. }));
    let other = g.get_id("other");
    assert!(g.get_theorem(&other).is_none());
}

#[test]
fn nested_scopes_shadow_and_drop() {
    let mut g = Bindings::new();
    let x = g.get_id("x");
    assert!(g.insert_object_noval(x, MetaType::Type, &loc()).is_ok());

    let mut child = g.new_child();
    // The same id can be rebound in the nested scope.
    assert!(child
        .insert_object_noval(x, MetaType::Formula(Vec::new()), &loc())
        .is_ok());
    match child.get_type(&x) {
        Some(MetaType::Formula(args)) => assert_eq!(args.len(), 0),
        other => panic!("unexpected type {:?}", other),
    }

    // Interning is shared across scopes.
    let y = child.get_id("y");
    let back = child.parent();
    assert!(matches!(back.get_type(&x), Some(MetaType::Type)));
    assert_eq!(back.get_name(&y).map(|s| s.as_str()), Some("y"));
}

#[test]
fn local_bindings_pair_ids_both_ways() {
    let mut l = LocalBindings::new();
    assert!(l.is_empty());
    assert_eq!(l.insert(7, 0, MetaType::Type), 0);
    assert!(!l.is_empty());
    assert_eq!(l.get_local(&7), Some(0));
    assert_eq!(l.get_global(&0), Some(7));
    assert_eq!(l.get_local(&8), None);
    assert_eq!(l.get_global(&1), None);
    assert!(matches!(l.get_type(&0), MetaType::Type));

    let removed = l.remove(&0);
    assert!(matches!(removed, MetaType::Type));
    assert!(l.is_empty());
    assert_eq!(l.get_local(&7), None);
}
