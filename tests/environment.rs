use starlark_env::{Environment, EnvironmentError, GcPass, ListRef, SetConstructor, Value};

fn frozen_err() -> Result<(), EnvironmentError> {
    Err(EnvironmentError::TryingToMutateFrozenEnvironment)
}

#[test]
fn freeze_twice_reports_no_change() {
    let mut e = Environment::new("m");
    e.set("x", Value::Int(1)).unwrap();
    assert!(e.freeze(true));
    assert_eq!(e.heap().passes.len(), 1);
    assert!(!e.freeze(true));
    assert!(!e.freeze(false));
    assert_eq!(e.heap().passes.len(), 1);
    assert_eq!(e.get("x"), Ok(Value::Int(1)));
    assert!(e.is_frozen());
}

#[test]
fn freeze_with_trace_records_full_pass_over_own_roots() {
    let mut src = Environment::new("src");
    src.set("v", Value::Int(1)).unwrap();
    src.set("l", Value::List(ListRef { id: 9, frozen: false })).unwrap();
    let mut e = Environment::new("m");
    e.set("a", Value::Int(1)).unwrap();
    e.set("b", Value::Str("s".to_string())).unwrap();
    e.set("c", Value::List(ListRef { id: 1, frozen: false })).unwrap();
    e.set("d", Value::List(ListRef { id: 2, frozen: false })).unwrap();
    e.import_symbol(&src, "v", "v").unwrap();
    e.import_symbol(&src, "l", "l").unwrap();
    assert!(e.freeze(true));
    assert_eq!(e.heap().passes, vec![GcPass::Full { roots: 2 }]);
}

#[test]
fn freeze_without_trace_records_weak_pass() {
    let mut e = Environment::new("m");
    assert!(e.freeze(false));
    assert_eq!(e.heap().passes, vec![GcPass::Weak]);
    assert_eq!(e.heap().name, "m");
}

#[test]
fn freeze_makes_bound_lists_immutable() {
    let mut e = Environment::new("m");
    let list = Value::List(ListRef { id: 3, frozen: false });
    assert!(!list.is_frozen());
    e.set("l", list).unwrap();
    e.freeze(false);
    let got = e.get("l").unwrap();
    assert_eq!(got, Value::List(ListRef { id: 3, frozen: true }));
    assert!(got.is_frozen());
}

#[test]
fn get_after_set_returns_value_and_rebinding_replaces() {
    let mut e = Environment::new("m");
    e.set("n", Value::Int(1)).unwrap();
    assert_eq!(e.get("n"), Ok(Value::Int(1)));
    e.set("n", Value::Str("two".to_string())).unwrap();
    assert_eq!(e.get("n"), Ok(Value::Str("two".to_string())));
    e.set("", Value::Bool(true)).unwrap();
    assert_eq!(e.get(""), Ok(Value::Bool(true)));
}

#[test]
fn set_on_frozen_fails() {
    let mut e = Environment::new("m");
    e.set("a", Value::Int(1)).unwrap();
    e.freeze(false);
    assert_eq!(e.set("a", Value::Int(2)), frozen_err());
    assert_eq!(e.set("b", Value::NoneValue), frozen_err());
    assert_eq!(e.get("a"), Ok(Value::Int(1)));
    assert_eq!(e.get("b"), Err(EnvironmentError::VariableNotFound("b".to_string())));
}

#[test]
fn lookup_through_scoping() {
    let mut p = Environment::new("p");
    p.set("x", Value::Int(1)).unwrap();
    let c = p.child("c");
    assert_eq!(c.get("x"), Ok(Value::Int(1)));
    assert_eq!(c.get("y"), Err(EnvironmentError::VariableNotFound("y".to_string())));
    assert_eq!(c.name(), "c");
    assert_eq!(c.get_parent().unwrap().name(), "p");
    assert!(p.get_parent().is_none());
}

#[test]
fn local_binding_shadows_outer_ones() {
    let mut g = Environment::new("g");
    g.set("x", Value::Int(1)).unwrap();
    g.set("z", Value::Int(9)).unwrap();
    let mut p = g.child("p");
    p.set("x", Value::Int(2)).unwrap();
    let mut c = p.child("c");
    assert_eq!(c.get("x"), Ok(Value::Int(2)));
    c.set("x", Value::Int(3)).unwrap();
    assert_eq!(c.get("x"), Ok(Value::Int(3)));
    assert_eq!(c.get("z"), Ok(Value::Int(9)));
    assert_eq!(p.get("x"), Ok(Value::Int(2)));
}

#[test]
fn child_freezes_parent() {
    let mut p = Environment::new("p");
    assert!(!p.is_frozen());
    let c = p.child("c");
    assert!(p.is_frozen());
    assert!(!c.is_frozen());
    assert_eq!(p.set("x", Value::Int(1)), frozen_err());
    assert_eq!(p.heap().passes, vec![GcPass::Full { roots: 0 }]);
    assert!(c.heap().passes.is_empty());
}

#[test]
fn import_of_private_symbol_fails() {
    let mut s = Environment::new("s");
    s.set("_x", Value::Int(1)).unwrap();
    s.set("", Value::Int(2)).unwrap();
    let mut d = Environment::new("d");
    assert_eq!(
        d.import_symbol(&s, "_x", "x"),
        Err(EnvironmentError::CannotImportPrivateSymbol("_x".to_string()))
    );
    assert_eq!(
        d.import_symbol(&s, "", "y"),
        Err(EnvironmentError::CannotImportPrivateSymbol("".to_string()))
    );
    assert!(d.dependencies().is_empty());
    assert!(d.get("x").is_err());
}

#[test]
fn import_takes_a_snapshot() {
    let mut s = Environment::new("s");
    s.set("v", Value::Int(1)).unwrap();
    let mut d = Environment::new("d");
    d.import_symbol(&s, "v", "v").unwrap();
    s.set("v", Value::Int(2)).unwrap();
    assert_eq!(d.get("v"), Ok(Value::Int(1)));
    assert_eq!(s.get("v"), Ok(Value::Int(2)));
}

#[test]
fn import_resolves_through_source_parents_and_renames() {
    let mut base = Environment::new("base");
    base.set("f", Value::Int(4)).unwrap();
    let s = base.child("s");
    let mut d = Environment::new("d");
    d.import_symbol(&s, "f", "g").unwrap();
    assert_eq!(d.get("g"), Ok(Value::Int(4)));
    assert!(d.get("f").is_err());
}

#[test]
fn import_of_missing_symbol_fails_but_records_source() {
    let s = Environment::new("s");
    let mut d = Environment::new("d");
    assert_eq!(
        d.import_symbol(&s, "nope", "n"),
        Err(EnvironmentError::VariableNotFound("nope".to_string()))
    );
    assert_eq!(d.dependencies(), vec!["s".to_string()]);
}

#[test]
fn import_into_frozen_fails() {
    let mut s = Environment::new("s");
    s.set("v", Value::Int(1)).unwrap();
    let mut d = Environment::new("d");
    d.freeze(false);
    assert_eq!(d.import_symbol(&s, "v", "v"), frozen_err());
    assert!(d.get("v").is_err());
}

#[test]
fn importing_twice_records_one_dependency() {
    let mut s = Environment::new("s");
    s.set("a", Value::Int(1)).unwrap();
    s.set("b", Value::Int(2)).unwrap();
    let mut t = Environment::new("t");
    t.set("c", Value::Int(3)).unwrap();
    let mut d = Environment::new("d");
    d.import_symbol(&s, "a", "a").unwrap();
    d.import_symbol(&s, "b", "b").unwrap();
    d.import_symbol(&t, "c", "c").unwrap();
    assert_eq!(d.dependencies(), vec!["s".to_string(), "t".to_string()]);
}

#[test]
fn roots_hold_only_own_bindings() {
    let x = ListRef { id: 1, frozen: false };
    let y = ListRef { id: 2, frozen: false };
    let mut s = Environment::new("s");
    s.set("v", Value::List(x)).unwrap();
    let mut d = Environment::new("d");
    d.import_symbol(&s, "v", "v").unwrap();
    d.set("w", Value::List(y)).unwrap();
    assert_eq!(d.roots(), vec![y]);
    assert!(Environment::new("e").roots().is_empty());
}

#[test]
fn rebinding_an_import_locally_makes_it_a_root() {
    let l = ListRef { id: 4, frozen: false };
    let mut s = Environment::new("s");
    s.set("v", Value::List(l)).unwrap();
    let mut d = Environment::new("d");
    d.import_symbol(&s, "v", "v").unwrap();
    assert!(d.roots().is_empty());
    d.set("v", Value::List(ListRef { id: 5, frozen: false })).unwrap();
    assert_eq!(d.roots(), vec![ListRef { id: 5, frozen: false }]);
}

#[test]
fn set_constructor_is_inherited() {
    let mut r = Environment::new("r");
    assert_eq!(r.with_set_constructor(SetConstructor { id: 7 }), Ok(()));
    let mut c = r.child("c");
    let call = c.make_set(vec![Value::Int(1), Value::Int(2)]).unwrap();
    assert_eq!(call.constructor, SetConstructor { id: 7 });
    assert_eq!(call.values, vec![Value::Int(1), Value::Int(2)]);
    c.with_set_constructor(SetConstructor { id: 8 }).unwrap();
    c.with_set_constructor(SetConstructor { id: 9 }).unwrap();
    assert_eq!(c.make_set(vec![]).unwrap().constructor, SetConstructor { id: 9 });
}

#[test]
fn make_set_without_constructor_is_unsupported() {
    let mut r = Environment::new("r");
    let c = r.child("c");
    assert_eq!(
        c.make_set(vec![Value::Int(1)]).unwrap_err(),
        EnvironmentError::UnsupportedOperation("set".to_string())
    );
}

#[test]
fn set_constructor_on_frozen_fails() {
    let mut r = Environment::new("r");
    r.freeze(false);
    assert_eq!(r.with_set_constructor(SetConstructor { id: 1 }), frozen_err());
    assert!(r.make_set(vec![]).is_err());
}

#[test]
fn scenario_root_set_get_freeze() {
    let mut r = Environment::new("root");
    assert_eq!(r.set("x", Value::Int(5)), Ok(()));
    assert_eq!(r.get("x"), Ok(Value::Int(5)));
    r.freeze(true);
    assert_eq!(r.set("y", Value::Int(6)), frozen_err());
    assert_eq!(r.name(), "root");
}

#[test]
fn scenario_import_helper() {
    let mut a = Environment::new("a");
    a.set("helper", Value::Int(10)).unwrap();
    let mut b = Environment::new("b");
    assert_eq!(b.import_symbol(&a, "helper", "helper"), Ok(()));
    assert_eq!(b.get("helper"), Ok(Value::Int(10)));
    assert_eq!(
        b.import_symbol(&a, "_priv", "p"),
        Err(EnvironmentError::CannotImportPrivateSymbol("_priv".to_string()))
    );
}

#[test]
fn sources_of_the_same_name_are_two_dependencies() {
    let mut m1 = Environment::new("m");
    m1.set("a", Value::Int(1)).unwrap();
    let mut m2 = Environment::new("m");
    m2.set("a", Value::Int(1)).unwrap();
    assert_ne!(m1.id(), m2.id());
    let mut d = Environment::new("d");
    d.import_symbol(&m1, "a", "a1").unwrap();
    d.import_symbol(&m2, "a", "a2").unwrap();
    d.import_symbol(&m1, "a", "a3").unwrap();
    assert_eq!(d.dependencies(), vec!["m".to_string(), "m".to_string()]);
}

#[test]
fn frozen_copy_in_child_keeps_identity() {
    let mut p = Environment::new("p");
    p.set("a", Value::Int(1)).unwrap();
    let c = p.child("c");
    assert_eq!(c.get_parent().unwrap().id(), p.id());
    assert_ne!(c.id(), p.id());
    let mut d = Environment::new("d");
    d.import_symbol(&p, "a", "a").unwrap();
    d.import_symbol(c.get_parent().unwrap(), "a", "b").unwrap();
    assert_eq!(d.dependencies(), vec!["p".to_string()]);
}

#[test]
fn immediates_give_no_root() {
    let mut e = Environment::new("e");
    e.set("i", Value::Int(1)).unwrap();
    e.set("b", Value::Bool(true)).unwrap();
    e.set("n", Value::NoneValue).unwrap();
    e.set("s", Value::Str("x".to_string())).unwrap();
    assert!(e.roots().is_empty());
    assert_eq!(Value::Int(1).gc_head(), None);
    let l = ListRef { id: 8, frozen: false };
    assert_eq!(Value::List(l).gc_head(), Some(l));
    e.set("l", Value::List(l)).unwrap();
    assert_eq!(e.roots(), vec![l]);
    e.freeze(true);
    assert_eq!(e.heap().passes, vec![GcPass::Full { roots: 1 }]);
}
