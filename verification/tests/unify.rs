//! Unification behaviour on concrete types and the occurs check.

use tipo::error::Error;
use tipo::span::Span;
use tipo::subst::Subst;
use tipo::tipo::Type;

fn sp() -> Span {
    Span { start: 0, end: 0 }
}

fn app_name(t: &Type) -> String {
    match t {
        Type::App { name, .. } => name.clone(),
        _ => panic!("not an application"),
    }
}

#[test]
fn unify_equal_concrete_types_succeeds() {
    let mut sub = Subst::new();
    let r = sub.unify(&Type::integer(), &Type::integer(), sp(), false);
    assert!(r.is_ok());
}

#[test]
fn unify_equal_nested_concrete_types_succeeds() {
    let mut sub = Subst::new();
    let a = Type::option(Type::fuzzer(Type::integer()));
    let b = Type::option(Type::fuzzer(Type::integer()));
    let r = sub.unify(&a, &b, sp(), false);
    assert!(r.is_ok());
}

#[test]
fn unify_different_concrete_types_fails() {
    let mut sub = Subst::new();
    let r = sub.unify(&Type::integer(), &Type::boolean(), sp(), false);
    match r {
        Err(Error::CouldNotUnify { expected, given, .. }) => {
            assert_eq!(app_name(&expected), "Int");
            assert_eq!(app_name(&given), "Bool");
        }
        _ => panic!("expected a unification error"),
    }
}

#[test]
fn unify_reports_inner_mismatch_in_call_order() {
    let mut sub = Subst::new();
    let a = Type::option(Type::integer());
    let b = Type::option(Type::boolean());
    let r = sub.unify(&a, &b, sp(), false);
    match r {
        Err(Error::CouldNotUnify { expected, given, .. }) => {
            // The reported pair is the mismatching subterm pair, first
            // component from the first argument.
            assert_eq!(app_name(&expected), "Int");
            assert_eq!(app_name(&given), "Bool");
        }
        _ => panic!("expected a unification error"),
    }
}

#[test]
fn unify_arity_mismatch_reports_outer_pair() {
    let mut sub = Subst::new();
    let a = Type::Fn {
        args: vec![Type::integer()],
        ret: Box::new(Type::integer()),
    };
    let b = Type::Fn {
        args: vec![Type::integer(), Type::integer()],
        ret: Box::new(Type::integer()),
    };
    let r = sub.unify(&a, &b, sp(), false);
    match r {
        Err(Error::CouldNotUnify { expected, given, .. }) => {
            assert!(matches!(expected, Type::Fn { .. }));
            assert!(matches!(given, Type::Fn { .. }));
        }
        _ => panic!("expected a unification error"),
    }
}

#[test]
fn unify_variable_links_to_concrete_type() {
    let mut sub = Subst::new();
    let v = sub.fresh();
    let var = Type::Var { id: v };
    let r = sub.unify(&var, &Type::integer(), sp(), false);
    assert!(r.is_ok());
    let resolved = sub.apply(&var);
    assert_eq!(app_name(&resolved), "Int");
}

#[test]
fn unify_links_transitively_through_variables() {
    let mut sub = Subst::new();
    let v = sub.fresh();
    let w = sub.fresh();
    let var_v = Type::Var { id: v };
    let var_w = Type::Var { id: w };
    assert!(sub.unify(&var_v, &var_w, sp(), false).is_ok());
    assert!(sub.unify(&var_w, &Type::boolean(), sp(), false).is_ok());
    let resolved = sub.apply(&var_v);
    assert_eq!(app_name(&resolved), "Bool");
}

#[test]
fn occurs_check_rejects_self_containing_type() {
    let mut sub = Subst::new();
    let v = sub.fresh();
    let var = Type::Var { id: v };
    let recursive = Type::option(Type::Var { id: v });
    let r = sub.unify(&var, &recursive, sp(), false);
    assert!(matches!(r, Err(Error::RecursiveType { .. })));
    // The variable's binding is untouched.
    assert!(sub.entry_is_unbound(v));
}

#[test]
fn occurs_check_leaves_table_unchanged() {
    let mut sub = Subst::new();
    let v = sub.fresh();
    let w = sub.fresh();
    let var = Type::Var { id: v };
    let nested = Type::Fn {
        args: vec![Type::Var { id: w }],
        ret: Box::new(Type::Var { id: v }),
    };
    let r = sub.unify(&var, &nested, sp(), false);
    assert!(matches!(r, Err(Error::RecursiveType { .. })));
    assert!(sub.entry_is_unbound(v));
    assert!(sub.entry_is_unbound(w));
}

#[test]
fn unify_same_variable_with_itself_succeeds() {
    let mut sub = Subst::new();
    let v = sub.fresh();
    let var = Type::Var { id: v };
    let same = Type::Var { id: v };
    assert!(sub.unify(&var, &same, sp(), false).is_ok());
    assert!(sub.entry_is_unbound(v));
}

#[test]
fn unify_concrete_types_mutates_nothing() {
    let mut sub = Subst::new();
    let v = sub.fresh();
    let r = sub.unify(&Type::integer(), &Type::boolean(), sp(), false);
    assert!(r.is_err());
    assert!(sub.entry_is_unbound(v));
}

#[test]
fn subsumption_accepts_data_on_either_side() {
    let mut sub = Subst::new();
    assert!(sub.unify(&Type::data(), &Type::integer(), sp(), true).is_ok());
    assert!(sub.unify(&Type::integer(), &Type::data(), sp(), true).is_ok());
    assert!(sub.unify(&Type::data(), &Type::integer(), sp(), false).is_err());
}

#[test]
fn tuple_and_pair_do_not_unify() {
    let mut sub = Subst::new();
    let tu = Type::Tuple {
        elems: vec![Type::integer(), Type::integer()],
    };
    let pa = Type::Pair {
        fst: Box::new(Type::integer()),
        snd: Box::new(Type::integer()),
    };
    assert!(sub.unify(&tu, &pa, sp(), false).is_err());
}
