//! Module inference: registration order, constants, data types,
//! imports, pruning and the privacy boundary.

use tipo::ast::{
    Annotation, ArgName, ModuleKind, TypedModule, UntypedArg, UntypedConstructorArg,
    UntypedDataType, UntypedDefinition, UntypedExpr, UntypedFunction, UntypedModule,
    UntypedModuleConstant, UntypedRecordConstructor, UntypedTypeAlias, UntypedUse,
    UnqualifiedImport,
};
use tipo::environment::{TypeInfo, ValueConstructor, ValueConstructorVariant};
use tipo::infer::retain_public_values;
use tipo::error::{Error, Warning};
use tipo::span::Span;
use tipo::tipo::Type;

fn sp(n: usize) -> Span {
    Span { start: n, end: n + 1 }
}

fn s(x: &str) -> String {
    x.to_owned()
}

fn ann(name: &str) -> Annotation {
    Annotation::Constructor {
        location: sp(0),
        module: None,
        name: s(name),
        arguments: vec![],
    }
}

fn ann_app(name: &str, arguments: Vec<Annotation>) -> Annotation {
    Annotation::Constructor {
        location: sp(0),
        module: None,
        name: s(name),
        arguments,
    }
}

fn evar(name: &str) -> UntypedExpr {
    UntypedExpr::Var { location: sp(0), name: s(name) }
}

fn eint(value: u64) -> UntypedExpr {
    UntypedExpr::Int { location: sp(0), value }
}

fn ecall(fun: UntypedExpr, arguments: Vec<UntypedExpr>) -> UntypedExpr {
    UntypedExpr::Call { location: sp(0), fun: Box::new(fun), arguments }
}

fn arg_named(name: &str) -> UntypedArg {
    UntypedArg {
        by: ArgName::Named { location: sp(0), name: s(name) },
        location: sp(0),
        annotation: None,
        is_validator_param: false,
    }
}

fn arg_ann(name: &str, a: Annotation) -> UntypedArg {
    UntypedArg {
        by: ArgName::Named { location: sp(0), name: s(name) },
        location: sp(0),
        annotation: Some(a),
        is_validator_param: false,
    }
}

fn fun(
    name: &str,
    public: bool,
    arguments: Vec<UntypedArg>,
    return_annotation: Option<Annotation>,
    body: UntypedExpr,
) -> UntypedFunction {
    UntypedFunction {
        location: sp(1),
        name: s(name),
        public,
        arguments,
        body,
        return_annotation,
        end_position: 2,
    }
}

fn module(name: &str, definitions: Vec<UntypedDefinition>) -> UntypedModule {
    UntypedModule { name: s(name), definitions }
}

fn infer_lib(m: UntypedModule) -> Result<TypedModule, Error> {
    let modules: Vec<(String, TypeInfo)> = vec![];
    let mut warnings: Vec<Warning> = vec![];
    m.infer(ModuleKind::Lib, &s("pkg"), &modules, &mut warnings)
}

fn value_type<'a>(m: &'a TypedModule, name: &str) -> &'a Type {
    for (k, v) in m.type_info.values.iter() {
        if k == name {
            return &v.tipo;
        }
    }
    panic!("value not exported");
}

fn is_int(t: &Type) -> bool {
    matches!(t, Type::App { name, .. } if name == "Int")
}

#[test]
fn forward_reference_resolves_in_either_order() {
    let a = UntypedDefinition::Fn(fun(
        "a",
        true,
        vec![],
        Some(ann("Int")),
        ecall(evar("b"), vec![]),
    ));
    let b = UntypedDefinition::Fn(fun("b", true, vec![], Some(ann("Int")), eint(1)));
    let m1 = infer_lib(module("m", vec![a.clone(), b.clone()])).expect("forward order");
    let m2 = infer_lib(module("m", vec![b, a])).expect("backward order");
    for m in [&m1, &m2] {
        match value_type(m, "a") {
            Type::Fn { args, ret } => {
                assert!(args.is_empty());
                assert!(is_int(ret));
            }
            _ => panic!("a is not a function"),
        }
        match value_type(m, "b") {
            Type::Fn { args, ret } => {
                assert!(args.is_empty());
                assert!(is_int(ret));
            }
            _ => panic!("b is not a function"),
        }
    }
}

#[test]
fn constant_is_usable_before_its_definition() {
    let use_it = UntypedDefinition::Fn(fun("u", true, vec![], Some(ann("Int")), evar("answer")));
    let konst = UntypedDefinition::ModuleConstant(UntypedModuleConstant {
        location: sp(3),
        name: s("answer"),
        public: true,
        annotation: Some(ann("Int")),
        value: eint(42),
    });
    let m = infer_lib(module("m", vec![use_it, konst])).expect("constant forward use");
    assert!(is_int(match value_type(&m, "answer") {
        t => t,
    }));
}

#[test]
fn return_annotation_mismatch_is_reported() {
    let f = UntypedDefinition::Fn(fun("f", true, vec![], Some(ann("Int")), evar("True")));
    let r = infer_lib(module("m", vec![f]));
    assert!(matches!(r, Err(Error::CouldNotUnify { .. })));
}

#[test]
fn unknown_variable_is_reported() {
    let f = UntypedDefinition::Fn(fun("f", true, vec![], None, evar("nope")));
    let r = infer_lib(module("m", vec![f]));
    match r {
        Err(Error::UnknownVariable { name, .. }) => assert_eq!(name, "nope"),
        _ => panic!("expected an unknown variable error"),
    }
}

#[test]
fn unknown_type_is_reported() {
    let f = UntypedDefinition::Fn(fun("f", true, vec![], Some(ann("Nope")), eint(0)));
    let r = infer_lib(module("m", vec![f]));
    match r {
        Err(Error::UnknownType { name, .. }) => assert_eq!(name, "Nope"),
        _ => panic!("expected an unknown type error"),
    }
}

#[test]
fn duplicate_function_names_are_rejected() {
    let f1 = UntypedDefinition::Fn(fun("f", true, vec![], None, eint(0)));
    let f2 = UntypedDefinition::Fn(fun("f", true, vec![], None, eint(1)));
    let r = infer_lib(module("m", vec![f1, f2]));
    assert!(matches!(r, Err(Error::DuplicateName { .. })));
}

#[test]
fn type_arity_mismatch_is_reported() {
    let f = UntypedDefinition::Fn(fun("f", true, vec![], Some(ann("Option")), eint(0)));
    let r = infer_lib(module("m", vec![f]));
    match r {
        Err(Error::IncorrectTypeArity { expected, given, .. }) => {
            assert_eq!(expected, 1);
            assert_eq!(given, 0);
        }
        _ => panic!("expected a type arity error"),
    }
}

#[test]
fn calling_a_non_function_is_rejected() {
    let f = UntypedDefinition::Fn(fun("f", true, vec![], None, ecall(eint(1), vec![])));
    let r = infer_lib(module("m", vec![f]));
    assert!(matches!(r, Err(Error::NotFn { .. })));
}

#[test]
fn call_arity_mismatch_is_rejected() {
    let g = UntypedDefinition::Fn(fun(
        "g",
        true,
        vec![arg_ann("x", ann("Int"))],
        Some(ann("Int")),
        evar("x"),
    ));
    let h = UntypedDefinition::Fn(fun("h", true, vec![], Some(ann("Int")), ecall(evar("g"), vec![])));
    let r = infer_lib(module("m", vec![g, h]));
    match r {
        Err(Error::IncorrectFieldsArity { expected, given, .. }) => {
            assert_eq!(expected, 1);
            assert_eq!(given, 0);
        }
        _ => panic!("expected a call arity error"),
    }
}

#[test]
fn private_entities_are_pruned_from_the_interface() {
    let pub_f = UntypedDefinition::Fn(fun("shown", true, vec![], Some(ann("Int")), eint(1)));
    let priv_f = UntypedDefinition::Fn(fun("hidden", false, vec![], Some(ann("Int")), eint(2)));
    let user = UntypedDefinition::Fn(fun(
        "user",
        true,
        vec![],
        Some(ann("Int")),
        ecall(evar("hidden"), vec![]),
    ));
    let m = infer_lib(module("m", vec![pub_f, priv_f, user])).expect("module with private fn");
    assert!(m.type_info.values.iter().any(|(k, _)| k == "shown"));
    assert!(m.type_info.values.iter().all(|(k, _)| k != "hidden"));
    for (_, v) in m.type_info.values.iter() {
        assert!(v.public);
    }
}

#[test]
fn public_function_leaking_private_type_is_rejected() {
    let secret = UntypedDefinition::DataType(UntypedDataType {
        location: sp(5),
        name: s("Secret"),
        public: false,
        opaque: false,
        parameters: vec![],
        constructors: vec![UntypedRecordConstructor {
            location: sp(6),
            name: s("MkSecret"),
            arguments: vec![],
            decorators: vec![],
        }],
        decorators: vec![],
    });
    let leak = UntypedDefinition::Fn(fun(
        "reveal",
        true,
        vec![],
        Some(ann("Secret")),
        evar("MkSecret"),
    ));
    let r = infer_lib(module("m", vec![secret, leak]));
    match r {
        Err(Error::PrivateTypeLeak { leaked, leaked_location, .. }) => {
            assert!(matches!(leaked, Type::App { name, .. } if name == "Secret"));
            assert_eq!(leaked_location, Some(sp(5)));
        }
        _ => panic!("expected a private type leak"),
    }
}

#[test]
fn making_the_type_public_removes_the_leak() {
    let open = UntypedDefinition::DataType(UntypedDataType {
        location: sp(5),
        name: s("Secret"),
        public: true,
        opaque: false,
        parameters: vec![],
        constructors: vec![UntypedRecordConstructor {
            location: sp(6),
            name: s("MkSecret"),
            arguments: vec![],
            decorators: vec![],
        }],
        decorators: vec![],
    });
    let leak = UntypedDefinition::Fn(fun(
        "reveal",
        true,
        vec![],
        Some(ann("Secret")),
        evar("MkSecret"),
    ));
    assert!(infer_lib(module("m", vec![open, leak])).is_ok());
}

#[test]
fn function_type_in_data_is_rejected() {
    let d = UntypedDefinition::DataType(UntypedDataType {
        location: sp(5),
        name: s("Holder"),
        public: true,
        opaque: false,
        parameters: vec![],
        constructors: vec![UntypedRecordConstructor {
            location: sp(6),
            name: s("MkHolder"),
            arguments: vec![UntypedConstructorArg {
                label: None,
                annotation: Annotation::Fn {
                    location: sp(7),
                    arguments: vec![ann("Int")],
                    ret: Box::new(ann("Int")),
                },
                location: sp(7),
            }],
            decorators: vec![],
        }],
        decorators: vec![],
    });
    let r = infer_lib(module("m", vec![d]));
    assert!(matches!(r, Err(Error::FunctionTypeInData { .. })));
}

#[test]
fn unresolved_computation_type_in_data_is_rejected() {
    let d = UntypedDefinition::DataType(UntypedDataType {
        location: sp(5),
        name: s("Holder"),
        public: true,
        opaque: false,
        parameters: vec![],
        constructors: vec![UntypedRecordConstructor {
            location: sp(6),
            name: s("MkHolder"),
            arguments: vec![UntypedConstructorArg {
                label: None,
                annotation: ann("MLResult"),
                location: sp(7),
            }],
            decorators: vec![],
        }],
        decorators: vec![],
    });
    let r = infer_lib(module("m", vec![d]));
    assert!(matches!(r, Err(Error::IllegalTypeInData { .. })));
}

#[test]
fn opaque_field_makes_owner_opaque() {
    let inner = UntypedDefinition::DataType(UntypedDataType {
        location: sp(5),
        name: s("Sealed"),
        public: true,
        opaque: true,
        parameters: vec![],
        constructors: vec![UntypedRecordConstructor {
            location: sp(6),
            name: s("MkSealed"),
            arguments: vec![],
            decorators: vec![],
        }],
        decorators: vec![],
    });
    let outer = UntypedDefinition::DataType(UntypedDataType {
        location: sp(8),
        name: s("Wrap"),
        public: true,
        opaque: false,
        parameters: vec![],
        constructors: vec![UntypedRecordConstructor {
            location: sp(9),
            name: s("MkWrap"),
            arguments: vec![UntypedConstructorArg {
                label: None,
                annotation: ann("Sealed"),
                location: sp(9),
            }],
            decorators: vec![],
        }],
        decorators: vec![],
    });
    let m = infer_lib(module("m", vec![inner, outer])).expect("opaque contagion");
    let wrap = m
        .type_info
        .types
        .iter()
        .find(|(k, _)| k == "Wrap")
        .expect("Wrap exported");
    assert!(matches!(&wrap.1.tipo, Type::App { opaque, .. } if *opaque));
}

#[test]
fn unknown_module_import_is_rejected() {
    let u = UntypedDefinition::Use(UntypedUse {
        location: sp(0),
        module: s("missing"),
        unqualified: vec![],
    });
    let r = infer_lib(module("m", vec![u]));
    match r {
        Err(Error::UnknownModule { name, .. }) => assert_eq!(name, "missing"),
        _ => panic!("expected an unknown module error"),
    }
}

#[test]
fn imported_value_is_usable() {
    let dep_fn = UntypedDefinition::Fn(fun("life", true, vec![], Some(ann("Int")), eint(42)));
    let dep = infer_lib(module("dep", vec![dep_fn])).expect("dependency module");
    let modules = vec![(s("dep"), dep.type_info)];
    let u = UntypedDefinition::Use(UntypedUse {
        location: sp(0),
        module: s("dep"),
        unqualified: vec![UnqualifiedImport { location: sp(0), name: s("life") }],
    });
    let go = UntypedDefinition::Fn(fun(
        "go",
        true,
        vec![],
        Some(ann("Int")),
        ecall(evar("life"), vec![]),
    ));
    let mut warnings: Vec<Warning> = vec![];
    let r = module("main", vec![u, go]).infer(ModuleKind::Lib, &s("pkg"), &modules, &mut warnings);
    assert!(r.is_ok());
}

#[test]
fn importing_a_name_the_module_lacks_is_rejected() {
    let dep = infer_lib(module("dep", vec![])).expect("empty dependency");
    let modules = vec![(s("dep"), dep.type_info)];
    let u = UntypedDefinition::Use(UntypedUse {
        location: sp(0),
        module: s("dep"),
        unqualified: vec![UnqualifiedImport { location: sp(0), name: s("nope") }],
    });
    let mut warnings: Vec<Warning> = vec![];
    let r = module("main", vec![u]).infer(ModuleKind::Lib, &s("pkg"), &modules, &mut warnings);
    assert!(matches!(r, Err(Error::UnknownModuleField { .. })));
}

#[test]
fn qualified_type_reference_resolves_through_import() {
    let dep_ty = UntypedDefinition::DataType(UntypedDataType {
        location: sp(5),
        name: s("T"),
        public: true,
        opaque: false,
        parameters: vec![],
        constructors: vec![UntypedRecordConstructor {
            location: sp(6),
            name: s("MkT"),
            arguments: vec![],
            decorators: vec![],
        }],
        decorators: vec![],
    });
    let dep = infer_lib(module("dep", vec![dep_ty])).expect("dependency module");
    let modules = vec![(s("dep"), dep.type_info)];
    let u = UntypedDefinition::Use(UntypedUse {
        location: sp(0),
        module: s("dep"),
        unqualified: vec![],
    });
    let qualified = Annotation::Constructor {
        location: sp(0),
        module: Some(s("dep")),
        name: s("T"),
        arguments: vec![],
    };
    let id_t = UntypedDefinition::Fn(fun(
        "id_t",
        true,
        vec![arg_ann("x", qualified.clone())],
        Some(qualified),
        evar("x"),
    ));
    let mut warnings: Vec<Warning> = vec![];
    let r = module("main", vec![u, id_t]).infer(ModuleKind::Lib, &s("pkg"), &modules, &mut warnings);
    assert!(r.is_ok());
}

#[test]
fn unused_private_function_is_warned_about() {
    let quiet = UntypedDefinition::Fn(fun("quiet", false, vec![], Some(ann("Int")), eint(1)));
    let modules: Vec<(String, TypeInfo)> = vec![];
    let mut warnings: Vec<Warning> = vec![];
    let r = module("m", vec![quiet]).infer(ModuleKind::Lib, &s("pkg"), &modules, &mut warnings);
    assert!(r.is_ok());
    assert!(warnings
        .iter()
        .any(|w| matches!(w, Warning::UnusedPrivateFunction { name, .. } if name == "quiet")));
}

#[test]
fn generic_constant_function_is_rejected_at_the_boundary() {
    let idf = UntypedDefinition::Fn(fun(
        "idf",
        true,
        vec![arg_ann("x", Annotation::Var { location: sp(0), name: s("a") })],
        Some(Annotation::Var { location: sp(0), name: s("a") }),
        evar("x"),
    ));
    let c = UntypedDefinition::ModuleConstant(UntypedModuleConstant {
        location: sp(3),
        name: s("alias_of_idf"),
        public: true,
        annotation: None,
        value: evar("idf"),
    });
    let r = infer_lib(module("m", vec![idf, c]));
    assert!(matches!(r, Err(Error::GenericLeftAtBoundary { .. })));
}

#[test]
fn type_alias_resolves_to_its_target() {
    let alias = UntypedDefinition::TypeAlias(UntypedTypeAlias {
        location: sp(2),
        alias: s("Number"),
        public: true,
        parameters: vec![],
        annotation: ann("Int"),
    });
    let f = UntypedDefinition::Fn(fun("f", true, vec![], Some(ann("Number")), eint(7)));
    let m = infer_lib(module("m", vec![alias, f])).expect("alias module");
    match value_type(&m, "f") {
        Type::Fn { ret, .. } => assert!(is_int(ret)),
        _ => panic!("f is not a function"),
    }
}

#[test]
fn generic_data_type_instantiates_per_use() {
    let boxy = UntypedDefinition::DataType(UntypedDataType {
        location: sp(5),
        name: s("Boxy"),
        public: true,
        opaque: false,
        parameters: vec![s("a")],
        constructors: vec![UntypedRecordConstructor {
            location: sp(6),
            name: s("MkBoxy"),
            arguments: vec![UntypedConstructorArg {
                label: None,
                annotation: Annotation::Var { location: sp(6), name: s("a") },
                location: sp(6),
            }],
            decorators: vec![],
        }],
        decorators: vec![],
    });
    let fi = UntypedDefinition::Fn(fun(
        "box_int",
        true,
        vec![],
        Some(ann_app("Boxy", vec![ann("Int")])),
        ecall(evar("MkBoxy"), vec![eint(1)]),
    ));
    let fb = UntypedDefinition::Fn(fun(
        "box_bool",
        true,
        vec![],
        Some(ann_app("Boxy", vec![ann("Bool")])),
        ecall(evar("MkBoxy"), vec![evar("True")]),
    ));
    assert!(infer_lib(module("m", vec![boxy, fi, fb])).is_ok());
}

#[test]
fn pruning_twice_keeps_the_same_interface() {
    let mk = |name: &str, public: bool| {
        (
            s(name),
            ValueConstructor {
                public,
                variant: ValueConstructorVariant::LocalVariable { location: sp(0) },
                tipo: Type::integer(),
            },
        )
    };
    let vals = vec![mk("a", true), mk("b", false), mk("c", true), mk("d", false)];
    let once = retain_public_values(vals);
    let keys: Vec<String> = once.iter().map(|(k, _)| k.clone()).collect();
    let twice = retain_public_values(once);
    let keys2: Vec<String> = twice.iter().map(|(k, _)| k.clone()).collect();
    assert_eq!(keys, vec![s("a"), s("c")]);
    assert_eq!(keys, keys2);
}

#[test]
fn imported_generic_function_instantiates_per_use() {
    let idf = UntypedDefinition::Fn(fun(
        "idf",
        true,
        vec![arg_ann("x", Annotation::Var { location: sp(0), name: s("a") })],
        Some(Annotation::Var { location: sp(0), name: s("a") }),
        evar("x"),
    ));
    let dep = infer_lib(module("dep", vec![idf])).expect("dependency module");
    let modules = vec![(s("dep"), dep.type_info)];
    let u = UntypedDefinition::Use(UntypedUse {
        location: sp(0),
        module: s("dep"),
        unqualified: vec![UnqualifiedImport { location: sp(0), name: s("idf") }],
    });
    let at_int = UntypedDefinition::Fn(fun(
        "at_int",
        true,
        vec![],
        Some(ann("Int")),
        ecall(evar("idf"), vec![eint(1)]),
    ));
    let at_bool = UntypedDefinition::Fn(fun(
        "at_bool",
        true,
        vec![],
        Some(ann("Bool")),
        ecall(evar("idf"), vec![evar("True")]),
    ));
    let mut warnings: Vec<Warning> = vec![];
    let r = module("main", vec![u, at_int, at_bool]).infer(
        ModuleKind::Lib,
        &s("pkg"),
        &modules,
        &mut warnings,
    );
    assert!(r.is_ok());
}

#[test]
fn generalised_signature_keeps_its_type_variable() {
    let idf = UntypedDefinition::Fn(fun(
        "idf",
        true,
        vec![arg_ann("x", Annotation::Var { location: sp(0), name: s("a") })],
        Some(Annotation::Var { location: sp(0), name: s("a") }),
        evar("x"),
    ));
    let m = infer_lib(module("m", vec![idf])).expect("generic module");
    match value_type(&m, "idf") {
        Type::Fn { args, ret } => match (&args[0], ret.as_ref()) {
            (Type::Var { id: a }, Type::Var { id: b }) => assert_eq!(a, b),
            _ => panic!("signature lost its type variable"),
        },
        _ => panic!("idf is not a function"),
    }
}
