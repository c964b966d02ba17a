//! Validators, their handlers and fallback rule; tests and benchmarks
//! with their generators; decorator validation.

use tipo::ast::{
    Annotation, ArgName, Decorator, DecoratorKind, ModuleKind, TypedDefinition, TypedModule,
    UntypedArg, UntypedArgVia, UntypedDataType, UntypedDefinition, UntypedExpr, UntypedFunction,
    UntypedModule, UntypedRecordConstructor, UntypedTest, UntypedValidator,
};
use tipo::environment::TypeInfo;
use tipo::error::{Error, Warning};
use tipo::infer::default_fallback;
use tipo::span::Span;
use tipo::tipo::Type;

fn sp(n: usize) -> Span {
    Span { start: n, end: n + 1 }
}

fn s(x: &str) -> String {
    x.to_owned()
}

fn ann(name: &str) -> Annotation {
    Annotation::Constructor {
        location: sp(0),
        module: None,
        name: s(name),
        arguments: vec![],
    }
}

fn ann_app(name: &str, arguments: Vec<Annotation>) -> Annotation {
    Annotation::Constructor {
        location: sp(0),
        module: None,
        name: s(name),
        arguments,
    }
}

fn ann_tuple(elems: Vec<Annotation>) -> Annotation {
    Annotation::Tuple { location: sp(0), elems }
}

fn ann_fn(arguments: Vec<Annotation>, ret: Annotation) -> Annotation {
    Annotation::Fn { location: sp(0), arguments, ret: Box::new(ret) }
}

fn evar(name: &str) -> UntypedExpr {
    UntypedExpr::Var { location: sp(0), name: s(name) }
}

fn eint(value: u64) -> UntypedExpr {
    UntypedExpr::Int { location: sp(0), value }
}

fn ecall(fun: UntypedExpr, arguments: Vec<UntypedExpr>) -> UntypedExpr {
    UntypedExpr::Call { location: sp(0), fun: Box::new(fun), arguments }
}

fn arg_named(name: &str) -> UntypedArg {
    UntypedArg {
        by: ArgName::Named { location: sp(0), name: s(name) },
        location: sp(0),
        annotation: None,
        is_validator_param: false,
    }
}

fn arg_ann(name: &str, a: Annotation) -> UntypedArg {
    UntypedArg {
        by: ArgName::Named { location: sp(0), name: s(name) },
        location: sp(0),
        annotation: Some(a),
        is_validator_param: false,
    }
}

fn fun(
    name: &str,
    arguments: Vec<UntypedArg>,
    return_annotation: Option<Annotation>,
    body: UntypedExpr,
) -> UntypedFunction {
    UntypedFunction {
        location: sp(1),
        name: s(name),
        public: false,
        arguments,
        body,
        return_annotation,
        end_position: 2,
    }
}

fn module(name: &str, definitions: Vec<UntypedDefinition>) -> UntypedModule {
    UntypedModule { name: s(name), definitions }
}

fn infer_as(m: UntypedModule, kind: ModuleKind) -> Result<TypedModule, Error> {
    let modules: Vec<(String, TypeInfo)> = vec![];
    let mut warnings: Vec<Warning> = vec![];
    m.infer(kind, &s("pkg"), &modules, &mut warnings)
}

fn handler(name: &str, n_args: usize) -> UntypedFunction {
    let mut args = vec![];
    for i in 0..n_args {
        args.push(arg_named(&format!("x{}", i)));
    }
    fun(name, args, None, evar("True"))
}

fn spend_handler() -> UntypedFunction {
    let mut args = vec![arg_ann("datum", ann_app("Option", vec![ann("Data")]))];
    for i in 1..4 {
        args.push(arg_named(&format!("x{}", i)));
    }
    fun("spend", args, None, evar("True"))
}

fn all_purpose_handlers() -> Vec<UntypedFunction> {
    vec![
        handler("mint", 3),
        spend_handler(),
        handler("withdraw", 3),
        handler("publish", 3),
        handler("vote", 3),
        handler("propose", 3),
    ]
}

fn validator_def(handlers: Vec<UntypedFunction>, fallback: UntypedFunction) -> UntypedDefinition {
    UntypedDefinition::Validator(UntypedValidator {
        location: sp(1),
        name: s("main_v"),
        params: vec![],
        handlers,
        fallback,
        end_position: 9,
    })
}

#[test]
fn exhaustive_validator_with_custom_fallback_is_rejected() {
    let custom = fun("else", vec![arg_named("ctx")], None, evar("True"));
    let v = validator_def(all_purpose_handlers(), custom);
    let r = infer_as(module("m", vec![v]), ModuleKind::Validator);
    assert!(matches!(r, Err(Error::UnexpectedValidatorFallback { .. })));
}

#[test]
fn exhaustive_validator_with_default_fallback_succeeds() {
    let v = validator_def(all_purpose_handlers(), default_fallback(sp(4)));
    let r = infer_as(module("m", vec![v]), ModuleKind::Validator);
    assert!(r.is_ok());
}

#[test]
fn partial_validator_with_custom_fallback_is_accepted() {
    let custom = fun("else", vec![arg_named("ctx")], None, evar("True"));
    let v = validator_def(vec![handler("mint", 3)], custom);
    assert!(infer_as(module("m", vec![v]), ModuleKind::Validator).is_ok());
}

#[test]
fn handler_must_return_a_boolean() {
    let bad = fun("mint", vec![arg_named("a"), arg_named("b"), arg_named("c")], None, eint(1));
    let v = validator_def(vec![bad], default_fallback(sp(4)));
    let r = infer_as(module("m", vec![v]), ModuleKind::Validator);
    assert!(matches!(r, Err(Error::ValidatorMustReturnBool { .. })));
}

#[test]
fn unknown_purpose_name_is_rejected() {
    let bad = handler("frobnicate", 3);
    let v = validator_def(vec![bad], default_fallback(sp(4)));
    let r = infer_as(module("m", vec![v]), ModuleKind::Validator);
    match r {
        Err(Error::UnknownPurpose { available_purposes, .. }) => {
            assert_eq!(available_purposes.len(), 7);
            assert!(available_purposes.iter().any(|p| p == "spend"));
            assert!(available_purposes.iter().any(|p| p == "else"));
        }
        _ => panic!("expected an unknown purpose error"),
    }
}

#[test]
fn handler_arity_must_match_its_purpose() {
    let bad = handler("mint", 2);
    let v = validator_def(vec![bad], default_fallback(sp(4)));
    let r = infer_as(module("m", vec![v]), ModuleKind::Validator);
    match r {
        Err(Error::IncorrectValidatorArity { count, expected, .. }) => {
            assert_eq!(count, 2);
            assert_eq!(expected, 3);
        }
        _ => panic!("expected a validator arity error"),
    }
}

#[test]
fn spend_first_argument_must_be_optional() {
    let bad = handler("spend", 4);
    let v = validator_def(vec![bad], default_fallback(sp(4)));
    let r = infer_as(module("m", vec![v]), ModuleKind::Validator);
    match r {
        Err(Error::CouldNotUnify { expected, situation, .. }) => {
            // The report wraps the given type in the expected optional.
            assert!(matches!(expected, Type::App { name, .. } if name == "Option"));
            assert!(situation.is_none());
        }
        _ => panic!("expected a could-not-unify error"),
    }
}

#[test]
fn unannotated_handler_arguments_default_to_data() {
    let v = validator_def(vec![handler("mint", 3)], default_fallback(sp(4)));
    let m = infer_as(module("m", vec![v]), ModuleKind::Validator).expect("validator module");
    for d in m.definitions.iter() {
        if let TypedDefinition::Validator(tv) = d {
            for a in tv.handlers[0].arguments.iter() {
                assert!(matches!(&a.tipo, Type::App { name, .. } if name == "Data"));
            }
            return;
        }
    }
    panic!("validator definition missing");
}

#[test]
fn validators_are_dropped_outside_validator_modules() {
    let v = validator_def(vec![handler("mint", 3)], default_fallback(sp(4)));
    let m = infer_as(module("m", vec![v]), ModuleKind::Lib).expect("library module");
    assert!(m
        .definitions
        .iter()
        .all(|d| !matches!(d, TypedDefinition::Validator(_))));
}

fn int_generator() -> UntypedDefinition {
    // A generator of integers: a function from the pseudo-random state
    // to an optional pair of next state and value.
    UntypedDefinition::Fn(fun(
        "gen_int",
        vec![arg_ann("p", ann("PRNG"))],
        Some(ann_app(
            "Option",
            vec![ann_tuple(vec![ann("PRNG"), ann("Int")])],
        )),
        ecall(evar("gen_int"), vec![evar("p")]),
    ))
}

fn nested_generator() -> UntypedDefinition {
    UntypedDefinition::Fn(fun(
        "gen_nested",
        vec![arg_ann("p", ann("PRNG"))],
        Some(ann_app(
            "Option",
            vec![ann_tuple(vec![
                ann("PRNG"),
                ann_tuple(vec![ann("Int"), ann_tuple(vec![ann("Bool"), ann("Int")])]),
            ])],
        )),
        ecall(evar("gen_nested"), vec![evar("p")]),
    ))
}

fn generic_generator() -> UntypedDefinition {
    UntypedDefinition::Fn(fun(
        "gen_any",
        vec![arg_ann("p", ann("PRNG"))],
        Some(ann_app(
            "Option",
            vec![ann_tuple(vec![
                ann("PRNG"),
                Annotation::Var { location: sp(0), name: s("a") },
            ])],
        )),
        ecall(evar("gen_any"), vec![evar("p")]),
    ))
}

fn test_def(name: &str, via: UntypedExpr) -> UntypedDefinition {
    UntypedDefinition::Test(UntypedTest {
        location: sp(1),
        name: s(name),
        public: false,
        arguments: vec![UntypedArgVia { arg: arg_named("n"), via }],
        body: evar("True"),
        return_annotation: None,
        end_position: 2,
    })
}

#[test]
fn test_argument_type_comes_from_its_generator() {
    let m = infer_as(
        module("m", vec![int_generator(), test_def("prop", evar("gen_int"))]),
        ModuleKind::Lib,
    )
    .expect("test module");
    for d in m.definitions.iter() {
        if let TypedDefinition::Test(t) = d {
            assert!(matches!(&t.arguments[0].arg.tipo, Type::App { name, .. } if name == "Int"));
            return;
        }
    }
    panic!("test definition missing");
}

#[test]
fn concrete_nested_generator_is_accepted_exactly() {
    let m = infer_as(
        module("m", vec![nested_generator(), test_def("prop", evar("gen_nested"))]),
        ModuleKind::Lib,
    )
    .expect("nested generator module");
    for d in m.definitions.iter() {
        if let TypedDefinition::Test(t) = d {
            match &t.arguments[0].arg.tipo {
                Type::Tuple { elems } => {
                    assert!(matches!(&elems[0], Type::App { name, .. } if name == "Int"));
                    match &elems[1] {
                        Type::Tuple { elems: inner } => {
                            assert!(
                                matches!(&inner[0], Type::App { name, .. } if name == "Bool")
                            );
                            assert!(matches!(&inner[1], Type::App { name, .. } if name == "Int"));
                        }
                        _ => panic!("inner tuple missing"),
                    }
                }
                _ => panic!("argument is not the nested tuple"),
            }
            return;
        }
    }
    panic!("test definition missing");
}

#[test]
fn generator_of_unresolved_generic_is_rejected() {
    let r = infer_as(
        module("m", vec![generic_generator(), test_def("prop", evar("gen_any"))]),
        ModuleKind::Lib,
    );
    assert!(matches!(r, Err(Error::GenericLeftAtBoundary { .. })));
}

#[test]
fn fuzzer_annotation_mismatch_is_reported() {
    let mut t = UntypedTest {
        location: sp(1),
        name: s("prop"),
        public: false,
        arguments: vec![UntypedArgVia {
            arg: arg_ann("n", ann("Bool")),
            via: evar("gen_int"),
        }],
        body: evar("True"),
        return_annotation: None,
        end_position: 2,
    };
    t.arguments[0].arg.is_validator_param = false;
    let r = infer_as(
        module("m", vec![int_generator(), UntypedDefinition::Test(t)]),
        ModuleKind::Lib,
    );
    match r {
        Err(Error::CouldNotUnify { situation, .. }) => {
            assert!(matches!(
                situation,
                Some(tipo::error::UnifyErrorSituation::FuzzerAnnotationMismatch)
            ));
        }
        _ => panic!("expected an annotation mismatch"),
    }
}

#[test]
fn test_with_two_arguments_is_rejected() {
    let t = UntypedDefinition::Test(UntypedTest {
        location: sp(1),
        name: s("prop"),
        public: false,
        arguments: vec![
            UntypedArgVia { arg: arg_named("a"), via: evar("gen_int") },
            UntypedArgVia { arg: arg_named("b"), via: evar("gen_int") },
        ],
        body: evar("True"),
        return_annotation: None,
        end_position: 2,
    });
    let r = infer_as(module("m", vec![int_generator(), t]), ModuleKind::Lib);
    match r {
        Err(Error::IncorrectTestArity { count, .. }) => assert_eq!(count, 2),
        _ => panic!("expected a test arity error"),
    }
}

#[test]
fn test_body_must_be_boolean_or_void() {
    let t = UntypedDefinition::Test(UntypedTest {
        location: sp(1),
        name: s("prop"),
        public: false,
        arguments: vec![],
        body: eint(1),
        return_annotation: None,
        end_position: 2,
    });
    let r = infer_as(module("m", vec![t]), ModuleKind::Lib);
    assert!(matches!(r, Err(Error::IllegalTestType { .. })));
}

#[test]
fn benchmark_requires_exactly_one_argument() {
    let b = UntypedDefinition::Benchmark(UntypedTest {
        location: sp(1),
        name: s("bench"),
        public: false,
        arguments: vec![],
        body: evar("True"),
        return_annotation: None,
        end_position: 2,
    });
    let r = infer_as(module("m", vec![b]), ModuleKind::Lib);
    assert!(matches!(r, Err(Error::IncorrectBenchmarkArity { .. })));
}

#[test]
fn benchmark_argument_type_comes_from_its_sized_generator() {
    // A sized generator: a function from an integer size to a generator.
    let sized = UntypedDefinition::Fn(fun(
        "gen_sized",
        vec![arg_ann("n", ann("Int"))],
        Some(ann_fn(
            vec![ann("PRNG")],
            ann_app("Option", vec![ann_tuple(vec![ann("PRNG"), ann("Bool")])]),
        )),
        ecall(evar("gen_sized"), vec![evar("n")]),
    ));
    let b = UntypedDefinition::Benchmark(UntypedTest {
        location: sp(1),
        name: s("bench"),
        public: false,
        arguments: vec![UntypedArgVia { arg: arg_named("x"), via: evar("gen_sized") }],
        body: evar("True"),
        return_annotation: None,
        end_position: 2,
    });
    let m = infer_as(module("m", vec![sized, b]), ModuleKind::Lib).expect("benchmark module");
    for d in m.definitions.iter() {
        if let TypedDefinition::Benchmark(t) = d {
            assert!(matches!(&t.arguments[0].arg.tipo, Type::App { name, .. } if name == "Bool"));
            return;
        }
    }
    panic!("benchmark definition missing");
}

fn constructor(name: &str, decorators: Vec<Decorator>, location: Span) -> UntypedRecordConstructor {
    UntypedRecordConstructor { location, name: s(name), arguments: vec![], decorators }
}

fn tag(value: u64, location: Span) -> Decorator {
    Decorator { location, kind: DecoratorKind::Tag { value } }
}

#[test]
fn explicit_tag_colliding_with_an_index_is_rejected() {
    let d = UntypedDefinition::DataType(UntypedDataType {
        location: sp(5),
        name: s("E"),
        public: true,
        opaque: false,
        parameters: vec![],
        constructors: vec![
            constructor("C0", vec![tag(3, sp(10))], sp(20)),
            constructor("C1", vec![], sp(21)),
            constructor("C2", vec![], sp(22)),
            constructor("C3", vec![], sp(23)),
        ],
        decorators: vec![],
    });
    let r = infer_as(module("m", vec![d]), ModuleKind::Lib);
    match r {
        Err(Error::DecoratorTagOverlap { tag, first, second }) => {
            assert_eq!(tag, 3);
            assert_eq!(first, sp(10));
            assert_eq!(second, sp(23));
        }
        _ => panic!("expected a tag overlap"),
    }
}

#[test]
fn renumbering_the_tag_resolves_the_collision() {
    let d = UntypedDefinition::DataType(UntypedDataType {
        location: sp(5),
        name: s("E"),
        public: true,
        opaque: false,
        parameters: vec![],
        constructors: vec![
            constructor("C0", vec![tag(7, sp(10))], sp(20)),
            constructor("C1", vec![], sp(21)),
            constructor("C2", vec![], sp(22)),
            constructor("C3", vec![], sp(23)),
        ],
        decorators: vec![],
    });
    assert!(infer_as(module("m", vec![d]), ModuleKind::Lib).is_ok());
}

#[test]
fn two_decorators_on_one_constructor_conflict() {
    let d = UntypedDefinition::DataType(UntypedDataType {
        location: sp(5),
        name: s("E"),
        public: true,
        opaque: false,
        parameters: vec![],
        constructors: vec![constructor("C0", vec![tag(1, sp(10)), tag(2, sp(11))], sp(20))],
        decorators: vec![],
    });
    let r = infer_as(module("m", vec![d]), ModuleKind::Lib);
    match r {
        Err(Error::ConflictingDecorators { location, conflicting_location }) => {
            assert_eq!(location, sp(10));
            assert_eq!(conflicting_location, sp(11));
        }
        _ => panic!("expected conflicting decorators"),
    }
}

#[test]
fn list_decorator_is_not_allowed_on_an_enum() {
    let d = UntypedDefinition::DataType(UntypedDataType {
        location: sp(5),
        name: s("E"),
        public: true,
        opaque: false,
        parameters: vec![],
        constructors: vec![
            constructor("C0", vec![], sp(20)),
            constructor("C1", vec![], sp(21)),
        ],
        decorators: vec![Decorator { location: sp(9), kind: DecoratorKind::List }],
    });
    let r = infer_as(module("m", vec![d]), ModuleKind::Lib);
    assert!(matches!(r, Err(Error::DecoratorValidation { .. })));
}

#[test]
fn list_decorator_is_allowed_on_a_record() {
    let d = UntypedDefinition::DataType(UntypedDataType {
        location: sp(5),
        name: s("R"),
        public: true,
        opaque: false,
        parameters: vec![],
        constructors: vec![constructor("C0", vec![], sp(20))],
        decorators: vec![Decorator { location: sp(9), kind: DecoratorKind::List }],
    });
    assert!(infer_as(module("m", vec![d]), ModuleKind::Lib).is_ok());
}

fn validator_with_params(params: Vec<UntypedArg>) -> UntypedDefinition {
    UntypedDefinition::Validator(UntypedValidator {
        location: sp(1),
        name: s("main_v"),
        params,
        handlers: vec![handler("mint", 3)],
        fallback: default_fallback(sp(4)),
        end_position: 9,
    })
}

#[test]
fn shared_parameters_are_stripped_from_handlers() {
    let mut p = arg_ann("owner", ann("Int"));
    p.is_validator_param = true;
    let v = validator_with_params(vec![p]);
    let m = infer_as(module("m", vec![v]), ModuleKind::Validator).expect("validator with params");
    for d in m.definitions.iter() {
        if let TypedDefinition::Validator(tv) = d {
            assert_eq!(tv.params.len(), 1);
            assert_eq!(tv.handlers[0].arguments.len(), 3);
            return;
        }
    }
    panic!("validator definition missing");
}

#[test]
fn unused_validator_parameter_is_not_warned_about() {
    let mut p = arg_ann("owner", ann("Int"));
    p.is_validator_param = true;
    let v = validator_with_params(vec![p]);
    let modules: Vec<(String, TypeInfo)> = vec![];
    let mut warnings: Vec<Warning> = vec![];
    let r = module("m", vec![v]).infer(ModuleKind::Validator, &s("pkg"), &modules, &mut warnings);
    assert!(r.is_ok());
    assert!(!warnings
        .iter()
        .any(|w| matches!(w, Warning::UnusedVariable { name, .. } if name == "owner")));
}

#[test]
fn unused_local_variable_is_warned_about() {
    let f = UntypedDefinition::Fn(fun(
        "f",
        vec![arg_ann("x", ann("Int"))],
        Some(ann("Int")),
        eint(1),
    ));
    let modules: Vec<(String, TypeInfo)> = vec![];
    let mut warnings: Vec<Warning> = vec![];
    let r = module("m", vec![f]).infer(ModuleKind::Lib, &s("pkg"), &modules, &mut warnings);
    assert!(r.is_ok());
    assert!(warnings
        .iter()
        .any(|w| matches!(w, Warning::UnusedVariable { name, .. } if name == "x")));
}

#[test]
fn fallback_must_take_exactly_one_argument() {
    let wide = fun("else", vec![arg_named("a"), arg_named("b")], None, evar("True"));
    let v = validator_def(vec![handler("mint", 3)], wide);
    let r = infer_as(module("m", vec![v]), ModuleKind::Validator);
    match r {
        Err(Error::IncorrectValidatorArity { count, expected, .. }) => {
            assert_eq!(count, 2);
            assert_eq!(expected, 1);
        }
        _ => panic!("expected a fallback arity error"),
    }
}
