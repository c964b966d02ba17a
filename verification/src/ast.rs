//! The module syntax: untyped definitions as the parser hands them over,
//! and their typed counterparts as inference returns them.

use vstd::prelude::*;

use crate::span::Span;
use crate::tipo::Type;

verus! {

/// What a module is compiled as.
#[derive(Clone, Copy, Debug, PartialEq, Eq, Structural)]
pub enum ModuleKind {
    /// An ordinary library module.
    Lib,
    /// A module holding on-chain validators.
    Validator,
}

impl ModuleKind {
    /// Whether this module may hold validators.
    pub fn is_validator(&self) -> (r: bool)
        ensures
            r == (*self is Validator),
    {
        match self {
            ModuleKind::Validator => true,
            ModuleKind::Lib => false,
        }
    }
}

/// A syntactic type annotation, before it is turned into a type value.
#[derive(Debug)]
pub enum Annotation {
    /// A named type, possibly qualified and applied to arguments.
    Constructor { location: Span, module: Option<String>, name: String, arguments: Vec<Annotation> },
    /// A function type annotation.
    Fn { location: Span, arguments: Vec<Annotation>, ret: Box<Annotation> },
    /// A generic type variable named in the enclosing signature.
    Var { location: Span, name: String },
    /// A tuple annotation.
    Tuple { location: Span, elems: Vec<Annotation> },
    /// A pair annotation.
    Pair { location: Span, fst: Box<Annotation>, snd: Box<Annotation> },
}

/// An exact copy of an annotation.
pub fn clone_annotation(a: &Annotation) -> (r: Annotation)
    decreases *a, 0int,
{
    match a {
        Annotation::Constructor { location, module, name, arguments } => Annotation::Constructor {
            location: *location,
            module: match module {
                Some(m) => Some(m.clone()),
                None => None,
            },
            name: name.clone(),
            arguments: clone_annotations(arguments),
        },
        Annotation::Fn { location, arguments, ret } => Annotation::Fn {
            location: *location,
            arguments: clone_annotations(arguments),
            ret: Box::new(clone_annotation(ret)),
        },
        Annotation::Var { location, name } => Annotation::Var {
            location: *location,
            name: name.clone(),
        },
        Annotation::Tuple { location, elems } => Annotation::Tuple {
            location: *location,
            elems: clone_annotations(elems),
        },
        Annotation::Pair { location, fst, snd } => Annotation::Pair {
            location: *location,
            fst: Box::new(clone_annotation(fst)),
            snd: Box::new(clone_annotation(snd)),
        },
    }
}

/// Exact copies of a vector of annotations.
pub fn clone_annotations(v: &Vec<Annotation>) -> (r: Vec<Annotation>)
    ensures
        r@.len() == v@.len(),
    decreases v@, 1int,
{
    let mut r: Vec<Annotation> = Vec::new();
    let mut i: usize = 0;
    while i < v.len()
        invariant
            0 <= i <= v@.len(),
            r@.len() == i,
        decreases v@.len() - i,
    {
        let c = clone_annotation(&v[i]);
        r.push(c);
        i = i + 1;
    }
    r
}

impl Clone for Annotation {
    /// An exact copy.
    fn clone(&self) -> (r: Self) {
        clone_annotation(self)
    }
}

impl Annotation {
    /// The source location of the annotation.
    pub fn location(&self) -> (s: Span)
        ensures
            self matches Annotation::Constructor { location, .. } ==> s == location,
            self matches Annotation::Fn { location, .. } ==> s == location,
            self matches Annotation::Var { location, .. } ==> s == location,
            self matches Annotation::Tuple { location, .. } ==> s == location,
            self matches Annotation::Pair { location, .. } ==> s == location,
    {
        match self {
            Annotation::Constructor { location, .. } => *location,
            Annotation::Fn { location, .. } => *location,
            Annotation::Var { location, .. } => *location,
            Annotation::Tuple { location, .. } => *location,
            Annotation::Pair { location, .. } => *location,
        }
    }
}

/// How a function argument is named.
#[derive(Debug)]
pub enum ArgName {
    /// A named argument, usable in the body.
    Named { location: Span, name: String },
    /// A discarded argument, never read.
    Discarded { location: Span, name: String },
}

impl Clone for ArgName {
    /// An exact copy.
    fn clone(&self) -> (r: Self)
        ensures
            r == *self,
    {
        match self {
            ArgName::Named { location, name } => ArgName::Named {
                location: *location,
                name: name.clone(),
            },
            ArgName::Discarded { location, name } => ArgName::Discarded {
                location: *location,
                name: name.clone(),
            },
        }
    }
}

/// An argument of an untyped function.
#[derive(Clone, Debug)]
pub struct UntypedArg {
    pub by: ArgName,
    pub location: Span,
    pub annotation: Option<Annotation>,
    /// Whether this argument is a validator's shared parameter.
    pub is_validator_param: bool,
}

/// An argument annotated with its inferred type.
#[derive(Debug)]
pub struct TypedArg {
    pub arg_name: ArgName,
    pub location: Span,
    pub annotation: Option<Annotation>,
    pub tipo: Type,
}

/// An untyped expression.
#[derive(Debug)]
pub enum UntypedExpr {
    /// A reference to a bound name.
    Var { location: Span, name: String },
    /// An integer literal.
    Int { location: Span, value: u64 },
    /// A call of a function expression on arguments.
    Call { location: Span, fun: Box<UntypedExpr>, arguments: Vec<UntypedExpr> },
}

/// An exact copy of an untyped expression.
pub fn clone_expr(e: &UntypedExpr) -> (r: UntypedExpr)
    decreases *e, 0int,
{
    match e {
        UntypedExpr::Var { location, name } => UntypedExpr::Var {
            location: *location,
            name: name.clone(),
        },
        UntypedExpr::Int { location, value } => UntypedExpr::Int {
            location: *location,
            value: *value,
        },
        UntypedExpr::Call { location, fun, arguments } => UntypedExpr::Call {
            location: *location,
            fun: Box::new(clone_expr(fun)),
            arguments: clone_exprs(arguments),
        },
    }
}

/// Exact copies of a vector of untyped expressions.
pub fn clone_exprs(v: &Vec<UntypedExpr>) -> (r: Vec<UntypedExpr>)
    ensures
        r@.len() == v@.len(),
    decreases v@, 1int,
{
    let mut r: Vec<UntypedExpr> = Vec::new();
    let mut i: usize = 0;
    while i < v.len()
        invariant
            0 <= i <= v@.len(),
            r@.len() == i,
        decreases v@.len() - i,
    {
        let c = clone_expr(&v[i]);
        r.push(c);
        i = i + 1;
    }
    r
}

impl Clone for UntypedExpr {
    /// An exact copy.
    fn clone(&self) -> (r: Self) {
        clone_expr(self)
    }
}

impl UntypedExpr {
    /// The source location of the expression.
    pub fn location(&self) -> (s: Span)
        ensures
            self matches UntypedExpr::Var { location, .. } ==> s == location,
            self matches UntypedExpr::Int { location, .. } ==> s == location,
            self matches UntypedExpr::Call { location, .. } ==> s == location,
    {
        match self {
            UntypedExpr::Var { location, .. } => *location,
            UntypedExpr::Int { location, .. } => *location,
            UntypedExpr::Call { location, .. } => *location,
        }
    }
}

/// An expression annotated with its inferred type.
#[derive(Debug)]
pub enum TypedExpr {
    Var { location: Span, name: String, tipo: Type },
    Int { location: Span, value: u64, tipo: Type },
    Call { location: Span, fun: Box<TypedExpr>, arguments: Vec<TypedExpr>, tipo: Type },
}

/// The type a typed expression was annotated with.
pub open spec fn texpr_ty(e: TypedExpr) -> crate::tipo::Ty {
    match e {
        TypedExpr::Var { tipo, .. } => tipo@,
        TypedExpr::Int { tipo, .. } => tipo@,
        TypedExpr::Call { tipo, .. } => tipo@,
    }
}

impl TypedExpr {
    /// The type this expression was annotated with.
    pub fn tipo(&self) -> (t: &Type)
        ensures
            t@ == texpr_ty(*self),
            self matches TypedExpr::Var { tipo, .. } ==> *t == tipo,
            self matches TypedExpr::Int { tipo, .. } ==> *t == tipo,
            self matches TypedExpr::Call { tipo, .. } ==> *t == tipo,
    {
        match self {
            TypedExpr::Var { tipo, .. } => tipo,
            TypedExpr::Int { tipo, .. } => tipo,
            TypedExpr::Call { tipo, .. } => tipo,
        }
    }
}

/// An untyped function definition, also the shape of a validator handler.
#[derive(Clone, Debug)]
pub struct UntypedFunction {
    pub location: Span,
    pub name: String,
    pub public: bool,
    pub arguments: Vec<UntypedArg>,
    pub body: UntypedExpr,
    pub return_annotation: Option<Annotation>,
    pub end_position: usize,
}

/// A function definition with every part typed.
#[derive(Debug)]
pub struct TypedFunction {
    pub location: Span,
    pub name: String,
    pub public: bool,
    pub arguments: Vec<TypedArg>,
    pub body: TypedExpr,
    pub return_annotation: Option<Annotation>,
    pub return_type: Type,
    pub end_position: usize,
}

/// A test or benchmark argument together with its generator expression.
#[derive(Clone, Debug)]
pub struct UntypedArgVia {
    pub arg: UntypedArg,
    pub via: UntypedExpr,
}

/// A typed test or benchmark argument with its typed generator.
#[derive(Debug)]
pub struct TypedArgVia {
    pub arg: TypedArg,
    pub via: TypedExpr,
}

/// An untyped test or benchmark definition.
#[derive(Clone, Debug)]
pub struct UntypedTest {
    pub location: Span,
    pub name: String,
    pub public: bool,
    pub arguments: Vec<UntypedArgVia>,
    pub body: UntypedExpr,
    pub return_annotation: Option<Annotation>,
    pub end_position: usize,
}

/// A typed test or benchmark definition.
#[derive(Debug)]
pub struct TypedTest {
    pub location: Span,
    pub name: String,
    pub public: bool,
    pub arguments: Vec<TypedArgVia>,
    pub body: TypedExpr,
    pub return_annotation: Option<Annotation>,
    pub return_type: Type,
    pub end_position: usize,
}

/// An untyped validator: shared parameters, named purpose handlers, and
/// one fallback handler.
#[derive(Clone, Debug)]
pub struct UntypedValidator {
    pub location: Span,
    pub name: String,
    pub params: Vec<UntypedArg>,
    pub handlers: Vec<UntypedFunction>,
    pub fallback: UntypedFunction,
    pub end_position: usize,
}

/// A typed validator.
#[derive(Debug)]
pub struct TypedValidator {
    pub location: Span,
    pub name: String,
    pub params: Vec<TypedArg>,
    pub handlers: Vec<TypedFunction>,
    pub fallback: TypedFunction,
    pub end_position: usize,
}

/// A decorator controls the on-chain encoding of a data type or of one of
/// its constructors.
#[derive(Clone, Copy, Debug, PartialEq, Eq, Structural)]
pub enum DecoratorKind {
    /// Pick the constructor's discriminant tag explicitly.
    Tag { value: u64 },
    /// Encode the record as a plain list of its fields.
    List,
}

/// A decorator with its source location.
#[derive(Clone, Copy, Debug, PartialEq, Eq, Structural)]
pub struct Decorator {
    pub location: Span,
    pub kind: DecoratorKind,
}

/// An untyped field of a record constructor.
#[derive(Clone, Debug)]
pub struct UntypedConstructorArg {
    pub label: Option<String>,
    pub annotation: Annotation,
    pub location: Span,
}

/// A typed field of a record constructor.
#[derive(Debug)]
pub struct TypedConstructorArg {
    pub label: Option<String>,
    pub annotation: Annotation,
    pub location: Span,
    pub tipo: Type,
}

/// An untyped constructor of a data type.
#[derive(Clone, Debug)]
pub struct UntypedRecordConstructor {
    pub location: Span,
    pub name: String,
    pub arguments: Vec<UntypedConstructorArg>,
    pub decorators: Vec<Decorator>,
}

/// A typed constructor of a data type.
#[derive(Debug)]
pub struct TypedRecordConstructor {
    pub location: Span,
    pub name: String,
    pub arguments: Vec<TypedConstructorArg>,
    pub decorators: Vec<Decorator>,
}

/// An untyped data type definition.
#[derive(Clone, Debug)]
pub struct UntypedDataType {
    pub location: Span,
    pub name: String,
    pub public: bool,
    pub opaque: bool,
    pub parameters: Vec<String>,
    pub constructors: Vec<UntypedRecordConstructor>,
    pub decorators: Vec<Decorator>,
}

/// A typed data type definition.
#[derive(Debug)]
pub struct TypedDataType {
    pub location: Span,
    pub name: String,
    pub public: bool,
    pub opaque: bool,
    pub parameters: Vec<String>,
    pub typed_parameters: Vec<Type>,
    pub constructors: Vec<TypedRecordConstructor>,
    pub decorators: Vec<Decorator>,
}

/// An untyped type alias definition.
#[derive(Clone, Debug)]
pub struct UntypedTypeAlias {
    pub location: Span,
    pub alias: String,
    pub public: bool,
    pub parameters: Vec<String>,
    pub annotation: Annotation,
}

/// A typed type alias definition.
#[derive(Debug)]
pub struct TypedTypeAlias {
    pub location: Span,
    pub alias: String,
    pub public: bool,
    pub parameters: Vec<String>,
    pub annotation: Annotation,
    pub tipo: Type,
}

/// One unqualified name brought in by an import.
#[derive(Clone, Debug)]
pub struct UnqualifiedImport {
    pub location: Span,
    pub name: String,
}

/// An untyped import of another module.
#[derive(Clone, Debug)]
pub struct UntypedUse {
    pub location: Span,
    pub module: String,
    pub unqualified: Vec<UnqualifiedImport>,
}

/// A typed import: the package it resolved into is filled in.
#[derive(Debug)]
pub struct TypedUse {
    pub location: Span,
    pub module: String,
    pub unqualified: Vec<UnqualifiedImport>,
    pub package: String,
}

/// An untyped module-level constant.
#[derive(Clone, Debug)]
pub struct UntypedModuleConstant {
    pub location: Span,
    pub name: String,
    pub public: bool,
    pub annotation: Option<Annotation>,
    pub value: UntypedExpr,
}

/// A typed module-level constant.
#[derive(Debug)]
pub struct TypedModuleConstant {
    pub location: Span,
    pub name: String,
    pub public: bool,
    pub annotation: Option<Annotation>,
    pub value: TypedExpr,
    pub tipo: Type,
}

/// One untyped top-level definition.
#[derive(Clone, Debug)]
pub enum UntypedDefinition {
    Fn(UntypedFunction),
    Validator(UntypedValidator),
    Test(UntypedTest),
    Benchmark(UntypedTest),
    TypeAlias(UntypedTypeAlias),
    DataType(UntypedDataType),
    Use(UntypedUse),
    ModuleConstant(UntypedModuleConstant),
}

/// One typed top-level definition.
#[derive(Debug)]
pub enum TypedDefinition {
    Fn(TypedFunction),
    Validator(TypedValidator),
    Test(TypedTest),
    Benchmark(TypedTest),
    TypeAlias(TypedTypeAlias),
    DataType(TypedDataType),
    Use(TypedUse),
    ModuleConstant(TypedModuleConstant),
}

/// An untyped module, as the parser hands it over.
#[derive(Clone, Debug)]
pub struct UntypedModule {
    pub name: String,
    pub definitions: Vec<UntypedDefinition>,
}

} // verus!

verus! {

/// Exact copies of a vector of untyped arguments.
pub fn clone_args(v: &Vec<UntypedArg>) -> (r: Vec<UntypedArg>)
    ensures
        r@.len() == v@.len(),
        forall|i: int|
            0 <= i < r@.len() ==> ((#[trigger] r@[i]).by == v@[i].by && r@[i].location
                == v@[i].location && r@[i].is_validator_param == v@[i].is_validator_param && (
            r@[i].annotation is Some <==> v@[i].annotation is Some)),
{
    let mut r: Vec<UntypedArg> = Vec::new();
    let mut i: usize = 0;
    while i < v.len()
        invariant
            0 <= i <= v@.len(),
            r@.len() == i,
            forall|j: int|
                0 <= j < i ==> ((#[trigger] r@[j]).by == v@[j].by && r@[j].location
                    == v@[j].location && r@[j].is_validator_param == v@[j].is_validator_param && (
                r@[j].annotation is Some <==> v@[j].annotation is Some)),
        decreases v@.len() - i,
    {
        let a = &v[i];
        let ann = match &a.annotation {
            Some(x) => Some(clone_annotation(x)),
            None => None,
        };
        r.push(
            UntypedArg {
                by: a.by.clone(),
                location: a.location,
                annotation: ann,
                is_validator_param: a.is_validator_param,
            },
        );
        i = i + 1;
    }
    r
}

/// The plain arguments underlying a vector of generator-backed
/// arguments.
pub fn via_args(v: &Vec<UntypedArgVia>) -> (r: Vec<UntypedArg>)
    ensures
        r@.len() == v@.len(),
        forall|i: int|
            0 <= i < r@.len() ==> ((#[trigger] r@[i]).by == v@[i].arg.by && r@[i].location
                == v@[i].arg.location && r@[i].is_validator_param
                == v@[i].arg.is_validator_param && (r@[i].annotation is Some <==> v@[i].arg.annotation
                is Some)),
{
    let mut r: Vec<UntypedArg> = Vec::new();
    let mut i: usize = 0;
    while i < v.len()
        invariant
            0 <= i <= v@.len(),
            r@.len() == i,
            forall|j: int|
                0 <= j < i ==> ((#[trigger] r@[j]).by == v@[j].arg.by && r@[j].location
                    == v@[j].arg.location && r@[j].is_validator_param
                    == v@[j].arg.is_validator_param && (r@[j].annotation is Some <==> v@[j].arg.annotation
                    is Some)),
        decreases v@.len() - i,
    {
        let a = &v[i].arg;
        let ann = match &a.annotation {
            Some(x) => Some(clone_annotation(x)),
            None => None,
        };
        r.push(
            UntypedArg {
                by: a.by.clone(),
                location: a.location,
                annotation: ann,
                is_validator_param: a.is_validator_param,
            },
        );
        i = i + 1;
    }
    r
}

} // verus!

verus! {

/// A fully typed module: the typed definitions and the public interface
/// downstream modules consume.
#[derive(Debug)]
pub struct TypedModule {
    pub name: String,
    pub kind: ModuleKind,
    pub definitions: Vec<TypedDefinition>,
    pub type_info: crate::environment::TypeInfo,
}

} // verus!
