//! Errors that abort inference of a module, and warnings that do not.

use vstd::prelude::*;

use crate::span::Span;
use crate::tipo::Type;

verus! {

/// Why a unification was attempted; attached to a `CouldNotUnify` error to
/// specialize its message. It never changes solving behaviour.
#[derive(Debug, Clone, Copy, PartialEq, Eq, Structural)]
pub enum UnifyErrorSituation {
    /// The declared return annotation must match the inferred return type.
    ReturnAnnotationMismatch,
    /// The annotation on a test or benchmark argument must match the type
    /// inferred from its generator.
    FuzzerAnnotationMismatch,
}

/// A hard error: inference of the module stops at the first one.
#[derive(Debug)]
pub enum Error {
    /// An import names a module that was not compiled before this one.
    UnknownModule { location: Span, name: String },
    /// A name was looked up and found in no reachable scope.
    UnknownVariable { location: Span, name: String },
    /// A type annotation names a type this module cannot see.
    UnknownType { location: Span, name: String },
    /// Two module-level definitions share one name.
    DuplicateName { location: Span, name: String },
    /// An import names a value or type its module does not export.
    UnknownModuleField { location: Span, name: String, module_name: String },
    /// Two structurally different types were required to be one.
    CouldNotUnify {
        location: Span,
        expected: Type,
        given: Type,
        situation: Option<UnifyErrorSituation>,
    },
    /// A unification variable would have to contain itself.
    RecursiveType { location: Span },
    /// A type annotation applies a type to the wrong number of arguments.
    IncorrectTypeArity { location: Span, expected: usize, given: usize },
    /// An expression calls a value with the wrong number of arguments.
    IncorrectFieldsArity { location: Span, expected: usize, given: usize },
    /// An expression that is not a function was called.
    NotFn { location: Span, tipo: Type },
    /// A validator handler must return a boolean.
    ValidatorMustReturnBool { location: Span, return_type: Type },
    /// A validator handler's name is none of the recognized purposes.
    UnknownPurpose { location: Span, available_purposes: Vec<String> },
    /// A validator handler takes the wrong number of arguments.
    IncorrectValidatorArity { location: Span, count: usize, expected: usize },
    /// A test takes more than one argument.
    IncorrectTestArity { location: Span, count: usize },
    /// A benchmark takes no or more than one argument.
    IncorrectBenchmarkArity { location: Span },
    /// A test must return a boolean or void.
    IllegalTestType { location: Span },
    /// A data-type field holds a function.
    FunctionTypeInData { location: Span },
    /// A data-type field holds the unresolved-computation type.
    IllegalTypeInData { location: Span, tipo: Type },
    /// A generic type variable survived to a public boundary.
    GenericLeftAtBoundary { location: Span },
    /// All purposes are handled, so a custom fallback is unreachable.
    UnexpectedValidatorFallback { fallback: Span },
    /// A decorator stands in a context it is not allowed in.
    DecoratorValidation { location: Span, message: String },
    /// Two decorators on one item contradict each other.
    ConflictingDecorators { location: Span, conflicting_location: Span },
    /// Two constructors of one data type carry the same discriminant tag.
    DecoratorTagOverlap { tag: u64, first: Span, second: Span },
    /// A public value's type mentions a private type.
    PrivateTypeLeak { location: Span, leaked_location: Option<Span>, leaked: Type },
}

impl Error {
    /// Attach a situation tag to a unification error; any other error is
    /// returned unchanged.
    pub fn with_unify_error_situation(self, situation: UnifyErrorSituation) -> (r: Error)
        ensures
            self matches Error::CouldNotUnify { location, expected, given, .. } ==> r
                == (Error::CouldNotUnify { location, expected, given, situation: Some(situation) }),
            !(self is CouldNotUnify) ==> r == self,
    {
        match self {
            Error::CouldNotUnify { location, expected, given, situation: _ } => {
                Error::CouldNotUnify { location, expected, given, situation: Some(situation) }
            },
            other => other,
        }
    }
}

/// The error kinds that checking an expression, an annotation or a
/// generator type can produce; definition-level structural errors (arity
/// of tests, benchmarks and validators, decorator and privacy rules) are
/// not among them.
pub open spec fn expression_level_error(e: Error) -> bool {
    ||| e is UnknownVariable
    ||| e is UnknownType
    ||| e is IncorrectTypeArity
    ||| e is IncorrectFieldsArity
    ||| e is NotFn
    ||| e is CouldNotUnify
    ||| e is RecursiveType
    ||| e is GenericLeftAtBoundary
    ||| e is IllegalTypeInData
}

/// A warning: reported, but never stops inference.
#[derive(Debug)]
pub enum Warning {
    /// A local variable was bound and never read.
    UnusedVariable { location: Span, name: String },
    /// An imported module was never referenced.
    UnusedImportedModule { location: Span, name: String },
    /// An imported value or type was never referenced.
    UnusedImportedValueOrType { location: Span, name: String },
    /// A private constant was never referenced.
    UnusedPrivateModuleConstant { location: Span, name: String },
    /// A private function was never referenced.
    UnusedPrivateFunction { location: Span, name: String },
    /// A private type was never referenced.
    UnusedType { location: Span, name: String },
}

} // verus!
