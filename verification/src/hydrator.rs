//! The hydrator: translates the syntactic type annotations of one
//! definition into type values, keeping the generic names of that
//! signature mapped to one variable each.

use vstd::prelude::*;

use crate::ast::Annotation;
use crate::environment::{assoc_find, assoc_index_of, env_wf, same_module_state, Environment};
use crate::error::Error;
use crate::tipo::Type;

verus! {

/// One hydrator per definition being annotated: its table maps each
/// generic name seen in the signature to the variable minted for it, so
/// the name means the same type everywhere in that signature.
#[derive(Debug)]
pub struct Hydrator {
    pub created_type_variables: Vec<(String, usize)>,
}

impl Hydrator {
    /// A hydrator with no generic names seen yet.
    pub fn new() -> (r: Hydrator)
        ensures
            r.created_type_variables@.len() == 0,
    {
        Hydrator { created_type_variables: Vec::new() }
    }

    /// The variable standing for a generic name, minting it on first
    /// sight.
    pub fn type_variable(&mut self, name: &String, environment: &mut Environment) -> (r: Type)
        requires
            env_wf(*old(environment)),
        ensures
            env_wf(*final(environment)),
            same_module_state(*old(environment), *final(environment)),
            final(environment).scope == old(environment).scope,
            final(environment).warnings == old(environment).warnings,
            r@ is Var,
    {
        match assoc_find(&self.created_type_variables, name) {
            Some(i) => Type::Var { id: self.created_type_variables[i].1 },
            None => {
                let v = environment.subst.fresh();
                self.created_type_variables.push((name.clone(), v));
                Type::Var { id: v }
            },
        }
    }

    /// Translate an annotation into a type value: named types are
    /// resolved against the environment's registry and applied to their
    /// hydrated arguments, function, tuple and pair annotations are
    /// rebuilt structurally, and generic names become this signature's
    /// variables.
    pub fn type_from_annotation(&mut self, annotation: &Annotation, environment: &mut Environment)
        -> (r: Result<Type, Error>)
        requires
            env_wf(*old(environment)),
        ensures
            env_wf(*final(environment)),
            same_module_state(*old(environment), *final(environment)),
            final(environment).scope == old(environment).scope,
            final(environment).warnings == old(environment).warnings,
            r matches Err(ek) ==> crate::error::expression_level_error(ek),
            annotation matches Annotation::Var { .. } ==> r is Ok,
            annotation matches Annotation::Constructor { module: m0, name, arguments, .. } && m0
                is None && arguments@.len() == 0 && (assoc_index_of(
                old(environment).module_types@,
                name@,
            ) matches Some(ix) && old(environment).module_types@[ix].1.parameters@.len() == 0)
                ==> r is Ok,
            annotation matches Annotation::Constructor { module: m1, name: n1, .. } && m1 is None
                && assoc_index_of(old(environment).module_types@, n1@) is None ==> r is Err,
        decreases *annotation, 0int,
    {
        match annotation {
            Annotation::Constructor { location, module, name, arguments } => {
                let tc = match environment.get_type_constructor(module, name, *location) {
                    Ok(tc) => tc,
                    Err(e) => {
                        return Err(e);
                    },
                };
                if tc.parameters.len() != arguments.len() {
                    return Err(
                        Error::IncorrectTypeArity {
                            location: *location,
                            expected: tc.parameters.len(),
                            given: arguments.len(),
                        },
                    );
                }
                let args_t = match self.hydrate_all(arguments, environment) {
                    Ok(ts) => ts,
                    Err(e) => {
                        return Err(e);
                    },
                };
                let mut memo: Vec<(usize, usize)> = Vec::new();
                let result = environment.instantiate_shared(&tc.tipo, &mut memo);
                let n = arguments.len();
                let mut i: usize = 0;
                while i < n
                    invariant
                        env_wf(*environment),
                        same_module_state(*old(environment), *environment),
                        environment.scope == old(environment).scope,
                        environment.warnings == old(environment).warnings,
                        forall|k: int|
                            0 <= k < memo@.len() ==> (((#[trigger] memo@[k]).1 as int)
                                < environment.subst@.len() && !(
                            environment.subst@[memo@[k].1 as int] is Generic)),
                        annotation is Constructor,
                        annotation->Constructor_arguments@.len() == n,
                        n == arguments@.len(),
                        n == tc.parameters@.len(),
                        n == args_t@.len(),
                        i <= n,
                    decreases n - i,
                {
                    let p = environment.instantiate_shared(&tc.parameters[i], &mut memo);
                    let loc = arguments[i].location();
                    match environment.unify(&p, &args_t[i], loc, false) {
                        Ok(()) => {},
                        Err(e) => {
                            return Err(e);
                        },
                    }
                    i = i + 1;
                }
                Ok(result)
            },
            Annotation::Fn { arguments, ret, .. } => {
                let args = match self.hydrate_all(arguments, environment) {
                    Ok(ts) => ts,
                    Err(e) => {
                        return Err(e);
                    },
                };
                let r = match self.type_from_annotation(ret, environment) {
                    Ok(r) => r,
                    Err(e) => {
                        return Err(e);
                    },
                };
                Ok(Type::Fn { args, ret: Box::new(r) })
            },
            Annotation::Var { name, .. } => Ok(self.type_variable(name, environment)),
            Annotation::Tuple { elems, .. } => {
                let ts = match self.hydrate_all(elems, environment) {
                    Ok(ts) => ts,
                    Err(e) => {
                        return Err(e);
                    },
                };
                Ok(Type::Tuple { elems: ts })
            },
            Annotation::Pair { fst, snd, .. } => {
                let f = match self.type_from_annotation(fst, environment) {
                    Ok(f) => f,
                    Err(e) => {
                        return Err(e);
                    },
                };
                let s = match self.type_from_annotation(snd, environment) {
                    Ok(s) => s,
                    Err(e) => {
                        return Err(e);
                    },
                };
                Ok(Type::Pair { fst: Box::new(f), snd: Box::new(s) })
            },
        }
    }

    /// Hydrate each annotation of a vector, in order.
    pub fn hydrate_all(&mut self, annotations: &Vec<Annotation>, environment: &mut Environment)
        -> (r: Result<Vec<Type>, Error>)
        requires
            env_wf(*old(environment)),
        ensures
            env_wf(*final(environment)),
            same_module_state(*old(environment), *final(environment)),
            final(environment).scope == old(environment).scope,
            final(environment).warnings == old(environment).warnings,
            r matches Ok(ts) ==> ts@.len() == annotations@.len(),
            annotations@.len() == 0 ==> r is Ok,
            r matches Err(ek) ==> crate::error::expression_level_error(ek),
        decreases annotations@, 1int,
    {
        let mut out: Vec<Type> = Vec::new();
        let n = annotations.len();
        let mut i: usize = 0;
        while i < n
            invariant
                env_wf(*environment),
                same_module_state(*old(environment), *environment),
                environment.scope == old(environment).scope,
                environment.warnings == old(environment).warnings,
                n == annotations@.len(),
                i <= n,
                out@.len() == i,
            decreases n - i,
        {
            let a = match self.type_from_annotation(&annotations[i], environment) {
                Ok(a) => a,
                Err(e) => {
                    return Err(e);
                },
            };
            out.push(a);
            i = i + 1;
        }
        Ok(out)
    }
}

} // verus!
