//! Inference over expressions and function bodies.

use vstd::prelude::*;

use crate::ast::{ArgName, TypedArg, TypedExpr, TypedFunction, UntypedExpr, UntypedFunction};
use crate::environment::{env_wf, Environment, EntityKind, ValueConstructorVariant};
use crate::error::{Error, UnifyErrorSituation};
use crate::span::Span;
use crate::subst::{app, lemma_app_idem};
use crate::tipo::{clone_type, clone_types, occ, Ty, Type};

verus! {

/// Infer one expression: literals type as themselves, a name resolves to
/// an instantiated copy of its binding's type, and a call matches its
/// function against a function type of the right arity and unifies each
/// argument.
pub fn infer_expr(environment: &mut Environment, expr: &UntypedExpr) -> (r: Result<
    TypedExpr,
    Error,
>)
    requires
        env_wf(*old(environment)),
    ensures
        env_wf(*final(environment)),
        final(environment).scope == old(environment).scope,
        final(environment).warnings == old(environment).warnings,
        expr matches UntypedExpr::Int { .. } ==> (r matches Ok(te) && crate::ast::texpr_ty(te)
            == crate::tipo::int_ty()),
        expr matches UntypedExpr::Var { name, .. } ==> (r is Ok
            <==> crate::environment::scope_index_of(old(environment).scope@, name@) is Some),
        expr matches UntypedExpr::Var { .. } && r is Err ==> (r matches Err(e) && e
            is UnknownVariable),
        r matches Err(ek) ==> crate::error::expression_level_error(ek),
        expr is Var ==> (forall|x: Ty| #[trigger] app(final(environment).subst@, x) == app(
            old(environment).subst@,
            x,
        )),
        expr is Var && crate::environment::scope_index_of(
            old(environment).scope@,
            expr->Var_name@,
        ) is Some && (forall|vv: nat|
            #[trigger] occ(
                vv,
                app(
                    old(environment).subst@,
                    old(environment).scope@[crate::environment::scope_index_of(
                        old(environment).scope@,
                        expr->Var_name@,
                    )->0].1.tipo@,
                ),
            ) ==> !((vv as int) < old(environment).subst@.len() && old(
                environment,
            ).subst@[vv as int] is Generic)) ==> (r matches Ok(te) && crate::ast::texpr_ty(te)
            == app(
            old(environment).subst@,
            old(environment).scope@[crate::environment::scope_index_of(
                old(environment).scope@,
                expr->Var_name@,
            )->0].1.tipo@,
        )),
    decreases *expr, 0int,
{
    match expr {
        UntypedExpr::Int { location, value } => Ok(
            TypedExpr::Int { location: *location, value: *value, tipo: Type::integer() },
        ),
        UntypedExpr::Var { location, name } => {
            match environment.get_variable(name) {
                Some(vc) => {
                    let tipo = environment.instantiate(&vc.tipo);
                    Ok(TypedExpr::Var { location: *location, name: name.clone(), tipo })
                },
                None => Err(Error::UnknownVariable { location: *location, name: name.clone() }),
            }
        },
        UntypedExpr::Call { location, fun, arguments } => {
            let typed_fun = match infer_expr(environment, fun) {
                Ok(t) => t,
                Err(e) => {
                    return Err(e);
                },
            };
            let matched = match_fun_type(environment, typed_fun.tipo(), arguments.len(), *location);
            let (param_types, ret) = match matched {
                Ok(p) => p,
                Err(e) => {
                    return Err(e);
                },
            };
            let typed_args = match infer_call_args(environment, arguments, &param_types, *location)
             {
                Ok(ts) => ts,
                Err(e) => {
                    return Err(e);
                },
            };
            Ok(
                TypedExpr::Call {
                    location: *location,
                    fun: Box::new(typed_fun),
                    arguments: typed_args,
                    tipo: ret,
                },
            )
        },
    }
}

/// Infer each call argument and unify it with the parameter type it
/// lands in.
fn infer_call_args(
    environment: &mut Environment,
    arguments: &Vec<UntypedExpr>,
    param_types: &Vec<Type>,
    location: Span,
) -> (r: Result<Vec<TypedExpr>, Error>)
    requires
        env_wf(*old(environment)),
        param_types@.len() == arguments@.len(),
    ensures
        env_wf(*final(environment)),
        final(environment).scope == old(environment).scope,
        final(environment).warnings == old(environment).warnings,
        r matches Err(ek) ==> crate::error::expression_level_error(ek),
    decreases arguments@, 1int,
{
    let mut out: Vec<TypedExpr> = Vec::new();
    let n = arguments.len();
    let mut i: usize = 0;
    while i < n
        invariant
            env_wf(*environment),
            environment.scope == old(environment).scope,
            environment.warnings == old(environment).warnings,
            n == arguments@.len(),
            n == param_types@.len(),
            i <= n,
        decreases n - i,
    {
        let ta = match infer_expr(environment, &arguments[i]) {
            Ok(t) => t,
            Err(e) => {
                return Err(e);
            },
        };
        match environment.unify(&param_types[i], ta.tipo(), location, false) {
            Ok(()) => {},
            Err(e) => {
                return Err(e);
            },
        }
        out.push(ta);
        i = i + 1;
    }
    Ok(out)
}

/// Match a called value's type against a function type of the given
/// arity: a function type is decomposed, an unsolved variable is solved
/// as a fresh function type, anything else is rejected.
pub fn match_fun_type(
    environment: &mut Environment,
    tipo: &Type,
    arity: usize,
    location: Span,
) -> (r: Result<(Vec<Type>, Type), Error>)
    requires
        env_wf(*old(environment)),
    ensures
        env_wf(*final(environment)),
        final(environment).scope == old(environment).scope,
        final(environment).warnings == old(environment).warnings,
        r matches Err(ek) ==> crate::error::expression_level_error(ek),
        r matches Ok(p) ==> p.0@.len() == arity,
        app(old(environment).subst@, tipo@) is Fn && app(
            old(environment).subst@,
            tipo@,
        )->Fn_args.len() == arity ==> *final(environment) == *old(environment),
        app(old(environment).subst@, tipo@) is Fn && app(
            old(environment).subst@,
            tipo@,
        )->Fn_args.len() == arity ==> (r matches Ok(p) && crate::tipo::tys_of(p.0@) == app(
            old(environment).subst@,
            tipo@,
        )->Fn_args && p.1@ == *app(old(environment).subst@, tipo@)->Fn_ret),
{
    let t2 = environment.subst.apply(tipo);
    match &t2 {
        Type::Fn { args, ret } => {
            proof {
                crate::tipo::lemma_tys_of(args@);
            }
            if args.len() == arity {
                let params = clone_types(args);
                let rr = clone_type(ret);
                proof {
                    crate::tipo::lemma_tys_of(params@);
                    crate::tipo::lemma_tys_of(args@);
                    assert(crate::tipo::tys_of(params@) =~= crate::tipo::tys_of(args@));
                }
                Ok((params, rr))
            } else {
                Err(Error::IncorrectFieldsArity { location, expected: args.len(), given: arity })
            }
        },
        Type::Var { id } => {
            if environment.subst.entry_is_unbound(*id) {
                let mut params: Vec<Type> = Vec::new();
                let mut i: usize = 0;
                while i < arity
                    invariant
                        env_wf(*environment),
                        environment.scope == old(environment).scope,
                        environment.warnings == old(environment).warnings,
                        i <= arity,
                        params@.len() == i,
                    decreases arity - i,
                {
                    let v = environment.new_unbound_var();
                    params.push(v);
                    i = i + 1;
                }
                let ret = environment.new_unbound_var();
                let fun_t = Type::Fn { args: clone_types(&params), ret: Box::new(clone_type(&ret)) };
                match environment.unify(&t2, &fun_t, location, false) {
                    Ok(()) => Ok((params, ret)),
                    Err(e) => Err(e),
                }
            } else {
                Err(Error::NotFn { location, tipo: t2 })
            }
        },
        _ => Err(Error::NotFn { location, tipo: t2 }),
    }
}

/// Infer a function definition against its preregistered signature: the
/// parameters are bound in a fresh scope with the signature's argument
/// types, the body is inferred, and its type is unified with the
/// signature's return type. The scope closes on every path out.
pub fn infer_function(f: &UntypedFunction, environment: &mut Environment) -> (r: Result<
    TypedFunction,
    Error,
>)
    requires
        env_wf(*old(environment)),
    ensures
        env_wf(*final(environment)),
        r matches Ok(tf) ==> tf.name@ == f.name@ && tf.arguments@.len() == f.arguments@.len(),
        r matches Ok(tf) ==> crate::tipo::uni_eq(
            app(final(environment).subst@, tf.return_type@),
            app(final(environment).subst@, crate::ast::texpr_ty(tf.body)),
        ),
        r matches Err(ek) ==> crate::error::expression_level_error(ek),
{
    let mark = environment.open_new_scope();
    let result = infer_function_in_scope(f, environment);
    environment.close_scope(mark);
    result
}

/// The body of `infer_function`, run inside the scope its caller opened.
fn infer_function_in_scope(f: &UntypedFunction, environment: &mut Environment) -> (r: Result<
    TypedFunction,
    Error,
>)
    requires
        env_wf(*old(environment)),
    ensures
        env_wf(*final(environment)),
        r matches Ok(tf) ==> tf.name@ == f.name@ && tf.arguments@.len() == f.arguments@.len(),
        r matches Ok(tf) ==> crate::tipo::uni_eq(
            app(final(environment).subst@, tf.return_type@),
            app(final(environment).subst@, crate::ast::texpr_ty(tf.body)),
        ),
        r matches Err(ek) ==> crate::error::expression_level_error(ek),
{
    let pre = match environment.lookup_variable(&f.name) {
        Some(vc) => vc,
        None => {
            return Err(Error::UnknownVariable { location: f.location, name: f.name.clone() });
        },
    };
    let pre_t = environment.subst.apply(&pre.tipo);
    let decomposed = pre_t.function_types();
    let (arg_ts, ret_t): (Vec<Type>, Type) = match decomposed {
        Some((a, r)) => (clone_types(a), clone_type(r)),
        None => {
            return Err(Error::NotFn { location: f.location, tipo: pre_t });
        },
    };
    if arg_ts.len() != f.arguments.len() {
        return Err(
            Error::IncorrectFieldsArity {
                location: f.location,
                expected: arg_ts.len(),
                given: f.arguments.len(),
            },
        );
    }
    let n = f.arguments.len();
    let mut i: usize = 0;
    while i < n
        invariant
            env_wf(*environment),
            n == f.arguments@.len(),
            n == arg_ts@.len(),
            i <= n,
        decreases n - i,
    {
        match &f.arguments[i].by {
            ArgName::Named { name, location } => {
                environment.insert_variable(
                    name.clone(),
                    ValueConstructorVariant::LocalVariable { location: *location },
                    clone_type(&arg_ts[i]),
                );
                environment.init_usage(name.clone(), EntityKind::Variable, *location);
            },
            ArgName::Discarded { .. } => {},
        }
        i = i + 1;
    }
    let body = match infer_expr(environment, &f.body) {
        Ok(b) => b,
        Err(e) => {
            return Err(e);
        },
    };
    let ghost body_ty = crate::ast::texpr_ty(body);
    match environment.unify(&ret_t, body.tipo(), f.location, false) {
        Ok(()) => {},
        Err(e) => {
            return Err(e.with_unify_error_situation(UnifyErrorSituation::ReturnAnnotationMismatch));
        },
    }
    let ghost s_u = environment.subst@;
    proof {
        assert(crate::tipo::uni_eq(app(s_u, ret_t@), app(s_u, body_ty)));
    }
    let mut typed_args: Vec<TypedArg> = Vec::new();
    let mut j: usize = 0;
    while j < n
        invariant
            env_wf(*environment),
            environment.subst@ == s_u,
            crate::tipo::uni_eq(app(s_u, ret_t@), app(s_u, body_ty)),
            n == f.arguments@.len(),
            n == arg_ts@.len(),
            j <= n,
            typed_args@.len() == j,
        decreases n - j,
    {
        let a = &f.arguments[j];
        let ann = match &a.annotation {
            Some(x) => Some(crate::ast::clone_annotation(x)),
            None => None,
        };
        typed_args.push(
            TypedArg {
                arg_name: a.by.clone(),
                location: a.location,
                annotation: ann,
                tipo: environment.subst.apply(&arg_ts[j]),
            },
        );
        j = j + 1;
    }
    let return_type = environment.subst.apply(&ret_t);
    proof {
        lemma_app_idem(s_u, ret_t@);
    }
    let ret_ann = match &f.return_annotation {
        Some(x) => Some(crate::ast::clone_annotation(x)),
        None => None,
    };
    Ok(
        TypedFunction {
            location: f.location,
            name: f.name.clone(),
            public: f.public,
            arguments: typed_args,
            body,
            return_annotation: ret_ann,
            return_type,
            end_position: f.end_position,
        },
    )
}

} // verus!
