//! Per-definition inference and the module driver.

use vstd::prelude::*;
use vstd::string::StringExecFns;

use crate::ast::{Decorator, DecoratorKind, TypedDataType, TypedRecordConstructor, UntypedExpr,
    UntypedFunction};
use crate::environment::{env_wf, Environment};
use crate::error::Error;
use crate::span::Span;
use crate::subst::{app, lemma_lf_app, lemma_app_lf, wf};
use crate::tipo::{concrete, concrete_seq, lemma_concrete_seq, occ, tys_of, lemma_tys_of,
    uni_eq, uni_eq_seq, Ty, Type};

verus! {

/// Where a decorator stands: on a single-constructor record type, on a
/// multi-constructor enum type, or on one constructor.
#[derive(Clone, Copy, Debug, PartialEq, Eq, Structural)]
pub enum DecoratorContext {
    Record,
    Enum,
    Constructor,
}

impl DecoratorContext {
    /// The word naming this context in messages.
    pub fn text(&self) -> (r: String) {
        match self {
            DecoratorContext::Record => "record".to_owned(),
            DecoratorContext::Enum => "enum".to_owned(),
            DecoratorContext::Constructor => "constructor".to_owned(),
        }
    }
}

/// The contexts a decorator kind is allowed in.
pub open spec fn decorator_allowed(kind: DecoratorKind, context: DecoratorContext) -> bool {
    match kind {
        DecoratorKind::Tag { .. } => context is Record || context is Constructor,
        DecoratorKind::List => context is Record,
    }
}

/// Whether two decorator kinds contradict each other on one item. The
/// table is total: every pair of decorators on one item is a conflict,
/// two tags included.
pub open spec fn kinds_conflict(a: DecoratorKind, b: DecoratorKind) -> bool {
    match (a, b) {
        (DecoratorKind::Tag { .. }, DecoratorKind::List) => true,
        (DecoratorKind::Tag { .. }, DecoratorKind::Tag { .. }) => true,
        (DecoratorKind::List, DecoratorKind::Tag { .. }) => true,
        (DecoratorKind::List, DecoratorKind::List) => true,
    }
}

/// A decorator list is sound in a context: each decorator is allowed
/// there, and no two of them conflict.
pub open spec fn decorators_ok(ds: Seq<Decorator>, context: DecoratorContext) -> bool {
    &&& forall|i: int| 0 <= i < ds.len() ==> decorator_allowed(#[trigger] ds[i].kind, context)
    &&& forall|i: int, j: int|
        0 <= i < j < ds.len() ==> !kinds_conflict(ds[i].kind, ds[j].kind)
}

impl DecoratorKind {
    /// The contexts this decorator kind may appear in.
    pub fn allowed_contexts(&self) -> (r: Vec<DecoratorContext>)
        ensures
            forall|c: DecoratorContext| decorator_allowed(*self, c) <==> r@.contains(c),
            self is Tag ==> r@ == seq![DecoratorContext::Record, DecoratorContext::Constructor],
            self is List ==> r@ == seq![DecoratorContext::Record],
    {
        let mut r: Vec<DecoratorContext> = Vec::new();
        match self {
            DecoratorKind::Tag { .. } => {
                r.push(DecoratorContext::Record);
                r.push(DecoratorContext::Constructor);
            },
            DecoratorKind::List => {
                r.push(DecoratorContext::Record);
            },
        }
        proof {
            if self is Tag {
                assert(r@ =~= seq![DecoratorContext::Record, DecoratorContext::Constructor]);
            } else {
                assert(r@ =~= seq![DecoratorContext::Record]);
            }
            assert forall|c: DecoratorContext| decorator_allowed(*self, c) <==> r@.contains(
                c,
            ) by {
                if decorator_allowed(*self, c) {
                    match c {
                        DecoratorContext::Record => {
                            assert(r@[0] == c);
                        },
                        DecoratorContext::Constructor => {
                            assert(r@[1] == c);
                        },
                        DecoratorContext::Enum => {},
                    }
                }
            }
        }
        r
    }

    /// The type constraint of a decorator kind: permissive for every
    /// current kind.
    pub fn validate_type(&self, _context: &DecoratorContext, _tipo: &Type, _location: Span) -> (r:
        Result<(), Error>)
        ensures
            r is Ok,
    {
        match self {
            DecoratorKind::Tag { .. } => Ok(()),
            DecoratorKind::List => Ok(()),
        }
    }

    /// Whether this decorator kind contradicts another on the same item.
    pub fn conflicts_with(&self, other: &DecoratorKind) -> (r: bool)
        ensures
            r == kinds_conflict(*self, *other),
    {
        match (self, other) {
            (DecoratorKind::Tag { .. }, DecoratorKind::List) => true,
            (DecoratorKind::Tag { .. }, DecoratorKind::Tag { .. }) => true,
            (DecoratorKind::List, DecoratorKind::Tag { .. }) => true,
            (DecoratorKind::List, DecoratorKind::List) => true,
        }
    }
}

/// Check a decorator list against the context it stands in: succeeds
/// exactly when every decorator is allowed there and no two conflict.
pub fn validate_decorators_in_context(
    decorators: &Vec<Decorator>,
    context: DecoratorContext,
    tipo: Option<&Type>,
) -> (r: Result<(), Error>)
    ensures
        r is Ok <==> decorators_ok(decorators@, context),
        r matches Err(e) ==> (e is DecoratorValidation || e is ConflictingDecorators),
        (forall|i: int|
            0 <= i < decorators@.len() ==> decorator_allowed(
                (#[trigger] decorators@[i]).kind,
                context,
            )) ==> (r matches Err(e2) ==> e2 is ConflictingDecorators),
        (forall|i: int, j: int|
            0 <= i < j < decorators@.len() ==> !kinds_conflict(
                decorators@[i].kind,
                decorators@[j].kind,
            )) ==> (r matches Err(e3) ==> e3 is DecoratorValidation),
{
    let n = decorators.len();
    let mut i: usize = 0;
    while i < n
        invariant
            n == decorators@.len(),
            i <= n,
            forall|k: int| 0 <= k < i ==> decorator_allowed(#[trigger] decorators@[k].kind, context),
            forall|k: int, l: int|
                0 <= k < i && k < l < n ==> !kinds_conflict(
                    decorators@[k].kind,
                    decorators@[l].kind,
                ),
        decreases n - i,
    {
        let d1 = &decorators[i];
        let allowed = d1.kind.allowed_contexts();
        let mut found: bool = false;
        let mut a: usize = 0;
        while a < allowed.len()
            invariant
                found <==> exists|k: int| 0 <= k < a && allowed@[k] == context,
                a <= allowed@.len(),
            decreases allowed@.len() - a,
        {
            if allowed[a] == context {
                found = true;
                proof {
                    assert(allowed@[a as int] == context);
                }
            }
            a = a + 1;
        }
        if !found {
            proof {
                assert(!allowed@.contains(context));
                assert(!decorator_allowed(decorators@[i as int].kind, context));
            }
            let mut msg = "this decorator is not allowed in a ".to_owned();
            msg.append(context.text().as_str());
            msg.append(" context");
            return Err(Error::DecoratorValidation { location: d1.location, message: msg });
        }
        proof {
            assert(allowed@.contains(context));
        }
        if let Some(t) = tipo {
            match d1.kind.validate_type(&context, t, d1.location) {
                Ok(()) => {},
                Err(e) => {
                    return Err(e);
                },
            }
        }
        let mut j: usize = i + 1;
        while j < n
            invariant
                n == decorators@.len(),
                i < j || j == i + 1,
                i < n,
                j <= n,
                forall|l: int|
                    i < l < j ==> !kinds_conflict(
                        decorators@[i as int].kind,
                        #[trigger] decorators@[l].kind,
                    ),
            decreases n - j,
        {
            if decorators[i].kind.conflicts_with(&decorators[j].kind) {
                return Err(
                    Error::ConflictingDecorators {
                        location: decorators[i].location,
                        conflicting_location: decorators[j].location,
                    },
                );
            }
            j = j + 1;
        }
        i = i + 1;
    }
    Ok(())
}

/// The first explicit tag among a list of decorators, if any.
pub open spec fn first_tag(ds: Seq<Decorator>) -> Option<u64>
    decreases ds.len(),
{
    if ds.len() == 0 {
        None
    } else {
        match ds[0].kind {
            DecoratorKind::Tag { value } => Some(value),
            DecoratorKind::List => first_tag(ds.subrange(1, ds.len() as int)),
        }
    }
}

/// The effective discriminant tag of the constructor at position `ix`:
/// its explicit tag decorator if it carries one, else `ix` itself.
pub open spec fn eff_tag(c: TypedRecordConstructor, ix: int) -> int {
    match first_tag(c.decorators@) {
        Some(v) => v as int,
        None => ix,
    }
}

/// Find the first explicit tag decorator of a constructor.
fn first_tag_of(ds: &Vec<Decorator>) -> (r: Option<(u64, Span)>)
    ensures
        r is Some <==> first_tag(ds@) is Some,
        r matches Some(p) ==> first_tag(ds@) == Some(p.0),
{
    let n = ds.len();
    proof {
        assert(ds@.subrange(0, n as int) =~= ds@);
    }
    let mut i: usize = 0;
    while i < n
        invariant
            n == ds@.len(),
            i <= n,
            first_tag(ds@) == first_tag(ds@.subrange(i as int, n as int)),
        decreases n - i,
    {
        proof {
            assert(ds@.subrange(i as int, n as int)[0] == ds@[i as int]);
            assert(ds@.subrange(i as int, n as int).subrange(
                1,
                ds@.subrange(i as int, n as int).len() as int,
            ) =~= ds@.subrange(i + 1, n as int));
        }
        match &ds[i].kind {
            DecoratorKind::Tag { value } => {
                return Some((*value, ds[i].location));
            },
            DecoratorKind::List => {},
        }
        i = i + 1;
    }
    proof {
        assert(ds@.subrange(n as int, n as int) =~= Seq::<Decorator>::empty());
    }
    None
}

/// The decorator rules of one data type: the type-level decorators fit
/// the record or enum context, each constructor's fit the constructor
/// context, and the effective tags of all constructors are distinct.
pub open spec fn data_decorators_ok(d: TypedDataType) -> bool {
    &&& decorators_ok(
        d.decorators@,
        if d.constructors@.len() > 1 {
            DecoratorContext::Enum
        } else {
            DecoratorContext::Record
        },
    )
    &&& forall|k: int|
        0 <= k < d.constructors@.len() ==> decorators_ok(
            (#[trigger] d.constructors@[k]).decorators@,
            DecoratorContext::Constructor,
        )
    &&& forall|i: int, j: int|
        0 <= i < j < d.constructors@.len() ==> eff_tag(d.constructors@[i], i) != eff_tag(
            d.constructors@[j],
            j,
        )
}

impl TypedDataType {
    /// Check the decorators of a freshly typed data type: context rules
    /// for the type and each constructor, and uniqueness of the
    /// effective discriminant tags. Succeeds exactly when all three rules
    /// hold.
    pub fn check_decorators(&self) -> (r: Result<(), Error>)
        ensures
            r is Ok <==> data_decorators_ok(*self),
            r matches Err(e) ==> (e matches Error::DecoratorTagOverlap { tag, .. } ==> (exists|
                i: int,
                j: int,
            |
                0 <= i < j < self.constructors@.len() && eff_tag(#[trigger] self.constructors@[i], i)
                    == tag as int && eff_tag(#[trigger] self.constructors@[j], j) == tag as int)),
            r matches Err(e2) ==> (e2 is DecoratorValidation || e2 is ConflictingDecorators || e2
                is DecoratorTagOverlap),
            decorators_ok(
                self.decorators@,
                if self.constructors@.len() > 1 {
                    DecoratorContext::Enum
                } else {
                    DecoratorContext::Record
                },
            ) && (forall|k: int|
                0 <= k < self.constructors@.len() ==> decorators_ok(
                    (#[trigger] self.constructors@[k]).decorators@,
                    DecoratorContext::Constructor,
                )) ==> (r matches Err(e4) ==> e4 is DecoratorTagOverlap),
    {
        let context = if self.constructors.len() > 1 {
            DecoratorContext::Enum
        } else {
            DecoratorContext::Record
        };
        match validate_decorators_in_context(&self.decorators, context, None) {
            Ok(()) => {},
            Err(e) => {
                return Err(e);
            },
        }
        let n = self.constructors.len();
        let mut seen: Vec<(u64, Span)> = Vec::new();
        let mut ci: usize = 0;
        while ci < n
            invariant
                n == self.constructors@.len(),
                ci <= n,
                seen@.len() == ci,
                forall|k: int|
                    0 <= k < ci ==> decorators_ok(
                        (#[trigger] self.constructors@[k]).decorators@,
                        DecoratorContext::Constructor,
                    ),
                forall|k: int| 0 <= k < ci ==> (#[trigger] seen@[k]).0 as int == eff_tag(
                    self.constructors@[k],
                    k,
                ),
                forall|i: int, j: int| 0 <= i < j < ci ==> seen@[i].0 != seen@[j].0,
            decreases n - ci,
        {
            let c = &self.constructors[ci];
            match validate_decorators_in_context(&c.decorators, DecoratorContext::Constructor, None)
             {
                Ok(()) => {},
                Err(e) => {
                    return Err(e);
                },
            }
            let (tag, location): (u64, Span) = match first_tag_of(&c.decorators) {
                Some(p) => p,
                None => (ci as u64, c.location),
            };
            let mut k: usize = 0;
            while k < seen.len()
                invariant
                    seen@.len() == ci,
                    ci < n,
                    n == self.constructors@.len(),
                    k <= ci,
                    tag as int == eff_tag(self.constructors@[ci as int], ci as int),
                    forall|l: int| 0 <= l < ci ==> (#[trigger] seen@[l]).0 as int == eff_tag(
                        self.constructors@[l],
                        l,
                    ),
                    forall|l: int| 0 <= l < k ==> seen@[l].0 != tag,
                decreases ci - k,
            {
                if seen[k].0 == tag {
                    proof {
                        assert(eff_tag(self.constructors@[k as int], k as int) == eff_tag(
                            self.constructors@[ci as int],
                            ci as int,
                        ));
                        assert(eff_tag(self.constructors@[k as int], k as int) == tag as int);
                    }
                    return Err(
                        Error::DecoratorTagOverlap { tag, first: seen[k].1, second: location },
                    );
                }
                k = k + 1;
            }
            seen.push((tag, location));
            ci = ci + 1;
        }
        proof {
            assert forall|i: int, j: int| 0 <= i < j < n implies eff_tag(self.constructors@[i], i)
                != eff_tag(self.constructors@[j], j) by {
                assert(seen@[i].0 != seen@[j].0);
            }
        }
        Ok(())
    }
}

/// The six recognized on-chain purposes a validator handler may
/// implement.
pub open spec fn is_purpose(name: Seq<char>) -> bool {
    ||| name == "mint"@
    ||| name == "spend"@
    ||| name == "withdraw"@
    ||| name == "publish"@
    ||| name == "vote"@
    ||| name == "propose"@
}

/// The number of handler arguments each purpose requires: a spend
/// handler also receives the optional state value, the others do not.
pub open spec fn purpose_arity(name: Seq<char>) -> int {
    if name == "spend"@ {
        4
    } else {
        3
    }
}

/// The full recognized handler-name set as reported in diagnostics: the
/// six purposes and the fallback, in order.
pub open spec fn recognized_purposes(v: Seq<String>) -> bool {
    &&& v.len() == 7
    &&& v[0]@ == "mint"@
    &&& v[1]@ == "spend"@
    &&& v[2]@ == "withdraw"@
    &&& v[3]@ == "publish"@
    &&& v[4]@ == "vote"@
    &&& v[5]@ == "propose"@
    &&& v[6]@ == "else"@
}

/// The recognized handler names: the six purposes and the fallback.
pub fn available_handler_names() -> (r: Vec<String>)
    ensures
        r@.len() == 7,
        r@[0]@ == "mint"@,
        r@[1]@ == "spend"@,
        r@[2]@ == "withdraw"@,
        r@[3]@ == "publish"@,
        r@[4]@ == "vote"@,
        r@[5]@ == "propose"@,
        r@[6]@ == "else"@,
{
    let mut r: Vec<String> = Vec::new();
    r.push("mint".to_owned());
    r.push("spend".to_owned());
    r.push("withdraw".to_owned());
    r.push("publish".to_owned());
    r.push("vote".to_owned());
    r.push("propose".to_owned());
    r.push("else".to_owned());
    r
}

/// Whether a handler's name is one of the recognized purposes.
pub fn has_valid_purpose_name(name: &String) -> (r: bool)
    ensures
        r == is_purpose(name@),
{
    *name == "mint".to_owned() || *name == "spend".to_owned() || *name == "withdraw".to_owned()
        || *name == "publish".to_owned() || *name == "vote".to_owned() || *name
        == "propose".to_owned()
}

/// The handler arity its purpose requires.
pub fn validator_arity(name: &String) -> (r: usize)
    ensures
        r as int == purpose_arity(name@),
{
    if *name == "spend".to_owned() {
        4
    } else {
        3
    }
}

/// The shape of the language's synthesized default fallback: named
/// `else`, one discarded unannotated argument, a body that simply
/// succeeds.
pub open spec fn is_default_fallback_shape(f: UntypedFunction) -> bool {
    &&& f.name@ == "else"@
    &&& f.arguments@.len() == 1
    &&& f.arguments@[0].by is Discarded
    &&& f.arguments@[0].annotation is None
    &&& !f.arguments@[0].is_validator_param
    &&& f.return_annotation is None
    &&& f.body matches UntypedExpr::Var { name, .. } && name@ == "True"@
}

/// The synthesized default fallback handler at the given location.
pub fn default_fallback(location: Span) -> (r: UntypedFunction)
    ensures
        is_default_fallback_shape(r),
{
    let mut arguments: Vec<crate::ast::UntypedArg> = Vec::new();
    arguments.push(
        crate::ast::UntypedArg {
            by: crate::ast::ArgName::Discarded { location, name: "_ctx".to_owned() },
            location,
            annotation: None,
            is_validator_param: false,
        },
    );
    UntypedFunction {
        location,
        name: "else".to_owned(),
        public: false,
        arguments,
        body: UntypedExpr::Var { location, name: "True".to_owned() },
        return_annotation: None,
        end_position: location.end,
    }
}

/// Whether a fallback handler is the synthesized default.
pub fn is_default_fallback(f: &UntypedFunction) -> (r: bool)
    ensures
        r == is_default_fallback_shape(*f),
{
    if !(f.name == "else".to_owned()) {
        return false;
    }
    if f.arguments.len() != 1 {
        return false;
    }
    let a = &f.arguments[0];
    let by_ok = match &a.by {
        crate::ast::ArgName::Discarded { .. } => true,
        _ => false,
    };
    if !by_ok {
        return false;
    }
    if let Some(_) = &a.annotation {
        return false;
    }
    if a.is_validator_param {
        return false;
    }
    if let Some(_) = &f.return_annotation {
        return false;
    }
    match &f.body {
        UntypedExpr::Var { name, .. } => *name == "True".to_owned(),
        _ => false,
    }
}

/// The exhaustiveness rule for validator fallbacks: once every purpose
/// but the fallback is handled, a custom fallback body is unreachable
/// and rejected; the synthesized default is accepted.
pub fn check_fallback_exhaustiveness(n_handlers: usize, fallback: &UntypedFunction) -> (r: Result<
    (),
    Error,
>)
    ensures
        r is Ok <==> !(n_handlers >= 6 && !is_default_fallback_shape(*fallback)),
        r matches Err(e) ==> e matches Error::UnexpectedValidatorFallback { fallback: l } && l
            == fallback.location,
{
    if n_handlers >= 6 && !is_default_fallback(fallback) {
        Err(Error::UnexpectedValidatorFallback { fallback: fallback.location })
    } else {
        Ok(())
    }
}

} // verus!

verus! {

/// A generated value must be fully concrete plain data: no function
/// anywhere in it, and no type variable left.
pub open spec fn fuzzable(t: Ty) -> bool
    decreases t, 0int,
{
    match t {
        Ty::App { args, .. } => fuzzable_seq(args),
        Ty::Fn { .. } => false,
        Ty::Tuple { elems } => fuzzable_seq(elems),
        Ty::Pair { fst, snd } => fuzzable(*fst) && fuzzable(*snd),
        Ty::Var { .. } => false,
    }
}

/// Every element of the sequence is fuzzable.
pub open spec fn fuzzable_seq(ts: Seq<Ty>) -> bool
    decreases ts, 1int,
{
    if ts.len() == 0 {
        true
    } else {
        fuzzable(ts[0]) && fuzzable_seq(ts.subrange(1, ts.len() as int))
    }
}

/// `fuzzable_seq` holds exactly when every element is fuzzable.
pub proof fn lemma_fuzzable_seq(ts: Seq<Ty>)
    ensures
        fuzzable_seq(ts) <==> (forall|i: int| 0 <= i < ts.len() ==> fuzzable(#[trigger] ts[i])),
    decreases ts,
{
    if ts.len() > 0 {
        let tl = ts.subrange(1, ts.len() as int);
        lemma_fuzzable_seq(tl);
        if fuzzable_seq(ts) {
            assert forall|i: int| 0 <= i < ts.len() implies fuzzable(#[trigger] ts[i]) by {
                if i > 0 {
                    assert(tl[i - 1] == ts[i]);
                    assert(fuzzable(tl[i - 1]));
                }
            }
        }
        if forall|i: int| 0 <= i < ts.len() ==> fuzzable(#[trigger] ts[i]) {
            assert forall|i: int| 0 <= i < tl.len() implies fuzzable(#[trigger] tl[i]) by {
                assert(tl[i] == ts[i + 1]);
            }
            assert(fuzzable(ts[0]));
        }
    }
}

/// A fuzzable type is fully concrete.
pub proof fn lemma_fuzzable_concrete(t: Ty)
    requires
        fuzzable(t),
    ensures
        concrete(t),
    decreases t, 0int,
{
    match t {
        Ty::App { args, .. } => {
            lemma_fuzzable_concrete_seq(args);
        },
        Ty::Tuple { elems } => {
            lemma_fuzzable_concrete_seq(elems);
        },
        Ty::Pair { fst, snd } => {
            lemma_fuzzable_concrete(*fst);
            lemma_fuzzable_concrete(*snd);
        },
        _ => {},
    }
}

/// Elementwise form of `lemma_fuzzable_concrete`.
pub proof fn lemma_fuzzable_concrete_seq(ts: Seq<Ty>)
    requires
        fuzzable_seq(ts),
    ensures
        concrete_seq(ts),
    decreases ts, 1int,
{
    if ts.len() > 0 {
        lemma_fuzzable_concrete(ts[0]);
        lemma_fuzzable_concrete_seq(ts.subrange(1, ts.len() as int));
    }
}

/// Check that a generated value type is plain concrete data: no
/// function type and no type variable anywhere in it.
pub fn is_valid_fuzzer(tipo: &Type, location: Span) -> (r: Result<(), Error>)
    ensures
        r is Ok <==> fuzzable(tipo@),
        r matches Err(e) ==> (e is GenericLeftAtBoundary || e is IllegalTypeInData),
        r matches Err(e2) && e2 is IllegalTypeInData ==> crate::tipo::has_function(tipo@),
        r matches Err(e3) && e3 is GenericLeftAtBoundary ==> !concrete(tipo@),
    decreases *tipo, 0int,
{
    match tipo {
        Type::App { args, .. } => is_valid_fuzzer_all(args, location),
        Type::Tuple { elems } => is_valid_fuzzer_all(elems, location),
        Type::Pair { fst, snd } => {
            match is_valid_fuzzer(fst, location) {
                Ok(()) => {},
                Err(e) => {
                    return Err(e);
                },
            }
            match is_valid_fuzzer(snd, location) {
                Ok(()) => {},
                Err(e) => {
                    return Err(e);
                },
            }
            Ok(())
        },
        Type::Var { .. } => Err(Error::GenericLeftAtBoundary { location }),
        Type::Fn { .. } => Err(
            Error::IllegalTypeInData { location, tipo: crate::tipo::clone_type(tipo) },
        ),
    }
}

/// Elementwise `is_valid_fuzzer`.
fn is_valid_fuzzer_all(ts: &Vec<Type>, location: Span) -> (r: Result<(), Error>)
    ensures
        r is Ok <==> fuzzable_seq(tys_of(ts@)),
        r matches Err(e) ==> (e is GenericLeftAtBoundary || e is IllegalTypeInData),
        r matches Err(e2) && e2 is IllegalTypeInData ==> crate::tipo::has_function_seq(
            tys_of(ts@),
        ),
        r matches Err(e3) && e3 is GenericLeftAtBoundary ==> !concrete_seq(tys_of(ts@)),
    decreases ts@, 1int,
{
    let n = ts.len();
    let mut i: usize = 0;
    while i < n
        invariant
            n == ts@.len(),
            i <= n,
            forall|j: int| 0 <= j < i ==> fuzzable(#[trigger] ts@[j]@),
        decreases n - i,
    {
        match is_valid_fuzzer(&ts[i], location) {
            Ok(()) => {},
            Err(e) => {
                proof {
                    lemma_tys_of(ts@);
                    lemma_fuzzable_seq(tys_of(ts@));
                    assert(!fuzzable(tys_of(ts@)[i as int]));
                    if e is IllegalTypeInData {
                        crate::tipo::lemma_has_function_seq(tys_of(ts@));
                        assert(crate::tipo::has_function(tys_of(ts@)[i as int]));
                    }
                    if e is GenericLeftAtBoundary {
                        lemma_concrete_seq(tys_of(ts@));
                        assert(!concrete(tys_of(ts@)[i as int]));
                    }
                }
                return Err(e);
            },
        }
        i = i + 1;
    }
    proof {
        lemma_tys_of(ts@);
        lemma_fuzzable_seq(tys_of(ts@));
        assert forall|j: int| 0 <= j < ts@.len() implies fuzzable(#[trigger] tys_of(ts@)[j]) by {
            assert(fuzzable(ts@[j]@));
        }
    }
    Ok(())
}

/// The value type produced by a term of exact generator shape: a
/// function from the pseudo-random state to an optional pair of next
/// state and value.
pub open spec fn fuzzer_shape(t: Ty) -> Option<Ty> {
    match t {
        Ty::Fn { args, ret } => if args.len() == 1 && uni_eq(args[0], crate::tipo::prng_ty()) {
            match *ret {
                Ty::App { module, name, args: oargs, .. } => if module == Seq::<char>::empty()
                    && name == "Option"@ && oargs.len() == 1 {
                    match oargs[0] {
                        Ty::Tuple { elems } => if elems.len() == 2 && uni_eq(
                            elems[0],
                            crate::tipo::prng_ty(),
                        ) {
                            Some(elems[1])
                        } else {
                            None
                        },
                        _ => None,
                    }
                } else {
                    None
                },
                _ => None,
            }
        } else {
            None
        },
        _ => None,
    }
}

/// The value type produced by a term of exact sized-generator shape: a
/// function from an integer size to a generator.
pub open spec fn sampler_shape(t: Ty) -> Option<Ty> {
    match t {
        Ty::Fn { args, ret } => if args.len() == 1 && uni_eq(args[0], crate::tipo::int_ty()) {
            fuzzer_shape(*ret)
        } else {
            None
        },
        _ => None,
    }
}

} // verus!

verus! {

/// The generator type of a fuzzable value type is fully concrete.
proof fn lemma_fuzzer_ty_concrete(w: Ty)
    requires
        fuzzable(w),
    ensures
        concrete(crate::tipo::fuzzer_ty(w)),
{
    let fz = crate::tipo::fuzzer_ty(w);
    let prng = crate::tipo::prng_ty();
    lemma_fuzzable_concrete(w);
    assert(concrete(prng)) by {
        lemma_concrete_seq(prng->App_args);
    }
    assert(fz->Fn_args == seq![prng]);
    assert(concrete_seq(fz->Fn_args)) by {
        lemma_concrete_seq(fz->Fn_args);
    }
    let fzr = *fz->Fn_ret;
    let fztu = fzr->App_args[0];
    assert(fztu->Tuple_elems == seq![prng, w]);
    assert(concrete_seq(fztu->Tuple_elems)) by {
        lemma_concrete_seq(fztu->Tuple_elems);
    }
    assert(concrete(fztu));
    assert(concrete_seq(fzr->App_args)) by {
        lemma_concrete_seq(fzr->App_args);
    }
    assert(concrete(fzr));
    assert(concrete(fz));
}

/// A term of exact generator shape with a fuzzable value type is the
/// generator type of that value type, up to structural identity, and is
/// fully concrete.
proof fn lemma_fuzzer_shape_facts(t: Ty, w: Ty)
    requires
        fuzzer_shape(t) == Some(w),
        fuzzable(w),
    ensures
        uni_eq(t, crate::tipo::fuzzer_ty(w)),
        concrete(t),
        concrete(crate::tipo::fuzzer_ty(w)),
{
    let fz = crate::tipo::fuzzer_ty(w);
    let prng = crate::tipo::prng_ty();
    lemma_fuzzable_concrete(w);
    let a = t->Fn_args;
    let r = *t->Fn_ret;
    let x = a[0];
    // The argument is structurally the pseudo-random state type, so it
    // is a zero-argument application and concrete.
    assert(uni_eq(x, prng));
    assert(x is App);
    assert(uni_eq_seq(x->App_args, prng->App_args));
    assert(x->App_args.len() == 0);
    assert(concrete_seq(x->App_args)) by {
        lemma_concrete_seq(x->App_args);
    }
    assert(concrete(x));
    assert(concrete_seq(a)) by {
        lemma_concrete_seq(a);
    }
    let oargs = r->App_args;
    let tu = oargs[0];
    let elems = tu->Tuple_elems;
    let t0 = elems[0];
    assert(uni_eq(t0, prng));
    assert(t0 is App);
    assert(uni_eq_seq(t0->App_args, prng->App_args));
    assert(t0->App_args.len() == 0);
    assert(concrete_seq(t0->App_args)) by {
        lemma_concrete_seq(t0->App_args);
    }
    assert(concrete(t0));
    assert(concrete_seq(elems)) by {
        lemma_concrete_seq(elems);
    }
    assert(concrete(tu));
    assert(concrete_seq(oargs)) by {
        lemma_concrete_seq(oargs);
    }
    assert(concrete(r));
    assert(concrete(t));
    // The generator type of the value type is concrete as well.
    assert(concrete(prng)) by {
        lemma_concrete_seq(prng->App_args);
    }
    assert(fz->Fn_args == seq![prng]);
    assert(concrete_seq(fz->Fn_args)) by {
        lemma_concrete_seq(fz->Fn_args);
    }
    let fzr = *fz->Fn_ret;
    let fztu = fzr->App_args[0];
    assert(fztu->Tuple_elems == seq![prng, w]);
    assert(concrete_seq(fztu->Tuple_elems)) by {
        lemma_concrete_seq(fztu->Tuple_elems);
    }
    assert(concrete(fztu));
    assert(concrete_seq(fzr->App_args)) by {
        lemma_concrete_seq(fzr->App_args);
    }
    assert(concrete(fzr));
    assert(concrete(fz));
    // Structural identity of the whole terms, piece by piece.
    crate::tipo::lemma_uni_eq_refl(w);
    assert(uni_eq_seq(elems, fztu->Tuple_elems)) by {
        crate::tipo::lemma_uni_eq_seq_pointwise(elems, fztu->Tuple_elems);
        assert(fztu->Tuple_elems[0] == prng);
        assert(fztu->Tuple_elems[1] == w);
    }
    assert(uni_eq(tu, fztu));
    assert(uni_eq_seq(oargs, fzr->App_args)) by {
        crate::tipo::lemma_uni_eq_seq_pointwise(oargs, fzr->App_args);
        assert(fzr->App_args[0] == fztu);
    }
    assert(uni_eq(r, fzr));
    assert(uni_eq_seq(a, fz->Fn_args)) by {
        crate::tipo::lemma_uni_eq_seq_pointwise(a, fz->Fn_args);
        assert(fz->Fn_args[0] == prng);
    }
    assert(uni_eq(t, fz));
}

/// The unification error reported when a term has no generator shape.
fn could_not_unify_generator(
    environment: &mut Environment,
    expected_inner: &Option<Type>,
    given: &Type,
    location: Span,
    sized: bool,
) -> (r: Error)
    requires
        env_wf(*old(environment)),
    ensures
        env_wf(*final(environment)),
        final(environment).scope == old(environment).scope,
        r is CouldNotUnify,
        crate::error::expression_level_error(r),
        r matches Error::CouldNotUnify { given: g2, .. } ==> g2@ == given@,
        r matches Error::CouldNotUnify { expected: e2, .. } ==> (expected_inner matches Some(t0)
            ==> e2@ == (if sized {
            crate::tipo::sampler_ty(t0@)
        } else {
            crate::tipo::fuzzer_ty(t0@)
        })),
{
    let inner = match expected_inner {
        Some(t) => crate::tipo::clone_type(t),
        None => environment.new_unbound_var(),
    };
    let expected = if sized {
        Type::sampler(inner)
    } else {
        Type::fuzzer(inner)
    };
    Error::CouldNotUnify {
        location,
        expected,
        given: crate::tipo::clone_type(given),
        situation: None,
    }
}

/// Walk a generator's type structurally: unwrap the optional-pair
/// result, take its second component as the produced value type, reject
/// a produced type that is not plain concrete data, and hold the whole
/// type to the generator shape by unification. On a type of exact
/// generator shape this succeeds exactly when the produced type is
/// fuzzable, and returns exactly that type.
pub fn infer_fuzzer(
    environment: &mut Environment,
    expected_inner: &Option<Type>,
    tipo: &Type,
    location: Span,
) -> (r: Result<Type, Error>)
    requires
        env_wf(*old(environment)),
    ensures
        env_wf(*final(environment)),
        final(environment).scope == old(environment).scope,
        r matches Err(ek) ==> crate::error::expression_level_error(ek),
        r matches Ok(w) ==> fuzzable(w@),
        fuzzer_shape(app(old(environment).subst@, tipo@)) matches Some(wrap) ==> ((r is Ok
            <==> fuzzable(wrap)) && (r matches Ok(w2) ==> w2@ == wrap)),
        app(old(environment).subst@, tipo@) is Var ==> (r matches Err(e) && e
            is GenericLeftAtBoundary),
        !(app(old(environment).subst@, tipo@) is Var) && !(app(old(environment).subst@, tipo@)
            is Fn) ==> r is Err,
        app(old(environment).subst@, tipo@) is Fn && app(
            old(environment).subst@,
            tipo@,
        )->Fn_args.len() != 1 ==> r is Err,
{
    let ghost s0 = environment.subst@;
    let t2 = environment.subst.apply(tipo);
    let ghost shp = fuzzer_shape(t2@);
    match &t2 {
        Type::Fn { args: _, ret } => {
            proof {
                assert(*t2@->Fn_ret == (**ret)@);
            }
            match &(**ret) {
                Type::App { module, name, args: oargs, .. } => {
                    proof {
                        crate::tipo::lemma_tys_of(oargs@);
                        assert((**ret)@->App_args == tys_of(oargs@));
                    }
                    if *module == String::new() && *name == "Option".to_owned() && oargs.len()
                        == 1 {
                        proof {
                            assert(tys_of(oargs@)[0] == oargs@[0]@);
                        }
                        match &oargs[0] {
                            Type::Tuple { elems } => {
                                proof {
                                    crate::tipo::lemma_tys_of(elems@);
                                    assert(oargs@[0]@->Tuple_elems == tys_of(elems@));
                                }
                                if elems.len() == 2 {
                                    let wrapped = &elems[1];
                                    proof {
                                        crate::tipo::lemma_tys_of(elems@);
                                        crate::tipo::lemma_tys_of(oargs@);
                                        assert(*t2@->Fn_ret == (**ret)@);
                                        assert((**ret)@->App_args == tys_of(oargs@));
                                        assert(tys_of(oargs@)[0] == oargs@[0]@);
                                        assert(oargs@[0]@->Tuple_elems == tys_of(elems@));
                                        assert(tys_of(elems@)[1] == elems@[1]@);
                                        if shp is Some {
                                            assert(wrapped@ == shp->0);
                                        }
                                    }
                                    match is_valid_fuzzer(wrapped, location) {
                                        Ok(()) => {},
                                        Err(e) => {
                                            return Err(e);
                                        },
                                    }
                                    let w = crate::tipo::clone_type(wrapped);
                                    let fz = Type::fuzzer(crate::tipo::clone_type(wrapped));
                                    proof {
                                        crate::subst::lemma_app_idem(s0, tipo@);
                                        if fuzzable(wrapped@) {
                                            lemma_fuzzer_ty_concrete(wrapped@);
                                            crate::subst::lemma_app_concrete(s0, fz@);
                                        }
                                    }
                                    let ur = environment.subst.unify(&t2, &fz, location, false);
                                    proof {
                                        if shp is Some && fuzzable(shp->0) {
                                            lemma_fuzzer_shape_facts(t2@, shp->0);
                                            crate::tipo::lemma_mism_none_iff_uni_eq(t2@, fz@);
                                        }
                                    }
                                    match ur {
                                        Ok(()) => Ok(w),
                                        Err(e) => Err(e),
                                    }
                                } else {
                                    Err(
                                        could_not_unify_generator(
                                            environment,
                                            expected_inner,
                                            &t2,
                                            location,
                                            false,
                                        ),
                                    )
                                }
                            },
                            _ => Err(
                                could_not_unify_generator(
                                    environment,
                                    expected_inner,
                                    &t2,
                                    location,
                                    false,
                                ),
                            ),
                        }
                    } else {
                        Err(
                            could_not_unify_generator(
                                environment,
                                expected_inner,
                                &t2,
                                location,
                                false,
                            ),
                        )
                    }
                },
                _ => Err(
                    could_not_unify_generator(environment, expected_inner, &t2, location, false),
                ),
            }
        },
        Type::Var { .. } => Err(Error::GenericLeftAtBoundary { location }),
        _ => Err(could_not_unify_generator(environment, expected_inner, &t2, location, false)),
    }
}

/// Walk a sized generator's type: check the integer size parameter,
/// then walk the inner generator. On a type of exact sized-generator
/// shape this succeeds exactly when the produced type is fuzzable, and
/// returns exactly that type.
pub fn infer_sampler(
    environment: &mut Environment,
    expected_inner: &Option<Type>,
    tipo: &Type,
    location: Span,
) -> (r: Result<Type, Error>)
    requires
        env_wf(*old(environment)),
    ensures
        env_wf(*final(environment)),
        final(environment).scope == old(environment).scope,
        r matches Err(ek) ==> crate::error::expression_level_error(ek),
        r matches Ok(w) ==> fuzzable(w@),
        sampler_shape(app(old(environment).subst@, tipo@)) matches Some(wrap) ==> ((r is Ok
            <==> fuzzable(wrap)) && (r matches Ok(w2) ==> w2@ == wrap)),
        app(old(environment).subst@, tipo@) is Var ==> (r matches Err(e) && e
            is GenericLeftAtBoundary),
        !(app(old(environment).subst@, tipo@) is Var) && !(app(old(environment).subst@, tipo@)
            is Fn) ==> r is Err,
        app(old(environment).subst@, tipo@) is Fn && app(
            old(environment).subst@,
            tipo@,
        )->Fn_args.len() != 1 ==> r is Err,
        app(old(environment).subst@, tipo@) is Fn && app(
            old(environment).subst@,
            tipo@,
        )->Fn_args.len() == 1 && !crate::tipo::is_named_ty(
            app(old(environment).subst@, tipo@)->Fn_args[0],
            "Int"@,
        ) ==> r is Err,
{
    let ghost s0 = environment.subst@;
    let t2 = environment.subst.apply(tipo);
    proof {
        lemma_lf_app(s0, tipo@);
    }
    let ghost shp = sampler_shape(t2@);
    match &t2 {
        Type::Fn { args, ret } => {
            proof {
                crate::tipo::lemma_tys_of(args@);
                assert(*t2@->Fn_ret == (**ret)@);
            }
            if args.len() == 1 && args[0].is_int() {
                proof {
                    lemma_lf_app(s0, tipo@);
                    // The inner generator term is already resolved, so
                    // resolving it again changes nothing.
                    assert(crate::subst::lf(s0, (**ret)@)) by {
                        assert forall|v: nat| occ(v, (**ret)@) implies !crate::subst::linked(
                            s0,
                            v,
                        ) by {
                            assert(occ(v, t2@));
                        }
                    }
                    lemma_app_lf(s0, (**ret)@);
                    if shp is Some {
                        assert(fuzzer_shape(app(s0, (**ret)@)) == shp);
                    }
                }
                let r2 = infer_fuzzer(environment, expected_inner, ret, location);
                r2
            } else {
                Err(could_not_unify_generator(environment, expected_inner, &t2, location, true))
            }
        },
        Type::Var { .. } => Err(Error::GenericLeftAtBoundary { location }),
        _ => Err(could_not_unify_generator(environment, expected_inner, &t2, location, true)),
    }
}

} // verus!

verus! {

/// Extract the produced value type of a test or benchmark argument from
/// its generator expression: type the `via` expression, walk its type as
/// a generator (sized for a benchmark), hold it to the declared
/// annotation if any, and rewrite the registered signature so the body
/// is inferred with the extracted argument type.
pub fn extract_via_information(
    name: &String,
    arg: &crate::ast::UntypedArgVia,
    hydrators: &mut Vec<(String, crate::hydrator::Hydrator)>,
    environment: &mut Environment,
    sized: bool,
) -> (r: Result<((crate::ast::TypedExpr, Type), Option<crate::ast::Annotation>), Error>)
    requires
        env_wf(*old(environment)),
    ensures
        env_wf(*final(environment)),
        r matches Ok(p) ==> fuzzable(p.0.1@),
        r matches Ok(p2) ==> (p2.1 is Some <==> arg.arg.annotation is Some),
        r matches Err(ek) ==> crate::error::expression_level_error(ek),
        (!sized && arg.arg.annotation is None && arg.via is Var
            && crate::environment::scope_index_of(
            old(environment).scope@,
            arg.via->Var_name@,
        ) is Some && (forall|vv: nat|
            #[trigger] crate::tipo::occ(
                vv,
                app(
                    old(environment).subst@,
                    old(environment).scope@[crate::environment::scope_index_of(
                        old(environment).scope@,
                        arg.via->Var_name@,
                    )->0].1.tipo@,
                ),
            ) ==> !((vv as int) < old(environment).subst@.len() && old(
                environment,
            ).subst@[vv as int] is Generic)) && fuzzer_shape(
            app(
                old(environment).subst@,
                old(environment).scope@[crate::environment::scope_index_of(
                    old(environment).scope@,
                    arg.via->Var_name@,
                )->0].1.tipo@,
            ),
        ) is Some && fuzzable(
            fuzzer_shape(
                app(
                    old(environment).subst@,
                    old(environment).scope@[crate::environment::scope_index_of(
                        old(environment).scope@,
                        arg.via->Var_name@,
                    )->0].1.tipo@,
                ),
            )->0,
        )) ==> r is Ok,
        r matches Ok(p3) ==> (final(environment).scope@.len() == old(environment).scope@.len() || (
        final(environment).scope@.last().1.tipo@ matches Ty::Fn { args, .. } && args.len() == 1
            && args[0] == p3.0.1@ && final(environment).scope@.last().0@ == name@)),
        r is Ok && crate::environment::scope_index_of(old(environment).scope@, name@) is Some
            && old(environment).scope@[crate::environment::scope_index_of(
            old(environment).scope@,
            name@,
        )->0].1.tipo@ is Fn ==> final(environment).scope@.len() == old(environment).scope@.len()
            + 1,
{
    let ghost s0 = environment.subst@;
    let typed_via = match crate::expr::infer_expr(environment, &arg.via) {
        Ok(t) => t,
        Err(e) => {
            return Err(e);
        },
    };
    proof {
        if arg.via is Var && crate::environment::scope_index_of(
            old(environment).scope@,
            arg.via->Var_name@,
        ) is Some {
            crate::subst::lemma_app_idem(
                s0,
                old(environment).scope@[crate::environment::scope_index_of(
                    old(environment).scope@,
                    arg.via->Var_name@,
                )->0].1.tipo@,
            );
        }
    }
    let provided: Option<Type> = match &arg.arg.annotation {
        Some(ann) => {
            let hix = match crate::environment::assoc_find(hydrators, name) {
                Some(ix) => ix,
                None => {
                    return Err(
                        Error::UnknownVariable { location: arg.arg.location, name: name.clone() },
                    );
                },
            };
            let hydrator = &mut hydrators[hix].1;
            match hydrator.type_from_annotation(ann, environment) {
                Ok(t) => Some(t),
                Err(e) => {
                    return Err(e);
                },
            }
        },
        None => None,
    };
    let location = arg.via.location();
    let inferred = if sized {
        infer_sampler(environment, &provided, typed_via.tipo(), location)
    } else {
        infer_fuzzer(environment, &provided, typed_via.tipo(), location)
    };
    let inferred_inner_type = match inferred {
        Ok(t) => t,
        Err(e) => {
            return Err(e);
        },
    };
    if let Some(p) = &provided {
        match environment.unify(&inferred_inner_type, p, location, false) {
            Ok(()) => {},
            Err(e) => {
                return Err(
                    e.with_unify_error_situation(
                        crate::error::UnifyErrorSituation::FuzzerAnnotationMismatch,
                    ),
                );
            },
        }
    }
    // Rewrite the registered signature so the body is inferred with the
    // extracted argument type.
    let ghost scope_before = environment.scope@;
    if let Some(vc) = environment.lookup_variable(name) {
        let applied = environment.subst.apply(&vc.tipo);
        if let Type::Fn { args: _, ret } = &applied {
            let mut new_args: Vec<Type> = Vec::new();
            new_args.push(crate::tipo::clone_type(&inferred_inner_type));
            proof {
                crate::tipo::lemma_tys_of(new_args@);
            }
            let new_t = Type::Fn { args: new_args, ret: Box::new(crate::tipo::clone_type(ret)) };
            proof {
                assert(new_t@ matches Ty::Fn { args, .. } && args.len() == 1 && args[0]
                    == inferred_inner_type@);
            }
            environment.insert_variable(
                name.clone(),
                crate::environment::ValueConstructorVariant::ModuleFn {
                    location: arg.arg.location,
                    module: environment.module_name.clone(),
                    name: name.clone(),
                    arity: 1,
                },
                new_t,
            );
        }
    }
    let ann_out = match &arg.arg.annotation {
        Some(a) => Some(crate::ast::clone_annotation(a)),
        None => None,
    };
    Ok(((typed_via, inferred_inner_type), ann_out))
}

/// Bind a validator's shared parameters in the open scope, so every
/// handler sees them; their identifiers are recorded as used by
/// convention.
pub fn put_params_in_scope(
    name: &String,
    environment: &mut Environment,
    params: &Vec<crate::ast::UntypedArg>,
)
    requires
        env_wf(*old(environment)),
    ensures
        env_wf(*final(environment)),
        old(environment).scope@.is_prefix_of(final(environment).scope@),
        crate::environment::scope_index_of(old(environment).scope@, name@) is Some && app(
            old(environment).subst@,
            old(environment).scope@[crate::environment::scope_index_of(
                old(environment).scope@,
                name@,
            )->0].1.tipo@,
        ) is Fn && app(
            old(environment).subst@,
            old(environment).scope@[crate::environment::scope_index_of(
                old(environment).scope@,
                name@,
            )->0].1.tipo@,
        )->Fn_args.len() >= params@.len() ==> (forall|j: int|
            0 <= j < params@.len() && (#[trigger] params@[j]).by is Named
                && params@[j].is_validator_param ==> (crate::environment::scope_index_of(
                final(environment).scope@,
                params@[j].by->Named_name@,
            ) is Some && crate::environment::vp_listed(
                final(environment).validator_params@,
                params@[j].by->Named_name@,
                params@[j].location,
            ) && crate::environment::usage_index_of(
                final(environment).usages@,
                params@[j].by->Named_name@,
            ) is Some && (exists|b: int|
                0 <= b < final(environment).scope@.len() && (#[trigger] final(environment).scope@[b]).0@
                    == params@[j].by->Named_name@ && final(environment).scope@[b].1.tipo@
                    == app(
                    old(environment).subst@,
                    old(environment).scope@[crate::environment::scope_index_of(
                        old(environment).scope@,
                        name@,
                    )->0].1.tipo@,
                )->Fn_args[j]))),
{
    let pre = match environment.lookup_variable(name) {
        Some(vc) => vc,
        None => {
            return ;
        },
    };
    let pre_t = environment.subst.apply(&pre.tipo);
    let decomposed = pre_t.function_types();
    let args_types: Vec<Type> = match decomposed {
        Some((a, _)) => {
            proof {
                crate::tipo::lemma_tys_of(a@);
            }
            crate::tipo::clone_types(a)
        },
        None => {
            return ;
        },
    };
    let n = params.len();
    if args_types.len() < n {
        return ;
    }
    let mut i: usize = 0;
    while i < n
        invariant
            env_wf(*environment),
            n == params@.len(),
            n <= args_types@.len(),
            i <= n,
            old(environment).scope@.is_prefix_of(environment.scope@),
            environment.subst == old(environment).subst,
            forall|k: int|
                0 <= k < n ==> args_types@[k]@ == app(
                    old(environment).subst@,
                    old(environment).scope@[crate::environment::scope_index_of(
                        old(environment).scope@,
                        name@,
                    )->0].1.tipo@,
                )->Fn_args[k],
            forall|j: int|
                0 <= j < i && (#[trigger] params@[j]).by is Named && params@[j].is_validator_param
                    ==> (crate::environment::scope_index_of(
                    environment.scope@,
                    params@[j].by->Named_name@,
                ) is Some && crate::environment::vp_listed(
                    environment.validator_params@,
                    params@[j].by->Named_name@,
                    params@[j].location,
                ) && crate::environment::usage_index_of(
                    environment.usages@,
                    params@[j].by->Named_name@,
                ) is Some && (exists|b: int|
                    0 <= b < environment.scope@.len() && (#[trigger] environment.scope@[b]).0@
                        == params@[j].by->Named_name@ && environment.scope@[b].1.tipo@ == app(
                        old(environment).subst@,
                        old(environment).scope@[crate::environment::scope_index_of(
                            old(environment).scope@,
                            name@,
                        )->0].1.tipo@,
                    )->Fn_args[j])),
        decreases n - i,
    {
        let p = &params[i];
        let ghost pre_scope = environment.scope@;
        let ghost pre_usages = environment.usages@;
        let ghost pre_vp = environment.validator_params@;
        match &p.by {
            crate::ast::ArgName::Named { name: pname, location } => {
                if p.is_validator_param {
                    environment.insert_variable(
                        pname.clone(),
                        crate::environment::ValueConstructorVariant::LocalVariable {
                            location: p.location,
                        },
                        crate::tipo::clone_type(&args_types[i]),
                    );
                    environment.validator_params.push((pname.clone(), p.location));
                    environment.init_usage(
                        pname.clone(),
                        crate::environment::EntityKind::Variable,
                        p.location,
                    );
                    proof {
                        let ps_now = environment.validator_params@;
                        let sc_now = environment.scope@;
                        crate::environment::lemma_scope_contains(sc_now, sc_now.len() - 1);
                        assert forall|j: int|
                            0 <= j < i + 1 && (#[trigger] params@[j]).by is Named
                                && params@[j].is_validator_param implies crate::environment::scope_index_of(
                            environment.scope@,
                            params@[j].by->Named_name@,
                        ) is Some by {
                            if j < i {
                                crate::environment::lemma_scope_push_some(
                                    pre_scope,
                                    params@[j].by->Named_name@,
                                    environment.scope@.last(),
                                );
                            }
                        }
                        assert forall|j: int|
                            0 <= j < i + 1 && (#[trigger] params@[j]).by is Named
                                && params@[j].is_validator_param implies crate::environment::usage_index_of(
                            environment.usages@,
                            params@[j].by->Named_name@,
                        ) is Some by {
                            if j < i {
                                crate::environment::lemma_usage_push_some(
                                    pre_usages,
                                    params@[j].by->Named_name@,
                                    environment.usages@.last(),
                                );
                            } else {
                                assert(environment.usages@.last().name@
                                    == params@[j].by->Named_name@);
                            }
                        }
                        assert forall|j: int|
                            0 <= j < i + 1 && (#[trigger] params@[j]).by is Named
                                && params@[j].is_validator_param implies crate::environment::vp_listed(
                            ps_now,
                            params@[j].by->Named_name@,
                            params@[j].location,
                        ) by {
                            if j == i {
                                assert(ps_now =~= pre_vp.push(ps_now.last()));
                                assert(ps_now[ps_now.len() - 1].0@ == params@[j].by->Named_name@);
                                assert(ps_now[ps_now.len() - 1].1 == params@[j].location);
                            } else {
                                let w = choose|w: int|
                                    0 <= w < pre_vp.len() && (#[trigger] pre_vp[w]).0@
                                        == params@[j].by->Named_name@ && pre_vp[w].1
                                        == params@[j].location;
                                assert(ps_now[w] == pre_vp[w]);
                            }
                        }
                        assert forall|j: int|
                            0 <= j < i + 1 && (#[trigger] params@[j]).by is Named
                                && params@[j].is_validator_param implies (exists|b: int|
                            0 <= b < sc_now.len() && (#[trigger] sc_now[b]).0@
                                == params@[j].by->Named_name@ && sc_now[b].1.tipo@ == app(
                                old(environment).subst@,
                                old(environment).scope@[crate::environment::scope_index_of(
                                    old(environment).scope@,
                                    name@,
                                )->0].1.tipo@,
                            )->Fn_args[j]) by {
                            if j == i {
                                assert((sc_now[sc_now.len() - 1]).0@ == params@[j].by->Named_name@);
                                assert(sc_now[sc_now.len() - 1].1.tipo@ == args_types@[j]@);
                            } else {
                                let w = choose|w: int|
                                    0 <= w < pre_scope.len() && (#[trigger] pre_scope[w]).0@
                                        == params@[j].by->Named_name@ && pre_scope[w].1.tipo@
                                        == app(
                                        old(environment).subst@,
                                        old(environment).scope@[crate::environment::scope_index_of(
                                            old(environment).scope@,
                                            name@,
                                        )->0].1.tipo@,
                                    )->Fn_args[j];
                                assert(sc_now[w] == pre_scope[w]);
                            }
                        }
                        assert(old(environment).scope@.is_prefix_of(environment.scope@));
                    }
                }
            },
            crate::ast::ArgName::Discarded { .. } => {},
        }
        i = i + 1;
    }
}

/// Whether any application reachable in the term is marked opaque.
pub open spec fn has_opaque(t: Ty) -> bool
    decreases t, 0int,
{
    match t {
        Ty::App { opaque, args, .. } => opaque || has_opaque_seq(args),
        Ty::Fn { args, ret } => has_opaque_seq(args) || has_opaque(*ret),
        Ty::Tuple { elems } => has_opaque_seq(elems),
        Ty::Pair { fst, snd } => has_opaque(*fst) || has_opaque(*snd),
        Ty::Var { .. } => false,
    }
}

/// Whether any element of the sequence holds an opaque application.
pub open spec fn has_opaque_seq(ts: Seq<Ty>) -> bool
    decreases ts, 1int,
{
    if ts.len() == 0 {
        false
    } else {
        has_opaque(ts[0]) || has_opaque_seq(ts.subrange(1, ts.len() as int))
    }
}

/// Whether the type holds an opaque application anywhere.
pub fn contains_opaque(t: &Type) -> (r: bool)
    ensures
        r == has_opaque(t@),
    decreases *t, 0int,
{
    match t {
        Type::App { opaque, args, .. } => *opaque || contains_opaque_vec(args),
        Type::Fn { args, ret } => contains_opaque_vec(args) || contains_opaque(ret),
        Type::Tuple { elems } => contains_opaque_vec(elems),
        Type::Pair { fst, snd } => contains_opaque(fst) || contains_opaque(snd),
        Type::Var { .. } => false,
    }
}

/// Elementwise `contains_opaque`.
fn contains_opaque_vec(ts: &Vec<Type>) -> (r: bool)
    ensures
        r == has_opaque_seq(tys_of(ts@)),
    decreases ts@, 1int,
{
    let n = ts.len();
    let mut i: usize = 0;
    while i < n
        invariant
            n == ts@.len(),
            i <= n,
            forall|j: int| 0 <= j < i ==> !has_opaque(#[trigger] ts@[j]@),
        decreases n - i,
    {
        if contains_opaque(&ts[i]) {
            proof {
                lemma_tys_of(ts@);
                lemma_has_opaque_seq(tys_of(ts@));
                assert(has_opaque(tys_of(ts@)[i as int]));
            }
            return true;
        }
        i = i + 1;
    }
    proof {
        lemma_tys_of(ts@);
        lemma_has_opaque_seq(tys_of(ts@));
        assert forall|j: int| 0 <= j < ts@.len() implies !has_opaque(#[trigger] tys_of(ts@)[j]) by {
            assert(!has_opaque(ts@[j]@));
        }
    }
    false
}

/// `has_opaque_seq` holds exactly when some element holds an opaque
/// application.
pub proof fn lemma_has_opaque_seq(ts: Seq<Ty>)
    ensures
        has_opaque_seq(ts) <==> exists|i: int| 0 <= i < ts.len() && has_opaque(#[trigger] ts[i]),
    decreases ts,
{
    if ts.len() > 0 {
        let tl = ts.subrange(1, ts.len() as int);
        lemma_has_opaque_seq(tl);
        if has_opaque_seq(ts) {
            if has_opaque(ts[0]) {
            } else {
                let i = choose|i: int| 0 <= i < tl.len() && has_opaque(tl[i]);
                assert(has_opaque(ts[i + 1]));
            }
        }
        if exists|i: int| 0 <= i < ts.len() && has_opaque(#[trigger] ts[i]) {
            let i = choose|i: int| 0 <= i < ts.len() && has_opaque(ts[i]);
            if i > 0 {
                assert(has_opaque(tl[i - 1]));
            }
        }
    }
}

/// Whether the type holds no variable at all, so its shape is final.
pub fn type_is_concrete(t: &Type) -> (r: bool)
    ensures
        r == concrete(t@),
    decreases *t, 0int,
{
    match t {
        Type::App { args, .. } => types_are_concrete(args),
        Type::Fn { args, ret } => types_are_concrete(args) && type_is_concrete(ret),
        Type::Tuple { elems } => types_are_concrete(elems),
        Type::Pair { fst, snd } => type_is_concrete(fst) && type_is_concrete(snd),
        Type::Var { .. } => false,
    }
}

/// Elementwise `type_is_concrete`.
fn types_are_concrete(ts: &Vec<Type>) -> (r: bool)
    ensures
        r == concrete_seq(tys_of(ts@)),
    decreases ts@, 1int,
{
    let n = ts.len();
    let mut i: usize = 0;
    while i < n
        invariant
            n == ts@.len(),
            i <= n,
            forall|j: int| 0 <= j < i ==> concrete(#[trigger] ts@[j]@),
        decreases n - i,
    {
        if !type_is_concrete(&ts[i]) {
            proof {
                lemma_tys_of(ts@);
                lemma_concrete_seq(tys_of(ts@));
                assert(!concrete(tys_of(ts@)[i as int]));
            }
            return false;
        }
        i = i + 1;
    }
    proof {
        lemma_tys_of(ts@);
        lemma_concrete_seq(tys_of(ts@));
        assert forall|j: int| 0 <= j < ts@.len() implies concrete(#[trigger] tys_of(ts@)[j]) by {
            assert(concrete(ts@[j]@));
        }
    }
    true
}

} // verus!

verus! {

/// The public part of the value registry, in order.
pub open spec fn keep_public_values(s: Seq<(String, crate::environment::ValueConstructor)>) -> Seq<
    (String, crate::environment::ValueConstructor),
>
    decreases s.len(),
{
    if s.len() == 0 {
        Seq::empty()
    } else if s[0].1.public {
        seq![s[0]] + keep_public_values(s.subrange(1, s.len() as int))
    } else {
        keep_public_values(s.subrange(1, s.len() as int))
    }
}

/// The part of the type registry that is public and owned by the named
/// module, in order.
pub open spec fn keep_own_types(
    s: Seq<(String, crate::environment::TypeConstructor)>,
    module_name: Seq<char>,
) -> Seq<(String, crate::environment::TypeConstructor)>
    decreases s.len(),
{
    if s.len() == 0 {
        Seq::empty()
    } else if s[0].1.public && s[0].1.module@ == module_name {
        seq![s[0]] + keep_own_types(s.subrange(1, s.len() as int), module_name)
    } else {
        keep_own_types(s.subrange(1, s.len() as int), module_name)
    }
}

/// The part of the constructor-name registry whose owning type survived
/// pruning, in order.
pub open spec fn keep_surviving_constructors(
    s: Seq<(String, Vec<String>)>,
    types: Seq<(String, crate::environment::TypeConstructor)>,
) -> Seq<(String, Vec<String>)>
    decreases s.len(),
{
    if s.len() == 0 {
        Seq::empty()
    } else if crate::environment::assoc_index_of(types, s[0].0@) is Some {
        seq![s[0]] + keep_surviving_constructors(s.subrange(1, s.len() as int), types)
    } else {
        keep_surviving_constructors(s.subrange(1, s.len() as int), types)
    }
}

/// The public part of the accessor registry, in order.
pub open spec fn keep_public_accessors(s: Seq<(String, crate::environment::AccessorsMap)>) -> Seq<
    (String, crate::environment::AccessorsMap),
>
    decreases s.len(),
{
    if s.len() == 0 {
        Seq::empty()
    } else if s[0].1.public {
        seq![s[0]] + keep_public_accessors(s.subrange(1, s.len() as int))
    } else {
        keep_public_accessors(s.subrange(1, s.len() as int))
    }
}

/// Keep the public values, dropping the rest.
pub fn retain_public_values(mut v: Vec<(String, crate::environment::ValueConstructor)>) -> (r: Vec<
    (String, crate::environment::ValueConstructor),
>)
    ensures
        r@ == keep_public_values(v@),
{
    let ghost orig = v@;
    let mut out: Vec<(String, crate::environment::ValueConstructor)> = Vec::new();
    while v.len() > 0
        invariant
            keep_public_values(orig) == out@ + keep_public_values(v@),
        decreases v@.len(),
    {
        let ghost before = v@;
        let x = v.remove(0);
        proof {
            assert(v@ =~= before.subrange(1, before.len() as int));
        }
        if x.1.public {
            out.push(x);
            proof {
                assert(out@ + keep_public_values(v@) =~= keep_public_values(orig));
            }
        }
        proof {
            assert(out@ + keep_public_values(v@) =~= keep_public_values(orig));
        }
    }
    proof {
        assert(out@ + keep_public_values(v@) =~= out@);
    }
    out
}

/// Keep the public types owned by the module, dropping the rest.
pub fn retain_own_types(
    mut v: Vec<(String, crate::environment::TypeConstructor)>,
    module_name: &String,
) -> (r: Vec<(String, crate::environment::TypeConstructor)>)
    ensures
        r@ == keep_own_types(v@, module_name@),
{
    let ghost orig = v@;
    let mut out: Vec<(String, crate::environment::TypeConstructor)> = Vec::new();
    while v.len() > 0
        invariant
            keep_own_types(orig, module_name@) == out@ + keep_own_types(v@, module_name@),
        decreases v@.len(),
    {
        let ghost before = v@;
        let x = v.remove(0);
        proof {
            assert(v@ =~= before.subrange(1, before.len() as int));
        }
        if x.1.public && x.1.module == *module_name {
            out.push(x);
            proof {
                assert(out@ + keep_own_types(v@, module_name@) =~= keep_own_types(
                    orig,
                    module_name@,
                ));
            }
        }
        proof {
            assert(out@ + keep_own_types(v@, module_name@) =~= keep_own_types(orig, module_name@));
        }
    }
    proof {
        assert(out@ + keep_own_types(v@, module_name@) =~= out@);
    }
    out
}

/// Keep the constructor-name entries whose owning type survived pruning.
pub fn retain_surviving_constructors(
    mut v: Vec<(String, Vec<String>)>,
    types: &Vec<(String, crate::environment::TypeConstructor)>,
) -> (r: Vec<(String, Vec<String>)>)
    ensures
        r@ == keep_surviving_constructors(v@, types@),
{
    let ghost orig = v@;
    let mut out: Vec<(String, Vec<String>)> = Vec::new();
    while v.len() > 0
        invariant
            keep_surviving_constructors(orig, types@) == out@ + keep_surviving_constructors(
                v@,
                types@,
            ),
        decreases v@.len(),
    {
        let ghost before = v@;
        let x = v.remove(0);
        proof {
            assert(v@ =~= before.subrange(1, before.len() as int));
        }
        let found = crate::environment::assoc_find(types, &x.0);
        if let Some(_) = found {
            out.push(x);
            proof {
                assert(out@ + keep_surviving_constructors(v@, types@) =~= keep_surviving_constructors(
                    orig,
                    types@,
                ));
            }
        }
        proof {
            assert(out@ + keep_surviving_constructors(v@, types@) =~= keep_surviving_constructors(
                orig,
                types@,
            ));
        }
    }
    proof {
        assert(out@ + keep_surviving_constructors(v@, types@) =~= out@);
    }
    out
}

/// Keep the public accessor maps, dropping the rest.
pub fn retain_public_accessors(mut v: Vec<(String, crate::environment::AccessorsMap)>) -> (r: Vec<
    (String, crate::environment::AccessorsMap),
>)
    ensures
        r@ == keep_public_accessors(v@),
{
    let ghost orig = v@;
    let mut out: Vec<(String, crate::environment::AccessorsMap)> = Vec::new();
    while v.len() > 0
        invariant
            keep_public_accessors(orig) == out@ + keep_public_accessors(v@),
        decreases v@.len(),
    {
        let ghost before = v@;
        let x = v.remove(0);
        proof {
            assert(v@ =~= before.subrange(1, before.len() as int));
        }
        if x.1.public {
            out.push(x);
            proof {
                assert(out@ + keep_public_accessors(v@) =~= keep_public_accessors(orig));
            }
        }
        proof {
            assert(out@ + keep_public_accessors(v@) =~= keep_public_accessors(orig));
        }
    }
    proof {
        assert(out@ + keep_public_accessors(v@) =~= out@);
    }
    out
}

/// Every kept value is public.
pub proof fn lemma_keep_public_values_all_public(s: Seq<(String,
    crate::environment::ValueConstructor)>)
    ensures
        forall|i: int|
            0 <= i < keep_public_values(s).len() ==> (#[trigger] keep_public_values(
                s,
            )[i]).1.public,
    decreases s.len(),
{
    if s.len() > 0 {
        lemma_keep_public_values_all_public(s.subrange(1, s.len() as int));
    }
}

/// Interface pruning is a pure filter: running it again on its own
/// output changes nothing, for each of the four exported registries.
pub proof fn lemma_prune_idempotent(
    values: Seq<(String, crate::environment::ValueConstructor)>,
    types: Seq<(String, crate::environment::TypeConstructor)>,
    constructors: Seq<(String, Vec<String>)>,
    accessors: Seq<(String, crate::environment::AccessorsMap)>,
    module_name: Seq<char>,
)
    ensures
        keep_public_values(keep_public_values(values)) == keep_public_values(values),
        keep_own_types(keep_own_types(types, module_name), module_name) == keep_own_types(
            types,
            module_name,
        ),
        keep_surviving_constructors(
            keep_surviving_constructors(constructors, types),
            types,
        ) == keep_surviving_constructors(constructors, types),
        keep_public_accessors(keep_public_accessors(accessors)) == keep_public_accessors(accessors),
{
    lemma_keep_public_values_idem(values);
    lemma_keep_own_types_idem(types, module_name);
    lemma_keep_surviving_constructors_idem(constructors, types);
    lemma_keep_public_accessors_idem(accessors);
}

proof fn lemma_keep_public_values_idem(s: Seq<(String, crate::environment::ValueConstructor)>)
    ensures
        keep_public_values(keep_public_values(s)) == keep_public_values(s),
    decreases s.len(),
{
    if s.len() == 0 {
        assert(keep_public_values(keep_public_values(s)) =~= keep_public_values(s));
    } else {
        let tl = s.subrange(1, s.len() as int);
        lemma_keep_public_values_idem(tl);
        if s[0].1.public {
            let k = keep_public_values(s);
            assert(k == seq![s[0]] + keep_public_values(tl));
            assert(k[0] == s[0]);
            assert(k.subrange(1, k.len() as int) =~= keep_public_values(tl));
            assert(keep_public_values(k) =~= keep_public_values(s));
        }
    }
}

proof fn lemma_keep_own_types_idem(
    s: Seq<(String, crate::environment::TypeConstructor)>,
    module_name: Seq<char>,
)
    ensures
        keep_own_types(keep_own_types(s, module_name), module_name) == keep_own_types(
            s,
            module_name,
        ),
    decreases s.len(),
{
    if s.len() == 0 {
        assert(keep_own_types(keep_own_types(s, module_name), module_name) =~= keep_own_types(
            s,
            module_name,
        ));
    } else {
        let tl = s.subrange(1, s.len() as int);
        lemma_keep_own_types_idem(tl, module_name);
        if s[0].1.public && s[0].1.module@ == module_name {
            let k = keep_own_types(s, module_name);
            assert(k == seq![s[0]] + keep_own_types(tl, module_name));
            assert(k[0] == s[0]);
            assert(k.subrange(1, k.len() as int) =~= keep_own_types(tl, module_name));
            assert(keep_own_types(k, module_name) =~= keep_own_types(s, module_name));
        }
    }
}

proof fn lemma_keep_surviving_constructors_idem(
    s: Seq<(String, Vec<String>)>,
    types: Seq<(String, crate::environment::TypeConstructor)>,
)
    ensures
        keep_surviving_constructors(keep_surviving_constructors(s, types), types)
            == keep_surviving_constructors(s, types),
    decreases s.len(),
{
    if s.len() == 0 {
        assert(keep_surviving_constructors(keep_surviving_constructors(s, types), types)
            =~= keep_surviving_constructors(s, types));
    } else {
        let tl = s.subrange(1, s.len() as int);
        lemma_keep_surviving_constructors_idem(tl, types);
        if crate::environment::assoc_index_of(types, s[0].0@) is Some {
            let k = keep_surviving_constructors(s, types);
            assert(k == seq![s[0]] + keep_surviving_constructors(tl, types));
            assert(k[0] == s[0]);
            assert(k.subrange(1, k.len() as int) =~= keep_surviving_constructors(tl, types));
            assert(keep_surviving_constructors(k, types) =~= keep_surviving_constructors(s, types));
        }
    }
}

proof fn lemma_keep_public_accessors_idem(s: Seq<(String, crate::environment::AccessorsMap)>)
    ensures
        keep_public_accessors(keep_public_accessors(s)) == keep_public_accessors(s),
    decreases s.len(),
{
    if s.len() == 0 {
        assert(keep_public_accessors(keep_public_accessors(s)) =~= keep_public_accessors(s));
    } else {
        let tl = s.subrange(1, s.len() as int);
        lemma_keep_public_accessors_idem(tl);
        if s[0].1.public {
            let k = keep_public_accessors(s);
            assert(k == seq![s[0]] + keep_public_accessors(tl));
            assert(k[0] == s[0]);
            assert(k.subrange(1, k.len() as int) =~= keep_public_accessors(tl));
            assert(keep_public_accessors(k) =~= keep_public_accessors(s));
        }
    }
}

/// Whether the application at the head is a private type.
pub open spec fn is_private_app(t: Ty) -> bool {
    t matches Ty::App { public, .. } && !public
}

/// Whether any private type application is reachable in the term.
pub open spec fn has_private(t: Ty) -> bool
    decreases t, 0int,
{
    match t {
        Ty::App { public, args, .. } => !public || has_private_seq(args),
        Ty::Fn { args, ret } => has_private_seq(args) || has_private(*ret),
        Ty::Tuple { elems } => has_private_seq(elems),
        Ty::Pair { fst, snd } => has_private(*fst) || has_private(*snd),
        Ty::Var { .. } => false,
    }
}

/// Whether any element of the sequence reaches a private application.
pub open spec fn has_private_seq(ts: Seq<Ty>) -> bool
    decreases ts, 1int,
{
    if ts.len() == 0 {
        false
    } else {
        has_private(ts[0]) || has_private_seq(ts.subrange(1, ts.len() as int))
    }
}

/// `has_private_seq` holds exactly when some element reaches one.
pub proof fn lemma_has_private_seq(ts: Seq<Ty>)
    ensures
        has_private_seq(ts) <==> exists|i: int| 0 <= i < ts.len() && has_private(#[trigger] ts[i]),
    decreases ts,
{
    if ts.len() > 0 {
        let tl = ts.subrange(1, ts.len() as int);
        lemma_has_private_seq(tl);
        if has_private_seq(ts) {
            if has_private(ts[0]) {
            } else {
                let i = choose|i: int| 0 <= i < tl.len() && has_private(tl[i]);
                assert(has_private(ts[i + 1]));
            }
        }
        if exists|i: int| 0 <= i < ts.len() && has_private(#[trigger] ts[i]) {
            let i = choose|i: int| 0 <= i < ts.len() && has_private(ts[i]);
            if i > 0 {
                assert(has_private(tl[i - 1]));
            }
        }
    }
}

/// Find a private type embedded in the term, if any.
pub fn find_private_type(t: &Type) -> (r: Option<Type>)
    ensures
        r is Some <==> has_private(t@),
        r matches Some(p) ==> is_private_app(p@),
    decreases *t, 0int,
{
    match t {
        Type::App { public, args, .. } => {
            if !*public {
                Some(crate::tipo::clone_type(t))
            } else {
                find_private_type_vec(args)
            }
        },
        Type::Fn { args, ret } => {
            match find_private_type_vec(args) {
                Some(p) => Some(p),
                None => find_private_type(ret),
            }
        },
        Type::Tuple { elems } => find_private_type_vec(elems),
        Type::Pair { fst, snd } => {
            match find_private_type(fst) {
                Some(p) => Some(p),
                None => find_private_type(snd),
            }
        },
        Type::Var { .. } => None,
    }
}

/// Elementwise `find_private_type`.
fn find_private_type_vec(ts: &Vec<Type>) -> (r: Option<Type>)
    ensures
        r is Some <==> has_private_seq(tys_of(ts@)),
        r matches Some(p) ==> is_private_app(p@),
    decreases ts@, 1int,
{
    let n = ts.len();
    let mut i: usize = 0;
    while i < n
        invariant
            n == ts@.len(),
            i <= n,
            forall|j: int| 0 <= j < i ==> !has_private(#[trigger] ts@[j]@),
        decreases n - i,
    {
        match find_private_type(&ts[i]) {
            Some(p) => {
                proof {
                    lemma_tys_of(ts@);
                    lemma_has_private_seq(tys_of(ts@));
                    assert(has_private(tys_of(ts@)[i as int]));
                }
                return Some(p);
            },
            None => {},
        }
        i = i + 1;
    }
    proof {
        lemma_tys_of(ts@);
        lemma_has_private_seq(tys_of(ts@));
        assert forall|j: int| 0 <= j < ts@.len() implies !has_private(
            #[trigger] tys_of(ts@)[j],
        ) by {
            assert(!has_private(ts@[j]@));
        }
    }
    None
}

} // verus!

verus! {

/// What §-style validator inference guarantees of its result against the
/// untyped source: names kept, shared parameters stripped and counted,
/// every handler a recognized purpose at its required arity, the fallback
/// at arity one, no argument type left unsolved, and no unreachable
/// custom fallback.
pub open spec fn validator_shape_ok(
    v: crate::ast::UntypedValidator,
    tv: crate::ast::TypedValidator,
) -> bool {
    &&& tv.name@ == v.name@
    &&& tv.params@.len() == v.params@.len()
    &&& tv.handlers@.len() == v.handlers@.len()
    &&& forall|i: int|
        0 <= i < tv.handlers@.len() ==> (#[trigger] tv.handlers@[i]).name@ == v.handlers@[i].name@
    &&& forall|i: int| 0 <= i < tv.handlers@.len() ==> is_purpose((#[trigger] tv.handlers@[i]).name@)
    &&& forall|i: int|
        0 <= i < tv.handlers@.len() ==> (#[trigger] tv.handlers@[i]).arguments@.len()
            == purpose_arity(tv.handlers@[i].name@)
    &&& forall|i: int, k: int|
        0 <= i < tv.handlers@.len() && 0 <= k < tv.handlers@[i].arguments@.len() ==> !((
        #[trigger] tv.handlers@[i].arguments@[k]).tipo@ is Var)
    &&& forall|i: int|
        0 <= i < tv.handlers@.len() ==> crate::tipo::is_named_ty(
            (#[trigger] tv.handlers@[i]).return_type@,
            "Bool"@,
        )
    &&& forall|i: int|
        0 <= i < tv.handlers@.len() && (#[trigger] tv.handlers@[i]).name@ == "spend"@ ==> (
        tv.handlers@[i].arguments@.len() > 0 && crate::tipo::is_named_ty(
            tv.handlers@[i].arguments@[0].tipo@,
            "Option"@,
        ))
    &&& crate::tipo::is_named_ty(tv.fallback.return_type@, "Bool"@)
    &&& tv.fallback.name@ == v.fallback.name@
    &&& tv.fallback.arguments@.len() == 1
    &&& forall|k: int|
        0 <= k < tv.fallback.arguments@.len() ==> !((#[trigger] tv.fallback.arguments@[k]).tipo@
            is Var)
    &&& forall|k: int| 0 <= k < tv.params@.len() ==> !((#[trigger] tv.params@[k]).tipo@ is Var)
    &&& !(v.handlers@.len() >= 6 && !is_default_fallback_shape(v.fallback))
}

/// The function underlying a test or benchmark definition.
fn test_to_function(t: &crate::ast::UntypedTest) -> (r: UntypedFunction)
    ensures
        r.arguments@.len() == t.arguments@.len(),
        r.name@ == t.name@,
{
    let ret_ann = match &t.return_annotation {
        Some(a) => Some(crate::ast::clone_annotation(a)),
        None => None,
    };
    UntypedFunction {
        location: t.location,
        name: t.name.clone(),
        public: t.public,
        arguments: crate::ast::via_args(&t.arguments),
        body: t.body.clone(),
        return_annotation: ret_ann,
        end_position: t.end_position,
    }
}

/// Whether an inferred handler passes the validator rules: it returns a
/// boolean, names a recognized purpose, takes that purpose's arity after
/// the shared parameters are stripped, and a spend handler's first own
/// argument resolves to an optional type.
pub open spec fn handler_rules_ok(
    tf: crate::ast::TypedFunction,
    params_length: nat,
    s: Seq<crate::subst::VEntry>,
) -> bool {
    &&& crate::tipo::is_named_ty(tf.return_type@, "Bool"@)
    &&& is_purpose(tf.name@)
    &&& tf.arguments@.len() - params_length == purpose_arity(tf.name@)
    &&& (tf.name@ == "spend"@ ==> crate::tipo::is_named_ty(
        app(s, tf.arguments@[params_length as int].tipo@),
        "Option"@,
    ))
}

/// Hold one inferred handler to the validator rules, in order, each a
/// hard failure carrying exactly the offending data: a non-boolean
/// return is rejected with that return type; an unrecognized name with
/// the full recognized set; a wrong post-strip argument count with both
/// counts; a spend handler whose first own argument does not resolve to
/// an optional type with the expected optional wrapper against the given
/// type. On success the shared parameters are stripped back off and any
/// argument type still unsolved defaults to the universal data type.
fn check_handler(
    typed_fun: crate::ast::TypedFunction,
    params_length: usize,
    environment: &Environment,
) -> (r: Result<crate::ast::TypedFunction, Error>)
    requires
        env_wf(*environment),
        typed_fun.arguments@.len() >= params_length,
    ensures
        r is Ok <==> handler_rules_ok(typed_fun, params_length as nat, environment.subst@),
        !crate::tipo::is_named_ty(typed_fun.return_type@, "Bool"@) ==> (r matches Err(e) && e
            matches Error::ValidatorMustReturnBool { location, return_type } && location
            == typed_fun.location && return_type@ == typed_fun.return_type@),
        crate::tipo::is_named_ty(typed_fun.return_type@, "Bool"@) && !is_purpose(typed_fun.name@)
            ==> (r matches Err(e) && e matches Error::UnknownPurpose {
            location,
            available_purposes,
        } && location == typed_fun.location && recognized_purposes(available_purposes@)),
        crate::tipo::is_named_ty(typed_fun.return_type@, "Bool"@) && is_purpose(typed_fun.name@)
            && typed_fun.arguments@.len() - params_length != purpose_arity(typed_fun.name@) ==> (r
            matches Err(e) && e matches Error::IncorrectValidatorArity {
            location,
            count,
            expected,
        } && location == typed_fun.location && count == typed_fun.arguments@.len() - params_length
            && expected == purpose_arity(typed_fun.name@)),
        crate::tipo::is_named_ty(typed_fun.return_type@, "Bool"@) && is_purpose(typed_fun.name@)
            && typed_fun.arguments@.len() - params_length == purpose_arity(typed_fun.name@)
            && typed_fun.name@ == "spend"@ && !crate::tipo::is_named_ty(
            app(environment.subst@, typed_fun.arguments@[params_length as int].tipo@),
            "Option"@,
        ) ==> (r matches Err(e) && e matches Error::CouldNotUnify {
            location,
            expected,
            given,
            situation,
        } && location == typed_fun.arguments@[params_length as int].location && given@ == app(
            environment.subst@,
            typed_fun.arguments@[params_length as int].tipo@,
        ) && expected@ == crate::tipo::option_ty(
            app(environment.subst@, typed_fun.arguments@[params_length as int].tipo@),
        ) && situation is None),
        r matches Ok(tf) ==> (tf.name == typed_fun.name && tf.location == typed_fun.location
            && tf.return_type == typed_fun.return_type && tf.arguments@.len()
            == typed_fun.arguments@.len() - params_length && crate::tipo::is_named_ty(
            tf.return_type@,
            "Bool"@,
        ) && is_purpose(tf.name@) && tf.arguments@.len() == purpose_arity(tf.name@)),
        r matches Ok(tf2) ==> (forall|k: int|
            0 <= k < tf2.arguments@.len() ==> !((#[trigger] tf2.arguments@[k]).tipo@ is Var)),
        r matches Ok(tf3) ==> (tf3.name@ == "spend"@ ==> (tf3.arguments@.len() > 0
            && crate::tipo::is_named_ty(tf3.arguments@[0].tipo@, "Option"@))),
{
    if !typed_fun.return_type.is_bool() {
        return Err(
            Error::ValidatorMustReturnBool {
                location: typed_fun.location,
                return_type: typed_fun.return_type,
            },
        );
    }
    if !has_valid_purpose_name(&typed_fun.name) {
        return Err(
            Error::UnknownPurpose {
                location: typed_fun.location,
                available_purposes: available_handler_names(),
            },
        );
    }
    // Strip the shared parameters back off.
    let ghost args0 = typed_fun.arguments@;
    let mut typed_fun = typed_fun;
    let mut rest: Vec<crate::ast::TypedArg> = typed_fun.arguments;
    typed_fun.arguments = Vec::new();
    let mut d: usize = 0;
    while d < params_length
        invariant
            d <= params_length,
            params_length <= args0.len(),
            rest@ == args0.subrange(d as int, args0.len() as int),
        decreases params_length - d,
    {
        let ghost before = rest@;
        let _dropped = rest.remove(0);
        proof {
            assert(rest@ =~= before.subrange(1, before.len() as int));
            assert(rest@ =~= args0.subrange(d + 1, args0.len() as int));
        }
        d = d + 1;
    }
    let expected_arity = validator_arity(&typed_fun.name);
    if rest.len() != expected_arity {
        return Err(
            Error::IncorrectValidatorArity {
                location: typed_fun.location,
                count: rest.len(),
                expected: expected_arity,
            },
        );
    }
    if typed_fun.name == "spend".to_owned() {
        let first = environment.subst.apply(&rest[0].tipo);
        proof {
            assert(rest@[0] == args0[params_length as int]);
        }
        if !first.is_option() {
            return Err(
                Error::CouldNotUnify {
                    location: rest[0].location,
                    expected: Type::option(crate::tipo::clone_type(&first)),
                    given: first,
                    situation: None,
                },
            );
        }
    }
    let defaulted = default_unbound_args(rest, environment);
    proof {
        if typed_fun.name@ == "spend"@ {
            assert(defaulted@[0].tipo@ == app(environment.subst@, args0[params_length as int].tipo@));
        }
    }
    typed_fun.arguments = defaulted;
    Ok(typed_fun)
}

/// Hold the inferred fallback to its rules: it returns a boolean and,
/// after the shared parameters are stripped into the validator's typed
/// parameter list, takes exactly one argument. Unsolved argument types
/// default to the universal data type on both sides.
fn check_fallback(
    typed_fallback: crate::ast::TypedFunction,
    params_length: usize,
    environment: &Environment,
) -> (r: Result<(Vec<crate::ast::TypedArg>, crate::ast::TypedFunction), Error>)
    requires
        env_wf(*environment),
        typed_fallback.arguments@.len() >= params_length,
    ensures
        r is Ok <==> (crate::tipo::is_named_ty(typed_fallback.return_type@, "Bool"@)
            && typed_fallback.arguments@.len() - params_length == 1),
        !crate::tipo::is_named_ty(typed_fallback.return_type@, "Bool"@) ==> (r matches Err(e) && e
            matches Error::ValidatorMustReturnBool { location, return_type } && location
            == typed_fallback.location && return_type@ == typed_fallback.return_type@),
        crate::tipo::is_named_ty(typed_fallback.return_type@, "Bool"@)
            && typed_fallback.arguments@.len() - params_length != 1 ==> (r matches Err(e) && e
            matches Error::IncorrectValidatorArity { location, count, expected } && location
            == typed_fallback.location && count == typed_fallback.arguments@.len() - params_length
            && expected == 1),
        r matches Ok(p) ==> (p.0@.len() == params_length && p.1.name == typed_fallback.name
            && p.1.return_type == typed_fallback.return_type && p.1.arguments@.len() == 1
            && crate::tipo::is_named_ty(p.1.return_type@, "Bool"@)),
        r matches Ok(p2) ==> ((forall|k: int|
            0 <= k < p2.0@.len() ==> !((#[trigger] p2.0@[k]).tipo@ is Var)) && (forall|k: int|
            0 <= k < p2.1.arguments@.len() ==> !((#[trigger] p2.1.arguments@[k]).tipo@ is Var))),
{
    if !typed_fallback.return_type.is_bool() {
        return Err(
            Error::ValidatorMustReturnBool {
                location: typed_fallback.location,
                return_type: typed_fallback.return_type,
            },
        );
    }
    let ghost args0 = typed_fallback.arguments@;
    let mut typed_fallback = typed_fallback;
    let mut rest: Vec<crate::ast::TypedArg> = typed_fallback.arguments;
    typed_fallback.arguments = Vec::new();
    let mut typed_params: Vec<crate::ast::TypedArg> = Vec::new();
    let mut d: usize = 0;
    while d < params_length
        invariant
            d <= params_length,
            params_length <= args0.len(),
            typed_params@.len() == d,
            rest@ == args0.subrange(d as int, args0.len() as int),
        decreases params_length - d,
    {
        let ghost before = rest@;
        let p = rest.remove(0);
        proof {
            assert(rest@ =~= before.subrange(1, before.len() as int));
            assert(rest@ =~= args0.subrange(d + 1, args0.len() as int));
        }
        typed_params.push(p);
        d = d + 1;
    }
    let typed_params = default_unbound_args(typed_params, environment);
    if rest.len() != 1 {
        return Err(
            Error::IncorrectValidatorArity {
                location: typed_fallback.location,
                count: rest.len(),
                expected: 1,
            },
        );
    }
    typed_fallback.arguments = default_unbound_args(rest, environment);
    Ok((typed_params, typed_fallback))
}

/// Infer one validator: each handler is inferred as a function over the
/// shared parameters followed by its own, must return a boolean, name a
/// recognized purpose and take the arity that purpose requires; a spend
/// handler's first own argument must be optional; the fallback is held
/// to arity one and to the exhaustiveness rule.
fn infer_validator(
    v: &crate::ast::UntypedValidator,
    environment: &mut Environment,
) -> (r: Result<crate::ast::TypedValidator, Error>)
    requires
        env_wf(*old(environment)),
    ensures
        env_wf(*final(environment)),
        r matches Ok(tv) ==> validator_shape_ok(*v, tv),
{
    let params_length = v.params.len();
    let fallback_name = crate::environment::handler_name(&v.name, &v.fallback.name);
    put_params_in_scope(&fallback_name, environment, &v.params);
    let mut typed_handlers: Vec<crate::ast::TypedFunction> = Vec::new();
    let mut hi: usize = 0;
    while hi < v.handlers.len()
        invariant
            env_wf(*environment),
            params_length == v.params@.len(),
            hi <= v.handlers@.len(),
            typed_handlers@.len() == hi,
            forall|i: int|
                0 <= i < hi ==> (#[trigger] typed_handlers@[i]).name@ == v.handlers@[i].name@,
            forall|i: int| 0 <= i < hi ==> is_purpose((#[trigger] typed_handlers@[i]).name@),
            forall|i: int|
                0 <= i < hi ==> (#[trigger] typed_handlers@[i]).arguments@.len() == purpose_arity(
                    typed_handlers@[i].name@,
                ),
            forall|i: int, k: int|
                0 <= i < hi && 0 <= k < typed_handlers@[i].arguments@.len() ==> !((
                #[trigger] typed_handlers@[i].arguments@[k]).tipo@ is Var),
            forall|i: int|
                0 <= i < hi ==> crate::tipo::is_named_ty(
                    (#[trigger] typed_handlers@[i]).return_type@,
                    "Bool"@,
                ),
            forall|i: int|
                0 <= i < hi && (#[trigger] typed_handlers@[i]).name@ == "spend"@ ==> (
                typed_handlers@[i].arguments@.len() > 0 && crate::tipo::is_named_ty(
                    typed_handlers@[i].arguments@[0].tipo@,
                    "Option"@,
                )),
        decreases v.handlers@.len() - hi,
    {
        let h = &v.handlers[hi];
        let hname = crate::environment::handler_name(&v.name, &h.name);
        let mut combined_args = crate::ast::clone_args(&v.params);
        let mut own_args = crate::ast::clone_args(&h.arguments);
        combined_args.append(&mut own_args);
        let ret_ann = match &h.return_annotation {
            Some(a) => Some(crate::ast::clone_annotation(a)),
            None => None,
        };
        let combined = UntypedFunction {
            location: h.location,
            name: hname,
            public: h.public,
            arguments: combined_args,
            body: h.body.clone(),
            return_annotation: ret_ann,
            end_position: h.end_position,
        };
        let mut typed_fun = match crate::expr::infer_function(&combined, environment) {
            Ok(t) => t,
            Err(e) => {
                return Err(e);
            },
        };
        typed_fun.name = h.name.clone();
        let typed_fun = match check_handler(typed_fun, params_length, environment) {
            Ok(t) => t,
            Err(e) => {
                return Err(e);
            },
        };
        typed_handlers.push(typed_fun);
        hi = hi + 1;
    }
    // Once every purpose but the fallback is handled, a custom fallback
    // is unreachable.
    match check_fallback_exhaustiveness(typed_handlers.len(), &v.fallback) {
        Ok(()) => {},
        Err(e) => {
            return Err(e);
        },
    }
    let mut combined_args = crate::ast::clone_args(&v.params);
    let mut own_args = crate::ast::clone_args(&v.fallback.arguments);
    combined_args.append(&mut own_args);
    let ret_ann = match &v.fallback.return_annotation {
        Some(a) => Some(crate::ast::clone_annotation(a)),
        None => None,
    };
    let combined = UntypedFunction {
        location: v.fallback.location,
        name: fallback_name,
        public: v.fallback.public,
        arguments: combined_args,
        body: v.fallback.body.clone(),
        return_annotation: ret_ann,
        end_position: v.fallback.end_position,
    };
    let mut typed_fallback = match crate::expr::infer_function(&combined, environment) {
        Ok(t) => t,
        Err(e) => {
            return Err(e);
        },
    };
    typed_fallback.name = v.fallback.name.clone();
    let (typed_params, typed_fallback) = match check_fallback(
        typed_fallback,
        params_length,
        environment,
    ) {
        Ok(p) => p,
        Err(e) => {
            return Err(e);
        },
    };
    Ok(
        crate::ast::TypedValidator {
            location: v.location,
            name: v.name.clone(),
            params: typed_params,
            handlers: typed_handlers,
            fallback: typed_fallback,
            end_position: v.end_position,
        },
    )
}

/// Any argument type still structurally unsolved after inference
/// defaults to the universal opaque data type; every other argument
/// keeps its fully resolved type. Names, locations and annotations are
/// untouched.
fn default_unbound_args(
    mut args: Vec<crate::ast::TypedArg>,
    environment: &Environment,
) -> (r: Vec<crate::ast::TypedArg>)
    requires
        env_wf(*environment),
    ensures
        r@.len() == args@.len(),
        forall|k: int|
            0 <= k < r@.len() ==> (#[trigger] r@[k]).tipo@ == (if app(
                environment.subst@,
                args@[k].tipo@,
            ) is Var {
                crate::tipo::data_ty()
            } else {
                app(environment.subst@, args@[k].tipo@)
            }),
        forall|k: int|
            0 <= k < r@.len() ==> ((#[trigger] r@[k]).arg_name == args@[k].arg_name && r@[k].location
                == args@[k].location && r@[k].annotation == args@[k].annotation),
        forall|k: int| 0 <= k < r@.len() ==> !((#[trigger] r@[k]).tipo@ is Var),
{
    let ghost args0 = args@;
    let mut out: Vec<crate::ast::TypedArg> = Vec::new();
    while args.len() > 0
        invariant
            env_wf(*environment),
            out@.len() + args@.len() == args0.len(),
            args@ == args0.subrange(out@.len() as int, args0.len() as int),
            forall|k: int|
                0 <= k < out@.len() ==> (#[trigger] out@[k]).tipo@ == (if app(
                    environment.subst@,
                    args0[k].tipo@,
                ) is Var {
                    crate::tipo::data_ty()
                } else {
                    app(environment.subst@, args0[k].tipo@)
                }),
            forall|k: int|
                0 <= k < out@.len() ==> ((#[trigger] out@[k]).arg_name == args0[k].arg_name
                    && out@[k].location == args0[k].location && out@[k].annotation
                    == args0[k].annotation),
            forall|k: int| 0 <= k < out@.len() ==> !((#[trigger] out@[k]).tipo@ is Var),
        decreases args@.len(),
    {
        let ghost before = args@;
        let a = args.remove(0);
        proof {
            assert(args@ =~= before.subrange(1, before.len() as int));
            assert(args@ =~= args0.subrange(out@.len() as int + 1, args0.len() as int));
            assert(a == args0[out@.len() as int]);
        }
        let applied = environment.subst.apply(&a.tipo);
        let tipo = if applied.is_var() {
            Type::data()
        } else {
            applied
        };
        out.push(
            crate::ast::TypedArg {
                arg_name: a.arg_name,
                location: a.location,
                annotation: a.annotation,
                tipo,
            },
        );
    }
    proof {
        assert(args0.subrange(args0.len() as int, args0.len() as int) =~= Seq::empty());
    }
    out
}

/// Infer one definition, dispatching on its kind.
pub fn infer_definition(
    def: crate::ast::UntypedDefinition,
    hydrators: &mut Vec<(String, crate::hydrator::Hydrator)>,
    environment: &mut Environment,
    modules: &Vec<(String, crate::environment::TypeInfo)>,
) -> (r: Result<crate::ast::TypedDefinition, Error>)
    requires
        env_wf(*old(environment)),
    ensures
        env_wf(*final(environment)),
        r matches Ok(td) ==> ((def is Fn <==> td is Fn) && (def is Validator <==> td is Validator)
            && (def is Test <==> td is Test) && (def is Benchmark <==> td is Benchmark) && (def
            is TypeAlias <==> td is TypeAlias) && (def is DataType <==> td is DataType) && (def
            is Use <==> td is Use) && (def is ModuleConstant <==> td is ModuleConstant)),
        def matches crate::ast::UntypedDefinition::Use(u) ==> (r is Ok
            <==> crate::environment::assoc_index_of(modules@, u.module@) is Some),
        def is Use ==> *final(environment) == *old(environment),
        def matches crate::ast::UntypedDefinition::TypeAlias(a) && crate::environment::assoc_index_of(
            old(environment).module_types@,
            a.alias@,
        ) is Some ==> r is Ok,
        def is Test && def->Test_0.arguments@.len() > 1 ==> (r matches Err(e) && e
            matches Error::IncorrectTestArity { count, .. } && count
            == def->Test_0.arguments@.len()),
        def is Test && r is Err ==> ((r matches Err(ex) && ex is IncorrectTestArity)
            ==> def->Test_0.arguments@.len() > 1),
        def is Benchmark && def->Benchmark_0.arguments@.len() != 1 ==> (r matches Err(e2) && e2
            matches Error::IncorrectBenchmarkArity { location } && location
            == def->Benchmark_0.location),
        def is Benchmark && r is Err ==> ((r matches Err(ex2) && ex2 is IncorrectBenchmarkArity)
            ==> def->Benchmark_0.arguments@.len() != 1),
        r matches Ok(td3) ==> (def is Test ==> (td3 is Test && td3->Test_0.arguments@.len()
            == def->Test_0.arguments@.len() && (forall|i: int|
            0 <= i < td3->Test_0.arguments@.len() ==> fuzzable(
                (#[trigger] td3->Test_0.arguments@[i]).arg.tipo@,
            )))),
        r matches Ok(td4) ==> (def is Benchmark ==> (td4 is Benchmark
            && td4->Benchmark_0.arguments@.len() == 1 && fuzzable(
            td4->Benchmark_0.arguments@[0].arg.tipo@,
        ))),
        r matches Ok(td5) ==> (def is ModuleConstant ==> (td5 is ModuleConstant && (
        td5->ModuleConstant_0.tipo@ is Fn ==> concrete(td5->ModuleConstant_0.tipo@))
            && crate::environment::scope_index_of(
            final(environment).scope@,
            td5->ModuleConstant_0.name@,
        ) is Some && crate::environment::assoc_index_of(
            final(environment).module_values@,
            td5->ModuleConstant_0.name@,
        ) is Some)),
        r matches Ok(td) ==> (def is Validator ==> (td is Validator && validator_shape_ok(
            def->Validator_0,
            td->Validator_0,
        ))),
        r matches Ok(td2) ==> (def is DataType ==> (td2 is DataType && data_fields_ok(
            td2->DataType_0,
        ) && data_decorators_ok(td2->DataType_0))),
{
    match def {
        crate::ast::UntypedDefinition::Fn(f) => {
            match crate::expr::infer_function(&f, environment) {
                Ok(tf) => Ok(crate::ast::TypedDefinition::Fn(tf)),
                Err(e) => Err(e),
            }
        },
        crate::ast::UntypedDefinition::Validator(v) => {
            let mark = environment.open_new_scope();
            let r = infer_validator(&v, environment);
            environment.close_scope(mark);
            match r {
                Ok(tv) => Ok(crate::ast::TypedDefinition::Validator(tv)),
                Err(e) => Err(e),
            }
        },
        crate::ast::UntypedDefinition::Test(t) => {
            let mark = environment.open_new_scope();
            let r = infer_test(&t, hydrators, environment);
            environment.close_scope(mark);
            match r {
                Ok(tt) => Ok(crate::ast::TypedDefinition::Test(tt)),
                Err(e) => Err(e),
            }
        },
        crate::ast::UntypedDefinition::Benchmark(b) => {
            let mark = environment.open_new_scope();
            let r = infer_benchmark(&b, hydrators, environment);
            environment.close_scope(mark);
            match r {
                Ok(tb) => Ok(crate::ast::TypedDefinition::Benchmark(tb)),
                Err(e) => Err(e),
            }
        },
        crate::ast::UntypedDefinition::TypeAlias(a) => {
            let tc = match environment.get_type_constructor(&None, &a.alias, a.location) {
                Ok(tc) => tc,
                Err(e) => {
                    return Err(e);
                },
            };
            Ok(
                crate::ast::TypedDefinition::TypeAlias(
                    crate::ast::TypedTypeAlias {
                        location: a.location,
                        alias: a.alias,
                        public: a.public,
                        parameters: a.parameters,
                        annotation: a.annotation,
                        tipo: tc.tipo,
                    },
                ),
            )
        },
        crate::ast::UntypedDefinition::DataType(d) => {
            match infer_data_type(d, environment) {
                Ok(td) => Ok(crate::ast::TypedDefinition::DataType(td)),
                Err(e) => Err(e),
            }
        },
        crate::ast::UntypedDefinition::Use(u) => {
            match crate::environment::assoc_find(modules, &u.module) {
                Some(ix) => Ok(
                    crate::ast::TypedDefinition::Use(
                        crate::ast::TypedUse {
                            location: u.location,
                            module: u.module,
                            unqualified: u.unqualified,
                            package: modules[ix].1.package.clone(),
                        },
                    ),
                ),
                None => Err(Error::UnknownModule { location: u.location, name: u.module }),
            }
        },
        crate::ast::UntypedDefinition::ModuleConstant(c) => {
            let typed_expr = match crate::expr::infer_expr(environment, &c.value) {
                Ok(t) => t,
                Err(e) => {
                    return Err(e);
                },
            };
            match &c.annotation {
                Some(ann) => {
                    let mut hydrator = crate::hydrator::Hydrator::new();
                    let t = match hydrator.type_from_annotation(ann, environment) {
                        Ok(t) => t,
                        Err(e) => {
                            return Err(e);
                        },
                    };
                    match environment.unify(&t, typed_expr.tipo(), c.location, false) {
                        Ok(()) => {},
                        Err(e) => {
                            return Err(e);
                        },
                    }
                },
                None => {},
            }
            // The constant's own defining assignment does not count as a
            // use.
            environment.increment_usage(&c.name);
            let tipo = environment.subst.apply(typed_expr.tipo());
            if tipo.is_function() && !type_is_concrete(&tipo) {
                return Err(Error::GenericLeftAtBoundary { location: c.location });
            }
            if let Some(_) = crate::environment::assoc_find(&environment.module_values, &c.name) {
                return Err(Error::DuplicateName { location: c.location, name: c.name.clone() });
            }
            let variant = crate::environment::ValueConstructorVariant::ModuleConstant {
                location: c.location,
                module: environment.module_name.clone(),
                name: c.name.clone(),
            };
            environment.insert_variable(
                c.name.clone(),
                crate::environment::clone_variant(&variant),
                crate::tipo::clone_type(&tipo),
            );
            environment.module_values.push(
                (
                    c.name.clone(),
                    crate::environment::ValueConstructor {
                        public: c.public,
                        variant,
                        tipo: crate::tipo::clone_type(&tipo),
                    },
                ),
            );
            if !c.public {
                environment.init_usage(
                    c.name.clone(),
                    crate::environment::EntityKind::PrivateConstant,
                    c.location,
                );
            }
            Ok(
                crate::ast::TypedDefinition::ModuleConstant(
                    crate::ast::TypedModuleConstant {
                        location: c.location,
                        name: c.name,
                        public: c.public,
                        annotation: c.annotation,
                        value: typed_expr,
                        tipo,
                    },
                ),
            )
        },
    }
}

/// Infer one test: at most one argument, whose type comes from its
/// generator; the body must type as boolean or void.
fn infer_test(
    t: &crate::ast::UntypedTest,
    hydrators: &mut Vec<(String, crate::hydrator::Hydrator)>,
    environment: &mut Environment,
) -> (r: Result<crate::ast::TypedTest, Error>)
    requires
        env_wf(*old(environment)),
    ensures
        env_wf(*final(environment)),
        t.arguments@.len() > 1 ==> (r matches Err(e) && e matches Error::IncorrectTestArity {
            count,
            location,
        } && count == t.arguments@.len() && location == t.arguments@[1].arg.location),
        r matches Err(e2) && e2 is IncorrectTestArity ==> t.arguments@.len() > 1,
        r matches Ok(tt) ==> (tt.arguments@.len() == t.arguments@.len() && (forall|i: int|
            0 <= i < tt.arguments@.len() ==> fuzzable(
                (#[trigger] tt.arguments@[i]).arg.tipo@,
            ))),
{
    let typed_via: Option<(crate::ast::TypedExpr, Type)>;
    let annotation: Option<crate::ast::Annotation>;
    if t.arguments.len() > 0 {
        if t.arguments.len() > 1 {
            return Err(
                Error::IncorrectTestArity {
                    location: t.arguments[1].arg.location,
                    count: t.arguments.len(),
                },
            );
        }
        match extract_via_information(&t.name, &t.arguments[0], hydrators, environment, false) {
            Ok((tv, ann)) => {
                typed_via = Some(tv);
                annotation = ann;
            },
            Err(e) => {
                return Err(e);
            },
        }
    } else {
        typed_via = None;
        annotation = None;
    }
    let f = test_to_function(t);
    let typed_f = match crate::expr::infer_function(&f, environment) {
        Ok(tf) => tf,
        Err(e) => {
            return Err(e);
        },
    };
    let is_bool = environment.unify(
        &typed_f.return_type,
        &Type::boolean(),
        typed_f.location,
        false,
    );
    let is_void = environment.unify(&typed_f.return_type, &Type::void(), typed_f.location, false);
    if is_bool.is_err() && is_void.is_err() {
        return Err(Error::IllegalTestType { location: typed_f.location });
    }
    let mut arguments: Vec<crate::ast::TypedArgVia> = Vec::new();
    match typed_via {
        Some((via, tipo)) => {
            let mut args = typed_f.arguments;
            proof {
                assert(args@.len() == 1);
            }
            let a = args.remove(0);
            arguments.push(
                crate::ast::TypedArgVia {
                    arg: crate::ast::TypedArg {
                        arg_name: a.arg_name,
                        location: a.location,
                        annotation,
                        tipo,
                    },
                    via,
                },
            );
        },
        None => {},
    }
    Ok(
        crate::ast::TypedTest {
            location: typed_f.location,
            name: typed_f.name,
            public: typed_f.public,
            arguments,
            body: typed_f.body,
            return_annotation: typed_f.return_annotation,
            return_type: typed_f.return_type,
            end_position: typed_f.end_position,
        },
    )
}

/// Infer one benchmark: exactly one argument, whose type comes from its
/// sized generator.
fn infer_benchmark(
    b: &crate::ast::UntypedTest,
    hydrators: &mut Vec<(String, crate::hydrator::Hydrator)>,
    environment: &mut Environment,
) -> (r: Result<crate::ast::TypedTest, Error>)
    requires
        env_wf(*old(environment)),
    ensures
        env_wf(*final(environment)),
        b.arguments@.len() != 1 ==> (r matches Err(e) && e matches Error::IncorrectBenchmarkArity {
            location,
        } && location == b.location),
        r matches Err(e2) && e2 is IncorrectBenchmarkArity ==> b.arguments@.len() != 1,
        r matches Ok(tb) ==> (tb.arguments@.len() == 1 && fuzzable(tb.arguments@[0].arg.tipo@)),
{
    if b.arguments.len() != 1 {
        return Err(Error::IncorrectBenchmarkArity { location: b.location });
    }
    let (typed_via, annotation) = match extract_via_information(
        &b.name,
        &b.arguments[0],
        hydrators,
        environment,
        true,
    ) {
        Ok(p) => p,
        Err(e) => {
            return Err(e);
        },
    };
    let f = test_to_function(b);
    let typed_f = match crate::expr::infer_function(&f, environment) {
        Ok(tf) => tf,
        Err(e) => {
            return Err(e);
        },
    };
    let mut arguments: Vec<crate::ast::TypedArgVia> = Vec::new();
    let mut args = typed_f.arguments;
    proof {
        assert(args@.len() == 1);
    }
    let a = args.remove(0);
    let (via, tipo) = typed_via;
    arguments.push(
        crate::ast::TypedArgVia {
            arg: crate::ast::TypedArg {
                arg_name: a.arg_name,
                location: a.location,
                annotation,
                tipo,
            },
            via,
        },
    );
    Ok(
        crate::ast::TypedTest {
            location: typed_f.location,
            name: typed_f.name,
            public: typed_f.public,
            arguments,
            body: typed_f.body,
            return_annotation: typed_f.return_annotation,
            return_type: typed_f.return_type,
            end_position: typed_f.end_position,
        },
    )
}

/// Every field of every constructor holds neither a function type nor
/// the unresolved-computation type.
pub open spec fn data_fields_ok(td: crate::ast::TypedDataType) -> bool {
    forall|i: int, k: int|
        0 <= i < td.constructors@.len() && 0 <= k < td.constructors@[i].arguments@.len() ==> (!((
        #[trigger] td.constructors@[i].arguments@[k]).tipo@ is Fn)
            && !crate::tipo::is_named_ty(td.constructors@[i].arguments@[k].tipo@, "MLResult"@))
}

/// Infer one data type: each constructor's fields are checked against
/// the preregistered constructor signature, function and
/// unresolved-computation fields are rejected, opacity is propagated
/// upward, and the decorators are validated.
fn infer_data_type(
    d: crate::ast::UntypedDataType,
    environment: &mut Environment,
) -> (r: Result<crate::ast::TypedDataType, Error>)
    requires
        env_wf(*old(environment)),
    ensures
        env_wf(*final(environment)),
        r matches Ok(td) ==> (data_fields_ok(td) && data_decorators_ok(td)),
        r matches Ok(td2) ==> (td2.name@ == d.name@ && td2.constructors@.len()
            == d.constructors@.len() && (forall|i: int|
            0 <= i < td2.constructors@.len() ==> (#[trigger] td2.constructors@[i]).name@
                == d.constructors@[i].name@)),
        r matches Err(e) ==> (e is FunctionTypeInData || e is IllegalTypeInData || e
            is UnknownVariable || e is UnknownType || e is DecoratorValidation || e
            is ConflictingDecorators || e is DecoratorTagOverlap),
{
    let ghost d0 = d;
    let mut constructors: Vec<crate::ast::TypedRecordConstructor> = Vec::new();
    let mut ci: usize = 0;
    while ci < d.constructors.len()
        invariant
            env_wf(*environment),
            d == d0,
            ci <= d.constructors@.len(),
            constructors@.len() == ci,
            forall|i: int|
                0 <= i < ci ==> (#[trigger] constructors@[i]).name@ == d.constructors@[i].name@,
            forall|i: int, k: int|
                0 <= i < constructors@.len() && 0 <= k
                    < constructors@[i].arguments@.len() ==> (!((
                #[trigger] constructors@[i].arguments@[k]).tipo@ is Fn)
                    && !crate::tipo::is_named_ty(
                    constructors@[i].arguments@[k].tipo@,
                    "MLResult"@,
                )),
        decreases d.constructors@.len() - ci,
    {
        let c = &d.constructors[ci];
        let pre = match environment.lookup_variable(&c.name) {
            Some(vc) => vc,
            None => {
                return Err(
                    Error::UnknownVariable { location: c.location, name: c.name.clone() },
                );
            },
        };
        let pre_t = environment.subst.apply(&pre.tipo);
        let mut arguments: Vec<crate::ast::TypedConstructorArg> = Vec::new();
        match pre_t.function_types() {
            Some((args_types, _)) => {
                let n = if c.arguments.len() < args_types.len() {
                    c.arguments.len()
                } else {
                    args_types.len()
                };
                let mut fi: usize = 0;
                while fi < n
                    invariant
                        env_wf(*environment),
                        n <= c.arguments@.len(),
                        n <= args_types@.len(),
                        arguments@.len() == fi,
                        forall|k: int|
                            0 <= k < arguments@.len() ==> (!((
                            #[trigger] arguments@[k]).tipo@ is Fn) && !crate::tipo::is_named_ty(
                                arguments@[k].tipo@,
                                "MLResult"@,
                            )),
                    decreases n - fi,
                {
                    let arg = &c.arguments[fi];
                    let t = &args_types[fi];
                    if t.is_function() {
                        return Err(Error::FunctionTypeInData { location: arg.location });
                    }
                    if t.is_ml_result() {
                        return Err(
                            Error::IllegalTypeInData {
                                location: arg.location,
                                tipo: crate::tipo::clone_type(t),
                            },
                        );
                    }
                    if contains_opaque(t) {
                        environment.set_type_opaque(&d.name);
                    }
                    let ann_c = crate::ast::clone_annotation(&arg.annotation);
                    let label = match &arg.label {
                        Some(l) => Some(l.clone()),
                        None => None,
                    };
                    arguments.push(
                        crate::ast::TypedConstructorArg {
                            label,
                            annotation: ann_c,
                            location: arg.location,
                            tipo: crate::tipo::clone_type(t),
                        },
                    );
                    fi = fi + 1;
                }
            },
            None => {},
        }
        constructors.push(
            crate::ast::TypedRecordConstructor {
                location: c.location,
                name: c.name.clone(),
                arguments,
                decorators: clone_decorators(&c.decorators),
            },
        );
        ci = ci + 1;
    }
    let typed_parameters = match environment.get_type_constructor(&None, &d.name, d.location) {
        Ok(tc) => tc.parameters,
        Err(e) => {
            return Err(e);
        },
    };
    let typed_data = crate::ast::TypedDataType {
        location: d.location,
        name: d.name,
        public: d.public,
        opaque: d.opaque,
        parameters: d.parameters,
        typed_parameters,
        constructors,
        decorators: clone_decorators(&d.decorators),
    };
    match typed_data.check_decorators() {
        Ok(()) => {},
        Err(e) => {
            return Err(e);
        },
    }
    Ok(typed_data)
}

/// Exact copies of a decorator list.
fn clone_decorators(v: &Vec<Decorator>) -> (r: Vec<Decorator>)
    ensures
        r@ == v@,
{
    let mut r: Vec<Decorator> = Vec::new();
    let mut i: usize = 0;
    while i < v.len()
        invariant
            0 <= i <= v@.len(),
            r@ =~= v@.subrange(0, i as int),
        decreases v@.len() - i,
    {
        r.push(v[i]);
        i = i + 1;
    }
    proof {
        assert(r@ =~= v@);
    }
    r
}

} // verus!

verus! {

/// Every definition is an import of a known module whose unqualified
/// names all resolve: such a module always checks.
pub open spec fn all_resolvable_imports(
    defs: Seq<crate::ast::UntypedDefinition>,
    modules: Seq<(String, crate::environment::TypeInfo)>,
) -> bool {
    forall|i: int|
        0 <= i < defs.len() ==> ((#[trigger] defs[i]) is Use
            && crate::environment::assoc_index_of(modules, defs[i]->Use_0.module@) is Some && (
        forall|j: int|
            0 <= j < defs[i]->Use_0.unqualified@.len() ==> crate::environment::import_name_ok(
                modules[crate::environment::assoc_index_of(
                    modules,
                    defs[i]->Use_0.module@,
                )->0].1,
                (#[trigger] defs[i]->Use_0.unqualified@[j]).name@,
            )))
}

/// The number of validator definitions in a definition list.
pub open spec fn n_validators(s: Seq<crate::ast::UntypedDefinition>) -> nat
    decreases s.len(),
{
    if s.len() == 0 {
        0
    } else {
        (if s[0] is Validator {
            1nat
        } else {
            0nat
        }) + n_validators(s.subrange(1, s.len() as int))
    }
}

/// Appending a definition raises the validator count exactly when it is
/// a validator.
pub proof fn lemma_n_validators_snoc(s: Seq<crate::ast::UntypedDefinition>, e: crate::ast::UntypedDefinition)
    ensures
        n_validators(s.push(e)) == n_validators(s) + (if e is Validator {
            1nat
        } else {
            0nat
        }),
    decreases s,
{
    let s2 = s.push(e);
    if s.len() == 0 {
        assert(s2[0] == e);
        assert(s2.subrange(1, 1) =~= Seq::<crate::ast::UntypedDefinition>::empty());
        assert(n_validators(s2.subrange(1, 1)) == 0);
        assert(n_validators(s) == 0);
    } else {
        assert(s2[0] == s[0]);
        assert(s2.subrange(1, s2.len() as int) =~= s.subrange(1, s.len() as int).push(e));
        lemma_n_validators_snoc(s.subrange(1, s.len() as int), e);
    }
}

/// Every constructor-name entry kept by pruning names a surviving type.
pub proof fn lemma_keep_surviving_all(
    s: Seq<(String, Vec<String>)>,
    types: Seq<(String, crate::environment::TypeConstructor)>,
)
    ensures
        forall|i: int|
            0 <= i < keep_surviving_constructors(s, types).len()
                ==> crate::environment::assoc_index_of(
                types,
                (#[trigger] keep_surviving_constructors(s, types)[i]).0@,
            ) is Some,
    decreases s.len(),
{
    if s.len() > 0 {
        lemma_keep_surviving_all(s.subrange(1, s.len() as int), types);
    }
}

/// Every accessor map kept by pruning is public.
pub proof fn lemma_keep_public_accessors_all(s: Seq<(String, crate::environment::AccessorsMap)>)
    ensures
        forall|i: int|
            0 <= i < keep_public_accessors(s).len() ==> (#[trigger] keep_public_accessors(
                s,
            )[i]).1.public,
    decreases s.len(),
{
    if s.len() > 0 {
        lemma_keep_public_accessors_all(s.subrange(1, s.len() as int));
    }
}

/// Every type kept by pruning is public and owned by the module.
pub proof fn lemma_keep_own_types_all(
    s: Seq<(String, crate::environment::TypeConstructor)>,
    module_name: Seq<char>,
)
    ensures
        forall|i: int|
            0 <= i < keep_own_types(s, module_name).len() ==> ((#[trigger] keep_own_types(
                s,
                module_name,
            )[i]).1.public && keep_own_types(s, module_name)[i].1.module@ == module_name),
    decreases s.len(),
{
    if s.len() > 0 {
        lemma_keep_own_types_all(s.subrange(1, s.len() as int), module_name);
    }
}

/// Check every exported value for a private type embedded in its
/// signature: succeeds exactly when none has one.
fn check_private_leaks(
    values: &Vec<(String, crate::environment::ValueConstructor)>,
    module_types: &Vec<(String, crate::environment::TypeConstructor)>,
) -> (r: Result<(), Error>)
    ensures
        r is Ok <==> (forall|i: int|
            0 <= i < values@.len() ==> !has_private((#[trigger] values@[i]).1.tipo@)),
        r matches Err(e) ==> e is PrivateTypeLeak,
{
    let n = values.len();
    let mut i: usize = 0;
    while i < n
        invariant
            n == values@.len(),
            i <= n,
            forall|j: int| 0 <= j < i ==> !has_private((#[trigger] values@[j]).1.tipo@),
        decreases n - i,
    {
        match find_private_type(&values[i].1.tipo) {
            Some(leaked) => {
                let leaked_location: Option<Span> = match &leaked {
                    Type::App { name, .. } => {
                        match crate::environment::assoc_find(module_types, name) {
                            Some(ti) => Some(module_types[ti].1.location),
                            None => None,
                        }
                    },
                    _ => None,
                };
                return Err(
                    Error::PrivateTypeLeak {
                        location: values[i].1.variant.location(),
                        leaked_location,
                        leaked,
                    },
                );
            },
            None => {},
        }
        i = i + 1;
    }
    Ok(())
}

/// Resolve every exported value's type against the final substitution.
fn apply_values(
    subst: &crate::subst::Subst,
    mut v: Vec<(String, crate::environment::ValueConstructor)>,
) -> (r: Vec<(String, crate::environment::ValueConstructor)>)
    requires
        wf(subst@),
    ensures
        r@.len() == v@.len(),
        forall|i: int|
            0 <= i < r@.len() ==> ((#[trigger] r@[i]).0 == v@[i].0 && r@[i].1.public
                == v@[i].1.public && r@[i].1.variant == v@[i].1.variant && r@[i].1.tipo@ == app(
                subst@,
                v@[i].1.tipo@,
            )),
{
    let ghost v0 = v@;
    let mut out: Vec<(String, crate::environment::ValueConstructor)> = Vec::new();
    while v.len() > 0
        invariant
            wf(subst@),
            out@.len() + v@.len() == v0.len(),
            v@ == v0.subrange(out@.len() as int, v0.len() as int),
            forall|i: int|
                0 <= i < out@.len() ==> ((#[trigger] out@[i]).0 == v0[i].0 && out@[i].1.public
                    == v0[i].1.public && out@[i].1.variant == v0[i].1.variant && out@[i].1.tipo@
                    == app(subst@, v0[i].1.tipo@)),
        decreases v@.len(),
    {
        let ghost before = v@;
        let (k, vc) = v.remove(0);
        proof {
            assert(v@ =~= before.subrange(1, before.len() as int));
            assert(v@ =~= v0.subrange(out@.len() as int + 1, v0.len() as int));
        }
        let tipo = subst.apply(&vc.tipo);
        out.push(
            (
                k,
                crate::environment::ValueConstructor { public: vc.public, variant: vc.variant, tipo },
            ),
        );
    }
    proof {
        assert(v0.subrange(v0.len() as int, v0.len() as int) =~= Seq::empty());
    }
    out
}

/// Resolve every exported type against the final substitution.
fn apply_types(
    subst: &crate::subst::Subst,
    mut v: Vec<(String, crate::environment::TypeConstructor)>,
) -> (r: Vec<(String, crate::environment::TypeConstructor)>)
    requires
        wf(subst@),
    ensures
        r@.len() == v@.len(),
        forall|i: int|
            0 <= i < r@.len() ==> ((#[trigger] r@[i]).0 == v@[i].0 && r@[i].1.public
                == v@[i].1.public && r@[i].1.module == v@[i].1.module && r@[i].1.location
                == v@[i].1.location && r@[i].1.tipo@ == app(subst@, v@[i].1.tipo@)),
{
    let ghost v0 = v@;
    let mut out: Vec<(String, crate::environment::TypeConstructor)> = Vec::new();
    while v.len() > 0
        invariant
            wf(subst@),
            out@.len() + v@.len() == v0.len(),
            v@ == v0.subrange(out@.len() as int, v0.len() as int),
            forall|i: int|
                0 <= i < out@.len() ==> ((#[trigger] out@[i]).0 == v0[i].0 && out@[i].1.public
                    == v0[i].1.public && out@[i].1.module == v0[i].1.module && out@[i].1.location
                    == v0[i].1.location && out@[i].1.tipo@ == app(subst@, v0[i].1.tipo@)),
        decreases v@.len(),
    {
        let ghost before = v@;
        let (k, tc) = v.remove(0);
        proof {
            assert(v@ =~= before.subrange(1, before.len() as int));
            assert(v@ =~= v0.subrange(out@.len() as int + 1, v0.len() as int));
        }
        let tipo = subst.apply(&tc.tipo);
        let mut params: Vec<Type> = Vec::new();
        let mut pi: usize = 0;
        let old_params = tc.parameters;
        while pi < old_params.len()
            invariant
                wf(subst@),
            decreases old_params@.len() - pi,
        {
            params.push(subst.apply(&old_params[pi]));
            pi = pi + 1;
        }
        out.push(
            (
                k,
                crate::environment::TypeConstructor {
                    location: tc.location,
                    module: tc.module,
                    public: tc.public,
                    parameters: params,
                    tipo,
                },
            ),
        );
    }
    proof {
        assert(v0.subrange(v0.len() as int, v0.len() as int) =~= Seq::empty());
    }
    out
}

/// Resolve every exported accessor map against the final substitution.
fn apply_accessors(
    subst: &crate::subst::Subst,
    mut v: Vec<(String, crate::environment::AccessorsMap)>,
) -> (r: Vec<(String, crate::environment::AccessorsMap)>)
    requires
        wf(subst@),
    ensures
        r@.len() == v@.len(),
        forall|i: int|
            0 <= i < r@.len() ==> ((#[trigger] r@[i]).0 == v@[i].0 && r@[i].1.public
                == v@[i].1.public && r@[i].1.location == v@[i].1.location && r@[i].1.tipo@ == app(
                subst@,
                v@[i].1.tipo@,
            )),
{
    let ghost v0 = v@;
    let mut out: Vec<(String, crate::environment::AccessorsMap)> = Vec::new();
    while v.len() > 0
        invariant
            wf(subst@),
            out@.len() + v@.len() == v0.len(),
            v@ == v0.subrange(out@.len() as int, v0.len() as int),
            forall|i: int|
                0 <= i < out@.len() ==> ((#[trigger] out@[i]).0 == v0[i].0 && out@[i].1.public
                    == v0[i].1.public && out@[i].1.location == v0[i].1.location
                    && out@[i].1.tipo@ == app(subst@, v0[i].1.tipo@)),
        decreases v@.len(),
    {
        let ghost before = v@;
        let (k, am) = v.remove(0);
        proof {
            assert(v@ =~= before.subrange(1, before.len() as int));
            assert(v@ =~= v0.subrange(out@.len() as int + 1, v0.len() as int));
        }
        let tipo = subst.apply(&am.tipo);
        out.push(
            (
                k,
                crate::environment::AccessorsMap {
                    location: am.location,
                    public: am.public,
                    tipo,
                },
            ),
        );
    }
    proof {
        assert(v0.subrange(v0.len() as int, v0.len() as int) =~= Seq::empty());
    }
    out
}

impl crate::ast::UntypedModule {
    /// Infer a whole module: register imports, then all type
    /// signatures, then all value signatures; infer every constant, then
    /// the remaining definitions in source order; generalise the
    /// inferred signatures; reconcile warnings; prune the private
    /// entities from the exported registries and reject any public value
    /// whose signature mentions a private type. Every exported value is
    /// public with no private type embedded, and every exported type is
    /// public and owned by this module.
    pub fn infer(
        self,
        kind: crate::ast::ModuleKind,
        package: &String,
        modules: &Vec<(String, crate::environment::TypeInfo)>,
        warnings: &mut Vec<crate::error::Warning>,
    ) -> (r: Result<crate::ast::TypedModule, Error>)
        ensures
            r matches Ok(m) ==> m.name@ == self.name@ && m.kind == kind && m.type_info.kind == kind
                && m.type_info.package@ == package@ && m.type_info.name@ == self.name@,
            r matches Ok(m) ==> (forall|i: int|
                0 <= i < m.type_info.values@.len() ==> ((#[trigger] m.type_info.values@[i]).1.public
                    && !has_private(m.type_info.values@[i].1.tipo@))),
            r matches Ok(m) ==> (forall|i: int|
                0 <= i < m.type_info.types@.len() ==> ((#[trigger] m.type_info.types@[i]).1.public
                    && m.type_info.types@[i].1.module@ == self.name@)),
            r matches Ok(m) ==> (forall|i: int|
                0 <= i < m.type_info.accessors@.len() ==> (#[trigger] m.type_info.accessors@[i]).1.public),
            r matches Ok(m) ==> (forall|i: int|
                0 <= i < m.type_info.types_constructors@.len()
                    ==> crate::environment::assoc_index_of(
                    m.type_info.types@,
                    (#[trigger] m.type_info.types_constructors@[i]).0@,
                ) is Some),
            self.definitions@.len() == 0 ==> r is Ok,
            all_resolvable_imports(self.definitions@, modules@) ==> r is Ok,
            r matches Ok(m) ==> m.definitions@.len() <= self.definitions@.len(),
            r matches Ok(m) ==> (!(kind is Validator) || m.definitions@.len()
                == self.definitions@.len()),
            r matches Ok(m) ==> (kind is Validator || m.definitions@.len() + n_validators(
                self.definitions@,
            ) == self.definitions@.len()),
            r matches Ok(m) ==> (kind is Validator || (forall|i: int|
                0 <= i < m.definitions@.len() ==> !((#[trigger] m.definitions@[i]) is Validator))),
            r matches Ok(m) ==> (forall|i: int, j: int|
                0 <= i < j < m.definitions@.len() && (#[trigger] m.definitions@[j])
                    is ModuleConstant ==> (#[trigger] m.definitions@[i]) is ModuleConstant),
            final(warnings)@.len() >= old(warnings)@.len(),
            forall|i: int|
                0 <= i < old(warnings)@.len() ==> #[trigger] final(warnings)@[i] == old(
                    warnings,
                )@[i],
            r is Err ==> final(warnings)@ == old(warnings)@,
    {
        let module_name = self.name.clone();
        let ghost n0 = self.definitions@.len();
        let mut environment = Environment::new(self.name.clone(), kind);
        let mut hydrators: Vec<(String, crate::hydrator::Hydrator)> = Vec::new();
        // Imports first, so anything imported can be referenced anywhere
        // in the module.
        let mut i: usize = 0;
        while i < self.definitions.len()
            invariant
                env_wf(environment),
                n0 == 0 ==> environment.module_values@.len() == 0,
                all_resolvable_imports(self.definitions@, modules@)
                    ==> environment.module_values@.len() == 0,
                n0 == self.definitions@.len(),
            decreases self.definitions@.len() - i,
        {
            if let crate::ast::UntypedDefinition::Use(u) = &self.definitions[i] {
                match environment.register_import(u, modules) {
                    Ok(()) => {},
                    Err(e) => {
                        return Err(e);
                    },
                }
            }
            i = i + 1;
        }
        // Types next, so constructors and signatures earlier in the
        // module resolve.
        let mut i2: usize = 0;
        while i2 < self.definitions.len()
            invariant
                env_wf(environment),
                n0 == 0 ==> environment.module_values@.len() == 0,
                all_resolvable_imports(self.definitions@, modules@)
                    ==> environment.module_values@.len() == 0,
                n0 == self.definitions@.len(),
            decreases self.definitions@.len() - i2,
        {
            match environment.register_types(&self.definitions[i2], &mut hydrators) {
                Ok(()) => {},
                Err(e) => {
                    return Err(e);
                },
            }
            i2 = i2 + 1;
        }
        // Values, so functions earlier in the module resolve.
        let mut i3: usize = 0;
        while i3 < self.definitions.len()
            invariant
                env_wf(environment),
                n0 == 0 ==> environment.module_values@.len() == 0,
                all_resolvable_imports(self.definitions@, modules@)
                    ==> environment.module_values@.len() == 0,
                n0 == self.definitions@.len(),
            decreases self.definitions@.len() - i3,
        {
            match environment.register_values(&self.definitions[i3], &mut hydrators) {
                Ok(()) => {},
                Err(e) => {
                    return Err(e);
                },
            }
            i3 = i3 + 1;
        }
        // Constants are inferred before everything else, so they can be
        // referenced from any definition; validators are dropped outside
        // validator modules.
        let mut defs = self.definitions;
        let ghost orig = defs@;
        let mut consts: Vec<crate::ast::UntypedDefinition> = Vec::new();
        let mut others: Vec<crate::ast::UntypedDefinition> = Vec::new();
        while defs.len() > 0
            invariant
                env_wf(environment),
                n0 == self.definitions@.len(),
                orig == self.definitions@,
                defs@ == orig.subrange(n0 as int - defs@.len(), n0 as int),
                n0 == 0 ==> environment.module_values@.len() == 0,
                consts@.len() + others@.len() + defs@.len() <= n0,
                kind is Validator ==> consts@.len() + others@.len() + defs@.len() == n0,
                !(kind is Validator) ==> consts@.len() + others@.len() + defs@.len()
                    + n_validators(orig.subrange(0, n0 as int - defs@.len())) == n0,
                all_resolvable_imports(orig, modules@) ==> (environment.module_values@.len() == 0
                    && consts@.len() == 0 && (forall|j: int|
                    0 <= j < others@.len() ==> ((#[trigger] others@[j]) is Use
                        && crate::environment::assoc_index_of(
                        modules@,
                        others@[j]->Use_0.module@,
                    ) is Some))),
                forall|j: int| 0 <= j < consts@.len() ==> (#[trigger] consts@[j]) is ModuleConstant,
                forall|j: int| 0 <= j < others@.len() ==> !((#[trigger] others@[j]) is ModuleConstant),
                !(kind is Validator) ==> (forall|j: int|
                    0 <= j < others@.len() ==> !((#[trigger] others@[j]) is Validator)),
            decreases defs@.len(),
        {
            let ghost before = defs@;
            let ghost k = n0 as int - before.len();
            let d = defs.remove(0);
            proof {
                assert(defs@ =~= before.subrange(1, before.len() as int));
                assert(defs@ =~= orig.subrange(k + 1, n0 as int));
                assert(d == orig[k]);
                assert(orig.subrange(0, k + 1) =~= orig.subrange(0, k).push(orig[k]));
                lemma_n_validators_snoc(orig.subrange(0, k), orig[k]);
            }
            let is_const = match &d {
                crate::ast::UntypedDefinition::ModuleConstant(_) => true,
                _ => false,
            };
            let is_validator_def = match &d {
                crate::ast::UntypedDefinition::Validator(_) => true,
                _ => false,
            };
            if is_const {
                consts.push(d);
            } else if is_validator_def {
                if kind.is_validator() {
                    others.push(d);
                }
            } else {
                others.push(d);
            }
        }
        proof {
            assert(orig.subrange(0, n0 as int) =~= orig);
        }
        let ghost budget = consts@.len() + others@.len();
        let ghost kept_all = consts@.len() + others@.len() + 0 == n0;
        let ghost budget_eq = !(kind is Validator) ==> budget + n_validators(orig) == n0;
        let mut definitions: Vec<crate::ast::TypedDefinition> = Vec::new();
        while consts.len() > 0
            invariant
                env_wf(environment),
                n0 == self.definitions@.len(),
                n0 == 0 ==> environment.module_values@.len() == 0,
                definitions@.len() + consts@.len() + others@.len() == budget,
                budget <= n0,
                kept_all == (budget == n0),
                kind is Validator ==> kept_all,
                orig == self.definitions@,
                budget_eq == (!(kind is Validator) ==> budget + n_validators(orig) == n0),
                budget_eq,
                all_resolvable_imports(orig, modules@) ==> (environment.module_values@.len() == 0
                    && consts@.len() == 0),
                forall|j: int| 0 <= j < consts@.len() ==> (#[trigger] consts@[j]) is ModuleConstant,
                forall|j: int| 0 <= j < others@.len() ==> !((#[trigger] others@[j]) is ModuleConstant),
                forall|j: int|
                    0 <= j < definitions@.len() ==> (#[trigger] definitions@[j]) is ModuleConstant,
                forall|j: int|
                    0 <= j < definitions@.len() ==> !((#[trigger] definitions@[j]) is Validator),
                !(kind is Validator) ==> (forall|j: int|
                    0 <= j < others@.len() ==> !((#[trigger] others@[j]) is Validator)),
            decreases consts@.len(),
        {
            let d = consts.remove(0);
            match infer_definition(d, &mut hydrators, &mut environment, modules) {
                Ok(td) => definitions.push(td),
                Err(e) => {
                    return Err(e);
                },
            }
        }
        let ghost n_consts = definitions@.len();
        while others.len() > 0
            invariant
                env_wf(environment),
                n0 == self.definitions@.len(),
                n0 == 0 ==> environment.module_values@.len() == 0,
                definitions@.len() + others@.len() == budget,
                budget <= n0,
                kept_all == (budget == n0),
                kind is Validator ==> kept_all,
                orig == self.definitions@,
                budget_eq == (!(kind is Validator) ==> budget + n_validators(orig) == n0),
                budget_eq,
                all_resolvable_imports(orig, modules@) ==> (environment.module_values@.len() == 0
                    && (forall|j: int|
                    0 <= j < others@.len() ==> ((#[trigger] others@[j]) is Use
                        && crate::environment::assoc_index_of(
                        modules@,
                        others@[j]->Use_0.module@,
                    ) is Some))),
                n_consts <= definitions@.len(),
                forall|j: int|
                    0 <= j < n_consts ==> (#[trigger] definitions@[j]) is ModuleConstant,
                forall|j: int|
                    n_consts <= j < definitions@.len() ==> !((#[trigger] definitions@[j])
                        is ModuleConstant),
                forall|j: int| 0 <= j < others@.len() ==> !((#[trigger] others@[j]) is ModuleConstant),
                !(kind is Validator) ==> (forall|j: int|
                    0 <= j < others@.len() ==> !((#[trigger] others@[j]) is Validator)),
                !(kind is Validator) ==> (forall|j: int|
                    0 <= j < definitions@.len() ==> !((#[trigger] definitions@[j]) is Validator)),
            decreases others@.len(),
        {
            let d = others.remove(0);
            match infer_definition(d, &mut hydrators, &mut environment, modules) {
                Ok(td) => definitions.push(td),
                Err(e) => {
                    return Err(e);
                },
            }
        }
        // Generalise now that the whole module is inferred: variables
        // still unsolved in a signature become universally quantified.
        let ghost n_vals = environment.module_values@.len();
        let mut gi: usize = 0;
        while gi < environment.module_values.len()
            invariant
                env_wf(environment),
                environment.module_values@.len() == n_vals,
                n0 == 0 ==> environment.module_values@.len() == 0,
                all_resolvable_imports(self.definitions@, modules@)
                    ==> environment.module_values@.len() == 0,
            decreases n_vals - gi,
        {
            let t = crate::tipo::clone_type(&environment.module_values[gi].1.tipo);
            environment.generalise_type(&t);
            gi = gi + 1;
        }
        // Unused-variable warnings about validator parameters are
        // suppressed: those are used by convention.
        environment.reconcile_validator_param_warnings();
        environment.convert_unused_to_warnings();
        let Environment {
            subst,
            module_name: _,
            kind: _,
            module_types,
            module_types_constructors,
            module_values,
            accessors,
            scope: _,
            usages: _,
            warnings: mut env_warnings,
            validator_params: _,
        } = environment;
        // Resolve every exported signature fully before exporting.
        let module_values = apply_values(&subst, module_values);
        let module_types = apply_types(&subst, module_types);
        let accessors = apply_accessors(&subst, accessors);
        // Remove private and imported entities to form the public
        // interface, and reject any surviving value whose signature
        // mentions a private type.
        let values = retain_public_values(module_values);
        proof {
            lemma_keep_public_values_all_public(module_values@);
        }
        match check_private_leaks(&values, &module_types) {
            Ok(()) => {},
            Err(e) => {
                return Err(e);
            },
        }
        let types = retain_own_types(module_types, &module_name);
        proof {
            lemma_keep_own_types_all(module_types@, module_name@);
        }
        let types_constructors = retain_surviving_constructors(module_types_constructors, &types);
        proof {
            lemma_keep_surviving_all(module_types_constructors@, types@);
        }
        let ghost accessors0 = accessors@;
        let accessors = retain_public_accessors(accessors);
        proof {
            lemma_keep_public_accessors_all(accessors0);
        }
        while env_warnings.len() > 0
            invariant
                warnings@.len() >= old(warnings)@.len(),
                forall|i: int|
                    0 <= i < old(warnings)@.len() ==> #[trigger] warnings@[i] == old(
                        warnings,
                    )@[i],
            decreases env_warnings@.len(),
        {
            let w = env_warnings.remove(0);
            warnings.push(w);
        }
        Ok(
            crate::ast::TypedModule {
                name: module_name.clone(),
                kind,
                definitions,
                type_info: crate::environment::TypeInfo {
                    name: module_name,
                    package: package.clone(),
                    kind,
                    types,
                    types_constructors,
                    values,
                    accessors,
                },
            },
        )
    }
}

} // verus!
