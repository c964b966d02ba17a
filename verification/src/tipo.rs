//! Type terms.
//!
//! A type is either a named application (`Int`, `Option<a>`), a function
//! type, a tuple, a pair, or a unification variable. Variables carry no
//! state of their own: they are indices into the substitution table owned
//! by the environment (`subst::Subst`), so a type term is plain data.

use vstd::prelude::*;

verus! {

/// An executable type term. `Var` is an index into the substitution table.
#[derive(Debug)]
pub enum Type {
    /// A named type application, such as `Int` or `Option<a>`.
    App { public: bool, opaque: bool, module: String, name: String, args: Vec<Type> },
    /// A function type.
    Fn { args: Vec<Type>, ret: Box<Type> },
    /// A tuple type with two or more elements.
    Tuple { elems: Vec<Type> },
    /// A pair type.
    Pair { fst: Box<Type>, snd: Box<Type> },
    /// A unification variable.
    Var { id: usize },
}

/// The mathematical shape of a type term: names become character
/// sequences, argument vectors become sequences.
#[verifier::ext_equal]
pub enum Ty {
    App { public: bool, opaque: bool, module: Seq<char>, name: Seq<char>, args: Seq<Ty> },
    Fn { args: Seq<Ty>, ret: Box<Ty> },
    Tuple { elems: Seq<Ty> },
    Pair { fst: Box<Ty>, snd: Box<Ty> },
    Var { id: nat },
}

/// The shape of an executable type term.
pub open spec fn ty_of(t: Type) -> Ty
    decreases t, 0int,
{
    match t {
        Type::App { public, opaque, module, name, args } => Ty::App {
            public,
            opaque,
            module: module@,
            name: name@,
            args: tys_of(args@),
        },
        Type::Fn { args, ret } => Ty::Fn { args: tys_of(args@), ret: Box::new(ty_of(*ret)) },
        Type::Tuple { elems } => Ty::Tuple { elems: tys_of(elems@) },
        Type::Pair { fst, snd } => Ty::Pair {
            fst: Box::new(ty_of(*fst)),
            snd: Box::new(ty_of(*snd)),
        },
        Type::Var { id } => Ty::Var { id: id as nat },
    }
}

/// The shapes of a sequence of executable type terms, elementwise.
pub open spec fn tys_of(ts: Seq<Type>) -> Seq<Ty>
    decreases ts, 1int,
{
    if ts.len() == 0 {
        Seq::empty()
    } else {
        seq![ty_of(ts[0])] + tys_of(ts.subrange(1, ts.len() as int))
    }
}

impl View for Type {
    type V = Ty;

    open spec fn view(&self) -> Ty {
        ty_of(*self)
    }
}

/// `tys_of` maps `ty_of` over the sequence, elementwise.
pub broadcast proof fn lemma_tys_of(ts: Seq<Type>)
    ensures
        (#[trigger] tys_of(ts)).len() == ts.len(),
        forall|i: int| 0 <= i < ts.len() ==> tys_of(ts)[i] == ty_of(ts[i]),
    decreases ts,
{
    if ts.len() > 0 {
        lemma_tys_of(ts.subrange(1, ts.len() as int));
    }
}

/// The size of a type term: the number of constructors in it.
pub open spec fn tsize(t: Ty) -> nat
    decreases t, 0int,
{
    match t {
        Ty::App { args, .. } => 1 + tsize_seq(args),
        Ty::Fn { args, ret } => 1 + tsize_seq(args) + tsize(*ret),
        Ty::Tuple { elems } => 1 + tsize_seq(elems),
        Ty::Pair { fst, snd } => 1 + tsize(*fst) + tsize(*snd),
        Ty::Var { .. } => 1,
    }
}

/// The summed size of a sequence of type terms.
pub open spec fn tsize_seq(ts: Seq<Ty>) -> nat
    decreases ts, 1int,
{
    if ts.len() == 0 {
        0
    } else {
        tsize(ts[0]) + tsize_seq(ts.subrange(1, ts.len() as int))
    }
}

/// Each element weighs no more than the whole sequence.
pub broadcast proof fn lemma_tsize_seq_element(ts: Seq<Ty>, i: int)
    requires
        0 <= i < ts.len(),
    ensures
        #[trigger] tsize(ts[i]) <= tsize_seq(ts),
    decreases ts,
{
    if i == 0 {
    } else {
        lemma_tsize_seq_element(ts.subrange(1, ts.len() as int), i - 1);
        assert(ts.subrange(1, ts.len() as int)[i - 1] == ts[i]);
    }
}

/// Whether the variable `v` occurs anywhere in `t`.
pub open spec fn occ(v: nat, t: Ty) -> bool
    decreases t, 0int,
{
    match t {
        Ty::App { args, .. } => occ_seq(v, args),
        Ty::Fn { args, ret } => occ_seq(v, args) || occ(v, *ret),
        Ty::Tuple { elems } => occ_seq(v, elems),
        Ty::Pair { fst, snd } => occ(v, *fst) || occ(v, *snd),
        Ty::Var { id } => id == v,
    }
}

/// Whether the variable `v` occurs in any element of `ts`.
pub open spec fn occ_seq(v: nat, ts: Seq<Ty>) -> bool
    decreases ts, 1int,
{
    if ts.len() == 0 {
        false
    } else {
        occ(v, ts[0]) || occ_seq(v, ts.subrange(1, ts.len() as int))
    }
}

/// `occ_seq` holds exactly when some element contains the variable.
pub broadcast proof fn lemma_occ_seq(v: nat, ts: Seq<Ty>)
    ensures
        #[trigger] occ_seq(v, ts) <==> exists|i: int| 0 <= i < ts.len() && occ(v, ts[i]),
    decreases ts,
{
    if ts.len() > 0 {
        let tl = ts.subrange(1, ts.len() as int);
        lemma_occ_seq(v, tl);
        if occ_seq(v, ts) {
            if occ(v, ts[0]) {
                assert(occ(v, ts[0]));
            } else {
                let i = choose|i: int| 0 <= i < tl.len() && occ(v, tl[i]);
                assert(occ(v, ts[i + 1]));
            }
        }
        if exists|i: int| 0 <= i < ts.len() && occ(v, ts[i]) {
            let i = choose|i: int| 0 <= i < ts.len() && occ(v, ts[i]);
            if i > 0 {
                assert(occ(v, tl[i - 1]));
            }
        }
    }
}

/// A type term with no variables at all: fully concrete.
pub open spec fn concrete(t: Ty) -> bool
    decreases t, 0int,
{
    match t {
        Ty::App { args, .. } => concrete_seq(args),
        Ty::Fn { args, ret } => concrete_seq(args) && concrete(*ret),
        Ty::Tuple { elems } => concrete_seq(elems),
        Ty::Pair { fst, snd } => concrete(*fst) && concrete(*snd),
        Ty::Var { .. } => false,
    }
}

/// Every element of the sequence is fully concrete.
pub open spec fn concrete_seq(ts: Seq<Ty>) -> bool
    decreases ts, 1int,
{
    if ts.len() == 0 {
        true
    } else {
        concrete(ts[0]) && concrete_seq(ts.subrange(1, ts.len() as int))
    }
}

/// `concrete_seq` holds exactly when every element is concrete.
pub broadcast proof fn lemma_concrete_seq(ts: Seq<Ty>)
    ensures
        #[trigger] concrete_seq(ts) <==> (forall|i: int| 0 <= i < ts.len() ==> concrete(ts[i])),
    decreases ts,
{
    if ts.len() > 0 {
        let tl = ts.subrange(1, ts.len() as int);
        lemma_concrete_seq(tl);
        if concrete_seq(ts) {
            assert forall|i: int| 0 <= i < ts.len() implies concrete(ts[i]) by {
                if i > 0 {
                    assert(tl[i - 1] == ts[i]);
                    assert(concrete(tl[i - 1]));
                }
            }
        }
        if forall|i: int| 0 <= i < ts.len() ==> concrete(ts[i]) {
            assert forall|i: int| 0 <= i < tl.len() implies concrete(tl[i]) by {
                assert(tl[i] == ts[i + 1]);
                assert(concrete(ts[i + 1]));
            }
            assert(concrete(ts[0]));
        }
    }
}

/// Structural identity as unification sees it: names, qualifiers, arities
/// and all arguments agree; the `public` and `opaque` flags do not take
/// part in the comparison.
pub open spec fn uni_eq(a: Ty, b: Ty) -> bool
    decreases a, 0int,
{
    match (a, b) {
        (
            Ty::App { module: m1, name: n1, args: a1, .. },
            Ty::App { module: m2, name: n2, args: a2, .. },
        ) => m1 == m2 && n1 == n2 && uni_eq_seq(a1, a2),
        (Ty::Fn { args: a1, ret: r1 }, Ty::Fn { args: a2, ret: r2 }) => uni_eq_seq(a1, a2)
            && uni_eq(*r1, *r2),
        (Ty::Tuple { elems: e1 }, Ty::Tuple { elems: e2 }) => uni_eq_seq(e1, e2),
        (Ty::Pair { fst: f1, snd: s1 }, Ty::Pair { fst: f2, snd: s2 }) => uni_eq(*f1, *f2)
            && uni_eq(*s1, *s2),
        (Ty::Var { id: i1 }, Ty::Var { id: i2 }) => i1 == i2,
        _ => false,
    }
}

/// Pointwise structural identity over two sequences of type terms.
pub open spec fn uni_eq_seq(a: Seq<Ty>, b: Seq<Ty>) -> bool
    decreases a, 1int,
{
    if a.len() == 0 {
        b.len() == 0
    } else {
        b.len() == a.len() && uni_eq(a[0], b[0]) && uni_eq_seq(
            a.subrange(1, a.len() as int),
            b.subrange(1, b.len() as int),
        )
    }
}

/// Structural identity is reflexive.
pub broadcast proof fn lemma_uni_eq_refl(a: Ty)
    ensures
        #[trigger] uni_eq(a, a),
    decreases a, 0int,
{
    match a {
        Ty::App { args, .. } => lemma_uni_eq_seq_refl(args),
        Ty::Fn { args, ret } => {
            lemma_uni_eq_seq_refl(args);
            lemma_uni_eq_refl(*ret);
        },
        Ty::Tuple { elems } => lemma_uni_eq_seq_refl(elems),
        Ty::Pair { fst, snd } => {
            lemma_uni_eq_refl(*fst);
            lemma_uni_eq_refl(*snd);
        },
        Ty::Var { .. } => {},
    }
}

/// Pointwise structural identity is reflexive.
pub proof fn lemma_uni_eq_seq_refl(a: Seq<Ty>)
    ensures
        uni_eq_seq(a, a),
    decreases a, 1int,
{
    if a.len() > 0 {
        lemma_uni_eq_refl(a[0]);
        lemma_uni_eq_seq_refl(a.subrange(1, a.len() as int));
    }
}

/// `uni_eq_seq` holds exactly when the lengths match and the elements
/// agree pointwise.
pub broadcast proof fn lemma_uni_eq_seq_pointwise(a: Seq<Ty>, b: Seq<Ty>)
    ensures
        #[trigger] uni_eq_seq(a, b) <==> (a.len() == b.len() && forall|j: int|
            0 <= j < a.len() ==> uni_eq(a[j], b[j])),
    decreases a,
{
    if a.len() == 0 {
    } else if b.len() != a.len() {
    } else {
        let at = a.subrange(1, a.len() as int);
        let bt = b.subrange(1, b.len() as int);
        lemma_uni_eq_seq_pointwise(at, bt);
        if uni_eq_seq(a, b) {
            assert forall|j: int| 0 <= j < a.len() implies uni_eq(a[j], b[j]) by {
                if j > 0 {
                    assert(at[j - 1] == a[j]);
                    assert(bt[j - 1] == b[j]);
                    assert(uni_eq(at[j - 1], bt[j - 1]));
                }
            }
        }
        if a.len() == b.len() && (forall|j: int| 0 <= j < a.len() ==> uni_eq(a[j], b[j])) {
            assert forall|j: int| 0 <= j < at.len() implies uni_eq(at[j], bt[j]) by {
                assert(at[j] == a[j + 1]);
                assert(bt[j] == b[j + 1]);
            }
            assert(uni_eq(a[0], b[0]));
            assert(uni_eq_seq(at, bt));
        }
    }
}

/// An exact copy of a type term.
pub fn clone_type(t: &Type) -> (r: Type)
    ensures
        r@ == t@,
    decreases *t, 0int,
{
    match t {
        Type::App { public, opaque, module, name, args } => {
            let cargs = clone_types(args);
            proof {
                lemma_tys_of(cargs@);
                lemma_tys_of(args@);
                assert(tys_of(cargs@) =~= tys_of(args@));
            }
            Type::App {
                public: *public,
                opaque: *opaque,
                module: module.clone(),
                name: name.clone(),
                args: cargs,
            }
        },
        Type::Fn { args, ret } => {
            let cargs = clone_types(args);
            proof {
                lemma_tys_of(cargs@);
                lemma_tys_of(args@);
                assert(tys_of(cargs@) =~= tys_of(args@));
            }
            Type::Fn { args: cargs, ret: Box::new(clone_type(ret)) }
        },
        Type::Tuple { elems } => {
            let celems = clone_types(elems);
            proof {
                lemma_tys_of(celems@);
                lemma_tys_of(elems@);
                assert(tys_of(celems@) =~= tys_of(elems@));
            }
            Type::Tuple { elems: celems }
        },
        Type::Pair { fst, snd } => Type::Pair {
            fst: Box::new(clone_type(fst)),
            snd: Box::new(clone_type(snd)),
        },
        Type::Var { id } => Type::Var { id: *id },
    }
}

/// Exact copies of a vector of type terms.
pub fn clone_types(ts: &Vec<Type>) -> (r: Vec<Type>)
    ensures
        r@.len() == ts@.len(),
        forall|i: int| 0 <= i < ts@.len() ==> r@[i]@ == ts@[i]@,
    decreases ts@, 1int,
{
    let mut r: Vec<Type> = Vec::new();
    let mut i: usize = 0;
    while i < ts.len()
        invariant
            0 <= i <= ts@.len(),
            r@.len() == i,
            forall|j: int| 0 <= j < i ==> r@[j]@ == ts@[j]@,
        decreases ts@.len() - i,
    {
        let c = clone_type(&ts[i]);
        r.push(c);
        i = i + 1;
    }
    r
}

} // verus!

verus! {

/// `t` with every occurrence of the variable `v` replaced by `u`.
pub open spec fn subst1(t: Ty, v: nat, u: Ty) -> Ty
    decreases t, 0int,
{
    match t {
        Ty::App { public, opaque, module, name, args } => Ty::App {
            public,
            opaque,
            module,
            name,
            args: subst1_seq(args, v, u),
        },
        Ty::Fn { args, ret } => Ty::Fn {
            args: subst1_seq(args, v, u),
            ret: Box::new(subst1(*ret, v, u)),
        },
        Ty::Tuple { elems } => Ty::Tuple { elems: subst1_seq(elems, v, u) },
        Ty::Pair { fst, snd } => Ty::Pair {
            fst: Box::new(subst1(*fst, v, u)),
            snd: Box::new(subst1(*snd, v, u)),
        },
        Ty::Var { id } => if id == v {
            u
        } else {
            Ty::Var { id }
        },
    }
}

/// Elementwise `subst1` over a sequence of type terms.
pub open spec fn subst1_seq(ts: Seq<Ty>, v: nat, u: Ty) -> Seq<Ty>
    decreases ts, 1int,
{
    if ts.len() == 0 {
        Seq::empty()
    } else {
        seq![subst1(ts[0], v, u)] + subst1_seq(ts.subrange(1, ts.len() as int), v, u)
    }
}

/// `subst1_seq` maps `subst1` over the sequence, elementwise.
pub broadcast proof fn lemma_subst1_seq(ts: Seq<Ty>, v: nat, u: Ty)
    ensures
        (#[trigger] subst1_seq(ts, v, u)).len() == ts.len(),
        forall|i: int| 0 <= i < ts.len() ==> subst1_seq(ts, v, u)[i] == subst1(ts[i], v, u),
    decreases ts,
{
    if ts.len() > 0 {
        lemma_subst1_seq(ts.subrange(1, ts.len() as int), v, u);
    }
}

/// Substituting for a variable that does not occur changes nothing.
pub proof fn lemma_subst1_absent(t: Ty, v: nat, u: Ty)
    requires
        !occ(v, t),
    ensures
        subst1(t, v, u) == t,
    decreases t, 0int,
{
    match t {
        Ty::App { args, .. } => {
            lemma_subst1_seq_absent(args, v, u);
            assert(subst1(t, v, u) =~= t);
        },
        Ty::Fn { args, ret } => {
            lemma_subst1_seq_absent(args, v, u);
            lemma_subst1_absent(*ret, v, u);
            assert(subst1(t, v, u) =~= t);
        },
        Ty::Tuple { elems } => {
            lemma_subst1_seq_absent(elems, v, u);
            assert(subst1(t, v, u) =~= t);
        },
        Ty::Pair { fst, snd } => {
            lemma_subst1_absent(*fst, v, u);
            lemma_subst1_absent(*snd, v, u);
            assert(subst1(t, v, u) =~= t);
        },
        Ty::Var { .. } => {},
    }
}

/// Elementwise form of `lemma_subst1_absent`.
pub proof fn lemma_subst1_seq_absent(ts: Seq<Ty>, v: nat, u: Ty)
    requires
        !occ_seq(v, ts),
    ensures
        subst1_seq(ts, v, u) == ts,
    decreases ts, 1int,
{
    if ts.len() > 0 {
        lemma_subst1_absent(ts[0], v, u);
        lemma_subst1_seq_absent(ts.subrange(1, ts.len() as int), v, u);
        assert(subst1_seq(ts, v, u) =~= ts);
    }
}

/// A variable occurring after substitution either occurred before (and is
/// not the replaced one) or occurs in the replacement.
pub proof fn lemma_occ_subst1(x: nat, t: Ty, v: nat, u: Ty)
    requires
        occ(x, subst1(t, v, u)),
    ensures
        (occ(x, t) && x != v) || occ(x, u),
    decreases t, 0int,
{
    match t {
        Ty::App { args, .. } => {
            lemma_occ_subst1_seq(x, args, v, u);
        },
        Ty::Fn { args, ret } => {
            if occ_seq(x, subst1_seq(args, v, u)) {
                lemma_occ_subst1_seq(x, args, v, u);
            } else {
                lemma_occ_subst1(x, *ret, v, u);
            }
        },
        Ty::Tuple { elems } => {
            lemma_occ_subst1_seq(x, elems, v, u);
        },
        Ty::Pair { fst, snd } => {
            if occ(x, subst1(*fst, v, u)) {
                lemma_occ_subst1(x, *fst, v, u);
            } else {
                lemma_occ_subst1(x, *snd, v, u);
            }
        },
        Ty::Var { id } => {},
    }
}

/// Elementwise form of `lemma_occ_subst1`.
pub proof fn lemma_occ_subst1_seq(x: nat, ts: Seq<Ty>, v: nat, u: Ty)
    requires
        occ_seq(x, subst1_seq(ts, v, u)),
    ensures
        (occ_seq(x, ts) && x != v) || occ(x, u),
    decreases ts, 1int,
{
    if ts.len() > 0 {
        let m = subst1_seq(ts, v, u);
        assert(m[0] == subst1(ts[0], v, u));
        assert(m.subrange(1, m.len() as int) =~= subst1_seq(ts.subrange(1, ts.len() as int), v, u));
        if occ(x, subst1(ts[0], v, u)) {
            lemma_occ_subst1(x, ts[0], v, u);
        } else {
            lemma_occ_subst1_seq(x, ts.subrange(1, ts.len() as int), v, u);
        }
    }
}

/// The first structural mismatch met when comparing `a` against `b` in
/// depth-first order, or `None` when the two are structurally identical.
/// The pair keeps the call order: the first component comes from `a`, the
/// second from `b`.
pub open spec fn mism(a: Ty, b: Ty) -> Option<(Ty, Ty)>
    decreases a, 0int,
{
    match (a, b) {
        (
            Ty::App { module: m1, name: n1, args: a1, .. },
            Ty::App { module: m2, name: n2, args: a2, .. },
        ) => if m1 == m2 && n1 == n2 && a1.len() == a2.len() {
            mism_seq(a1, a2)
        } else {
            Some((a, b))
        },
        (Ty::Fn { args: a1, ret: r1 }, Ty::Fn { args: a2, ret: r2 }) => if a1.len() == a2.len() {
            match mism_seq(a1, a2) {
                Some(p) => Some(p),
                None => mism(*r1, *r2),
            }
        } else {
            Some((a, b))
        },
        (Ty::Tuple { elems: e1 }, Ty::Tuple { elems: e2 }) => if e1.len() == e2.len() {
            mism_seq(e1, e2)
        } else {
            Some((a, b))
        },
        (Ty::Pair { fst: f1, snd: s1 }, Ty::Pair { fst: f2, snd: s2 }) => match mism(*f1, *f2) {
            Some(p) => Some(p),
            None => mism(*s1, *s2),
        },
        (Ty::Var { id: i1 }, Ty::Var { id: i2 }) => if i1 == i2 {
            None
        } else {
            Some((a, b))
        },
        _ => Some((a, b)),
    }
}

/// The first mismatch over two sequences of equal length, elementwise.
pub open spec fn mism_seq(a: Seq<Ty>, b: Seq<Ty>) -> Option<(Ty, Ty)>
    decreases a, 1int,
{
    if a.len() == 0 {
        None
    } else {
        match mism(a[0], b[0]) {
            Some(p) => Some(p),
            None => mism_seq(a.subrange(1, a.len() as int), b.subrange(1, b.len() as int)),
        }
    }
}

/// There is no mismatch exactly when the two terms are structurally
/// identical.
pub proof fn lemma_mism_none_iff_uni_eq(a: Ty, b: Ty)
    ensures
        mism(a, b) is None <==> uni_eq(a, b),
    decreases a, 0int,
{
    match (a, b) {
        (Ty::App { args: a1, .. }, Ty::App { args: a2, .. }) => {
            if a1.len() == a2.len() {
                lemma_mism_seq_none_iff_uni_eq_seq(a1, a2);
            } else {
                lemma_uni_eq_seq_pointwise(a1, a2);
            }
        },
        (Ty::Fn { args: a1, ret: r1 }, Ty::Fn { args: a2, ret: r2 }) => {
            if a1.len() == a2.len() {
                lemma_mism_seq_none_iff_uni_eq_seq(a1, a2);
                lemma_mism_none_iff_uni_eq(*r1, *r2);
            } else {
                lemma_uni_eq_seq_pointwise(a1, a2);
            }
        },
        (Ty::Tuple { elems: e1 }, Ty::Tuple { elems: e2 }) => {
            if e1.len() == e2.len() {
                lemma_mism_seq_none_iff_uni_eq_seq(e1, e2);
            } else {
                lemma_uni_eq_seq_pointwise(e1, e2);
            }
        },
        (Ty::Pair { fst: f1, snd: s1 }, Ty::Pair { fst: f2, snd: s2 }) => {
            lemma_mism_none_iff_uni_eq(*f1, *f2);
            lemma_mism_none_iff_uni_eq(*s1, *s2);
        },
        _ => {},
    }
}

/// Elementwise form of `lemma_mism_none_iff_uni_eq`, for sequences of
/// equal length.
pub proof fn lemma_mism_seq_none_iff_uni_eq_seq(a: Seq<Ty>, b: Seq<Ty>)
    requires
        a.len() == b.len(),
    ensures
        mism_seq(a, b) is None <==> uni_eq_seq(a, b),
    decreases a, 1int,
{
    if a.len() > 0 {
        lemma_mism_none_iff_uni_eq(a[0], b[0]);
        lemma_mism_seq_none_iff_uni_eq_seq(
            a.subrange(1, a.len() as int),
            b.subrange(1, b.len() as int),
        );
    }
}

/// When the first `i` element pairs are identical, the first mismatch of
/// the whole sequences is the first mismatch found from `i` on.
pub proof fn lemma_mism_seq_skip(a: Seq<Ty>, b: Seq<Ty>, i: int)
    requires
        a.len() == b.len(),
        0 <= i <= a.len(),
        forall|j: int| 0 <= j < i ==> mism(a[j], b[j]) is None,
    ensures
        mism_seq(a, b) == mism_seq(a.subrange(i, a.len() as int), b.subrange(i, b.len() as int)),
    decreases i,
{
    if i == 0 {
        assert(a.subrange(0, a.len() as int) =~= a);
        assert(b.subrange(0, b.len() as int) =~= b);
    } else {
        lemma_mism_seq_skip(a, b, i - 1);
        let ai = a.subrange(i - 1, a.len() as int);
        let bi = b.subrange(i - 1, b.len() as int);
        assert(ai[0] == a[i - 1]);
        assert(bi[0] == b[i - 1]);
        assert(mism(ai[0], bi[0]) is None);
        assert(ai.subrange(1, ai.len() as int) =~= a.subrange(i, a.len() as int));
        assert(bi.subrange(1, bi.len() as int) =~= b.subrange(i, b.len() as int));
    }
}

/// A subterm of a concrete type term is concrete: arguments of an
/// application, function arguments and result, tuple and pair elements.
pub broadcast proof fn lemma_concrete_element(ts: Seq<Ty>, i: int)
    requires
        0 <= i < ts.len(),
        concrete_seq(ts),
    ensures
        #[trigger] concrete(ts[i]),
    decreases ts,
{
    lemma_concrete_seq(ts);
}

} // verus!

verus! {

/// The prelude `Int` type.
pub open spec fn int_ty() -> Ty {
    Ty::App {
        public: true,
        opaque: false,
        module: Seq::<char>::empty(),
        name: "Int"@,
        args: Seq::empty(),
    }
}

/// The prelude `Bool` type.
pub open spec fn bool_ty() -> Ty {
    Ty::App {
        public: true,
        opaque: false,
        module: Seq::<char>::empty(),
        name: "Bool"@,
        args: Seq::empty(),
    }
}

/// The prelude `Void` type.
pub open spec fn void_ty() -> Ty {
    Ty::App {
        public: true,
        opaque: false,
        module: Seq::<char>::empty(),
        name: "Void"@,
        args: Seq::empty(),
    }
}

/// The prelude `Data` type: the universal opaque on-chain value.
pub open spec fn data_ty() -> Ty {
    Ty::App {
        public: true,
        opaque: false,
        module: Seq::<char>::empty(),
        name: "Data"@,
        args: Seq::empty(),
    }
}

/// The prelude `PRNG` type: the pseudo-random state a generator threads.
pub open spec fn prng_ty() -> Ty {
    Ty::App {
        public: true,
        opaque: false,
        module: Seq::<char>::empty(),
        name: "PRNG"@,
        args: Seq::empty(),
    }
}

/// The prelude `Option` type applied to one argument.
pub open spec fn option_ty(t: Ty) -> Ty {
    Ty::App {
        public: true,
        opaque: false,
        module: Seq::<char>::empty(),
        name: "Option"@,
        args: seq![t],
    }
}

/// The shape of a generator of values of type `t`: a function from the
/// pseudo-random state to an optional pair of next state and value.
pub open spec fn fuzzer_ty(t: Ty) -> Ty {
    Ty::Fn {
        args: seq![prng_ty()],
        ret: Box::new(option_ty(Ty::Tuple { elems: seq![prng_ty(), t] })),
    }
}

/// The shape of a sized generator: a function from an integer size to a
/// generator.
pub open spec fn sampler_ty(t: Ty) -> Ty {
    Ty::Fn { args: seq![int_ty()], ret: Box::new(fuzzer_ty(t)) }
}

impl Type {
    /// The prelude `Int` type.
    pub fn integer() -> (r: Type)
        ensures
            r@ == int_ty(),
    {
        let m = String::new();
        let n = "Int".to_owned();
        let args: Vec<Type> = Vec::new();
        let r = Type::App { public: true, opaque: false, module: m, name: n, args };
        proof {
            reveal_strlit("Int");
            assert(r@ is App);
            assert(r@->App_module =~= Seq::<char>::empty());
            assert(r@->App_name =~= "Int"@);
            assert(r->App_args@.len() == 0);
            assert(tys_of(r->App_args@) =~= Seq::<Ty>::empty());
            assert(r@->App_args =~= Seq::<Ty>::empty());
            assert(r@ =~= int_ty());
        }
        r
    }

    /// The prelude `Bool` type.
    pub fn boolean() -> (r: Type)
        ensures
            r@ == bool_ty(),
    {
        let m = String::new();
        let n = "Bool".to_owned();
        let args: Vec<Type> = Vec::new();
        let r = Type::App { public: true, opaque: false, module: m, name: n, args };
        proof {
            reveal_strlit("Bool");
            assert(r->App_args@.len() == 0);
            assert(tys_of(r->App_args@) =~= Seq::<Ty>::empty());
            assert(r@ =~= bool_ty());
        }
        r
    }

    /// The prelude `Void` type.
    pub fn void() -> (r: Type)
        ensures
            r@ == void_ty(),
    {
        let m = String::new();
        let n = "Void".to_owned();
        let args: Vec<Type> = Vec::new();
        let r = Type::App { public: true, opaque: false, module: m, name: n, args };
        proof {
            reveal_strlit("Void");
            assert(r->App_args@.len() == 0);
            assert(tys_of(r->App_args@) =~= Seq::<Ty>::empty());
            assert(r@ =~= void_ty());
        }
        r
    }

    /// The prelude `Data` type.
    pub fn data() -> (r: Type)
        ensures
            r@ == data_ty(),
    {
        let m = String::new();
        let n = "Data".to_owned();
        let args: Vec<Type> = Vec::new();
        let r = Type::App { public: true, opaque: false, module: m, name: n, args };
        proof {
            reveal_strlit("Data");
            assert(r->App_args@.len() == 0);
            assert(tys_of(r->App_args@) =~= Seq::<Ty>::empty());
            assert(r@ =~= data_ty());
        }
        r
    }

    /// The prelude `PRNG` type.
    pub fn prng() -> (r: Type)
        ensures
            r@ == prng_ty(),
    {
        let m = String::new();
        let n = "PRNG".to_owned();
        let args: Vec<Type> = Vec::new();
        let r = Type::App { public: true, opaque: false, module: m, name: n, args };
        proof {
            reveal_strlit("PRNG");
            assert(r->App_args@.len() == 0);
            assert(tys_of(r->App_args@) =~= Seq::<Ty>::empty());
            assert(r@ =~= prng_ty());
        }
        r
    }

    /// The prelude `Option` type applied to `t`.
    pub fn option(t: Type) -> (r: Type)
        ensures
            r@ == option_ty(t@),
    {
        let ghost tv = t@;
        let mut args: Vec<Type> = Vec::new();
        args.push(t);
        let r = Type::App {
            public: true,
            opaque: false,
            module: String::new(),
            name: "Option".to_owned(),
            args,
        };
        proof {
            reveal_strlit("Option");
            lemma_tys_of(r->App_args@);
            assert(tys_of(r->App_args@) =~= seq![tv]);
            assert(r@ =~= option_ty(tv));
        }
        r
    }

    /// The type of a generator of values of type `t`.
    pub fn fuzzer(t: Type) -> (r: Type)
        ensures
            r@ == fuzzer_ty(t@),
    {
        let ghost tv = t@;
        let mut elems: Vec<Type> = Vec::new();
        elems.push(Type::prng());
        elems.push(t);
        let pair = Type::Tuple { elems };
        proof {
            lemma_tys_of(pair->Tuple_elems@);
            assert(tys_of(pair->Tuple_elems@) =~= seq![prng_ty(), tv]);
            assert(pair@ =~= Ty::Tuple { elems: seq![prng_ty(), tv] });
        }
        let ret = Type::option(pair);
        let mut args: Vec<Type> = Vec::new();
        args.push(Type::prng());
        let r = Type::Fn { args, ret: Box::new(ret) };
        proof {
            lemma_tys_of(r->Fn_args@);
            assert(tys_of(r->Fn_args@) =~= seq![prng_ty()]);
            assert(r@ =~= fuzzer_ty(tv));
        }
        r
    }

    /// The type of a sized generator of values of type `t`.
    pub fn sampler(t: Type) -> (r: Type)
        ensures
            r@ == sampler_ty(t@),
    {
        let ghost tv = t@;
        let inner = Type::fuzzer(t);
        let mut args: Vec<Type> = Vec::new();
        args.push(Type::integer());
        let r = Type::Fn { args, ret: Box::new(inner) };
        proof {
            lemma_tys_of(r->Fn_args@);
            assert(tys_of(r->Fn_args@) =~= seq![int_ty()]);
            assert(r@ =~= sampler_ty(tv));
        }
        r
    }
}

/// Whether a type term is a named prelude application: the given name,
/// empty qualifier, no arguments expected of the prelude scalars.
pub open spec fn is_named_ty(t: Ty, name: Seq<char>) -> bool {
    match t {
        Ty::App { module, name: n, .. } => module == Seq::<char>::empty() && n == name,
        _ => false,
    }
}

/// Whether `t` is a prelude application of the given name.
pub fn is_named_type(t: &Type, name: &str) -> (r: bool)
    ensures
        r == is_named_ty(t@, name@),
{
    match t {
        Type::App { module, name: n, .. } => *module == String::new() && *n == name.to_owned(),
        _ => false,
    }
}

impl Type {
    /// Whether this is the prelude `Bool` type.
    pub fn is_bool(&self) -> (r: bool)
        ensures
            r == is_named_ty(self@, "Bool"@),
    {
        is_named_type(self, "Bool")
    }

    /// Whether this is the prelude `Int` type.
    pub fn is_int(&self) -> (r: bool)
        ensures
            r == is_named_ty(self@, "Int"@),
    {
        is_named_type(self, "Int")
    }

    /// Whether this is the prelude `Void` type.
    pub fn is_void(&self) -> (r: bool)
        ensures
            r == is_named_ty(self@, "Void"@),
    {
        is_named_type(self, "Void")
    }

    /// Whether this is the unresolved-computation type, which may not be
    /// stored in data or produced by a generator.
    pub fn is_ml_result(&self) -> (r: bool)
        ensures
            r == is_named_ty(self@, "MLResult"@),
    {
        is_named_type(self, "MLResult")
    }

    /// Whether this is a prelude `Option` application.
    pub fn is_option(&self) -> (r: bool)
        ensures
            r == is_named_ty(self@, "Option"@),
    {
        is_named_type(self, "Option")
    }

    /// Whether this is a function type.
    pub fn is_function(&self) -> (r: bool)
        ensures
            r == (self@ is Fn),
    {
        match self {
            Type::Fn { .. } => true,
            _ => false,
        }
    }

    /// Whether this is a unification variable at the top.
    pub fn is_var(&self) -> (r: bool)
        ensures
            r == (self@ is Var),
    {
        match self {
            Type::Var { .. } => true,
            _ => false,
        }
    }

    /// The argument types and return type of a function type.
    pub fn function_types(&self) -> (r: Option<(&Vec<Type>, &Type)>)
        ensures
            r is Some <==> self@ is Fn,
            r matches Some((args, ret)) ==> tys_of(args@) == self@->Fn_args && ret@
                == *self@->Fn_ret,
    {
        match self {
            Type::Fn { args, ret } => Some((args, ret)),
            _ => None,
        }
    }
}

} // verus!

verus! {

/// A variable occurring in the shapes of a vector occurs in the shape of
/// one of its elements.
pub proof fn lemma_occ_seq_all(ts: Seq<Type>)
    ensures
        forall|v: nat|
            #[trigger] occ_seq(v, tys_of(ts)) ==> exists|k: int|
                0 <= k < ts.len() && occ(v, ts[k]@),
{
    lemma_tys_of(ts);
    assert forall|v: nat| #[trigger] occ_seq(v, tys_of(ts)) implies exists|k: int|
        0 <= k < ts.len() && occ(v, ts[k]@) by {
        lemma_occ_seq(v, tys_of(ts));
        let k = choose|k: int| 0 <= k < tys_of(ts).len() && occ(v, tys_of(ts)[k]);
        assert(occ(v, ts[k]@));
    }
}

} // verus!

verus! {

/// Whether a function type is reachable anywhere in the term.
pub open spec fn has_function(t: Ty) -> bool
    decreases t, 0int,
{
    match t {
        Ty::App { args, .. } => has_function_seq(args),
        Ty::Fn { .. } => true,
        Ty::Tuple { elems } => has_function_seq(elems),
        Ty::Pair { fst, snd } => has_function(*fst) || has_function(*snd),
        Ty::Var { .. } => false,
    }
}

/// Whether any element of the sequence reaches a function type.
pub open spec fn has_function_seq(ts: Seq<Ty>) -> bool
    decreases ts, 1int,
{
    if ts.len() == 0 {
        false
    } else {
        has_function(ts[0]) || has_function_seq(ts.subrange(1, ts.len() as int))
    }
}

/// `has_function_seq` holds exactly when some element reaches one.
pub proof fn lemma_has_function_seq(ts: Seq<Ty>)
    ensures
        has_function_seq(ts) <==> exists|i: int|
            0 <= i < ts.len() && has_function(#[trigger] ts[i]),
    decreases ts,
{
    if ts.len() > 0 {
        let tl = ts.subrange(1, ts.len() as int);
        lemma_has_function_seq(tl);
        if has_function_seq(ts) {
            if has_function(ts[0]) {
            } else {
                let i = choose|i: int| 0 <= i < tl.len() && has_function(tl[i]);
                assert(has_function(ts[i + 1]));
            }
        }
        if exists|i: int| 0 <= i < ts.len() && has_function(#[trigger] ts[i]) {
            let i = choose|i: int| 0 <= i < ts.len() && has_function(ts[i]);
            if i > 0 {
                assert(has_function(tl[i - 1]));
            }
        }
    }
}

} // verus!
