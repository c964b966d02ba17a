//! The unification state: a table of variable entries.
//!
//! A unification variable is an index into this table. An entry is
//! `Unbound` (not yet solved), `Linked` (solved: the variable stands for
//! the stored type), or `Generic` (universally quantified after
//! generalization). The table is kept *idempotent*: a linked entry never
//! mentions a linked variable, so resolving a type is a single
//! substitution pass. Linking a variable rewrites every other linked entry
//! accordingly, and the occurs check keeps a variable from ever standing
//! for a type that contains it.

use vstd::prelude::*;

use crate::error::Error;
use crate::span::Span;
use crate::tipo::{
    concrete, concrete_seq, lemma_concrete_element, lemma_concrete_seq, lemma_mism_none_iff_uni_eq,
    lemma_mism_seq_skip, lemma_occ_seq, lemma_occ_subst1, lemma_subst1_absent, lemma_subst1_seq,
    lemma_tsize_seq_element, lemma_tys_of, lemma_uni_eq_refl, lemma_uni_eq_seq_pointwise, mism,
    mism_seq, occ, occ_seq, subst1, subst1_seq, tsize, tsize_seq, ty_of, tys_of, uni_eq,
    uni_eq_seq, Ty, Type,
};

verus! {

/// One entry of the substitution table.
#[derive(Debug)]
pub enum VarState {
    /// The variable is not solved yet.
    Unbound,
    /// The variable stands for this type.
    Linked { tipo: Type },
    /// The variable is universally quantified in an exported signature.
    Generic,
}

/// The mathematical shape of a table entry.
#[verifier::ext_equal]
pub enum VEntry {
    Unbound,
    Linked { t: Ty },
    Generic,
}

/// The shape of an executable table entry.
pub open spec fn vent_of(e: VarState) -> VEntry {
    match e {
        VarState::Unbound => VEntry::Unbound,
        VarState::Linked { tipo } => VEntry::Linked { t: ty_of(tipo) },
        VarState::Generic => VEntry::Generic,
    }
}

impl View for VarState {
    type V = VEntry;

    open spec fn view(&self) -> VEntry {
        vent_of(*self)
    }
}

/// The shapes of a sequence of executable table entries, elementwise.
pub open spec fn ents_of(es: Seq<VarState>) -> Seq<VEntry>
    decreases es,
{
    if es.len() == 0 {
        Seq::empty()
    } else {
        seq![vent_of(es[0])] + ents_of(es.subrange(1, es.len() as int))
    }
}

/// `ents_of` maps `vent_of` over the sequence, elementwise.
pub broadcast proof fn lemma_ents_of(es: Seq<VarState>)
    ensures
        (#[trigger] ents_of(es)).len() == es.len(),
        forall|i: int| 0 <= i < es.len() ==> ents_of(es)[i] == vent_of(es[i]),
    decreases es,
{
    if es.len() > 0 {
        lemma_ents_of(es.subrange(1, es.len() as int));
    }
}

/// Whether variable `v` is solved in table `s`.
pub open spec fn linked(s: Seq<VEntry>, v: nat) -> bool {
    v < s.len() && s[v as int] is Linked
}

/// The type a solved variable stands for.
pub open spec fn link_of(s: Seq<VEntry>, v: nat) -> Ty
    recommends
        linked(s, v),
{
    s[v as int]->t
}

/// Resolve `t` against the table: one substitution pass replacing every
/// solved variable by the type it stands for. On a well-formed table this
/// is full resolution.
pub open spec fn app(s: Seq<VEntry>, t: Ty) -> Ty
    decreases t, 0int,
{
    match t {
        Ty::App { public, opaque, module, name, args } => Ty::App {
            public,
            opaque,
            module,
            name,
            args: app_seq(s, args),
        },
        Ty::Fn { args, ret } => Ty::Fn { args: app_seq(s, args), ret: Box::new(app(s, *ret)) },
        Ty::Tuple { elems } => Ty::Tuple { elems: app_seq(s, elems) },
        Ty::Pair { fst, snd } => Ty::Pair {
            fst: Box::new(app(s, *fst)),
            snd: Box::new(app(s, *snd)),
        },
        Ty::Var { id } => if linked(s, id) {
            link_of(s, id)
        } else {
            t
        },
    }
}

/// Elementwise resolution of a sequence of type terms.
pub open spec fn app_seq(s: Seq<VEntry>, ts: Seq<Ty>) -> Seq<Ty>
    decreases ts, 1int,
{
    if ts.len() == 0 {
        Seq::empty()
    } else {
        seq![app(s, ts[0])] + app_seq(s, ts.subrange(1, ts.len() as int))
    }
}

/// `app_seq` maps `app` over the sequence, elementwise.
pub broadcast proof fn lemma_app_seq(s: Seq<VEntry>, ts: Seq<Ty>)
    ensures
        (#[trigger] app_seq(s, ts)).len() == ts.len(),
        forall|i: int| 0 <= i < ts.len() ==> app_seq(s, ts)[i] == app(s, ts[i]),
    decreases ts,
{
    if ts.len() > 0 {
        lemma_app_seq(s, ts.subrange(1, ts.len() as int));
    }
}

/// `t` mentions no solved variable: resolving it changes nothing.
pub open spec fn lf(s: Seq<VEntry>, t: Ty) -> bool {
    forall|v: nat| #[trigger] occ(v, t) ==> !linked(s, v)
}

/// No element of `ts` mentions a solved variable.
pub open spec fn lf_seq(s: Seq<VEntry>, ts: Seq<Ty>) -> bool {
    forall|v: nat| #[trigger] occ_seq(v, ts) ==> !linked(s, v)
}

/// The table invariant: every solved entry is itself fully resolved, so
/// one substitution pass resolves any type completely, and no chain of
/// links can cycle.
pub open spec fn wf(s: Seq<VEntry>) -> bool {
    forall|v: nat| #[trigger] linked(s, v) ==> lf(s, link_of(s, v))
}

/// The number of unsolved variables in the table.
pub open spec fn n_unb(s: Seq<VEntry>) -> nat
    decreases s,
{
    if s.len() == 0 {
        0
    } else {
        (if s[0] is Unbound {
            1nat
        } else {
            0nat
        }) + n_unb(s.subrange(1, s.len() as int))
    }
}

/// The table after solving variable `v` as `u`: entry `v` becomes a link
/// to `u`, and every other solved entry has `v` substituted away.
pub open spec fn link_s(s: Seq<VEntry>, v: nat, u: Ty) -> Seq<VEntry> {
    Seq::new(
        s.len(),
        |i: int|
            if i == v {
                VEntry::Linked { t: u }
            } else {
                match s[i] {
                    VEntry::Linked { t } => VEntry::Linked { t: subst1(t, v, u) },
                    e => e,
                }
            },
    )
}

/// `s2` refines `s1`: everything `s1` resolves, `s2` resolves the same
/// way, so resolutions made under `s1` stay valid under `s2`.
pub open spec fn refines(s2: Seq<VEntry>, s1: Seq<VEntry>) -> bool {
    forall|x: Ty| #[trigger] app(s2, app(s1, x)) == app(s2, x)
}

/// Resolving a type that mentions no solved variable changes nothing.
pub proof fn lemma_app_lf(s: Seq<VEntry>, t: Ty)
    requires
        lf(s, t),
    ensures
        app(s, t) == t,
    decreases t, 0int,
{
    match t {
        Ty::App { args, .. } => {
            assert(lf_seq(s, args)) by {
                assert forall|v: nat| occ_seq(v, args) implies !linked(s, v) by {
                    assert(occ(v, t));
                }
            }
            lemma_app_seq_lf(s, args);
            assert(app(s, t) =~= t);
        },
        Ty::Fn { args, ret } => {
            assert(lf_seq(s, args)) by {
                assert forall|v: nat| occ_seq(v, args) implies !linked(s, v) by {
                    assert(occ(v, t));
                }
            }
            lemma_app_seq_lf(s, args);
            assert(lf(s, *ret)) by {
                assert forall|v: nat| occ(v, *ret) implies !linked(s, v) by {
                    assert(occ(v, t));
                }
            }
            lemma_app_lf(s, *ret);
            assert(app(s, t) =~= t);
        },
        Ty::Tuple { elems } => {
            assert(lf_seq(s, elems)) by {
                assert forall|v: nat| occ_seq(v, elems) implies !linked(s, v) by {
                    assert(occ(v, t));
                }
            }
            lemma_app_seq_lf(s, elems);
            assert(app(s, t) =~= t);
        },
        Ty::Pair { fst, snd } => {
            assert(lf(s, *fst) && lf(s, *snd)) by {
                assert forall|v: nat| occ(v, *fst) || occ(v, *snd) implies !linked(s, v) by {
                    assert(occ(v, t));
                }
            }
            lemma_app_lf(s, *fst);
            lemma_app_lf(s, *snd);
            assert(app(s, t) =~= t);
        },
        Ty::Var { id } => {
            assert(occ(id, t));
        },
    }
}

/// Elementwise form of `lemma_app_lf`.
pub proof fn lemma_app_seq_lf(s: Seq<VEntry>, ts: Seq<Ty>)
    requires
        lf_seq(s, ts),
    ensures
        app_seq(s, ts) == ts,
    decreases ts, 1int,
{
    if ts.len() > 0 {
        let tl = ts.subrange(1, ts.len() as int);
        assert(lf(s, ts[0])) by {
            assert forall|v: nat| occ(v, ts[0]) implies !linked(s, v) by {
                assert(occ_seq(v, ts));
            }
        }
        assert(lf_seq(s, tl)) by {
            assert forall|v: nat| occ_seq(v, tl) implies !linked(s, v) by {
                assert(occ_seq(v, ts));
            }
        }
        lemma_app_lf(s, ts[0]);
        lemma_app_seq_lf(s, tl);
        assert(app_seq(s, ts) =~= ts);
    }
}

/// On a well-formed table, a resolved type mentions no solved variable.
pub proof fn lemma_lf_app(s: Seq<VEntry>, t: Ty)
    requires
        wf(s),
    ensures
        lf(s, app(s, t)),
    decreases t, 0int,
{
    match t {
        Ty::App { args, .. } => {
            lemma_lf_app_seq(s, args);
            assert forall|v: nat| occ(v, app(s, t)) implies !linked(s, v) by {
                assert(occ_seq(v, app_seq(s, args)));
            }
        },
        Ty::Fn { args, ret } => {
            lemma_lf_app_seq(s, args);
            lemma_lf_app(s, *ret);
            assert forall|v: nat| occ(v, app(s, t)) implies !linked(s, v) by {
                assert(occ_seq(v, app_seq(s, args)) || occ(v, app(s, *ret)));
            }
        },
        Ty::Tuple { elems } => {
            lemma_lf_app_seq(s, elems);
            assert forall|v: nat| occ(v, app(s, t)) implies !linked(s, v) by {
                assert(occ_seq(v, app_seq(s, elems)));
            }
        },
        Ty::Pair { fst, snd } => {
            lemma_lf_app(s, *fst);
            lemma_lf_app(s, *snd);
            assert forall|v: nat| occ(v, app(s, t)) implies !linked(s, v) by {
                assert(occ(v, app(s, *fst)) || occ(v, app(s, *snd)));
            }
        },
        Ty::Var { id } => {
            if linked(s, id) {
                assert(lf(s, link_of(s, id)));
            }
        },
    }
}

/// Elementwise form of `lemma_lf_app`.
pub proof fn lemma_lf_app_seq(s: Seq<VEntry>, ts: Seq<Ty>)
    requires
        wf(s),
    ensures
        lf_seq(s, app_seq(s, ts)),
    decreases ts, 1int,
{
    if ts.len() > 0 {
        let tl = ts.subrange(1, ts.len() as int);
        lemma_lf_app(s, ts[0]);
        lemma_lf_app_seq(s, tl);
        let m = app_seq(s, ts);
        assert(m[0] == app(s, ts[0]));
        assert(m.subrange(1, m.len() as int) =~= app_seq(s, tl));
        assert forall|v: nat| occ_seq(v, m) implies !linked(s, v) by {
            assert(occ(v, m[0]) || occ_seq(v, m.subrange(1, m.len() as int)));
        }
    }
}

/// On a well-formed table, resolution is idempotent.
pub proof fn lemma_app_idem(s: Seq<VEntry>, t: Ty)
    requires
        wf(s),
    ensures
        app(s, app(s, t)) == app(s, t),
{
    lemma_lf_app(s, t);
    lemma_app_lf(s, app(s, t));
}

/// A fully concrete type mentions no variable at all.
pub proof fn lemma_concrete_no_occ(t: Ty)
    requires
        concrete(t),
    ensures
        forall|v: nat| !occ(v, t),
    decreases t, 0int,
{
    match t {
        Ty::App { args, .. } => {
            lemma_concrete_no_occ_seq(args);
            assert forall|v: nat| !occ(v, t) by {
                assert(!occ_seq(v, args));
            }
        },
        Ty::Fn { args, ret } => {
            lemma_concrete_no_occ_seq(args);
            lemma_concrete_no_occ(*ret);
            assert forall|v: nat| !occ(v, t) by {
                assert(!occ_seq(v, args));
                assert(!occ(v, *ret));
            }
        },
        Ty::Tuple { elems } => {
            lemma_concrete_no_occ_seq(elems);
            assert forall|v: nat| !occ(v, t) by {
                assert(!occ_seq(v, elems));
            }
        },
        Ty::Pair { fst, snd } => {
            lemma_concrete_no_occ(*fst);
            lemma_concrete_no_occ(*snd);
            assert forall|v: nat| !occ(v, t) by {
                assert(!occ(v, *fst));
                assert(!occ(v, *snd));
            }
        },
        Ty::Var { .. } => {},
    }
}

/// Elementwise form of `lemma_concrete_no_occ`.
pub proof fn lemma_concrete_no_occ_seq(ts: Seq<Ty>)
    requires
        concrete_seq(ts),
    ensures
        forall|v: nat| !occ_seq(v, ts),
    decreases ts, 1int,
{
    if ts.len() > 0 {
        let tl = ts.subrange(1, ts.len() as int);
        lemma_concrete_no_occ(ts[0]);
        lemma_concrete_no_occ_seq(tl);
        assert forall|v: nat| !occ_seq(v, ts) by {
            assert(!occ(v, ts[0]));
            assert(!occ_seq(v, tl));
        }
    }
}

/// Resolving a fully concrete type changes nothing.
pub proof fn lemma_app_concrete(s: Seq<VEntry>, t: Ty)
    requires
        concrete(t),
    ensures
        app(s, t) == t,
{
    lemma_concrete_no_occ(t);
    lemma_app_lf(s, t);
}

} // verus!

verus! {

/// Two tables with the same pattern of unsolved entries have the same
/// count of them.
pub proof fn lemma_n_unb_congruent(s1: Seq<VEntry>, s2: Seq<VEntry>)
    requires
        s1.len() == s2.len(),
        forall|i: int| 0 <= i < s1.len() ==> ((s1[i] is Unbound) <==> (s2[i] is Unbound)),
    ensures
        n_unb(s1) == n_unb(s2),
    decreases s1,
{
    if s1.len() > 0 {
        let t1 = s1.subrange(1, s1.len() as int);
        let t2 = s2.subrange(1, s2.len() as int);
        assert forall|i: int| 0 <= i < t1.len() implies ((t1[i] is Unbound) <==> (t2[i]
            is Unbound)) by {
            assert(t1[i] == s1[i + 1]);
            assert(t2[i] == s2[i + 1]);
        }
        lemma_n_unb_congruent(t1, t2);
    }
}

/// Solving exactly one unsolved entry lowers the count by one.
pub proof fn lemma_n_unb_drop(s1: Seq<VEntry>, s2: Seq<VEntry>, v: int)
    requires
        s1.len() == s2.len(),
        0 <= v < s1.len(),
        forall|i: int| 0 <= i < s1.len() && i != v ==> ((s1[i] is Unbound) <==> (s2[i]
            is Unbound)),
        s1[v] is Unbound,
        !(s2[v] is Unbound),
    ensures
        n_unb(s2) + 1 == n_unb(s1),
    decreases s1,
{
    let t1 = s1.subrange(1, s1.len() as int);
    let t2 = s2.subrange(1, s2.len() as int);
    if v == 0 {
        assert forall|i: int| 0 <= i < t1.len() implies ((t1[i] is Unbound) <==> (t2[i]
            is Unbound)) by {
            assert(t1[i] == s1[i + 1]);
            assert(t2[i] == s2[i + 1]);
        }
        lemma_n_unb_congruent(t1, t2);
    } else {
        assert forall|i: int| 0 <= i < t1.len() && i != v - 1 implies ((t1[i] is Unbound) <==> (
        t2[i] is Unbound)) by {
            assert(t1[i] == s1[i + 1]);
            assert(t2[i] == s2[i + 1]);
        }
        assert(t1[v - 1] == s1[v]);
        assert(t2[v - 1] == s2[v]);
        lemma_n_unb_drop(t1, t2, v - 1);
        assert((s1[0] is Unbound) <==> (s2[0] is Unbound));
    }
}

/// Resolving against the table extended by the solution `v := u` is the
/// same as resolving against the old table and then substituting `u` for
/// `v`.
pub proof fn lemma_link_commute(s: Seq<VEntry>, v: nat, u: Ty, x: Ty)
    requires
        v < s.len(),
        s[v as int] is Unbound,
        lf(s, u),
        !occ(v, u),
    ensures
        app(link_s(s, v, u), x) == subst1(app(s, x), v, u),
    decreases x, 0int,
{
    let s2 = link_s(s, v, u);
    match x {
        Ty::App { args, .. } => {
            lemma_link_commute_seq(s, v, u, args);
            assert(app(s2, x) =~= subst1(app(s, x), v, u));
        },
        Ty::Fn { args, ret } => {
            lemma_link_commute_seq(s, v, u, args);
            lemma_link_commute(s, v, u, *ret);
            assert(app(s2, x) =~= subst1(app(s, x), v, u));
        },
        Ty::Tuple { elems } => {
            lemma_link_commute_seq(s, v, u, elems);
            assert(app(s2, x) =~= subst1(app(s, x), v, u));
        },
        Ty::Pair { fst, snd } => {
            lemma_link_commute(s, v, u, *fst);
            lemma_link_commute(s, v, u, *snd);
            assert(app(s2, x) =~= subst1(app(s, x), v, u));
        },
        Ty::Var { id } => {
            if id == v {
                assert(linked(s2, v));
                assert(!linked(s, v));
                assert(app(s2, x) == u);
                assert(subst1(app(s, x), v, u) == u);
            } else if linked(s, id) {
                assert(s2[id as int] == VEntry::Linked { t: subst1(link_of(s, id), v, u) });
                assert(linked(s2, id));
            } else {
                assert(!linked(s2, id));
            }
        },
    }
}

/// Elementwise form of `lemma_link_commute`.
pub proof fn lemma_link_commute_seq(s: Seq<VEntry>, v: nat, u: Ty, xs: Seq<Ty>)
    requires
        v < s.len(),
        s[v as int] is Unbound,
        lf(s, u),
        !occ(v, u),
    ensures
        app_seq(link_s(s, v, u), xs) == subst1_seq(app_seq(s, xs), v, u),
    decreases xs, 1int,
{
    let s2 = link_s(s, v, u);
    lemma_app_seq(s2, xs);
    lemma_app_seq(s, xs);
    lemma_subst1_seq(app_seq(s, xs), v, u);
    assert forall|i: int| 0 <= i < xs.len() implies app_seq(s2, xs)[i] == subst1_seq(
        app_seq(s, xs),
        v,
        u,
    )[i] by {
        lemma_link_commute(s, v, u, xs[i]);
    }
    assert(app_seq(s2, xs) =~= subst1_seq(app_seq(s, xs), v, u));
}

/// Linking an unsolved variable to a resolved type that does not contain
/// it keeps the table well-formed.
pub proof fn lemma_link_wf(s: Seq<VEntry>, v: nat, u: Ty)
    requires
        wf(s),
        v < s.len(),
        s[v as int] is Unbound,
        lf(s, u),
        !occ(v, u),
    ensures
        wf(link_s(s, v, u)),
{
    let s2 = link_s(s, v, u);
    assert forall|w: nat| linked(s2, w) implies lf(s2, link_of(s2, w)) by {
        if w == v {
            assert(link_of(s2, v) == u);
            assert forall|x: nat| occ(x, u) implies !linked(s2, x) by {
                assert(!linked(s, x));
                assert(x != v);
            }
        } else {
            assert(linked(s, w));
            let tw = link_of(s, w);
            assert(link_of(s2, w) == subst1(tw, v, u));
            assert(lf(s, tw));
            assert forall|x: nat| occ(x, link_of(s2, w)) implies !linked(s2, x) by {
                lemma_occ_subst1(x, tw, v, u);
                if occ(x, tw) && x != v {
                    assert(!linked(s, x));
                } else {
                    assert(occ(x, u));
                    assert(!linked(s, x));
                    assert(x != v);
                }
            }
        }
    }
}

/// All the facts a caller needs after solving `v` as `u`.
pub proof fn lemma_link_props(s: Seq<VEntry>, v: nat, u: Ty)
    requires
        wf(s),
        v < s.len(),
        s[v as int] is Unbound,
        lf(s, u),
        !occ(v, u),
    ensures
        wf(link_s(s, v, u)),
        link_s(s, v, u).len() == s.len(),
        n_unb(link_s(s, v, u)) + 1 == n_unb(s),
        refines(link_s(s, v, u), s),
        app(link_s(s, v, u), Ty::Var { id: v }) == u,
{
    let s2 = link_s(s, v, u);
    lemma_link_wf(s, v, u);
    assert forall|i: int| 0 <= i < s.len() && i != v implies ((s[i] is Unbound) <==> (s2[i]
        is Unbound)) by {}
    lemma_n_unb_drop(s, s2, v as int);
    assert forall|x: Ty| app(s2, app(s, x)) == app(s2, x) by {
        lemma_link_commute(s, v, u, app(s, x));
        lemma_app_idem(s, x);
        lemma_link_commute(s, v, u, x);
    }
    assert(linked(s2, v));
    assert(app(s2, Ty::Var { id: v }) == u);
}

/// A well-formed table refines itself.
pub proof fn lemma_refines_refl(s: Seq<VEntry>)
    requires
        wf(s),
    ensures
        refines(s, s),
{
    assert forall|x: Ty| app(s, app(s, x)) == app(s, x) by {
        lemma_app_idem(s, x);
    }
}

/// Refinement composes.
pub proof fn lemma_refines_trans(s3: Seq<VEntry>, s2: Seq<VEntry>, s1: Seq<VEntry>)
    requires
        refines(s3, s2),
        refines(s2, s1),
    ensures
        refines(s3, s1),
{
    assert forall|x: Ty| app(s3, app(s1, x)) == app(s3, x) by {
        assert(app(s2, app(s1, x)) == app(s2, x));
        assert(app(s3, app(s2, app(s1, x))) == app(s3, app(s1, x)));
        assert(app(s3, app(s2, x)) == app(s3, x));
    }
}

/// Resolution respects structural identity.
pub proof fn lemma_uni_eq_app(s: Seq<VEntry>, a: Ty, b: Ty)
    requires
        uni_eq(a, b),
    ensures
        uni_eq(app(s, a), app(s, b)),
    decreases a, 0int,
{
    match (a, b) {
        (Ty::App { args: a1, .. }, Ty::App { args: a2, .. }) => {
            lemma_uni_eq_app_seq(s, a1, a2);
        },
        (Ty::Fn { args: a1, ret: r1 }, Ty::Fn { args: a2, ret: r2 }) => {
            lemma_uni_eq_app_seq(s, a1, a2);
            lemma_uni_eq_app(s, *r1, *r2);
        },
        (Ty::Tuple { elems: e1 }, Ty::Tuple { elems: e2 }) => {
            lemma_uni_eq_app_seq(s, e1, e2);
        },
        (Ty::Pair { fst: f1, snd: s1 }, Ty::Pair { fst: f2, snd: s2 }) => {
            lemma_uni_eq_app(s, *f1, *f2);
            lemma_uni_eq_app(s, *s1, *s2);
        },
        (Ty::Var { id: i1 }, Ty::Var { id: i2 }) => {
            lemma_uni_eq_refl(app(s, a));
        },
        _ => {},
    }
}

/// Elementwise form of `lemma_uni_eq_app`.
pub proof fn lemma_uni_eq_app_seq(s: Seq<VEntry>, a: Seq<Ty>, b: Seq<Ty>)
    requires
        uni_eq_seq(a, b),
    ensures
        uni_eq_seq(app_seq(s, a), app_seq(s, b)),
    decreases a, 1int,
{
    lemma_uni_eq_seq_pointwise(a, b);
    lemma_app_seq(s, a);
    lemma_app_seq(s, b);
    assert forall|i: int| 0 <= i < a.len() implies uni_eq(app_seq(s, a)[i], app_seq(s, b)[i]) by {
        lemma_uni_eq_app(s, a[i], b[i]);
    }
    lemma_uni_eq_seq_pointwise(app_seq(s, a), app_seq(s, b));
}

/// A structural identity established under a table stays established
/// under any refinement of it.
pub proof fn lemma_uni_eq_preserved(s2: Seq<VEntry>, s1: Seq<VEntry>, x: Ty, y: Ty)
    requires
        refines(s2, s1),
        uni_eq(app(s1, x), app(s1, y)),
    ensures
        uni_eq(app(s2, x), app(s2, y)),
{
    lemma_uni_eq_app(s2, app(s1, x), app(s1, y));
    assert(app(s2, app(s1, x)) == app(s2, x));
    assert(app(s2, app(s1, y)) == app(s2, y));
}

/// One-step dereference at the head of a term: a solved variable becomes
/// the type it stands for; anything else is returned as is.
pub open spec fn hd(s: Seq<VEntry>, t: Ty) -> Ty {
    match t {
        Ty::Var { id } => if linked(s, id) {
            link_of(s, id)
        } else {
            t
        },
        _ => t,
    }
}

/// Head dereference resolves to the same type, and on a well-formed table
/// its result never has a solved variable at the head.
pub proof fn lemma_hd(s: Seq<VEntry>, t: Ty)
    requires
        wf(s),
    ensures
        app(s, hd(s, t)) == app(s, t),
        hd(s, t) matches Ty::Var { id } ==> !linked(s, id),
{
    match t {
        Ty::Var { id } => {
            if linked(s, id) {
                assert(lf(s, link_of(s, id)));
                lemma_app_lf(s, link_of(s, id));
                if hd(s, t) is Var {
                    let w = hd(s, t)->id;
                    assert(occ(w, hd(s, t)));
                }
            }
        },
        _ => {},
    }
}

} // verus!

verus! {

/// Two tables that solve the same variables the same way resolve every
/// type the same way.
pub proof fn lemma_app_congruent(s1: Seq<VEntry>, s2: Seq<VEntry>, t: Ty)
    requires
        forall|v: nat| #[trigger] linked(s1, v) <==> linked(s2, v),
        forall|v: nat| #[trigger] linked(s1, v) ==> link_of(s1, v) == link_of(s2, v),
    ensures
        app(s1, t) == app(s2, t),
    decreases t, 0int,
{
    match t {
        Ty::App { args, .. } => {
            lemma_app_congruent_seq(s1, s2, args);
            assert(app(s1, t) =~= app(s2, t));
        },
        Ty::Fn { args, ret } => {
            lemma_app_congruent_seq(s1, s2, args);
            lemma_app_congruent(s1, s2, *ret);
            assert(app(s1, t) =~= app(s2, t));
        },
        Ty::Tuple { elems } => {
            lemma_app_congruent_seq(s1, s2, elems);
            assert(app(s1, t) =~= app(s2, t));
        },
        Ty::Pair { fst, snd } => {
            lemma_app_congruent(s1, s2, *fst);
            lemma_app_congruent(s1, s2, *snd);
            assert(app(s1, t) =~= app(s2, t));
        },
        Ty::Var { id } => {},
    }
}

/// Elementwise form of `lemma_app_congruent`.
pub proof fn lemma_app_congruent_seq(s1: Seq<VEntry>, s2: Seq<VEntry>, ts: Seq<Ty>)
    requires
        forall|v: nat| #[trigger] linked(s1, v) <==> linked(s2, v),
        forall|v: nat| #[trigger] linked(s1, v) ==> link_of(s1, v) == link_of(s2, v),
    ensures
        app_seq(s1, ts) == app_seq(s2, ts),
    decreases ts, 1int,
{
    lemma_app_seq(s1, ts);
    lemma_app_seq(s2, ts);
    assert forall|i: int| 0 <= i < ts.len() implies app_seq(s1, ts)[i] == app_seq(s2, ts)[i] by {
        lemma_app_congruent(s1, s2, ts[i]);
    }
    assert(app_seq(s1, ts) =~= app_seq(s2, ts));
}

/// Appending an unsolved or generic entry leaves every resolution as it
/// was and keeps the table well-formed.
pub proof fn lemma_push_entry(s: Seq<VEntry>, e: VEntry)
    requires
        wf(s),
        !(e is Linked),
    ensures
        wf(s.push(e)),
        refines(s.push(e), s),
        forall|t: Ty| #[trigger] app(s.push(e), t) == app(s, t),
    decreases 0int,
{
    let s2 = s.push(e);
    assert forall|v: nat| #[trigger] linked(s, v) <==> linked(s2, v) by {
        if v < s.len() {
            assert(s2[v as int] == s[v as int]);
        } else if v == s.len() {
            assert(s2[v as int] == e);
        }
    }
    assert forall|v: nat| #[trigger] linked(s, v) implies link_of(s, v) == link_of(s2, v) by {
        assert(s2[v as int] == s[v as int]);
    }
    assert forall|t: Ty| #[trigger] app(s2, t) == app(s, t) by {
        lemma_app_congruent(s2, s, t);
    }
    assert forall|v: nat| #[trigger] linked(s2, v) implies lf(s2, link_of(s2, v)) by {
        assert(linked(s, v));
        assert(lf(s, link_of(s, v)));
        assert forall|x: nat| occ(x, link_of(s2, v)) implies !linked(s2, x) by {
            assert(occ(x, link_of(s, v)));
            assert(!linked(s, x));
        }
    }
    assert forall|x: Ty| #[trigger] app(s2, app(s, x)) == app(s2, x) by {
        lemma_app_idem(s, x);
    }
}

/// The substitution table: one entry per unification variable minted so
/// far.
#[derive(Debug)]
pub struct Subst {
    pub entries: Vec<VarState>,
}

impl View for Subst {
    type V = Seq<VEntry>;

    open spec fn view(&self) -> Seq<VEntry> {
        ents_of(self.entries@)
    }
}

/// `t` with every occurrence of variable `v` replaced by a copy of `u`.
pub fn subst_one(t: &Type, v: usize, u: &Type) -> (r: Type)
    ensures
        r@ == subst1(t@, v as nat, u@),
    decreases *t, 0int,
{
    match t {
        Type::App { public, opaque, module, name, args } => {
            let rargs = subst_one_vec(args, v, u);
            proof {
                lemma_tys_of(rargs@);
                lemma_tys_of(args@);
                lemma_subst1_seq(tys_of(args@), v as nat, u@);
                assert(tys_of(rargs@) =~= subst1_seq(tys_of(args@), v as nat, u@));
            }
            Type::App {
                public: *public,
                opaque: *opaque,
                module: module.clone(),
                name: name.clone(),
                args: rargs,
            }
        },
        Type::Fn { args, ret } => {
            let rargs = subst_one_vec(args, v, u);
            proof {
                lemma_tys_of(rargs@);
                lemma_tys_of(args@);
                lemma_subst1_seq(tys_of(args@), v as nat, u@);
                assert(tys_of(rargs@) =~= subst1_seq(tys_of(args@), v as nat, u@));
            }
            Type::Fn { args: rargs, ret: Box::new(subst_one(ret, v, u)) }
        },
        Type::Tuple { elems } => {
            let relems = subst_one_vec(elems, v, u);
            proof {
                lemma_tys_of(relems@);
                lemma_tys_of(elems@);
                lemma_subst1_seq(tys_of(elems@), v as nat, u@);
                assert(tys_of(relems@) =~= subst1_seq(tys_of(elems@), v as nat, u@));
            }
            Type::Tuple { elems: relems }
        },
        Type::Pair { fst, snd } => Type::Pair {
            fst: Box::new(subst_one(fst, v, u)),
            snd: Box::new(subst_one(snd, v, u)),
        },
        Type::Var { id } => {
            if *id == v {
                crate::tipo::clone_type(u)
            } else {
                Type::Var { id: *id }
            }
        },
    }
}

/// Elementwise `subst_one` over a vector of type terms.
fn subst_one_vec(ts: &Vec<Type>, v: usize, u: &Type) -> (r: Vec<Type>)
    ensures
        r@.len() == ts@.len(),
        forall|i: int| 0 <= i < ts@.len() ==> r@[i]@ == subst1(ts@[i]@, v as nat, u@),
    decreases ts@, 1int,
{
    let mut r: Vec<Type> = Vec::new();
    let mut i: usize = 0;
    while i < ts.len()
        invariant
            0 <= i <= ts@.len(),
            r@.len() == i,
            forall|j: int| 0 <= j < i ==> r@[j]@ == subst1(ts@[j]@, v as nat, u@),
        decreases ts@.len() - i,
    {
        let c = subst_one(&ts[i], v, u);
        r.push(c);
        i = i + 1;
    }
    r
}

/// Whether variable `v` occurs anywhere in `t`.
pub fn occurs_in(v: usize, t: &Type) -> (r: bool)
    ensures
        r == occ(v as nat, t@),
    decreases *t, 0int,
{
    match t {
        Type::App { args, .. } => occurs_in_vec(v, args),
        Type::Fn { args, ret } => occurs_in_vec(v, args) || occurs_in(v, ret),
        Type::Tuple { elems } => occurs_in_vec(v, elems),
        Type::Pair { fst, snd } => occurs_in(v, fst) || occurs_in(v, snd),
        Type::Var { id } => *id == v,
    }
}

/// Whether variable `v` occurs in any element of `ts`.
fn occurs_in_vec(v: usize, ts: &Vec<Type>) -> (r: bool)
    ensures
        r == occ_seq(v as nat, tys_of(ts@)),
    decreases ts@, 1int,
{
    let mut i: usize = 0;
    while i < ts.len()
        invariant
            0 <= i <= ts@.len(),
            forall|j: int| 0 <= j < i ==> !occ(v as nat, ts@[j]@),
        decreases ts@.len() - i,
    {
        if occurs_in(v, &ts[i]) {
            proof {
                lemma_tys_of(ts@);
                lemma_occ_seq(v as nat, tys_of(ts@));
                assert(occ(v as nat, tys_of(ts@)[i as int]));
            }
            return true;
        }
        i = i + 1;
    }
    proof {
        lemma_tys_of(ts@);
        lemma_occ_seq(v as nat, tys_of(ts@));
    }
    false
}

impl Subst {
    /// An empty table: no variables minted yet.
    pub fn new() -> (s: Subst)
        ensures
            s@.len() == 0,
            wf(s@),
            n_unb(s@) == 0,
    {
        Subst { entries: Vec::new() }
    }

    /// The number of variables minted so far.
    pub fn len(&self) -> (n: usize)
        ensures
            n == self@.len(),
    {
        proof {
            lemma_ents_of(self.entries@);
        }
        self.entries.len()
    }

    /// Mint a fresh unification variable: a new unsolved entry.
    pub fn fresh(&mut self) -> (v: usize)
        requires
            wf(old(self)@),
        ensures
            final(self)@ == old(self)@.push(VEntry::Unbound),
            v as nat == old(self)@.len(),
            final(self)@[v as int] is Unbound,
            wf(final(self)@),
            refines(final(self)@, old(self)@),
            forall|t: Ty| #[trigger] app(final(self)@, t) == app(old(self)@, t),
            n_unb(final(self)@) == n_unb(old(self)@) + 1,
    {
        let ghost s0 = self@;
        let v = self.entries.len();
        proof {
            lemma_ents_of(self.entries@);
        }
        self.entries.push(VarState::Unbound);
        proof {
            lemma_ents_of(self.entries@);
            assert(self@ =~= s0.push(VEntry::Unbound));
            lemma_push_entry(s0, VEntry::Unbound);
            lemma_n_unb_snoc(s0, VEntry::Unbound);
        }
        v
    }

    /// Resolve `t` against the table: every solved variable in it is
    /// replaced by the type it stands for.
    pub fn apply(&self, t: &Type) -> (r: Type)
        requires
            wf(self@),
        ensures
            r@ == app(self@, t@),
        decreases *t, 0int,
    {
        match t {
            Type::App { public, opaque, module, name, args } => {
                let rargs = self.apply_vec(args);
                proof {
                    lemma_tys_of(rargs@);
                    lemma_tys_of(args@);
                    lemma_app_seq(self@, tys_of(args@));
                    assert(tys_of(rargs@) =~= app_seq(self@, tys_of(args@)));
                }
                Type::App {
                    public: *public,
                    opaque: *opaque,
                    module: module.clone(),
                    name: name.clone(),
                    args: rargs,
                }
            },
            Type::Fn { args, ret } => {
                let rargs = self.apply_vec(args);
                proof {
                    lemma_tys_of(rargs@);
                    lemma_tys_of(args@);
                    lemma_app_seq(self@, tys_of(args@));
                    assert(tys_of(rargs@) =~= app_seq(self@, tys_of(args@)));
                }
                Type::Fn { args: rargs, ret: Box::new(self.apply(ret)) }
            },
            Type::Tuple { elems } => {
                let relems = self.apply_vec(elems);
                proof {
                    lemma_tys_of(relems@);
                    lemma_tys_of(elems@);
                    lemma_app_seq(self@, tys_of(elems@));
                    assert(tys_of(relems@) =~= app_seq(self@, tys_of(elems@)));
                }
                Type::Tuple { elems: relems }
            },
            Type::Pair { fst, snd } => Type::Pair {
                fst: Box::new(self.apply(fst)),
                snd: Box::new(self.apply(snd)),
            },
            Type::Var { id } => {
                proof {
                    lemma_ents_of(self.entries@);
                }
                if *id < self.entries.len() {
                    match &self.entries[*id] {
                        VarState::Linked { tipo } => crate::tipo::clone_type(tipo),
                        _ => Type::Var { id: *id },
                    }
                } else {
                    Type::Var { id: *id }
                }
            },
        }
    }

    /// Elementwise resolution of a vector of type terms.
    fn apply_vec(&self, ts: &Vec<Type>) -> (r: Vec<Type>)
        requires
            wf(self@),
        ensures
            r@.len() == ts@.len(),
            forall|i: int| 0 <= i < ts@.len() ==> r@[i]@ == app(self@, ts@[i]@),
        decreases ts@, 1int,
    {
        let mut r: Vec<Type> = Vec::new();
        let mut i: usize = 0;
        while i < ts.len()
            invariant
                wf(self@),
                0 <= i <= ts@.len(),
                r@.len() == i,
                forall|j: int| 0 <= j < i ==> r@[j]@ == app(self@, ts@[j]@),
            decreases ts@.len() - i,
        {
            let c = self.apply(&ts[i]);
            r.push(c);
            i = i + 1;
        }
        r
    }

    /// One-step dereference at the head: a solved variable becomes a copy
    /// of the type it stands for.
    pub fn head(&self, t: &Type) -> (r: Type)
        requires
            wf(self@),
        ensures
            r@ == hd(self@, t@),
        decreases 0int,
    {
        proof {
            lemma_ents_of(self.entries@);
        }
        match t {
            Type::Var { id } => {
                if *id < self.entries.len() {
                    match &self.entries[*id] {
                        VarState::Linked { tipo } => crate::tipo::clone_type(tipo),
                        _ => Type::Var { id: *id },
                    }
                } else {
                    Type::Var { id: *id }
                }
            },
            _ => crate::tipo::clone_type(t),
        }
    }

    /// Solve variable `v` as `t`: set its entry and substitute it away in
    /// every other solved entry, keeping the table idempotent.
    fn link(&mut self, v: usize, t: &Type)
        requires
            wf(old(self)@),
            v < old(self)@.len(),
            old(self)@[v as int] is Unbound,
            lf(old(self)@, t@),
            !occ(v as nat, t@),
        ensures
            final(self)@ == link_s(old(self)@, v as nat, t@),
    {
        let ghost s0 = self@;
        proof {
            lemma_ents_of(self.entries@);
        }
        let n = self.entries.len();
        let mut neu: Vec<VarState> = Vec::new();
        let mut i: usize = 0;
        while i < n
            invariant
                s0 == old(self)@,
                wf(s0),
                s0 == ents_of(self.entries@),
                n == self.entries@.len(),
                s0.len() == n,
                (v as nat) < s0.len(),
                !occ(v as nat, t@),
                0 <= i <= n,
                neu@.len() == i,
                forall|j: int| 0 <= j < i ==> vent_of(neu@[j]) == link_s(s0, v as nat, t@)[j],
            decreases n - i,
        {
            proof {
                lemma_ents_of(self.entries@);
            }
            if i == v {
                let c = crate::tipo::clone_type(t);
                neu.push(VarState::Linked { tipo: c });
            } else {
                match &self.entries[i] {
                    VarState::Linked { tipo } => {
                        let c = subst_one(tipo, v, t);
                        neu.push(VarState::Linked { tipo: c });
                    },
                    VarState::Unbound => {
                        neu.push(VarState::Unbound);
                    },
                    VarState::Generic => {
                        neu.push(VarState::Generic);
                    },
                }
            }
            i = i + 1;
        }
        self.entries = neu;
        proof {
            lemma_ents_of(self.entries@);
            assert(self@ =~= link_s(s0, v as nat, t@));
        }
    }
}

/// Appending an entry adds one to the unsolved count exactly when the
/// entry is unsolved.
pub proof fn lemma_n_unb_snoc(s: Seq<VEntry>, e: VEntry)
    ensures
        n_unb(s.push(e)) == n_unb(s) + (if e is Unbound {
            1nat
        } else {
            0nat
        }),
    decreases s,
{
    let s2 = s.push(e);
    if s.len() == 0 {
        assert(s2.len() == 1);
        assert(s2[0] == e);
        assert(s2.subrange(1, 1) =~= Seq::<VEntry>::empty());
        assert(n_unb(s2.subrange(1, 1)) == 0);
    } else {
        assert(s2[0] == s[0]);
        assert(s2.subrange(1, s2.len() as int) =~= s.subrange(1, s.len() as int).push(e));
        lemma_n_unb_snoc(s.subrange(1, s.len() as int), e);
    }
}

} // verus!

verus! {

/// Elementwise form of `lemma_uni_eq_preserved`.
pub proof fn lemma_uni_eq_seq_preserved(s2: Seq<VEntry>, s1: Seq<VEntry>, xs: Seq<Ty>, ys: Seq<Ty>)
    requires
        refines(s2, s1),
        uni_eq_seq(app_seq(s1, xs), app_seq(s1, ys)),
    ensures
        uni_eq_seq(app_seq(s2, xs), app_seq(s2, ys)),
{
    lemma_app_seq(s1, xs);
    lemma_app_seq(s1, ys);
    lemma_app_seq(s2, xs);
    lemma_app_seq(s2, ys);
    lemma_uni_eq_seq_pointwise(app_seq(s1, xs), app_seq(s1, ys));
    assert forall|i: int| 0 <= i < xs.len() implies uni_eq(app_seq(s2, xs)[i], app_seq(s2, ys)[i]) by {
        assert(uni_eq(app_seq(s1, xs)[i], app_seq(s1, ys)[i]));
        lemma_uni_eq_preserved(s2, s1, xs[i], ys[i]);
    }
    lemma_uni_eq_seq_pointwise(app_seq(s2, xs), app_seq(s2, ys));
}

/// The universal opaque on-chain data type, written `Data` in source.
pub open spec fn is_data_ty(t: Ty) -> bool {
    match t {
        Ty::App { module, name, .. } => module == Seq::<char>::empty() && name == "Data"@,
        _ => false,
    }
}

/// Whether `t` is the universal opaque data type.
pub fn is_data_type(t: &Type) -> (r: bool)
    ensures
        r == is_data_ty(t@),
{
    match t {
        Type::App { module, name, .. } => *module == String::new() && *name == "Data".to_owned(),
        _ => false,
    }
}

impl Subst {
    /// Whether `v` is a minted and still unsolved variable.
    pub fn entry_is_unbound(&self, v: usize) -> (r: bool)
        ensures
            r == ((v as nat) < self@.len() && self@[v as int] is Unbound),
    {
        proof {
            lemma_ents_of(self.entries@);
        }
        if v < self.entries.len() {
            match &self.entries[v] {
                VarState::Unbound => true,
                _ => false,
            }
        } else {
            false
        }
    }

    /// Solve the unsolved variable `v` against `other`: resolve `other`,
    /// run the occurs check, and link on success. On failure (the
    /// variable would have to contain itself) nothing changes.
    fn link_checked(&mut self, v: usize, other: &Type, location: Span) -> (r: Result<(), Error>)
        requires
            wf(old(self)@),
            (v as nat) < old(self)@.len(),
            old(self)@[v as int] is Unbound,
        ensures
            wf(final(self)@),
            final(self)@.len() == old(self)@.len(),
            refines(final(self)@, old(self)@),
            final(self)@ == old(self)@ || n_unb(final(self)@) < n_unb(old(self)@),
            forall|w: int|
                0 <= w < old(self)@.len() ==> ((#[trigger] final(self)@[w]) is Generic <==> old(
                    self,
                )@[w] is Generic),
            r is Ok ==> app(final(self)@, Ty::Var { id: v as nat }) == app(final(self)@, other@),
            r is Err ==> final(self)@ == old(self)@,
            r matches Err(e) ==> e matches Error::RecursiveType { location: l } && l == location,
            occ(v as nat, app(old(self)@, other@)) <==> r is Err,
            r matches Err(e2) ==> crate::error::expression_level_error(e2),
    {
        let ghost s0 = self@;
        let t2 = self.apply(other);
        proof {
            lemma_lf_app(s0, other@);
        }
        if occurs_in(v, &t2) {
            proof {
                lemma_refines_refl(s0);
            }
            Err(Error::RecursiveType { location })
        } else {
            self.link(v, &t2);
            proof {
                lemma_link_props(s0, v as nat, t2@);
                lemma_link_commute(s0, v as nat, t2@, t2@);
                lemma_app_lf(s0, t2@);
                lemma_subst1_absent(t2@, v as nat, t2@);
                let s1 = link_s(s0, v as nat, t2@);
                assert(app(s1, t2@) == t2@);
                assert(app(s1, app(s0, other@)) == app(s1, other@));
                assert(app(s1, other@) == t2@);
            }
            Ok(())
        }
    }

    /// Unify two argument lists pairwise, in order, stopping at the first
    /// failure.
    fn unify_all(
        &mut self,
        exp: &Vec<Type>,
        giv: &Vec<Type>,
        location: Span,
        allow_subsumption: bool,
    ) -> (r: Result<(), Error>)
        requires
            wf(old(self)@),
            exp@.len() == giv@.len(),
        ensures
            wf(final(self)@),
            final(self)@.len() == old(self)@.len(),
            refines(final(self)@, old(self)@),
            final(self)@ == old(self)@ || n_unb(final(self)@) < n_unb(old(self)@),
            forall|w: int|
                0 <= w < old(self)@.len() ==> ((#[trigger] final(self)@[w]) is Generic <==> old(
                    self,
                )@[w] is Generic),
            !allow_subsumption && r is Ok ==> uni_eq_seq(
                app_seq(final(self)@, tys_of(exp@)),
                app_seq(final(self)@, tys_of(giv@)),
            ),
            !allow_subsumption && concrete_seq(tys_of(exp@)) && concrete_seq(tys_of(giv@))
                ==> final(self)@ == old(self)@,
            !allow_subsumption && concrete_seq(tys_of(exp@)) && concrete_seq(tys_of(giv@)) ==> (r
                is Ok <==> mism_seq(tys_of(exp@), tys_of(giv@)) is None),
            !allow_subsumption && concrete_seq(tys_of(exp@)) && concrete_seq(tys_of(giv@)) && r
                is Err ==> (r matches Err(e) ==> e matches Error::CouldNotUnify {
                location: l,
                expected: ee,
                given: gg,
                situation: so,
            } && Some((ee@, gg@)) == mism_seq(tys_of(exp@), tys_of(giv@)) && l == location && so
                is None),
            r matches Err(ek) ==> crate::error::expression_level_error(ek),
        decreases n_unb(old(self)@), tsize_seq(app_seq(old(self)@, tys_of(exp@))), 1int,
    {
        let ghost s0 = self@;
        let ghost es = tys_of(exp@);
        let ghost gs = tys_of(giv@);
        proof {
            lemma_tys_of(exp@);
            lemma_tys_of(giv@);
            lemma_refines_refl(s0);
        }
        let n = exp.len();
        let mut i: usize = 0;
        while i < n
            invariant
                s0 == old(self)@,
                wf(s0),
                wf(self@),
                self@.len() == s0.len(),
                refines(self@, s0),
                self@ == s0 || n_unb(self@) < n_unb(s0),
                forall|w: int|
                    0 <= w < s0.len() ==> ((#[trigger] self@[w]) is Generic <==> s0[w]
                        is Generic),
                n == exp@.len(),
                exp@.len() == giv@.len(),
                es == tys_of(exp@),
                gs == tys_of(giv@),
                es.len() == n,
                gs.len() == n,
                forall|j: int| 0 <= j < n ==> es[j] == exp@[j]@ && gs[j] == giv@[j]@,
                0 <= i <= n,
                !allow_subsumption ==> forall|j: int|
                    0 <= j < i ==> uni_eq(app(self@, es[j]), app(self@, gs[j])),
                !allow_subsumption && concrete_seq(es) && concrete_seq(gs) ==> self@ == s0 && (
                forall|j: int| 0 <= j < i ==> mism(es[j], gs[j]) is None),
            decreases n - i,
        {
            let ghost s_i = self@;
            proof {
                if s_i == s0 {
                    lemma_app_seq(s0, es);
                    lemma_tsize_seq_element(app_seq(s0, es), i as int);
                }
            }
            let r1 = self.unify(&exp[i], &giv[i], location, allow_subsumption);
            proof {
                lemma_refines_trans(self@, s_i, s0);
                if !allow_subsumption {
                    assert forall|j: int| 0 <= j < i implies uni_eq(
                        app(self@, es[j]),
                        app(self@, gs[j]),
                    ) by {
                        lemma_uni_eq_preserved(self@, s_i, es[j], gs[j]);
                    }
                }
                if !allow_subsumption && concrete_seq(es) && concrete_seq(gs) {
                    lemma_concrete_element(es, i as int);
                    lemma_concrete_element(gs, i as int);
                }
            }
            match r1 {
                Ok(()) => {},
                Err(err) => {
                    proof {
                        if !allow_subsumption && concrete_seq(es) && concrete_seq(gs) {
                            lemma_mism_seq_skip(es, gs, i as int);
                            let esub = es.subrange(i as int, es.len() as int);
                            let gsub = gs.subrange(i as int, gs.len() as int);
                            assert(esub[0] == es[i as int]);
                            assert(gsub[0] == gs[i as int]);
                        }
                    }
                    return Err(err);
                },
            }
            i = i + 1;
        }
        proof {
            if !allow_subsumption {
                lemma_app_seq(self@, es);
                lemma_app_seq(self@, gs);
                assert forall|j: int| 0 <= j < n implies uni_eq(
                    app_seq(self@, es)[j],
                    app_seq(self@, gs)[j],
                ) by {
                    assert(uni_eq(app(self@, es[j]), app(self@, gs[j])));
                }
                lemma_uni_eq_seq_pointwise(app_seq(self@, es), app_seq(self@, gs));
            }
            if !allow_subsumption && concrete_seq(es) && concrete_seq(gs) {
                lemma_mism_seq_skip(es, gs, n as int);
                assert(es.subrange(n as int, es.len() as int) =~= Seq::<Ty>::empty());
                assert(gs.subrange(n as int, gs.len() as int) =~= Seq::<Ty>::empty());
            }
        }
        Ok(())
    }
}

} // verus!

verus! {

impl Subst {
    /// Unify two types: make them structurally identical by solving
    /// unification variables, mutating the table durably. Two function
    /// types unify when their argument lists have equal length and unify
    /// pairwise and their return types unify; applications when name and
    /// qualifier agree and their arguments unify pairwise; tuples and
    /// pairs elementwise. An unsolved variable unifies with anything not
    /// containing it by being linked to it; the occurs check rejects the
    /// rest. With `allow_subsumption`, either side being the universal
    /// `Data` type is accepted where no function type is involved.
    ///
    /// On fully concrete inputs this is a pure comparison: the table is
    /// untouched, success is exactly structural identity, and a failure
    /// reports the first mismatching pair of subterms in call order.
    #[verifier::rlimit(80)]
    pub fn unify(
        &mut self,
        expected: &Type,
        given: &Type,
        location: Span,
        allow_subsumption: bool,
    ) -> (r: Result<(), Error>)
        requires
            wf(old(self)@),
        ensures
            wf(final(self)@),
            final(self)@.len() == old(self)@.len(),
            refines(final(self)@, old(self)@),
            final(self)@ == old(self)@ || n_unb(final(self)@) < n_unb(old(self)@),
            forall|w: int|
                0 <= w < old(self)@.len() ==> ((#[trigger] final(self)@[w]) is Generic <==> old(
                    self,
                )@[w] is Generic),
            !allow_subsumption && r is Ok ==> uni_eq(
                app(final(self)@, expected@),
                app(final(self)@, given@),
            ),
            !allow_subsumption && concrete(expected@) && concrete(given@) ==> final(self)@ == old(
                self,
            )@,
            !allow_subsumption && concrete(expected@) && concrete(given@) ==> (r is Ok <==> mism(
                expected@,
                given@,
            ) is None),
            !allow_subsumption && concrete(expected@) && concrete(given@) && r is Err ==> (r
                matches Err(e) ==> e matches Error::CouldNotUnify {
                location: l,
                expected: ee,
                given: gg,
                situation: so,
            } && Some((ee@, gg@)) == mism(expected@, given@) && l == location && so is None),
            (expected@ matches Ty::Var { id: vv } && (vv as nat) < old(self)@.len() && old(
                self,
            )@[vv as int] is Unbound && lf(old(self)@, given@) && !(given@ is Var) && occ(
                vv,
                given@,
            )) ==> final(self)@ == old(self)@,
            (expected@ matches Ty::Var { id: vv2 } && (vv2 as nat) < old(self)@.len() && old(
                self,
            )@[vv2 as int] is Unbound && lf(old(self)@, given@) && !(given@ is Var) && occ(
                vv2,
                given@,
            )) ==> (r matches Err(e2) && e2 matches Error::RecursiveType { location: l2 } && l2
                == location),
            (expected@ matches Ty::Var { id: lv } && (lv as nat) < old(self)@.len() && old(
                self,
            )@[lv as int] is Unbound && !occ(lv, app(old(self)@, given@))) ==> r is Ok,
            (given@ matches Ty::Var { id: rv } && (rv as nat) < old(self)@.len() && old(
                self,
            )@[rv as int] is Unbound && !occ(rv, app(old(self)@, expected@))) ==> r is Ok,
            r matches Err(ek) ==> crate::error::expression_level_error(ek),
            (app(old(self)@, expected@) is Fn && app(old(self)@, given@) is Fn && app(
                old(self)@,
                expected@,
            )->Fn_args.len() != app(old(self)@, given@)->Fn_args.len()) ==> r is Err,
        decreases n_unb(old(self)@), tsize(app(old(self)@, expected@)), 0int,
    {
        let ghost s0 = self@;
        let e = self.head(expected);
        let g = self.head(given);
        proof {
            lemma_hd(s0, expected@);
            lemma_hd(s0, given@);
            lemma_refines_refl(s0);
        }
        // The same variable on both sides is already unified.
        let same_var: bool = match (&e, &g) {
            (Type::Var { id: v }, Type::Var { id: w }) => *v == *w,
            _ => false,
        };
        if same_var {
            proof {
                assert(app(s0, e@) == app(s0, g@));
                lemma_uni_eq_refl(app(s0, expected@));
            }
            return Ok(());
        }
        // An unsolved variable on the left links to the right side.
        let mut left_var: usize = 0;
        let mut has_left_var: bool = false;
        if let Type::Var { id } = &e {
            if self.entry_is_unbound(*id) {
                left_var = *id;
                has_left_var = true;
            }
        }
        if has_left_var {
            let v = left_var;
            let rr = self.link_checked(v, &g, location);
            proof {
                if rr is Ok {
                    assert(app(self@, app(s0, expected@)) == app(self@, expected@));
                    assert(app(self@, app(s0, e@)) == app(self@, e@));
                    assert(app(self@, app(s0, given@)) == app(self@, given@));
                    assert(app(self@, app(s0, g@)) == app(self@, g@));
                    assert(app(self@, e@) == app(self@, Ty::Var { id: v as nat }));
                    assert(app(self@, expected@) == app(self@, given@));
                    lemma_uni_eq_refl(app(self@, expected@));
                }
                if expected@ matches Ty::Var { id: vv } && (vv as nat) < s0.len() && s0[vv as int]
                    is Unbound && lf(s0, given@) && !(given@ is Var) && occ(vv, given@) {
                    lemma_app_lf(s0, given@);
                    assert(occ(v as nat, app(s0, g@)));
                }
            }
            return rr;
        }
        // An unsolved variable on the right links to the left side.
        let mut right_var: usize = 0;
        let mut has_right_var: bool = false;
        if let Type::Var { id } = &g {
            if self.entry_is_unbound(*id) {
                right_var = *id;
                has_right_var = true;
            }
        }
        if has_right_var {
            let w = right_var;
            let rr = self.link_checked(w, &e, location);
            proof {
                if rr is Ok {
                    assert(app(self@, app(s0, expected@)) == app(self@, expected@));
                    assert(app(self@, app(s0, e@)) == app(self@, e@));
                    assert(app(self@, app(s0, given@)) == app(self@, given@));
                    assert(app(self@, app(s0, g@)) == app(self@, g@));
                    assert(app(self@, g@) == app(self@, Ty::Var { id: w as nat }));
                    assert(app(self@, expected@) == app(self@, given@));
                    lemma_uni_eq_refl(app(self@, expected@));
                }
            }
            return rr;
        }
        // Either side being the universal data type subsumes the other,
        // where no function type is involved.
        if allow_subsumption {
            let e_fn: bool = match &e {
                Type::Fn { .. } => true,
                _ => false,
            };
            let g_fn: bool = match &g {
                Type::Fn { .. } => true,
                _ => false,
            };
            if !e_fn && !g_fn && (is_data_type(&e) || is_data_type(&g)) {
                return Ok(());
            }
        }
        // Structural comparison.
        match (&e, &g) {
            (
                Type::App { module: m1, name: n1, args: a1, .. },
                Type::App { module: m2, name: n2, args: a2, .. },
            ) => {
                if *m1 == *m2 && *n1 == *n2 && a1.len() == a2.len() {
                    proof {
                        lemma_tys_of(a1@);
                        if s0 == self@ {
                            lemma_app_seq(s0, tys_of(a1@));
                        }
                    }
                    let rr = self.unify_all(a1, a2, location, allow_subsumption);
                    proof {
                        lemma_tys_of(a1@);
                        lemma_tys_of(a2@);
                        if !allow_subsumption && rr is Ok {
                            assert(app(self@, app(s0, expected@)) == app(self@, expected@));
                            assert(app(self@, app(s0, e@)) == app(self@, e@));
                            assert(app(self@, app(s0, given@)) == app(self@, given@));
                            assert(app(self@, app(s0, g@)) == app(self@, g@));
                            assert(app(self@, e@) == Ty::App {
                                public: e@->App_public,
                                opaque: e@->App_opaque,
                                module: m1@,
                                name: n1@,
                                args: app_seq(self@, tys_of(a1@)),
                            });
                            assert(app(self@, g@) == Ty::App {
                                public: g@->App_public,
                                opaque: g@->App_opaque,
                                module: m2@,
                                name: n2@,
                                args: app_seq(self@, tys_of(a2@)),
                            });
                        }
                        if !allow_subsumption && concrete(expected@) && concrete(given@) {
                            assert(e@ == expected@);
                            assert(g@ == given@);
                            assert(concrete_seq(tys_of(a1@)));
                            assert(concrete_seq(tys_of(a2@)));
                            assert(mism(expected@, given@) == mism_seq(
                                tys_of(a1@),
                                tys_of(a2@),
                            ));
                        }
                    }
                    rr
                } else {
                    proof {
                        if !allow_subsumption && concrete(expected@) && concrete(given@) {
                            assert(e@ == expected@);
                            assert(g@ == given@);
                            lemma_tys_of(a1@);
                            lemma_tys_of(a2@);
                            assert(mism(expected@, given@) == Some((expected@, given@)));
                        }
                    }
                    let ec = crate::tipo::clone_type(&e);
                    let gc = crate::tipo::clone_type(&g);
                    Err(Error::CouldNotUnify { location, expected: ec, given: gc, situation: None })
                }
            },
            (Type::Fn { args: a1, ret: r1 }, Type::Fn { args: a2, ret: r2 }) => {
                proof {
                    lemma_tys_of(a1@);
                    lemma_tys_of(a2@);
                    lemma_app_seq(s0, tys_of(a1@));
                    lemma_app_seq(s0, tys_of(a2@));
                }
                if a1.len() == a2.len() {
                    proof {
                        if !allow_subsumption && concrete(expected@) && concrete(given@) {
                            assert(e@ == expected@);
                            assert(g@ == given@);
                            assert(concrete_seq(tys_of(a1@)));
                            assert(concrete_seq(tys_of(a2@)));
                        }
                    }
                    let rr = self.unify_all(a1, a2, location, allow_subsumption);
                    match rr {
                        Ok(()) => {
                            let ghost s_m = self@;
                            proof {
                                if s_m == s0 {
                                    lemma_app_seq(s0, tys_of(a1@));
                                }
                            }
                            let rr2 = self.unify(r1, r2, location, allow_subsumption);
                            proof {
                                lemma_refines_trans(self@, s_m, s0);
                                if !allow_subsumption && rr2 is Ok {
                                    lemma_uni_eq_seq_preserved(
                                        self@,
                                        s_m,
                                        tys_of(a1@),
                                        tys_of(a2@),
                                    );
                                    assert(app(self@, app(s0, expected@)) == app(
                                        self@,
                                        expected@,
                                    ));
                                    assert(app(self@, app(s0, e@)) == app(self@, e@));
                                    assert(app(self@, app(s0, given@)) == app(self@, given@));
                                    assert(app(self@, app(s0, g@)) == app(self@, g@));
                                }
                                if !allow_subsumption && concrete(expected@) && concrete(given@) {
                                    assert(e@ == expected@);
                                    assert(g@ == given@);
                                    assert(mism_seq(tys_of(a1@), tys_of(a2@)) is None);
                                    assert(mism(expected@, given@) == mism(ty_of(*(*r1)), ty_of(*(*r2))));
                                }
                            }
                            rr2
                        },
                        Err(err) => {
                            proof {
                                if !allow_subsumption && concrete(expected@) && concrete(given@) {
                                    assert(e@ == expected@);
                                    assert(g@ == given@);
                                    assert(mism_seq(tys_of(a1@), tys_of(a2@)) matches Some(p));
                                    assert(mism(expected@, given@) == mism_seq(
                                        tys_of(a1@),
                                        tys_of(a2@),
                                    ));
                                }
                            }
                            Err(err)
                        },
                    }
                } else {
                    proof {
                        if !allow_subsumption && concrete(expected@) && concrete(given@) {
                            assert(e@ == expected@);
                            assert(g@ == given@);
                            lemma_tys_of(a1@);
                            lemma_tys_of(a2@);
                            assert(mism(expected@, given@) == Some((expected@, given@)));
                        }
                    }
                    let ec = crate::tipo::clone_type(&e);
                    let gc = crate::tipo::clone_type(&g);
                    Err(Error::CouldNotUnify { location, expected: ec, given: gc, situation: None })
                }
            },
            (Type::Tuple { elems: e1 }, Type::Tuple { elems: e2 }) => {
                if e1.len() == e2.len() {
                    proof {
                        lemma_tys_of(e1@);
                        lemma_tys_of(e2@);
                        if !allow_subsumption && concrete(expected@) && concrete(given@) {
                            assert(e@ == expected@);
                            assert(g@ == given@);
                            assert(concrete_seq(tys_of(e1@)));
                            assert(concrete_seq(tys_of(e2@)));
                        }
                    }
                    let rr = self.unify_all(e1, e2, location, allow_subsumption);
                    proof {
                        if !allow_subsumption && concrete(expected@) && concrete(given@) {
                            assert(mism(expected@, given@) == mism_seq(tys_of(e1@), tys_of(e2@)));
                        }
                        if !allow_subsumption && rr is Ok {
                            assert(app(self@, app(s0, expected@)) == app(self@, expected@));
                            assert(app(self@, app(s0, e@)) == app(self@, e@));
                            assert(app(self@, app(s0, given@)) == app(self@, given@));
                            assert(app(self@, app(s0, g@)) == app(self@, g@));
                        }
                    }
                    rr
                } else {
                    proof {
                        if !allow_subsumption && concrete(expected@) && concrete(given@) {
                            assert(e@ == expected@);
                            assert(g@ == given@);
                            lemma_tys_of(e1@);
                            lemma_tys_of(e2@);
                            assert(mism(expected@, given@) == Some((expected@, given@)));
                        }
                    }
                    let ec = crate::tipo::clone_type(&e);
                    let gc = crate::tipo::clone_type(&g);
                    Err(Error::CouldNotUnify { location, expected: ec, given: gc, situation: None })
                }
            },
            (Type::Pair { fst: f1, snd: sn1 }, Type::Pair { fst: f2, snd: sn2 }) => {
                proof {
                    if !allow_subsumption && concrete(expected@) && concrete(given@) {
                        assert(e@ == expected@);
                        assert(g@ == given@);
                        assert(concrete(f1@) && concrete(f2@));
                        assert(concrete(sn1@) && concrete(sn2@));
                    }
                }
                let rr = self.unify(f1, f2, location, allow_subsumption);
                match rr {
                    Ok(()) => {
                        let ghost s_m = self@;
                        let rr2 = self.unify(sn1, sn2, location, allow_subsumption);
                        proof {
                            lemma_refines_trans(self@, s_m, s0);
                            if !allow_subsumption && rr2 is Ok {
                                lemma_uni_eq_preserved(self@, s_m, f1@, f2@);
                                assert(app(self@, app(s0, expected@)) == app(self@, expected@));
                                assert(app(self@, app(s0, e@)) == app(self@, e@));
                                assert(app(self@, app(s0, given@)) == app(self@, given@));
                                assert(app(self@, app(s0, g@)) == app(self@, g@));
                            }
                            if !allow_subsumption && concrete(expected@) && concrete(given@) {
                                assert(mism(f1@, f2@) is None);
                                assert(mism(expected@, given@) == mism(sn1@, sn2@));
                            }
                        }
                        rr2
                    },
                    Err(err) => {
                        proof {
                            if !allow_subsumption && concrete(expected@) && concrete(given@) {
                                assert(mism(f1@, f2@) matches Some(p));
                                assert(mism(expected@, given@) == mism(f1@, f2@));
                            }
                        }
                        Err(err)
                    },
                }
            },
            _ => {
                proof {
                    if !allow_subsumption && concrete(expected@) && concrete(given@) {
                        assert(e@ == expected@);
                        assert(g@ == given@);
                        assert(mism(expected@, given@) == Some((expected@, given@)));
                    }
                }
                let ec = crate::tipo::clone_type(&e);
                let gc = crate::tipo::clone_type(&g);
                Err(Error::CouldNotUnify { location, expected: ec, given: gc, situation: None })
            },
        }
    }
}

} // verus!

verus! {

/// Replacing an unsolved entry by another non-solved entry changes no
/// resolution and keeps the table well-formed.
pub proof fn lemma_unlinked_update(s: Seq<VEntry>, v: int, e: VEntry)
    requires
        wf(s),
        0 <= v < s.len(),
        !(s[v] is Linked),
        !(e is Linked),
    ensures
        wf(s.update(v, e)),
        refines(s.update(v, e), s),
        forall|t: Ty| #[trigger] app(s.update(v, e), t) == app(s, t),
{
    let s2 = s.update(v, e);
    assert forall|w: nat| #[trigger] linked(s, w) <==> linked(s2, w) by {
        if w < s.len() && w != v {
            assert(s2[w as int] == s[w as int]);
        }
    }
    assert forall|w: nat| #[trigger] linked(s, w) implies link_of(s, w) == link_of(s2, w) by {
        assert(s2[w as int] == s[w as int]);
    }
    assert forall|t: Ty| #[trigger] app(s2, t) == app(s, t) by {
        lemma_app_congruent(s2, s, t);
    }
    assert forall|w: nat| #[trigger] linked(s2, w) implies lf(s2, link_of(s2, w)) by {
        assert(linked(s, w));
        assert(lf(s, link_of(s, w)));
        assert forall|x: nat| occ(x, link_of(s2, w)) implies !linked(s2, x) by {
            assert(occ(x, link_of(s, w)));
            assert(!linked(s, x));
        }
    }
    assert forall|x: Ty| #[trigger] app(s2, app(s, x)) == app(s2, x) by {
        lemma_app_idem(s, x);
    }
}

impl Subst {
    /// Whether `v` is a minted generic (universally quantified) variable.
    pub fn entry_is_generic(&self, v: usize) -> (r: bool)
        ensures
            r == ((v as nat) < self@.len() && self@[v as int] is Generic),
    {
        proof {
            lemma_ents_of(self.entries@);
        }
        if v < self.entries.len() {
            match &self.entries[v] {
                VarState::Generic => true,
                _ => false,
            }
        } else {
            false
        }
    }

    /// Turn an unsolved variable into a generic one: it is universally
    /// quantified in the signature being exported.
    pub fn make_generic(&mut self, v: usize)
        requires
            wf(old(self)@),
            (v as nat) < old(self)@.len(),
            !(old(self)@[v as int] is Linked),
        ensures
            final(self)@ == old(self)@.update(v as int, VEntry::Generic),
            wf(final(self)@),
            refines(final(self)@, old(self)@),
            forall|t: Ty| #[trigger] app(final(self)@, t) == app(old(self)@, t),
    {
        let ghost s0 = self@;
        proof {
            lemma_ents_of(self.entries@);
        }
        let _replaced = self.entries.remove(v);
        self.entries.insert(v, VarState::Generic);
        proof {
            lemma_ents_of(self.entries@);
            assert forall|j: int| 0 <= j < self.entries@.len() implies ents_of(self.entries@)[j]
                == s0.update(v as int, VEntry::Generic)[j] by {}
            assert(self@ =~= s0.update(v as int, VEntry::Generic));
            lemma_unlinked_update(s0, v as int, VEntry::Generic);
        }
    }
}

} // verus!
