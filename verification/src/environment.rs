//! The per-module inference state: the substitution table, the scope
//! stack, the module-level registries, usage tracking and warnings.

use vstd::prelude::*;
use vstd::string::StringExecFns;

use crate::ast::ModuleKind;
use crate::error::{Error, Warning};
use crate::span::Span;
use crate::subst::{app, lemma_ents_of, lemma_push_entry, refines, wf, Subst, VarState, VEntry};
use crate::tipo::{clone_type, Type};

verus! {

/// Where a value came from.
#[derive(Debug)]
pub enum ValueConstructorVariant {
    /// A variable bound in some scope.
    LocalVariable { location: Span },
    /// A module-level constant.
    ModuleConstant { location: Span, module: String, name: String },
    /// A module-level function.
    ModuleFn { location: Span, module: String, name: String, arity: usize },
    /// A record constructor of a data type.
    Record { location: Span, module: String, name: String, arity: usize },
}

/// The declaration site a value's provenance records.
pub open spec fn variant_loc(v: ValueConstructorVariant) -> Span {
    match v {
        ValueConstructorVariant::LocalVariable { location } => location,
        ValueConstructorVariant::ModuleConstant { location, .. } => location,
        ValueConstructorVariant::ModuleFn { location, .. } => location,
        ValueConstructorVariant::Record { location, .. } => location,
    }
}

impl ValueConstructorVariant {
    /// The declaration site of the value.
    pub fn location(&self) -> (s: Span)
        ensures
            s == variant_loc(*self),
    {
        match self {
            ValueConstructorVariant::LocalVariable { location } => *location,
            ValueConstructorVariant::ModuleConstant { location, .. } => *location,
            ValueConstructorVariant::ModuleFn { location, .. } => *location,
            ValueConstructorVariant::Record { location, .. } => *location,
        }
    }
}

/// An exact copy of a value's provenance.
pub fn clone_variant(v: &ValueConstructorVariant) -> (r: ValueConstructorVariant)
    ensures
        variant_loc(r) == variant_loc(*v),
{
    match v {
        ValueConstructorVariant::LocalVariable { location } => {
            ValueConstructorVariant::LocalVariable { location: *location }
        },
        ValueConstructorVariant::ModuleConstant { location, module, name } => {
            ValueConstructorVariant::ModuleConstant {
                location: *location,
                module: module.clone(),
                name: name.clone(),
            }
        },
        ValueConstructorVariant::ModuleFn { location, module, name, arity } => {
            ValueConstructorVariant::ModuleFn {
                location: *location,
                module: module.clone(),
                name: name.clone(),
                arity: *arity,
            }
        },
        ValueConstructorVariant::Record { location, module, name, arity } => {
            ValueConstructorVariant::Record {
                location: *location,
                module: module.clone(),
                name: name.clone(),
                arity: *arity,
            }
        },
    }
}

/// A resolved value: its visibility, provenance and type.
#[derive(Debug)]
pub struct ValueConstructor {
    pub public: bool,
    pub variant: ValueConstructorVariant,
    pub tipo: Type,
}

/// An exact copy of a resolved value; the type keeps its shape.
pub fn clone_value_constructor(v: &ValueConstructor) -> (r: ValueConstructor)
    ensures
        r.public == v.public,
        r.tipo@ == v.tipo@,
        variant_loc(r.variant) == variant_loc(v.variant),
{
    ValueConstructor {
        public: v.public,
        variant: clone_variant(&v.variant),
        tipo: clone_type(&v.tipo),
    }
}

/// A registered type: its declaration site, owning module, visibility,
/// parameters and the type value it stands for.
#[derive(Debug)]
pub struct TypeConstructor {
    pub location: Span,
    pub module: String,
    pub public: bool,
    pub parameters: Vec<Type>,
    pub tipo: Type,
}

/// An exact copy of a registered type; the types keep their shapes.
pub fn clone_type_constructor(t: &TypeConstructor) -> (r: TypeConstructor)
    ensures
        r.public == t.public,
        r.tipo@ == t.tipo@,
        r.location == t.location,
        r.parameters@.len() == t.parameters@.len(),
        forall|i: int| 0 <= i < t.parameters@.len() ==> r.parameters@[i]@ == t.parameters@[i]@,
{
    TypeConstructor {
        location: t.location,
        module: t.module.clone(),
        public: t.public,
        parameters: crate::tipo::clone_types(&t.parameters),
        tipo: clone_type(&t.tipo),
    }
}

/// The field accessors of a record type.
#[derive(Debug)]
pub struct AccessorsMap {
    pub location: Span,
    pub public: bool,
    pub tipo: Type,
}

/// The public interface of a compiled module, consumed read-only when the
/// modules importing it are inferred.
#[derive(Debug)]
pub struct TypeInfo {
    pub name: String,
    pub package: String,
    pub kind: ModuleKind,
    pub types: Vec<(String, TypeConstructor)>,
    pub types_constructors: Vec<(String, Vec<String>)>,
    pub values: Vec<(String, ValueConstructor)>,
    pub accessors: Vec<(String, AccessorsMap)>,
}

/// What kind of entity a usage entry tracks.
#[derive(Clone, Copy, Debug, PartialEq, Eq, Structural)]
pub enum EntityKind {
    PrivateConstant,
    PrivateTypeConstructor,
    PrivateFunction,
    ImportedModule,
    ImportedValueOrType,
    Variable,
}

/// One tracked registration: warned about if never used.
#[derive(Debug)]
pub struct EntityUsage {
    pub kind: EntityKind,
    pub name: String,
    pub location: Span,
    pub used: bool,
}

/// A mark taken when a scope opens, so closing it can restore the scope
/// stack and flush the usage entries made inside it.
#[derive(Clone, Copy, Debug, PartialEq, Eq, Structural)]
pub struct ScopeMark {
    pub scope_len: usize,
    pub usages_len: usize,
}

/// Search an association list from the end: the last binding of a name
/// shadows earlier ones.
pub open spec fn scope_index_of(s: Seq<(String, ValueConstructor)>, n: Seq<char>) -> Option<int>
    decreases s.len(),
{
    if s.len() == 0 {
        None
    } else if s.last().0@ == n {
        Some(s.len() - 1)
    } else {
        scope_index_of(s.drop_last(), n)
    }
}

/// The most recent usage entry of a name, if the name is tracked.
pub open spec fn usage_index_of(s: Seq<EntityUsage>, n: Seq<char>) -> Option<int>
    decreases s.len(),
{
    if s.len() == 0 {
        None
    } else if s.last().name@ == n {
        Some(s.len() - 1)
    } else {
        usage_index_of(s.drop_last(), n)
    }
}

/// The warning one unused tracked registration converts into.
pub open spec fn warning_of(kind: EntityKind, name: String, location: Span) -> Warning {
    match kind {
        EntityKind::PrivateConstant => Warning::UnusedPrivateModuleConstant { location, name },
        EntityKind::PrivateTypeConstructor => Warning::UnusedType { location, name },
        EntityKind::PrivateFunction => Warning::UnusedPrivateFunction { location, name },
        EntityKind::ImportedModule => Warning::UnusedImportedModule { location, name },
        EntityKind::ImportedValueOrType => Warning::UnusedImportedValueOrType { location, name },
        EntityKind::Variable => Warning::UnusedVariable { location, name },
    }
}

/// The warnings the unused entries of a usage table convert into, in
/// order.
pub open spec fn unused_warnings(s: Seq<EntityUsage>) -> Seq<Warning>
    decreases s.len(),
{
    if s.len() == 0 {
        Seq::empty()
    } else {
        (if !s[0].used {
            seq![warning_of(s[0].kind, s[0].name, s[0].location)]
        } else {
            Seq::empty()
        }) + unused_warnings(s.subrange(1, s.len() as int))
    }
}

/// Appending an entry appends its warning exactly when it is unused.
pub proof fn lemma_unused_warnings_snoc(s: Seq<EntityUsage>, e: EntityUsage)
    ensures
        unused_warnings(s.push(e)) == unused_warnings(s) + (if !e.used {
            seq![warning_of(e.kind, e.name, e.location)]
        } else {
            Seq::empty()
        }),
    decreases s,
{
    let s2 = s.push(e);
    if s.len() == 0 {
        assert(s2[0] == e);
        assert(s2.subrange(1, 1) =~= Seq::<EntityUsage>::empty());
        assert(unused_warnings(s2.subrange(1, 1)) =~= Seq::<Warning>::empty());
        assert(unused_warnings(s2) =~= (if !e.used {
            seq![warning_of(e.kind, e.name, e.location)]
        } else {
            Seq::<Warning>::empty()
        }));
        assert(unused_warnings(s) =~= Seq::<Warning>::empty());
    } else {
        assert(s2[0] == s[0]);
        assert(s2.subrange(1, s2.len() as int) =~= s.subrange(1, s.len() as int).push(e));
        lemma_unused_warnings_snoc(s.subrange(1, s.len() as int), e);
        assert(unused_warnings(s2) =~= unused_warnings(s) + (if !e.used {
            seq![warning_of(e.kind, e.name, e.location)]
        } else {
            Seq::<Warning>::empty()
        }));
    }
}

/// The number of tracked registrations never marked used.
pub open spec fn n_unused(s: Seq<EntityUsage>) -> nat
    decreases s.len(),
{
    if s.len() == 0 {
        0
    } else {
        (if !s[0].used {
            1nat
        } else {
            0nat
        }) + n_unused(s.subrange(1, s.len() as int))
    }
}

/// Appending an entry raises the unused count exactly when the entry is
/// unused.
pub proof fn lemma_n_unused_snoc(s: Seq<EntityUsage>, e: EntityUsage)
    ensures
        n_unused(s.push(e)) == n_unused(s) + (if !e.used {
            1nat
        } else {
            0nat
        }),
    decreases s,
{
    let s2 = s.push(e);
    if s.len() == 0 {
        assert(s2[0] == e);
        assert(s2.subrange(1, 1) =~= Seq::<EntityUsage>::empty());
        assert(n_unused(s2.subrange(1, 1)) == 0);
        assert(n_unused(s) == 0);
        assert(n_unused(s2) == (if !e.used {
            1nat
        } else {
            0nat
        }));
    } else {
        assert(s2[0] == s[0]);
        assert(s2.subrange(1, s2.len() as int) =~= s.subrange(1, s.len() as int).push(e));
        lemma_n_unused_snoc(s.subrange(1, s.len() as int), e);
    }
}

/// Whether the name and location pair is registered as a validator
/// parameter.
pub open spec fn vp_listed(ps: Seq<(String, Span)>, n: Seq<char>, loc: Span) -> bool {
    exists|i: int| 0 <= i < ps.len() && (#[trigger] ps[i]).0@ == n && ps[i].1 == loc
}

/// The warnings that survive validator-parameter reconciliation: every
/// warning except an unused-variable warning naming a registered
/// validator parameter.
pub open spec fn kept_warnings(ws: Seq<Warning>, ps: Seq<(String, Span)>) -> Seq<Warning>
    decreases ws.len(),
{
    if ws.len() == 0 {
        Seq::empty()
    } else {
        let keep = match ws[0] {
            Warning::UnusedVariable { location, name } => !vp_listed(ps, name@, location),
            _ => true,
        };
        (if keep {
            seq![ws[0]]
        } else {
            Seq::empty()
        }) + kept_warnings(ws.subrange(1, ws.len() as int), ps)
    }
}

/// The per-module mutable inference state.
#[derive(Debug)]
pub struct Environment {
    /// The unification state.
    pub subst: Subst,
    /// The name of the module being inferred.
    pub module_name: String,
    /// What the module is compiled as.
    pub kind: ModuleKind,
    /// Module-level types, including the prelude and imported types.
    pub module_types: Vec<(String, TypeConstructor)>,
    /// The constructor names of each module-level data type.
    pub module_types_constructors: Vec<(String, Vec<String>)>,
    /// Module-level values.
    pub module_values: Vec<(String, ValueConstructor)>,
    /// Field accessors of module-level record types.
    pub accessors: Vec<(String, AccessorsMap)>,
    /// The scope stack, flat: lookups search from the end, closing a
    /// scope truncates.
    pub scope: Vec<(String, ValueConstructor)>,
    /// Tracked registrations for unused-entity warnings.
    pub usages: Vec<EntityUsage>,
    /// Warnings accumulated so far.
    pub warnings: Vec<Warning>,
    /// Names bound as validator parameters, used by convention.
    pub validator_params: Vec<(String, Span)>,
}

/// The environment's invariant: its substitution table is well-formed.
pub open spec fn env_wf(e: Environment) -> bool {
    wf(e.subst@)
}

/// The module-level registries are untouched between two states.
pub open spec fn same_module_state(a: Environment, b: Environment) -> bool {
    &&& a.module_types == b.module_types
    &&& a.module_types_constructors == b.module_types_constructors
    &&& a.module_values == b.module_values
    &&& a.accessors == b.accessors
}

impl Environment {
    /// Mint a fresh unsolved unification variable.
    pub fn new_unbound_var(&mut self) -> (t: Type)
        requires
            env_wf(*old(self)),
        ensures
            env_wf(*final(self)),
            final(self).subst@.len() == old(self).subst@.len() + 1,
            refines(final(self).subst@, old(self).subst@),
            forall|x: crate::tipo::Ty| #[trigger] app(final(self).subst@, x) == app(
                old(self).subst@,
                x,
            ),
            t@ matches crate::tipo::Ty::Var { id } && id == old(self).subst@.len(),
            final(self).subst@[old(self).subst@.len() as int] is Unbound,
            same_module_state(*old(self), *final(self)),
            final(self).scope == old(self).scope,
            final(self).usages == old(self).usages,
            final(self).warnings == old(self).warnings,
    {
        let v = self.subst.fresh();
        Type::Var { id: v }
    }

    /// Mint a fresh generic (universally quantified) variable.
    pub fn new_generic_var(&mut self) -> (t: Type)
        requires
            env_wf(*old(self)),
        ensures
            env_wf(*final(self)),
            refines(final(self).subst@, old(self).subst@),
            forall|x: crate::tipo::Ty| #[trigger] app(final(self).subst@, x) == app(
                old(self).subst@,
                x,
            ),
            t@ is Var,
            same_module_state(*old(self), *final(self)),
            final(self).scope == old(self).scope,
            final(self).usages == old(self).usages,
            final(self).warnings == old(self).warnings,
    {
        let ghost s0 = self.subst@;
        proof {
            lemma_ents_of(self.subst.entries@);
        }
        let v = self.subst.entries.len();
        self.subst.entries.push(VarState::Generic);
        proof {
            lemma_ents_of(self.subst.entries@);
            assert(self.subst@ =~= s0.push(VEntry::Generic));
            lemma_push_entry(s0, VEntry::Generic);
        }
        Type::Var { id: v }
    }

    /// Open a new scope; the mark restores the state when it closes.
    pub fn open_new_scope(&self) -> (m: ScopeMark)
        ensures
            m.scope_len == self.scope@.len(),
            m.usages_len == self.usages@.len(),
    {
        ScopeMark { scope_len: self.scope.len(), usages_len: self.usages.len() }
    }

    /// Close a scope: drop its bindings, and turn each tracked-but-unused
    /// registration made inside it into a warning.
    pub fn close_scope(&mut self, m: ScopeMark)
        requires
            env_wf(*old(self)),
        ensures
            env_wf(*final(self)),
            final(self).subst == old(self).subst,
            final(self).scope@.len() <= old(self).scope@.len(),
            same_module_state(*old(self), *final(self)),
            final(self).warnings@.len() >= old(self).warnings@.len(),
            m.scope_len <= old(self).scope@.len() ==> final(self).scope@ == old(
                self,
            ).scope@.subrange(0, m.scope_len as int),
            m.usages_len <= old(self).usages@.len() ==> final(self).usages@ == old(
                self,
            ).usages@.subrange(0, m.usages_len as int),
    {
        let mut i: usize = m.usages_len;
        while i < self.usages.len()
            invariant
                env_wf(*self),
                self.subst == old(self).subst,
                self.scope == old(self).scope,
                self.usages == old(self).usages,
                self.warnings@.len() >= old(self).warnings@.len(),
                same_module_state(*old(self), *self),
            decreases self.usages@.len() - i,
        {
            if !self.usages[i].used {
                let name = self.usages[i].name.clone();
                let location = self.usages[i].location;
                let kind = self.usages[i].kind;
                self.push_unused_warning(kind, name, location);
            }
            i = i + 1;
        }
        if m.usages_len <= self.usages.len() {
            self.usages.truncate(m.usages_len);
        }
        if m.scope_len <= self.scope.len() {
            self.scope.truncate(m.scope_len);
        }
    }

    /// The warning matching an unused tracked registration.
    pub fn push_unused_warning(&mut self, kind: EntityKind, name: String, location: Span)
        requires
            env_wf(*old(self)),
        ensures
            env_wf(*final(self)),
            final(self).subst == old(self).subst,
            final(self).scope == old(self).scope,
            final(self).usages == old(self).usages,
            final(self).warnings@.len() == old(self).warnings@.len() + 1,
            same_module_state(*old(self), *final(self)),
            final(self).warnings@ == old(self).warnings@.push(warning_of(kind, name, location)),
    {
        let w = match kind {
            EntityKind::PrivateConstant => Warning::UnusedPrivateModuleConstant { location, name },
            EntityKind::PrivateTypeConstructor => Warning::UnusedType { location, name },
            EntityKind::PrivateFunction => Warning::UnusedPrivateFunction { location, name },
            EntityKind::ImportedModule => Warning::UnusedImportedModule { location, name },
            EntityKind::ImportedValueOrType => Warning::UnusedImportedValueOrType {
                location,
                name,
            },
            EntityKind::Variable => Warning::UnusedVariable { location, name },
        };
        self.warnings.push(w);
    }

    /// Start tracking a registration for unused-entity warnings.
    pub fn init_usage(&mut self, name: String, kind: EntityKind, location: Span)
        requires
            env_wf(*old(self)),
        ensures
            env_wf(*final(self)),
            final(self).subst == old(self).subst,
            final(self).scope == old(self).scope,
            final(self).warnings == old(self).warnings,
            same_module_state(*old(self), *final(self)),
            final(self).usages@ == old(self).usages@.push(
                (EntityUsage { kind, name, location, used: false }),
            ),
            final(self).validator_params == old(self).validator_params,
    {
        self.usages.push(EntityUsage { kind, name, location, used: false });
    }

    /// Mark the most recent tracked registration of `name` as used.
    pub fn increment_usage(&mut self, name: &String)
        requires
            env_wf(*old(self)),
        ensures
            env_wf(*final(self)),
            final(self).subst == old(self).subst,
            final(self).scope == old(self).scope,
            final(self).warnings == old(self).warnings,
            final(self).usages@.len() == old(self).usages@.len(),
            final(self).validator_params == old(self).validator_params,
            same_module_state(*old(self), *final(self)),
            usage_index_of(old(self).usages@, name@) is None ==> final(self).usages == old(
                self,
            ).usages,
            usage_index_of(old(self).usages@, name@) matches Some(j) ==> final(self).usages@
                == old(self).usages@.update(
                j,
                (EntityUsage {
                    kind: old(self).usages@[j].kind,
                    name: old(self).usages@[j].name,
                    location: old(self).usages@[j].location,
                    used: true,
                }),
            ),
    {
        let n = self.usages.len();
        proof {
            assert(self.usages@.subrange(0, n as int) =~= self.usages@);
        }
        let mut i: usize = n;
        while i > 0
            invariant
                env_wf(*self),
                self.subst == old(self).subst,
                self.scope == old(self).scope,
                self.warnings == old(self).warnings,
                self.usages == old(self).usages,
                self.validator_params == old(self).validator_params,
                same_module_state(*old(self), *self),
                i <= self.usages@.len(),
                usage_index_of(self.usages@.subrange(0, i as int), name@) == usage_index_of(
                    self.usages@,
                    name@,
                ),
            decreases i,
        {
            i = i - 1;
            proof {
                assert(self.usages@.subrange(0, i + 1).last() == self.usages@[i as int]);
                assert(self.usages@.subrange(0, i + 1).drop_last() =~= self.usages@.subrange(
                    0,
                    i as int,
                ));
            }
            if self.usages[i].name == *name {
                let ghost before = self.usages@;
                let mut e = self.usages.remove(i);
                e.used = true;
                self.usages.insert(i, e);
                proof {
                    assert(self.usages@ =~= before.update(
                        i as int,
                        (EntityUsage {
                            kind: before[i as int].kind,
                            name: before[i as int].name,
                            location: before[i as int].location,
                            used: true,
                        }),
                    ));
                }
                return ;
            }
        }
        proof {
            assert(self.usages@.subrange(0, 0) =~= Seq::<EntityUsage>::empty());
        }
    }

    /// Bind a value in the current scope.
    pub fn insert_variable(&mut self, name: String, variant: ValueConstructorVariant, tipo: Type)
        requires
            env_wf(*old(self)),
        ensures
            env_wf(*final(self)),
            final(self).subst == old(self).subst,
            final(self).scope@.len() == old(self).scope@.len() + 1,
            final(self).scope@.last().0@ == name@,
            final(self).scope@.last().1.tipo == tipo,
            final(self).scope@ == old(self).scope@.push(final(self).scope@.last()),
            final(self).usages == old(self).usages,
            final(self).warnings == old(self).warnings,
            final(self).validator_params == old(self).validator_params,
            same_module_state(*old(self), *final(self)),
    {
        let ghost nv = name@;
        let public = true;
        self.scope.push((name, ValueConstructor { public, variant, tipo }));
    }

    /// Look the name up in the scope stack without marking it used: for
    /// a definition consulting its own preregistered signature.
    pub fn lookup_variable(&self, name: &String) -> (r: Option<ValueConstructor>)
        ensures
            r is Some <==> scope_index_of(self.scope@, name@) is Some,
            r matches Some(vc) ==> (scope_index_of(self.scope@, name@) matches Some(ix)
                && vc.tipo@ == self.scope@[ix].1.tipo@ && vc.public == self.scope@[ix].1.public),
    {
        let n = self.scope.len();
        proof {
            assert(self.scope@.subrange(0, n as int) =~= self.scope@);
        }
        let mut i: usize = n;
        while i > 0
            invariant
                i <= self.scope@.len(),
                scope_index_of(self.scope@.subrange(0, i as int), name@) == scope_index_of(
                    self.scope@,
                    name@,
                ),
            decreases i,
        {
            i = i - 1;
            proof {
                assert(self.scope@.subrange(0, i + 1).last() == self.scope@[i as int]);
                assert(self.scope@.subrange(0, i + 1).drop_last() =~= self.scope@.subrange(
                    0,
                    i as int,
                ));
            }
            if self.scope[i].0 == *name {
                let vc = clone_value_constructor(&self.scope[i].1);
                return Some(vc);
            }
        }
        proof {
            assert(self.scope@.subrange(0, 0) =~= Seq::<(String, ValueConstructor)>::empty());
        }
        None
    }

    /// Look the name up in the scope stack, innermost binding first, and
    /// mark it used. The returned value keeps the shape of the binding's
    /// type.
    pub fn get_variable(&mut self, name: &String) -> (r: Option<ValueConstructor>)
        requires
            env_wf(*old(self)),
        ensures
            env_wf(*final(self)),
            final(self).subst == old(self).subst,
            final(self).scope == old(self).scope,
            r is Some <==> scope_index_of(old(self).scope@, name@) is Some,
            r matches Some(vc) ==> (scope_index_of(old(self).scope@, name@) matches Some(ix)
                && vc.tipo@ == old(self).scope@[ix].1.tipo@ && vc.public == old(
                self,
            ).scope@[ix].1.public),
            final(self).warnings == old(self).warnings,
            same_module_state(*old(self), *final(self)),
    {
        let n = self.scope.len();
        proof {
            assert(self.scope@.subrange(0, n as int) =~= self.scope@);
        }
        let mut i: usize = n;
        while i > 0
            invariant
                env_wf(*self),
                self.subst == old(self).subst,
                self.scope == old(self).scope,
                self.warnings == old(self).warnings,
                same_module_state(*old(self), *self),
                i <= self.scope@.len(),
                scope_index_of(self.scope@.subrange(0, i as int), name@) == scope_index_of(
                    self.scope@,
                    name@,
                ),
            decreases i,
        {
            i = i - 1;
            proof {
                assert(self.scope@.subrange(0, i + 1).last() == self.scope@[i as int]);
                assert(self.scope@.subrange(0, i + 1).drop_last() =~= self.scope@.subrange(
                    0,
                    i as int,
                ));
            }
            if self.scope[i].0 == *name {
                let vc = clone_value_constructor(&self.scope[i].1);
                self.increment_usage(name);
                return Some(vc);
            }
        }
        proof {
            assert(self.scope@.subrange(0, 0) =~= Seq::<(String, ValueConstructor)>::empty());
        }
        None
    }
}

} // verus!

verus! {

/// An import can bring this name in from the module's interface: it is
/// exported as a value or as a type.
pub open spec fn import_name_ok(info: TypeInfo, n: Seq<char>) -> bool {
    assoc_index_of(info.values@, n) is Some || assoc_index_of(info.types@, n) is Some
}

/// Search an association list from the end, so that a later entry of the
/// same name shadows an earlier one.
pub open spec fn assoc_index_of<T>(s: Seq<(String, T)>, n: Seq<char>) -> Option<int>
    decreases s.len(),
{
    if s.len() == 0 {
        None
    } else if s.last().0@ == n {
        Some(s.len() - 1)
    } else {
        assoc_index_of(s.drop_last(), n)
    }
}

/// Any key present in the list is found.
pub proof fn lemma_assoc_contains<T>(s: Seq<(String, T)>, i: int)
    requires
        0 <= i < s.len(),
    ensures
        assoc_index_of(s, s[i].0@) is Some,
    decreases s.len(),
{
    if s.last().0@ == s[i].0@ {
    } else {
        lemma_assoc_contains(s.drop_last(), i);
    }
}

/// A binding stays findable when another is pushed over it.
pub proof fn lemma_scope_push_some(s: Seq<(String, ValueConstructor)>, n: Seq<char>, e: (String,
    ValueConstructor))
    requires
        scope_index_of(s, n) is Some,
    ensures
        scope_index_of(s.push(e), n) is Some,
{
    if e.0@ == n {
    } else {
        assert(s.push(e).drop_last() =~= s);
    }
}

/// A usage entry stays findable when another is pushed over it.
pub proof fn lemma_usage_push_some(s: Seq<EntityUsage>, n: Seq<char>, e: EntityUsage)
    requires
        usage_index_of(s, n) is Some,
    ensures
        usage_index_of(s.push(e), n) is Some,
{
    if e.name@ == n {
    } else {
        assert(s.push(e).drop_last() =~= s);
    }
}

/// Any key present in the scope stack is found.
pub proof fn lemma_scope_contains(s: Seq<(String, ValueConstructor)>, i: int)
    requires
        0 <= i < s.len(),
    ensures
        scope_index_of(s, s[i].0@) is Some,
    decreases s.len(),
{
    if s.last().0@ == s[i].0@ {
    } else {
        lemma_scope_contains(s.drop_last(), i);
    }
}

/// Find the last entry of the given name in an association list.
pub fn assoc_find<T>(v: &Vec<(String, T)>, name: &String) -> (r: Option<usize>)
    ensures
        r matches Some(i) ==> assoc_index_of(v@, name@) == Some(i as int) && i < v@.len()
            && v@[i as int].0@ == name@,
        r is None <==> assoc_index_of(v@, name@) is None,
{
    let n = v.len();
    proof {
        assert(v@.subrange(0, n as int) =~= v@);
    }
    let mut i: usize = n;
    while i > 0
        invariant
            i <= v@.len(),
            assoc_index_of(v@.subrange(0, i as int), name@) == assoc_index_of(v@, name@),
        decreases i,
    {
        i = i - 1;
        proof {
            assert(v@.subrange(0, i + 1).last() == v@[i as int]);
            assert(v@.subrange(0, i + 1).drop_last() =~= v@.subrange(0, i as int));
        }
        if v[i].0 == *name {
            return Some(i);
        }
    }
    proof {
        assert(v@.subrange(0, 0) =~= Seq::<(String, T)>::empty());
    }
    None
}

impl Environment {
    /// Unify two types in this environment's substitution table.
    pub fn unify(
        &mut self,
        expected: &Type,
        given: &Type,
        location: Span,
        allow_subsumption: bool,
    ) -> (r: Result<(), Error>)
        requires
            env_wf(*old(self)),
        ensures
            env_wf(*final(self)),
            refines(final(self).subst@, old(self).subst@),
            !allow_subsumption && r is Ok ==> crate::tipo::uni_eq(
                app(final(self).subst@, expected@),
                app(final(self).subst@, given@),
            ),
            !allow_subsumption && crate::tipo::concrete(expected@) && crate::tipo::concrete(given@)
                ==> final(self).subst@ == old(self).subst@ && (r is Ok <==> crate::tipo::mism(
                expected@,
                given@,
            ) is None),
            !allow_subsumption && crate::tipo::concrete(expected@) && crate::tipo::concrete(given@)
                && r is Err ==> (r matches Err(e) ==> e matches Error::CouldNotUnify {
                location: l,
                expected: ee,
                given: gg,
                situation: so,
            } && Some((ee@, gg@)) == crate::tipo::mism(expected@, given@) && l == location && so
                is None),
            (expected@ matches crate::tipo::Ty::Var { id: vv } && (vv as nat) < old(
                self,
            ).subst@.len() && old(self).subst@[vv as int] is Unbound && crate::subst::lf(
                old(self).subst@,
                given@,
            ) && !(given@ is Var) && crate::tipo::occ(vv, given@)) ==> (r matches Err(e2) && e2
                matches Error::RecursiveType { location: l2 } && l2 == location),
            (expected@ matches crate::tipo::Ty::Var { id: vv3 } && (vv3 as nat) < old(
                self,
            ).subst@.len() && old(self).subst@[vv3 as int] is Unbound && crate::subst::lf(
                old(self).subst@,
                given@,
            ) && !(given@ is Var) && crate::tipo::occ(vv3, given@)) ==> final(self).subst@ == old(
                self,
            ).subst@,
            (expected@ matches crate::tipo::Ty::Var { id: lv } && (lv as nat) < old(
                self,
            ).subst@.len() && old(self).subst@[lv as int] is Unbound && !crate::tipo::occ(
                lv,
                app(old(self).subst@, given@),
            )) ==> r is Ok,
            (given@ matches crate::tipo::Ty::Var { id: rv } && (rv as nat) < old(
                self,
            ).subst@.len() && old(self).subst@[rv as int] is Unbound && !crate::tipo::occ(
                rv,
                app(old(self).subst@, expected@),
            )) ==> r is Ok,
            same_module_state(*old(self), *final(self)),
            final(self).scope == old(self).scope,
            final(self).usages == old(self).usages,
            final(self).warnings == old(self).warnings,
            final(self).subst@.len() == old(self).subst@.len(),
            forall|w: int|
                0 <= w < old(self).subst@.len() ==> ((#[trigger] final(self).subst@[w]) is Generic
                    <==> old(self).subst@[w] is Generic),
            r matches Err(ek) ==> crate::error::expression_level_error(ek),
    {
        self.subst.unify(expected, given, location, allow_subsumption)
    }

    /// Instantiate a registered type for one use: every universally
    /// quantified variable in it is replaced by a fresh unsolved one,
    /// consistently within this call.
    pub fn instantiate(&mut self, t: &Type) -> (r: Type)
        requires
            env_wf(*old(self)),
        ensures
            env_wf(*final(self)),
            refines(final(self).subst@, old(self).subst@),
            forall|x: crate::tipo::Ty| #[trigger] app(final(self).subst@, x) == app(
                old(self).subst@,
                x,
            ),
            same_module_state(*old(self), *final(self)),
            final(self).scope == old(self).scope,
            final(self).usages == old(self).usages,
            final(self).warnings == old(self).warnings,
            forall|v: nat|
                #[trigger] crate::tipo::occ(v, r@) ==> !((v as int) < final(self).subst@.len()
                    && final(self).subst@[v as int] is Generic),
            (forall|vv: nat|
                #[trigger] crate::tipo::occ(vv, app(old(self).subst@, t@)) ==> !((vv as int) < old(
                    self,
                ).subst@.len() && old(self).subst@[vv as int] is Generic)) ==> r@ == app(
                old(self).subst@,
                t@,
            ),
    {
        let t2 = self.subst.apply(t);
        let mut memo: Vec<(usize, usize)> = Vec::new();
        let r = self.instantiate_walk(&t2, &mut memo);
        proof {
            crate::subst::lemma_refines_refl(old(self).subst@);
            assert forall|x: crate::tipo::Ty| #[trigger]
                app(final(self).subst@, app(old(self).subst@, x)) == app(
                final(self).subst@,
                x,
            ) by {
                crate::subst::lemma_app_idem(old(self).subst@, x);
            }
        }
        r
    }

    /// Instantiate with a caller-held memo, so that several related
    /// types (a registered type and its parameters) share one mapping of
    /// generic variables to fresh ones.
    pub fn instantiate_shared(&mut self, t: &Type, memo: &mut Vec<(usize, usize)>) -> (r: Type)
        requires
            env_wf(*old(self)),
            forall|k: int|
                0 <= k < old(memo)@.len() ==> (((#[trigger] old(memo)@[k]).1 as int)
                    < old(self).subst@.len() && !(old(self).subst@[old(memo)@[k].1 as int]
                    is Generic)),
        ensures
            env_wf(*final(self)),
            forall|x: crate::tipo::Ty| #[trigger] app(final(self).subst@, x) == app(
                old(self).subst@,
                x,
            ),
            same_module_state(*old(self), *final(self)),
            final(self).scope == old(self).scope,
            final(self).usages == old(self).usages,
            final(self).warnings == old(self).warnings,
            forall|k: int|
                0 <= k < final(memo)@.len() ==> (((#[trigger] final(memo)@[k]).1 as int)
                    < final(self).subst@.len() && !(final(self).subst@[final(memo)@[k].1 as int]
                    is Generic)),
    {
        let t2 = self.subst.apply(t);
        self.instantiate_walk(&t2, memo)
    }

    /// The recursive walk of `instantiate`, over an already resolved
    /// term. `memo` keeps the generic variables mapped so far.
    fn instantiate_walk(&mut self, t: &Type, memo: &mut Vec<(usize, usize)>) -> (r: Type)
        requires
            env_wf(*old(self)),
            forall|k: int|
                0 <= k < old(memo)@.len() ==> (((#[trigger] old(memo)@[k]).1 as int)
                    < old(self).subst@.len() && !(old(self).subst@[old(memo)@[k].1 as int]
                    is Generic)),
        ensures
            env_wf(*final(self)),
            forall|x: crate::tipo::Ty| #[trigger] app(final(self).subst@, x) == app(
                old(self).subst@,
                x,
            ),
            same_module_state(*old(self), *final(self)),
            final(self).scope == old(self).scope,
            final(self).usages == old(self).usages,
            final(self).warnings == old(self).warnings,
            final(self).subst@.len() >= old(self).subst@.len(),
            forall|v: int|
                0 <= v < old(self).subst@.len()
                    ==> (#[trigger] final(self).subst@[v]) == old(self).subst@[v],
            forall|v: int|
                old(self).subst@.len() <= v < final(self).subst@.len()
                    ==> (#[trigger] final(self).subst@[v]) is Unbound,
            forall|k: int|
                0 <= k < final(memo)@.len() ==> (((#[trigger] final(memo)@[k]).1 as int)
                    < final(self).subst@.len() && !(final(self).subst@[final(memo)@[k].1 as int]
                    is Generic)),
            forall|v: nat|
                #[trigger] crate::tipo::occ(v, r@) ==> !((v as int) < final(self).subst@.len()
                    && final(self).subst@[v as int] is Generic),
            (forall|vv: nat|
                #[trigger] crate::tipo::occ(vv, t@) ==> !((vv as int) < old(self).subst@.len()
                    && old(self).subst@[vv as int] is Generic)) ==> r@ == t@,
        decreases *t, 0int,
    {
        match t {
            Type::App { public, opaque, module, name, args } => {
                let rargs = self.instantiate_walk_vec(args, memo);
                let r = Type::App {
                    public: *public,
                    opaque: *opaque,
                    module: module.clone(),
                    name: name.clone(),
                    args: rargs,
                };
                proof {
                    assert forall|v: nat| crate::tipo::occ(v, r@) implies !((v as int) < self.subst@.len()
                        && self.subst@[v as int] is Generic) by {
                        assert(crate::tipo::occ_seq(v, crate::tipo::tys_of(r->App_args@)));
                    }
                    if forall|vv: nat|
                        #[trigger] crate::tipo::occ(vv, t@) ==> !((vv as int)
                            < old(self).subst@.len() && old(self).subst@[vv as int] is Generic) {
                        assert forall|vv: nat|
                            crate::tipo::occ_seq(vv, crate::tipo::tys_of(args@)) implies !((
                        vv as int) < old(self).subst@.len() && old(self).subst@[vv as int]
                            is Generic) by {
                            assert(crate::tipo::occ(vv, t@));
                        }
                        crate::tipo::lemma_tys_of(rargs@);
                        crate::tipo::lemma_tys_of(args@);
                        assert(crate::tipo::tys_of(rargs@) =~= crate::tipo::tys_of(args@));
                        assert(r@ =~= t@);
                    }
                }
                r
            },
            Type::Fn { args, ret } => {
                let rargs = self.instantiate_walk_vec(args, memo);
                let ghost mid = self.subst@;
                let rret = self.instantiate_walk(ret, memo);
                let r = Type::Fn { args: rargs, ret: Box::new(rret) };
                proof {
                    assert forall|v: nat| crate::tipo::occ(v, r@) implies !((v as int) < self.subst@.len()
                        && self.subst@[v as int] is Generic) by {
                        if crate::tipo::occ_seq(v, crate::tipo::tys_of(r->Fn_args@)) {
                            if (v as int) < mid.len() {
                            } else {
                            }
                        } else {
                            assert(crate::tipo::occ(v, rret@));
                        }
                    }
                    if forall|vv: nat|
                        #[trigger] crate::tipo::occ(vv, t@) ==> !((vv as int)
                            < old(self).subst@.len() && old(self).subst@[vv as int] is Generic) {
                        assert forall|vv: nat|
                            crate::tipo::occ_seq(vv, crate::tipo::tys_of(args@)) implies !((
                        vv as int) < old(self).subst@.len() && old(self).subst@[vv as int]
                            is Generic) by {
                            assert(crate::tipo::occ(vv, t@));
                        }
                        assert forall|vv: nat|
                            crate::tipo::occ(vv, (**ret)@) implies !((vv as int)
                            < old(self).subst@.len() && old(self).subst@[vv as int]
                            is Generic) by {
                            assert(crate::tipo::occ(vv, t@));
                        }
                        crate::tipo::lemma_tys_of(rargs@);
                        crate::tipo::lemma_tys_of(args@);
                        assert(crate::tipo::tys_of(rargs@) =~= crate::tipo::tys_of(args@));
                        assert(r@ =~= t@);
                    }
                }
                r
            },
            Type::Tuple { elems } => {
                let relems = self.instantiate_walk_vec(elems, memo);
                let r = Type::Tuple { elems: relems };
                proof {
                    assert forall|v: nat| crate::tipo::occ(v, r@) implies !((v as int) < self.subst@.len()
                        && self.subst@[v as int] is Generic) by {
                        assert(crate::tipo::occ_seq(v, crate::tipo::tys_of(r->Tuple_elems@)));
                    }
                    if forall|vv: nat|
                        #[trigger] crate::tipo::occ(vv, t@) ==> !((vv as int)
                            < old(self).subst@.len() && old(self).subst@[vv as int] is Generic) {
                        assert forall|vv: nat|
                            crate::tipo::occ_seq(vv, crate::tipo::tys_of(elems@)) implies !((
                        vv as int) < old(self).subst@.len() && old(self).subst@[vv as int]
                            is Generic) by {
                            assert(crate::tipo::occ(vv, t@));
                        }
                        crate::tipo::lemma_tys_of(relems@);
                        crate::tipo::lemma_tys_of(elems@);
                        assert(crate::tipo::tys_of(relems@) =~= crate::tipo::tys_of(elems@));
                        assert(r@ =~= t@);
                    }
                }
                r
            },
            Type::Pair { fst, snd } => {
                let rfst = self.instantiate_walk(fst, memo);
                let ghost mid = self.subst@;
                let rsnd = self.instantiate_walk(snd, memo);
                let r = Type::Pair { fst: Box::new(rfst), snd: Box::new(rsnd) };
                proof {
                    assert forall|v: nat| crate::tipo::occ(v, r@) implies !((v as int) < self.subst@.len()
                        && self.subst@[v as int] is Generic) by {
                        if crate::tipo::occ(v, rfst@) {
                            if (v as int) < mid.len() {
                            }
                        } else {
                            assert(crate::tipo::occ(v, rsnd@));
                        }
                    }
                    if forall|vv: nat|
                        #[trigger] crate::tipo::occ(vv, t@) ==> !((vv as int)
                            < old(self).subst@.len() && old(self).subst@[vv as int] is Generic) {
                        assert forall|vv: nat|
                            crate::tipo::occ(vv, (**fst)@) || crate::tipo::occ(
                                vv,
                                (**snd)@,
                            ) implies !((vv as int) < old(self).subst@.len() && old(
                            self,
                        ).subst@[vv as int] is Generic) by {
                            assert(crate::tipo::occ(vv, t@));
                        }
                        assert(r@ =~= t@);
                    }
                }
                r
            },
            Type::Var { id } => {
                proof {
                    assert(crate::tipo::occ(*id as nat, t@));
                }
                if self.subst.entry_is_generic(*id) {
                    let mut j: usize = 0;
                    let n = memo.len();
                    while j < n
                        invariant
                            *self == *old(self),
                            env_wf(*self),
                            *memo == *old(memo),
                            (*id as int) < self.subst@.len() && self.subst@[*id as int]
                                is Generic,
                            crate::tipo::occ(*id as nat, t@),
                            forall|k: int|
                                0 <= k < memo@.len() ==> (((#[trigger] memo@[k]).1 as int)
                                    < self.subst@.len() && !(self.subst@[memo@[k].1 as int]
                                    is Generic)),
                            n == memo@.len(),
                            j <= n,
                        decreases n - j,
                    {
                        if memo[j].0 == *id {
                            return Type::Var { id: memo[j].1 };
                        }
                        j = j + 1;
                    }
                    let v = self.subst.fresh();
                    memo.push((*id, v));
                    Type::Var { id: v }
                } else {
                    Type::Var { id: *id }
                }
            },
        }
    }

    /// Elementwise `instantiate_walk`.
    fn instantiate_walk_vec(&mut self, ts: &Vec<Type>, memo: &mut Vec<(usize, usize)>) -> (r: Vec<
        Type,
    >)
        requires
            env_wf(*old(self)),
            forall|k: int|
                0 <= k < old(memo)@.len() ==> (((#[trigger] old(memo)@[k]).1 as int)
                    < old(self).subst@.len() && !(old(self).subst@[old(memo)@[k].1 as int]
                    is Generic)),
        ensures
            env_wf(*final(self)),
            forall|x: crate::tipo::Ty| #[trigger] app(final(self).subst@, x) == app(
                old(self).subst@,
                x,
            ),
            r@.len() == ts@.len(),
            same_module_state(*old(self), *final(self)),
            final(self).scope == old(self).scope,
            final(self).usages == old(self).usages,
            final(self).warnings == old(self).warnings,
            final(self).subst@.len() >= old(self).subst@.len(),
            forall|v: int|
                0 <= v < old(self).subst@.len()
                    ==> (#[trigger] final(self).subst@[v]) == old(self).subst@[v],
            forall|v: int|
                old(self).subst@.len() <= v < final(self).subst@.len()
                    ==> (#[trigger] final(self).subst@[v]) is Unbound,
            forall|k: int|
                0 <= k < final(memo)@.len() ==> (((#[trigger] final(memo)@[k]).1 as int)
                    < final(self).subst@.len() && !(final(self).subst@[final(memo)@[k].1 as int]
                    is Generic)),
            forall|v: nat|
                #[trigger] crate::tipo::occ_seq(v, crate::tipo::tys_of(r@)) ==> !((v as int)
                    < final(self).subst@.len() && final(self).subst@[v as int] is Generic),
            (forall|vv: nat|
                #[trigger] crate::tipo::occ_seq(vv, crate::tipo::tys_of(ts@)) ==> !((vv as int)
                    < old(self).subst@.len() && old(self).subst@[vv as int] is Generic)) ==> (
            forall|i: int| 0 <= i < r@.len() ==> (#[trigger] r@[i])@ == ts@[i]@),
        decreases ts@, 1int,
    {
        let mut r: Vec<Type> = Vec::new();
        let mut i: usize = 0;
        while i < ts.len()
            invariant
                env_wf(*self),
                forall|x: crate::tipo::Ty| #[trigger] app(self.subst@, x) == app(
                    old(self).subst@,
                    x,
                ),
                same_module_state(*old(self), *self),
                self.scope == old(self).scope,
                self.usages == old(self).usages,
                self.warnings == old(self).warnings,
                self.subst@.len() >= old(self).subst@.len(),
                forall|v: int|
                    0 <= v < old(self).subst@.len()
                        ==> (#[trigger] self.subst@[v]) == old(self).subst@[v],
                forall|v: int|
                    old(self).subst@.len() <= v < self.subst@.len()
                        ==> (#[trigger] self.subst@[v]) is Unbound,
                forall|k: int|
                    0 <= k < memo@.len() ==> (((#[trigger] memo@[k]).1 as int)
                        < self.subst@.len() && !(self.subst@[memo@[k].1 as int] is Generic)),
                forall|j: int, v: nat|
                    0 <= j < i && #[trigger] crate::tipo::occ(v, r@[j]@) ==> !((v as int)
                        < self.subst@.len() && self.subst@[v as int] is Generic),
                (forall|vv: nat|
                    #[trigger] crate::tipo::occ_seq(vv, crate::tipo::tys_of(ts@)) ==> !((vv as int)
                        < old(self).subst@.len() && old(self).subst@[vv as int] is Generic)) ==> (
                forall|j: int| 0 <= j < r@.len() ==> (#[trigger] r@[j])@ == ts@[j]@),
                0 <= i <= ts@.len(),
                r@.len() == i,
            decreases ts@.len() - i,
        {
            let ghost pre = self.subst@;
            let c = self.instantiate_walk(&ts[i], memo);
            proof {
                assert forall|j: int, v: nat|
                    0 <= j < i && crate::tipo::occ(v, r@[j]@) implies !((v as int)
                    < self.subst@.len() && self.subst@[v as int] is Generic) by {
                    if (v as int) < pre.len() {
                        assert(self.subst@[v as int] == pre[v as int]);
                    }
                }
                if forall|vv: nat|
                    #[trigger] crate::tipo::occ_seq(vv, crate::tipo::tys_of(ts@)) ==> !((vv as int)
                        < old(self).subst@.len() && old(self).subst@[vv as int] is Generic) {
                    crate::tipo::lemma_tys_of(ts@);
                    assert forall|vv: nat|
                        crate::tipo::occ(vv, ts@[i as int]@) implies !((vv as int)
                        < pre.len() && pre[vv as int] is Generic) by {
                        crate::tipo::lemma_occ_seq(vv, crate::tipo::tys_of(ts@));
                        assert(crate::tipo::occ(vv, crate::tipo::tys_of(ts@)[i as int]));
                        assert(crate::tipo::occ_seq(vv, crate::tipo::tys_of(ts@)));
                    }
                    assert(c@ == ts@[i as int]@);
                }
            }
            r.push(c);
            i = i + 1;
        }
        proof {
            crate::tipo::lemma_occ_seq_all(r@);
            assert forall|v: nat|
                crate::tipo::occ_seq(v, crate::tipo::tys_of(r@)) implies !((v as int)
                < self.subst@.len() && self.subst@[v as int] is Generic) by {
                let k = choose|k: int| 0 <= k < r@.len() && crate::tipo::occ(v, r@[k]@);
                assert(crate::tipo::occ(v, r@[k]@));
            }
        }
        r
    }

    /// Generalise a definition's type: every variable of it still
    /// unsolved after the module was inferred becomes universally
    /// quantified.
    pub fn generalise_type(&mut self, t: &Type)
        requires
            env_wf(*old(self)),
        ensures
            env_wf(*final(self)),
            refines(final(self).subst@, old(self).subst@),
            forall|x: crate::tipo::Ty| #[trigger] app(final(self).subst@, x) == app(
                old(self).subst@,
                x,
            ),
            final(self).module_values == old(self).module_values,
            final(self).subst@.len() == old(self).subst@.len(),
            forall|v: nat|
                v < old(self).subst@.len() && #[trigger] crate::tipo::occ(
                    v,
                    app(old(self).subst@, t@),
                ) && old(self).subst@[v as int] is Unbound ==> final(self).subst@[v as int]
                    is Generic,
    {
        let t2 = self.subst.apply(t);
        self.generalise_walk(&t2);
        proof {
            assert forall|x: crate::tipo::Ty| #[trigger]
                app(final(self).subst@, app(old(self).subst@, x)) == app(
                final(self).subst@,
                x,
            ) by {
                crate::subst::lemma_app_idem(old(self).subst@, x);
            }
        }
    }

    /// The recursive walk of `generalise_type`.
    fn generalise_walk(&mut self, t: &Type)
        requires
            env_wf(*old(self)),
        ensures
            env_wf(*final(self)),
            forall|x: crate::tipo::Ty| #[trigger] app(final(self).subst@, x) == app(
                old(self).subst@,
                x,
            ),
            final(self).module_values == old(self).module_values,
            final(self).subst@.len() == old(self).subst@.len(),
            forall|v: nat|
                v < old(self).subst@.len() && #[trigger] crate::tipo::occ(v, t@) && old(
                    self,
                ).subst@[v as int] is Unbound ==> final(self).subst@[v as int] is Generic,
            forall|v: int|
                0 <= v < old(self).subst@.len() && (#[trigger] old(self).subst@[v]) is Generic
                    ==> final(self).subst@[v] is Generic,
            forall|v: int|
                0 <= v < old(self).subst@.len() && (#[trigger] old(self).subst@[v]) is Unbound
                    ==> (final(self).subst@[v] is Unbound || final(self).subst@[v] is Generic),
        decreases *t, 0int,
    {
        match t {
            Type::App { args, .. } => {
                self.generalise_walk_vec(args);
                proof {
                    assert forall|v: nat|
                        v < old(self).subst@.len() && crate::tipo::occ(v, t@) && old(
                            self,
                        ).subst@[v as int] is Unbound implies self.subst@[v as int] is Generic by {
                        assert(crate::tipo::occ_seq(v, crate::tipo::tys_of(args@)));
                    }
                }
            },
            Type::Fn { args, ret } => {
                self.generalise_walk_vec(args);
                let ghost mid = self.subst@;
                self.generalise_walk(ret);
                proof {
                    assert forall|v: nat|
                        v < old(self).subst@.len() && crate::tipo::occ(v, t@) && old(
                            self,
                        ).subst@[v as int] is Unbound implies self.subst@[v as int] is Generic by {
                        if crate::tipo::occ_seq(v, crate::tipo::tys_of(args@)) {
                            assert(mid[v as int] is Generic);
                        } else {
                            assert(crate::tipo::occ(v, (**ret)@));
                            if mid[v as int] is Generic {
                            } else {
                                assert(mid[v as int] is Unbound);
                            }
                        }
                    }
                }
            },
            Type::Tuple { elems } => {
                self.generalise_walk_vec(elems);
                proof {
                    assert forall|v: nat|
                        v < old(self).subst@.len() && crate::tipo::occ(v, t@) && old(
                            self,
                        ).subst@[v as int] is Unbound implies self.subst@[v as int] is Generic by {
                        assert(crate::tipo::occ_seq(v, crate::tipo::tys_of(elems@)));
                    }
                }
            },
            Type::Pair { fst, snd } => {
                self.generalise_walk(fst);
                let ghost mid = self.subst@;
                self.generalise_walk(snd);
                proof {
                    assert forall|v: nat|
                        v < old(self).subst@.len() && crate::tipo::occ(v, t@) && old(
                            self,
                        ).subst@[v as int] is Unbound implies self.subst@[v as int] is Generic by {
                        if crate::tipo::occ(v, (**fst)@) {
                            assert(mid[v as int] is Generic);
                        } else {
                            assert(crate::tipo::occ(v, (**snd)@));
                            if mid[v as int] is Generic {
                            } else {
                                assert(mid[v as int] is Unbound);
                            }
                        }
                    }
                }
            },
            Type::Var { id } => {
                if self.subst.entry_is_unbound(*id) {
                    self.subst.make_generic(*id);
                }
            },
        }
    }

    /// Elementwise `generalise_walk`.
    fn generalise_walk_vec(&mut self, ts: &Vec<Type>)
        requires
            env_wf(*old(self)),
        ensures
            env_wf(*final(self)),
            forall|x: crate::tipo::Ty| #[trigger] app(final(self).subst@, x) == app(
                old(self).subst@,
                x,
            ),
            final(self).module_values == old(self).module_values,
            final(self).subst@.len() == old(self).subst@.len(),
            forall|v: nat|
                v < old(self).subst@.len() && #[trigger] crate::tipo::occ_seq(
                    v,
                    crate::tipo::tys_of(ts@),
                ) && old(self).subst@[v as int] is Unbound ==> final(self).subst@[v as int]
                    is Generic,
            forall|v: int|
                0 <= v < old(self).subst@.len() && (#[trigger] old(self).subst@[v]) is Generic
                    ==> final(self).subst@[v] is Generic,
            forall|v: int|
                0 <= v < old(self).subst@.len() && (#[trigger] old(self).subst@[v]) is Unbound
                    ==> (final(self).subst@[v] is Unbound || final(self).subst@[v] is Generic),
        decreases ts@, 1int,
    {
        let mut i: usize = 0;
        while i < ts.len()
            invariant
                env_wf(*self),
                forall|x: crate::tipo::Ty| #[trigger] app(self.subst@, x) == app(
                    old(self).subst@,
                    x,
                ),
                self.module_values == old(self).module_values,
                self.subst@.len() == old(self).subst@.len(),
                forall|v: nat, k: int|
                    v < old(self).subst@.len() && 0 <= k < i && #[trigger] crate::tipo::occ(
                        v,
                        ts@[k]@,
                    ) && old(self).subst@[v as int] is Unbound ==> self.subst@[v as int]
                        is Generic,
                forall|v: int|
                    0 <= v < old(self).subst@.len() && (#[trigger] old(self).subst@[v]) is Generic
                        ==> self.subst@[v] is Generic,
                forall|v: int|
                    0 <= v < old(self).subst@.len() && (#[trigger] old(self).subst@[v]) is Unbound
                        ==> (self.subst@[v] is Unbound || self.subst@[v] is Generic),
                0 <= i <= ts@.len(),
            decreases ts@.len() - i,
        {
            let ghost pre = self.subst@;
            self.generalise_walk(&ts[i]);
            proof {
                assert forall|v: nat, k: int|
                    v < old(self).subst@.len() && 0 <= k < i + 1 && crate::tipo::occ(v, ts@[k]@)
                        && old(self).subst@[v as int] is Unbound implies self.subst@[v as int]
                    is Generic by {
                    if k < i {
                        assert(pre[v as int] is Generic);
                    } else {
                        if pre[v as int] is Generic {
                        } else {
                            assert(pre[v as int] is Unbound);
                        }
                    }
                }
            }
            i = i + 1;
        }
        proof {
            crate::tipo::lemma_tys_of(ts@);
            crate::tipo::lemma_occ_seq_all(ts@);
            assert forall|v: nat|
                v < old(self).subst@.len() && crate::tipo::occ_seq(v, crate::tipo::tys_of(ts@))
                    && old(self).subst@[v as int] is Unbound implies self.subst@[v as int]
                is Generic by {
                let k = choose|k: int| 0 <= k < ts@.len() && crate::tipo::occ(v, ts@[k]@);
                assert(crate::tipo::occ(v, ts@[k]@));
            }
        }
    }

    /// Rewrite an imported type into this module's substitution table:
    /// every variable of the exporting module becomes a local generic
    /// variable, consistently across one import.
    pub fn import_type(&mut self, t: &Type, memo: &mut Vec<(usize, usize)>) -> (r: Type)
        requires
            env_wf(*old(self)),
        ensures
            env_wf(*final(self)),
            forall|x: crate::tipo::Ty| #[trigger] app(final(self).subst@, x) == app(
                old(self).subst@,
                x,
            ),
            same_module_state(*old(self), *final(self)),
            final(self).scope == old(self).scope,
            final(self).usages == old(self).usages,
            final(self).warnings == old(self).warnings,
        decreases *t, 0int,
    {
        match t {
            Type::App { public, opaque, module, name, args } => {
                let rargs = self.import_type_vec(args, memo);
                Type::App {
                    public: *public,
                    opaque: *opaque,
                    module: module.clone(),
                    name: name.clone(),
                    args: rargs,
                }
            },
            Type::Fn { args, ret } => {
                let rargs = self.import_type_vec(args, memo);
                let rret = self.import_type(ret, memo);
                Type::Fn { args: rargs, ret: Box::new(rret) }
            },
            Type::Tuple { elems } => {
                let relems = self.import_type_vec(elems, memo);
                Type::Tuple { elems: relems }
            },
            Type::Pair { fst, snd } => {
                let rfst = self.import_type(fst, memo);
                let rsnd = self.import_type(snd, memo);
                Type::Pair { fst: Box::new(rfst), snd: Box::new(rsnd) }
            },
            Type::Var { id } => {
                let mut j: usize = 0;
                let n = memo.len();
                while j < n
                    invariant
                        *self == *old(self),
                        env_wf(*self),
                        n == memo@.len(),
                        j <= n,
                    decreases n - j,
                {
                    if memo[j].0 == *id {
                        return Type::Var { id: memo[j].1 };
                    }
                    j = j + 1;
                }
                let ghost s0 = self.subst@;
                proof {
                    lemma_ents_of(self.subst.entries@);
                }
                let v = self.subst.entries.len();
                self.subst.entries.push(VarState::Generic);
                proof {
                    lemma_ents_of(self.subst.entries@);
                    assert(self.subst@ =~= s0.push(VEntry::Generic));
                    lemma_push_entry(s0, VEntry::Generic);
                }
                memo.push((*id, v));
                Type::Var { id: v }
            },
        }
    }

    /// Elementwise `import_type`.
    fn import_type_vec(&mut self, ts: &Vec<Type>, memo: &mut Vec<(usize, usize)>) -> (r: Vec<Type>)
        requires
            env_wf(*old(self)),
        ensures
            env_wf(*final(self)),
            forall|x: crate::tipo::Ty| #[trigger] app(final(self).subst@, x) == app(
                old(self).subst@,
                x,
            ),
            r@.len() == ts@.len(),
            same_module_state(*old(self), *final(self)),
            final(self).scope == old(self).scope,
            final(self).usages == old(self).usages,
            final(self).warnings == old(self).warnings,
        decreases ts@, 1int,
    {
        let mut r: Vec<Type> = Vec::new();
        let mut i: usize = 0;
        while i < ts.len()
            invariant
                env_wf(*self),
                forall|x: crate::tipo::Ty| #[trigger] app(self.subst@, x) == app(
                    old(self).subst@,
                    x,
                ),
                same_module_state(*old(self), *self),
                self.scope == old(self).scope,
                self.usages == old(self).usages,
                self.warnings == old(self).warnings,
                0 <= i <= ts@.len(),
                r@.len() == i,
            decreases ts@.len() - i,
        {
            let c = self.import_type(&ts[i], memo);
            r.push(c);
            i = i + 1;
        }
        r
    }
}

} // verus!

verus! {

impl Environment {
    /// A fresh environment for one module, with the prelude registered:
    /// the scalar types, `Option`, the unresolved-computation type, and
    /// the boolean constructors.
    pub fn new(module_name: String, kind: ModuleKind) -> (r: Environment)
        ensures
            env_wf(r),
            r.module_values@.len() == 0,
            r.usages@.len() == 0,
            r.warnings@.len() == 0,
            assoc_index_of(r.module_types@, "Int"@) is Some,
            assoc_index_of(r.module_types@, "Bool"@) is Some,
            assoc_index_of(r.module_types@, "Void"@) is Some,
            assoc_index_of(r.module_types@, "Data"@) is Some,
            assoc_index_of(r.module_types@, "PRNG"@) is Some,
            assoc_index_of(r.module_types@, "MLResult"@) is Some,
            assoc_index_of(r.module_types@, "Option"@) is Some,
            scope_index_of(r.scope@, "True"@) is Some,
            scope_index_of(r.scope@, "False"@) is Some,
    {
        let mut env = Environment {
            subst: Subst::new(),
            module_name,
            kind,
            module_types: Vec::new(),
            module_types_constructors: Vec::new(),
            module_values: Vec::new(),
            accessors: Vec::new(),
            scope: Vec::new(),
            usages: Vec::new(),
            warnings: Vec::new(),
            validator_params: Vec::new(),
        };
        env.register_prelude();
        env
    }

    /// Register the prelude entries.
    fn register_prelude(&mut self)
        requires
            env_wf(*old(self)),
        ensures
            env_wf(*final(self)),
            final(self).module_values == old(self).module_values,
            final(self).usages == old(self).usages,
            final(self).warnings == old(self).warnings,
            assoc_index_of(final(self).module_types@, "Int"@) is Some,
            assoc_index_of(final(self).module_types@, "Bool"@) is Some,
            assoc_index_of(final(self).module_types@, "Void"@) is Some,
            assoc_index_of(final(self).module_types@, "Data"@) is Some,
            assoc_index_of(final(self).module_types@, "PRNG"@) is Some,
            assoc_index_of(final(self).module_types@, "MLResult"@) is Some,
            assoc_index_of(final(self).module_types@, "Option"@) is Some,
            scope_index_of(final(self).scope@, "True"@) is Some,
            scope_index_of(final(self).scope@, "False"@) is Some,
    {
        let loc = Span::empty();
        let k_int = "Int".to_owned();
        self.module_types.push(
            (
                k_int,
                TypeConstructor {
                    location: loc,
                    module: String::new(),
                    public: true,
                    parameters: Vec::new(),
                    tipo: Type::integer(),
                },
            ),
        );
        let k_bool = "Bool".to_owned();
        self.module_types.push(
            (
                k_bool,
                TypeConstructor {
                    location: loc,
                    module: String::new(),
                    public: true,
                    parameters: Vec::new(),
                    tipo: Type::boolean(),
                },
            ),
        );
        let k_void = "Void".to_owned();
        self.module_types.push(
            (
                k_void,
                TypeConstructor {
                    location: loc,
                    module: String::new(),
                    public: true,
                    parameters: Vec::new(),
                    tipo: Type::void(),
                },
            ),
        );
        let k_data = "Data".to_owned();
        self.module_types.push(
            (
                k_data,
                TypeConstructor {
                    location: loc,
                    module: String::new(),
                    public: true,
                    parameters: Vec::new(),
                    tipo: Type::data(),
                },
            ),
        );
        let k_prng = "PRNG".to_owned();
        self.module_types.push(
            (
                k_prng,
                TypeConstructor {
                    location: loc,
                    module: String::new(),
                    public: true,
                    parameters: Vec::new(),
                    tipo: Type::prng(),
                },
            ),
        );
        let ml = Type::App {
            public: true,
            opaque: false,
            module: String::new(),
            name: "MLResult".to_owned(),
            args: Vec::new(),
        };
        let k_mlresult = "MLResult".to_owned();
        self.module_types.push(
            (
                k_mlresult,
                TypeConstructor {
                    location: loc,
                    module: String::new(),
                    public: true,
                    parameters: Vec::new(),
                    tipo: ml,
                },
            ),
        );
        let g = self.new_generic_var();
        let gp = clone_type(&g);
        let mut oargs: Vec<Type> = Vec::new();
        oargs.push(g);
        let otipo = Type::App {
            public: true,
            opaque: false,
            module: String::new(),
            name: "Option".to_owned(),
            args: oargs,
        };
        let mut oparams: Vec<Type> = Vec::new();
        oparams.push(gp);
        let k_option = "Option".to_owned();
        self.module_types.push(
            (
                k_option,
                TypeConstructor {
                    location: loc,
                    module: String::new(),
                    public: true,
                    parameters: oparams,
                    tipo: otipo,
                },
            ),
        );
        let k_true = "True".to_owned();
        self.insert_variable(
            k_true,
            ValueConstructorVariant::Record {
                location: loc,
                module: String::new(),
                name: "True".to_owned(),
                arity: 0,
            },
            Type::boolean(),
        );
        let k_false = "False".to_owned();
        self.insert_variable(
            k_false,
            ValueConstructorVariant::Record {
                location: loc,
                module: String::new(),
                name: "False".to_owned(),
                arity: 0,
            },
            Type::boolean(),
        );
        proof {
            let m = self.module_types@;
            let base = old(self).module_types@.len() as int;
            assert(m[base + 0].0@ == "Int"@);
            assert(m[base + 1].0@ == "Bool"@);
            assert(m[base + 2].0@ == "Void"@);
            assert(m[base + 3].0@ == "Data"@);
            assert(m[base + 4].0@ == "PRNG"@);
            assert(m[base + 5].0@ == "MLResult"@);
            assert(m[base + 6].0@ == "Option"@);
            lemma_assoc_contains(m, base + 0);
            lemma_assoc_contains(m, base + 1);
            lemma_assoc_contains(m, base + 2);
            lemma_assoc_contains(m, base + 3);
            lemma_assoc_contains(m, base + 4);
            lemma_assoc_contains(m, base + 5);
            lemma_assoc_contains(m, base + 6);
            let sc = self.scope@;
            assert(sc[sc.len() - 2].0@ == "True"@);
            assert(sc[sc.len() - 1].0@ == "False"@);
            lemma_scope_contains(sc, sc.len() - 2);
            lemma_scope_contains(sc, sc.len() - 1);
        }
    }

    /// Resolve a type name, qualified or not, against the module's type
    /// registry, and mark it used.
    pub fn get_type_constructor(
        &mut self,
        module: &Option<String>,
        name: &String,
        location: Span,
    ) -> (r: Result<TypeConstructor, Error>)
        requires
            env_wf(*old(self)),
        ensures
            env_wf(*final(self)),
            final(self).subst == old(self).subst,
            final(self).scope == old(self).scope,
            final(self).warnings == old(self).warnings,
            same_module_state(*old(self), *final(self)),
            module is None ==> (r is Ok <==> assoc_index_of(old(self).module_types@, name@)
                is Some),
            r matches Err(ek) ==> ek is UnknownType,
            (r matches Ok(tc) && module is None && (assoc_index_of(
                old(self).module_types@,
                name@,
            ) matches Some(ix) && tc.tipo@ == old(self).module_types@[ix].1.tipo@ && tc.public
                == old(self).module_types@[ix].1.public && tc.parameters@.len() == old(
                self,
            ).module_types@[ix].1.parameters@.len())) || r is Err || module is Some,
    {
        let key: String = match module {
            None => name.clone(),
            Some(q) => {
                let mut k = q.clone();
                k.append(".");
                k.append(name.as_str());
                k
            },
        };
        match assoc_find(&self.module_types, &key) {
            Some(i) => {
                let tc = clone_type_constructor(&self.module_types[i].1);
                self.increment_usage(&key);
                Ok(tc)
            },
            None => Err(Error::UnknownType { location, name: key }),
        }
    }

    /// Turn every tracked registration still unused at module close into
    /// a warning.
    pub fn convert_unused_to_warnings(&mut self)
        requires
            env_wf(*old(self)),
        ensures
            env_wf(*final(self)),
            final(self).subst == old(self).subst,
            same_module_state(*old(self), *final(self)),
            final(self).usages == old(self).usages,
            final(self).warnings@.len() == old(self).warnings@.len() + n_unused(old(self).usages@),
            final(self).warnings@ == old(self).warnings@ + unused_warnings(old(self).usages@),
    {
        let ghost w0 = self.warnings@.len();
        let ghost ws0 = self.warnings@;
        let mut i: usize = 0;
        while i < self.usages.len()
            invariant
                env_wf(*self),
                self.subst == old(self).subst,
                same_module_state(*old(self), *self),
                self.usages == old(self).usages,
                i <= self.usages@.len(),
                self.warnings@.len() == w0 + n_unused(self.usages@.subrange(0, i as int)),
                self.warnings@ == ws0 + unused_warnings(self.usages@.subrange(0, i as int)),
                w0 == old(self).warnings@.len(),
                ws0 == old(self).warnings@,
            decreases self.usages@.len() - i,
        {
            proof {
                assert(self.usages@.subrange(0, i + 1) =~= self.usages@.subrange(0, i as int).push(
                    self.usages@[i as int],
                ));
                lemma_n_unused_snoc(self.usages@.subrange(0, i as int), self.usages@[i as int]);
                lemma_unused_warnings_snoc(
                    self.usages@.subrange(0, i as int),
                    self.usages@[i as int],
                );
            }
            if !self.usages[i].used {
                let name = self.usages[i].name.clone();
                let location = self.usages[i].location;
                let kind = self.usages[i].kind;
                self.push_unused_warning(kind, name, location);
                proof {
                    assert(self.warnings@ =~= ws0 + unused_warnings(
                        self.usages@.subrange(0, i + 1),
                    ));
                }
            } else {
                proof {
                    assert(self.warnings@ =~= ws0 + unused_warnings(
                        self.usages@.subrange(0, i + 1),
                    ));
                }
            }
            i = i + 1;
        }
        proof {
            assert(self.usages@.subrange(0, self.usages@.len() as int) =~= self.usages@);
        }
    }

    /// Register one import: resolve the module, bring the unqualified
    /// names into scope, and make the module's public types reachable
    /// under their qualified names.
    pub fn register_import(
        &mut self,
        u: &crate::ast::UntypedUse,
        modules: &Vec<(String, TypeInfo)>,
    ) -> (r: Result<(), Error>)
        requires
            env_wf(*old(self)),
        ensures
            env_wf(*final(self)),
            r is Err ==> (assoc_index_of(modules@, u.module@) is None || r matches Err(
                Error::UnknownModuleField { .. },
            )),
            assoc_index_of(modules@, u.module@) is None ==> r is Err,
            assoc_index_of(modules@, u.module@) matches Some(mix) ==> (r is Ok <==> (forall|j: int|
                0 <= j < u.unqualified@.len() ==> import_name_ok(
                    modules@[mix].1,
                    (#[trigger] u.unqualified@[j]).name@,
                ))),
            final(self).module_values == old(self).module_values,
            final(self).warnings == old(self).warnings,
    {
        let found = assoc_find(modules, &u.module);
        let ix = match found {
            None => {
                return Err(
                    Error::UnknownModule { location: u.location, name: u.module.clone() },
                );
            },
            Some(ix) => ix,
        };
        self.init_usage(u.module.clone(), EntityKind::ImportedModule, u.location);
        let mut memo: Vec<(usize, usize)> = Vec::new();
        // The module's public types, reachable as `module.Name`.
        let mut i: usize = 0;
        while i < modules[ix].1.types.len()
            invariant
                env_wf(*self),
                ix < modules@.len(),
                assoc_index_of(modules@, u.module@) == Some(ix as int),
                self.module_values == old(self).module_values,
                self.warnings == old(self).warnings,
            decreases modules[ix as int].1.types@.len() - i,
        {
            if modules[ix].1.types[i].1.public {
                let tname = &modules[ix].1.types[i].0;
                let tc = &modules[ix].1.types[i].1;
                let mut k = u.module.clone();
                k.append(".");
                k.append(tname.as_str());
                let params = self.import_types_with(&tc.parameters, &mut memo);
                let tipo = self.import_type(&tc.tipo, &mut memo);
                let ntc = TypeConstructor {
                    location: tc.location,
                    module: tc.module.clone(),
                    public: tc.public,
                    parameters: params,
                    tipo,
                };
                self.module_types.push((k, ntc));
            }
            i = i + 1;
        }
        // The explicitly imported names, reachable bare.
        let mut j: usize = 0;
        while j < u.unqualified.len()
            invariant
                env_wf(*self),
                ix < modules@.len(),
                assoc_index_of(modules@, u.module@) == Some(ix as int),
                self.module_values == old(self).module_values,
                self.warnings == old(self).warnings,
                forall|k: int|
                    0 <= k < j ==> import_name_ok(
                        modules@[ix as int].1,
                        (#[trigger] u.unqualified@[k]).name@,
                    ),
            decreases u.unqualified@.len() - j,
        {
            let q = &u.unqualified[j];
            match assoc_find(&modules[ix].1.values, &q.name) {
                Some(vi) => {
                    let vc = &modules[ix].1.values[vi].1;
                    let tipo = self.import_type(&vc.tipo, &mut memo);
                    let variant = clone_variant(&vc.variant);
                    self.insert_variable(q.name.clone(), variant, tipo);
                    self.init_usage(q.name.clone(), EntityKind::ImportedValueOrType, q.location);
                },
                None => {
                    match assoc_find(&modules[ix].1.types, &q.name) {
                        Some(ti) => {
                            let tc = &modules[ix].1.types[ti].1;
                            let params = self.import_types_with(&tc.parameters, &mut memo);
                            let tipo = self.import_type(&tc.tipo, &mut memo);
                            let ntc = TypeConstructor {
                                location: tc.location,
                                module: tc.module.clone(),
                                public: tc.public,
                                parameters: params,
                                tipo,
                            };
                            self.module_types.push((q.name.clone(), ntc));
                            self.init_usage(
                                q.name.clone(),
                                EntityKind::ImportedValueOrType,
                                q.location,
                            );
                        },
                        None => {
                            return Err(
                                Error::UnknownModuleField {
                                    location: q.location,
                                    name: q.name.clone(),
                                    module_name: u.module.clone(),
                                },
                            );
                        },
                    }
                },
            }
            j = j + 1;
        }
        Ok(())
    }

    /// Elementwise `import_type`, sharing one memo.
    fn import_types_with(&mut self, ts: &Vec<Type>, memo: &mut Vec<(usize, usize)>) -> (r: Vec<
        Type,
    >)
        requires
            env_wf(*old(self)),
        ensures
            env_wf(*final(self)),
            r@.len() == ts@.len(),
            same_module_state(*old(self), *final(self)),
            final(self).scope == old(self).scope,
            final(self).usages == old(self).usages,
            final(self).warnings == old(self).warnings,
    {
        let mut r: Vec<Type> = Vec::new();
        let mut i: usize = 0;
        while i < ts.len()
            invariant
                env_wf(*self),
                same_module_state(*old(self), *self),
                self.scope == old(self).scope,
                self.usages == old(self).usages,
                self.warnings == old(self).warnings,
                0 <= i <= ts@.len(),
                r@.len() == i,
            decreases ts@.len() - i,
        {
            let c = self.import_type(&ts[i], memo);
            r.push(c);
            i = i + 1;
        }
        r
    }
}

} // verus!

verus! {

/// The scope-level name a validator handler is registered under:
/// `validator.handler`.
pub fn handler_name(validator: &String, handler: &String) -> (r: String)
    ensures
        r@ == validator@ + "."@ + handler@,
{
    let mut k = validator.clone();
    k.append(".");
    k.append(handler.as_str());
    k
}

impl Environment {
    /// Register the type-level part of one definition, so that any
    /// definition may refer to it regardless of source order: data types
    /// and type aliases enter the type registry here.
    pub fn register_types(
        &mut self,
        def: &crate::ast::UntypedDefinition,
        hydrators: &mut Vec<(String, crate::hydrator::Hydrator)>,
    ) -> (r: Result<(), Error>)
        requires
            env_wf(*old(self)),
        ensures
            env_wf(*final(self)),
            def matches crate::ast::UntypedDefinition::DataType(d) && assoc_index_of(
                old(self).module_types@,
                d.name@,
            ) is Some ==> r is Err,
            def is DataType && r is Ok ==> assoc_index_of(
                final(self).module_types@,
                def->DataType_0.name@,
            ) is Some,
            def matches crate::ast::UntypedDefinition::TypeAlias(a) && assoc_index_of(
                old(self).module_types@,
                a.alias@,
            ) is Some ==> r is Err,
            def is TypeAlias && r is Ok ==> assoc_index_of(
                final(self).module_types@,
                def->TypeAlias_0.alias@,
            ) is Some,
            !(def is DataType) && !(def is TypeAlias) ==> (r is Ok && *final(self) == *old(self)),
    {
        match def {
            crate::ast::UntypedDefinition::DataType(d) => {
                if let Some(_) = assoc_find(&self.module_types, &d.name) {
                    return Err(Error::DuplicateName { location: d.location, name: d.name.clone() });
                }
                let mut hydrator = crate::hydrator::Hydrator::new();
                let mut parameters: Vec<Type> = Vec::new();
                let mut i: usize = 0;
                while i < d.parameters.len()
                    invariant
                        env_wf(*self),
                        same_module_state(*old(self), *self),
                    decreases d.parameters@.len() - i,
                {
                    let t = hydrator.type_variable(&d.parameters[i], self);
                    parameters.push(t);
                    i = i + 1;
                }
                let tipo = Type::App {
                    public: d.public,
                    opaque: d.opaque,
                    module: self.module_name.clone(),
                    name: d.name.clone(),
                    args: crate::tipo::clone_types(&parameters),
                };
                // The parameters are universally quantified in every use
                // of the type.
                let mut j: usize = 0;
                while j < parameters.len()
                    invariant
                        env_wf(*self),
                        same_module_state(*old(self), *self),
                    decreases parameters@.len() - j,
                {
                    if let Type::Var { id } = &parameters[j] {
                        if self.subst.entry_is_unbound(*id) {
                            self.subst.make_generic(*id);
                        }
                    }
                    j = j + 1;
                }
                let key = d.name.clone();
                self.module_types.push(
                    (
                        key,
                        TypeConstructor {
                            location: d.location,
                            module: self.module_name.clone(),
                            public: d.public,
                            parameters,
                            tipo,
                        },
                    ),
                );
                proof {
                    lemma_assoc_contains(self.module_types@, self.module_types@.len() - 1);
                }
                let ghost mt_after = self.module_types@;
                let mut cnames: Vec<String> = Vec::new();
                let mut k: usize = 0;
                while k < d.constructors.len()
                    invariant
                        env_wf(*self),
                        self.module_types@ == mt_after,
                        assoc_index_of(self.module_types@, d.name@) is Some,
                    decreases d.constructors@.len() - k,
                {
                    cnames.push(d.constructors[k].name.clone());
                    k = k + 1;
                }
                self.module_types_constructors.push((d.name.clone(), cnames));
                if !d.public {
                    self.init_usage(
                        d.name.clone(),
                        EntityKind::PrivateTypeConstructor,
                        d.location,
                    );
                }
                hydrators.push((d.name.clone(), hydrator));
                Ok(())
            },
            crate::ast::UntypedDefinition::TypeAlias(a) => {
                if let Some(_) = assoc_find(&self.module_types, &a.alias) {
                    return Err(
                        Error::DuplicateName { location: a.location, name: a.alias.clone() },
                    );
                }
                let mut hydrator = crate::hydrator::Hydrator::new();
                let mut parameters: Vec<Type> = Vec::new();
                let mut i: usize = 0;
                while i < a.parameters.len()
                    invariant
                        env_wf(*self),
                        same_module_state(*old(self), *self),
                    decreases a.parameters@.len() - i,
                {
                    let t = hydrator.type_variable(&a.parameters[i], self);
                    parameters.push(t);
                    i = i + 1;
                }
                let tipo = match hydrator.type_from_annotation(&a.annotation, self) {
                    Ok(t) => t,
                    Err(e) => {
                        return Err(e);
                    },
                };
                let mut j: usize = 0;
                while j < parameters.len()
                    invariant
                        env_wf(*self),
                        same_module_state(*old(self), *self),
                    decreases parameters@.len() - j,
                {
                    if let Type::Var { id } = &parameters[j] {
                        if self.subst.entry_is_unbound(*id) {
                            self.subst.make_generic(*id);
                        }
                    }
                    j = j + 1;
                }
                let key = a.alias.clone();
                self.module_types.push(
                    (
                        key,
                        TypeConstructor {
                            location: a.location,
                            module: self.module_name.clone(),
                            public: a.public,
                            parameters,
                            tipo,
                        },
                    ),
                );
                proof {
                    lemma_assoc_contains(self.module_types@, self.module_types@.len() - 1);
                }
                if !a.public {
                    self.init_usage(
                        a.alias.clone(),
                        EntityKind::PrivateTypeConstructor,
                        a.location,
                    );
                }
                Ok(())
            },
            _ => Ok(()),
        }
    }

    /// Hydrate one function-shaped signature: each argument's annotation
    /// or a fresh variable, and the return annotation or a fresh
    /// variable.
    fn hydrate_signature(
        &mut self,
        hydrator: &mut crate::hydrator::Hydrator,
        arguments: &Vec<crate::ast::UntypedArg>,
        return_annotation: &Option<crate::ast::Annotation>,
    ) -> (r: Result<Type, Error>)
        requires
            env_wf(*old(self)),
        ensures
            env_wf(*final(self)),
            same_module_state(*old(self), *final(self)),
            final(self).warnings == old(self).warnings,
    {
        let mut args: Vec<Type> = Vec::new();
        let mut i: usize = 0;
        while i < arguments.len()
            invariant
                env_wf(*self),
                same_module_state(*old(self), *self),
                self.warnings == old(self).warnings,
            decreases arguments@.len() - i,
        {
            let t = match &arguments[i].annotation {
                Some(ann) => {
                    match hydrator.type_from_annotation(ann, self) {
                        Ok(t) => t,
                        Err(e) => {
                            return Err(e);
                        },
                    }
                },
                None => self.new_unbound_var(),
            };
            args.push(t);
            i = i + 1;
        }
        let ret = match return_annotation {
            Some(ann) => {
                match hydrator.type_from_annotation(ann, self) {
                    Ok(t) => t,
                    Err(e) => {
                        return Err(e);
                    },
                }
            },
            None => self.new_unbound_var(),
        };
        Ok(Type::Fn { args, ret: Box::new(ret) })
    }

    /// Register one function-shaped value under the given name.
    fn register_function_value(
        &mut self,
        name: &String,
        public: bool,
        location: Span,
        arity: usize,
        tipo: Type,
        track_private: bool,
    ) -> (r: Result<(), Error>)
        requires
            env_wf(*old(self)),
        ensures
            env_wf(*final(self)),
            assoc_index_of(old(self).module_values@, name@) is Some ==> r is Err,
            r is Ok ==> assoc_index_of(final(self).module_values@, name@) is Some,
            r is Ok ==> scope_index_of(final(self).scope@, name@) is Some,
    {
        if let Some(_) = assoc_find(&self.module_values, name) {
            return Err(Error::DuplicateName { location, name: name.clone() });
        }
        let variant = ValueConstructorVariant::ModuleFn {
            location,
            module: self.module_name.clone(),
            name: name.clone(),
            arity,
        };
        self.insert_variable(name.clone(), clone_variant(&variant), clone_type(&tipo));
        let key = name.clone();
        self.module_values.push((key, ValueConstructor { public, variant, tipo }));
        proof {
            lemma_assoc_contains(self.module_values@, self.module_values@.len() - 1);
            lemma_scope_contains(self.scope@, self.scope@.len() - 1);
        }
        if track_private && !public {
            self.init_usage(name.clone(), EntityKind::PrivateFunction, location);
        }
        Ok(())
    }

    /// Register the value-level part of one definition: functions,
    /// validator handlers, tests, benchmarks and data-type constructors
    /// get their signatures here, bodies unvisited.
    pub fn register_values(
        &mut self,
        def: &crate::ast::UntypedDefinition,
        hydrators: &mut Vec<(String, crate::hydrator::Hydrator)>,
    ) -> (r: Result<(), Error>)
        requires
            env_wf(*old(self)),
        ensures
            env_wf(*final(self)),
            def matches crate::ast::UntypedDefinition::Fn(f) && assoc_index_of(
                old(self).module_values@,
                f.name@,
            ) is Some ==> r is Err,
            def is Fn && r is Ok ==> (assoc_index_of(
                final(self).module_values@,
                def->Fn_0.name@,
            ) is Some && scope_index_of(final(self).scope@, def->Fn_0.name@) is Some),
            def is Test && r is Ok ==> (assoc_index_of(
                final(self).module_values@,
                def->Test_0.name@,
            ) is Some && scope_index_of(final(self).scope@, def->Test_0.name@) is Some),
            def is Benchmark && r is Ok ==> (assoc_index_of(
                final(self).module_values@,
                def->Benchmark_0.name@,
            ) is Some && scope_index_of(final(self).scope@, def->Benchmark_0.name@) is Some),
            def is Use || def is ModuleConstant || def is TypeAlias ==> (r is Ok && *final(self)
                == *old(self)),
    {
        match def {
            crate::ast::UntypedDefinition::Fn(f) => {
                let mut hydrator = crate::hydrator::Hydrator::new();
                let tipo = match self.hydrate_signature(
                    &mut hydrator,
                    &f.arguments,
                    &f.return_annotation,
                ) {
                    Ok(t) => t,
                    Err(e) => {
                        return Err(e);
                    },
                };
                let r = self.register_function_value(
                    &f.name,
                    f.public,
                    f.location,
                    f.arguments.len(),
                    tipo,
                    true,
                );
                match r {
                    Ok(()) => {},
                    Err(e) => {
                        return Err(e);
                    },
                }
                hydrators.push((f.name.clone(), hydrator));
                Ok(())
            },
            crate::ast::UntypedDefinition::Validator(v) => {
                let mut i: usize = 0;
                while i < v.handlers.len()
                    invariant
                        env_wf(*self),
                        def is Validator,
                    decreases v.handlers@.len() - i,
                {
                    let h = &v.handlers[i];
                    let hname = handler_name(&v.name, &h.name);
                    let mut hydrator = crate::hydrator::Hydrator::new();
                    let mut all_args = crate::ast::clone_args(&v.params);
                    let mut own = crate::ast::clone_args(&h.arguments);
                    all_args.append(&mut own);
                    let tipo = match self.hydrate_signature(
                        &mut hydrator,
                        &all_args,
                        &h.return_annotation,
                    ) {
                        Ok(t) => t,
                        Err(e) => {
                            return Err(e);
                        },
                    };
                    let r = self.register_function_value(
                        &hname,
                        true,
                        h.location,
                        all_args.len(),
                        tipo,
                        false,
                    );
                    match r {
                        Ok(()) => {},
                        Err(e) => {
                            return Err(e);
                        },
                    }
                    hydrators.push((hname, hydrator));
                    i = i + 1;
                }
                let fb = &v.fallback;
                let fname = handler_name(&v.name, &fb.name);
                let mut hydrator = crate::hydrator::Hydrator::new();
                let mut all_args = crate::ast::clone_args(&v.params);
                let mut own = crate::ast::clone_args(&fb.arguments);
                all_args.append(&mut own);
                let tipo = match self.hydrate_signature(
                    &mut hydrator,
                    &all_args,
                    &fb.return_annotation,
                ) {
                    Ok(t) => t,
                    Err(e) => {
                        return Err(e);
                    },
                };
                let r = self.register_function_value(
                    &fname,
                    true,
                    fb.location,
                    all_args.len(),
                    tipo,
                    false,
                );
                match r {
                    Ok(()) => {},
                    Err(e) => {
                        return Err(e);
                    },
                }
                hydrators.push((fname, hydrator));
                Ok(())
            },
            crate::ast::UntypedDefinition::Test(t) | crate::ast::UntypedDefinition::Benchmark(t) => {
                let mut hydrator = crate::hydrator::Hydrator::new();
                let args = crate::ast::via_args(&t.arguments);
                let tipo = match self.hydrate_signature(
                    &mut hydrator,
                    &args,
                    &t.return_annotation,
                ) {
                    Ok(t2) => t2,
                    Err(e) => {
                        return Err(e);
                    },
                };
                let r = self.register_function_value(
                    &t.name,
                    false,
                    t.location,
                    args.len(),
                    tipo,
                    false,
                );
                match r {
                    Ok(()) => {},
                    Err(e) => {
                        return Err(e);
                    },
                }
                hydrators.push((t.name.clone(), hydrator));
                Ok(())
            },
            crate::ast::UntypedDefinition::DataType(d) => {
                let hix = match assoc_find(hydrators, &d.name) {
                    Some(ix) => ix,
                    None => {
                        return Err(
                            Error::UnknownType { location: d.location, name: d.name.clone() },
                        );
                    },
                };
                let tc = match assoc_find(&self.module_types, &d.name) {
                    Some(ti) => clone_type_constructor(&self.module_types[ti].1),
                    None => {
                        return Err(
                            Error::UnknownType { location: d.location, name: d.name.clone() },
                        );
                    },
                };
                let mut ci: usize = 0;
                while ci < d.constructors.len()
                    invariant
                        env_wf(*self),
                        def is DataType,
                        hix < hydrators@.len(),
                    decreases d.constructors@.len() - ci,
                {
                    let c = &d.constructors[ci];
                    if let Some(_) = assoc_find(&self.module_values, &c.name) {
                        return Err(
                            Error::DuplicateName { location: c.location, name: c.name.clone() },
                        );
                    }
                    let mut fields: Vec<Type> = Vec::new();
                    let mut fi: usize = 0;
                    while fi < c.arguments.len()
                        invariant
                            env_wf(*self),
                            def is DataType,
                            hix < hydrators@.len(),
                        decreases c.arguments@.len() - fi,
                    {
                        let hydrator = &mut hydrators[hix].1;
                        let ft = match hydrator.type_from_annotation(
                            &c.arguments[fi].annotation,
                            self,
                        ) {
                            Ok(t) => t,
                            Err(e) => {
                                return Err(e);
                            },
                        };
                        fields.push(ft);
                        fi = fi + 1;
                    }
                    let ctipo = if fields.len() == 0 {
                        clone_type(&tc.tipo)
                    } else {
                        Type::Fn { args: fields, ret: Box::new(clone_type(&tc.tipo)) }
                    };
                    let variant = ValueConstructorVariant::Record {
                        location: c.location,
                        module: self.module_name.clone(),
                        name: c.name.clone(),
                        arity: c.arguments.len(),
                    };
                    let cpublic = d.public && !d.opaque;
                    self.insert_variable(c.name.clone(), clone_variant(&variant), clone_type(&ctipo));
                    self.module_values.push(
                        (c.name.clone(), ValueConstructor { public: cpublic, variant, tipo: ctipo }),
                    );
                    ci = ci + 1;
                }
                if d.constructors.len() == 1 {
                    self.accessors.push(
                        (
                            d.name.clone(),
                            AccessorsMap {
                                location: d.location,
                                public: d.public && !d.opaque,
                                tipo: clone_type(&tc.tipo),
                            },
                        ),
                    );
                }
                Ok(())
            },
            _ => Ok(()),
        }
    }
}

} // verus!

verus! {

impl Environment {
    /// Mark a registered type opaque: a field of it somewhere holds an
    /// opaque type, so its own concrete shape may not cross the public
    /// boundary either.
    pub fn set_type_opaque(&mut self, name: &String)
        requires
            env_wf(*old(self)),
        ensures
            env_wf(*final(self)),
            final(self).subst == old(self).subst,
            final(self).scope == old(self).scope,
            final(self).usages == old(self).usages,
            final(self).warnings == old(self).warnings,
            final(self).module_values == old(self).module_values,
            final(self).module_types@.len() == old(self).module_types@.len(),
            assoc_index_of(old(self).module_types@, name@) is None ==> *final(self) == *old(self),
            assoc_index_of(old(self).module_types@, name@) is Some && old(
                self,
            ).module_types@[assoc_index_of(old(self).module_types@, name@)->0].1.tipo@ is App ==> (
            final(self).module_types@[assoc_index_of(old(self).module_types@, name@)->0].1.tipo@
                is App && final(self).module_types@[assoc_index_of(
                old(self).module_types@,
                name@,
            )->0].1.tipo@->App_opaque && (forall|k: int|
                0 <= k < old(self).module_types@.len() && k != assoc_index_of(
                    old(self).module_types@,
                    name@,
                )->0 ==> #[trigger] final(self).module_types@[k] == old(self).module_types@[k])),
    {
        let found = assoc_find(&self.module_types, name);
        let i = match found {
            Some(i) => i,
            None => {
                return ;
            },
        };
        let ghost before = self.module_types@;
        let entry = self.module_types.remove(i);
        let (key, tc) = entry;
        let ghost old_tipo = tc.tipo@;
        let tipo = match tc.tipo {
            Type::App { public, opaque: _, module, name: tname, args } => {
                let r = Type::App { public, opaque: true, module, name: tname, args };
                proof {
                    assert(r@ is App);
                    assert(r@->App_opaque);
                }
                r
            },
            other => other,
        };
        self.module_types.insert(
            i,
            (
                key,
                TypeConstructor {
                    location: tc.location,
                    module: tc.module,
                    public: tc.public,
                    parameters: tc.parameters,
                    tipo,
                },
            ),
        );
        proof {
            assert forall|k: int|
                0 <= k < before.len() && k != i as int implies #[trigger] self.module_types@[k]
                == before[k] by {
                if k < i as int {
                } else {
                    assert(self.module_types@[k] == before[k]);
                }
            }
        }
    }
}

} // verus!

verus! {

impl Environment {
    /// Drop unused-variable warnings that name a validator parameter:
    /// those are used by convention, not by reference.
    pub fn reconcile_validator_param_warnings(&mut self)
        requires
            env_wf(*old(self)),
        ensures
            env_wf(*final(self)),
            final(self).subst == old(self).subst,
            same_module_state(*old(self), *final(self)),
            final(self).validator_params@ == old(self).validator_params@,
            final(self).warnings@ == kept_warnings(
                old(self).warnings@,
                old(self).validator_params@,
            ),
    {
        let ghost worig = self.warnings@;
        let ghost ps = self.validator_params@;
        let mut kept: Vec<Warning> = Vec::new();
        while self.warnings.len() > 0
            invariant
                env_wf(*self),
                self.subst == old(self).subst,
                same_module_state(*old(self), *self),
                self.validator_params@ == ps,
                kept_warnings(worig, ps) == kept@ + kept_warnings(self.warnings@, ps),
            decreases self.warnings@.len(),
        {
            let ghost before = self.warnings@;
            let w = self.warnings.remove(0);
            proof {
                assert(self.warnings@ =~= before.subrange(1, before.len() as int));
            }
            let drop_it: bool = match &w {
                Warning::UnusedVariable { location, name } => {
                    let mut found = false;
                    let mut i: usize = 0;
                    while i < self.validator_params.len()
                        invariant
                            self.validator_params@ == ps,
                            i <= ps.len(),
                            found <==> exists|k: int|
                                0 <= k < i && (#[trigger] ps[k]).0@ == name@ && ps[k].1
                                    == *location,
                        decreases self.validator_params@.len() - i,
                    {
                        let p = &self.validator_params[i];
                        if p.0 == *name && p.1.start == location.start && p.1.end == location.end {
                            proof {
                                assert(ps[i as int].1 == *location);
                            }
                            found = true;
                        }
                        i = i + 1;
                    }
                    proof {
                        assert(found == vp_listed(ps, name@, *location));
                    }
                    found
                },
                _ => false,
            };
            if !drop_it {
                kept.push(w);
            }
            proof {
                assert(kept_warnings(worig, ps) =~= kept@ + kept_warnings(self.warnings@, ps));
            }
        }
        self.warnings = kept;
        proof {
            assert(kept_warnings(worig, ps) =~= kept@);
        }
    }
}

} // verus!
