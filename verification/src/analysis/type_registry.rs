use vstd::prelude::*;
use std::collections::HashMap;
use crate::ast::ast_type::{type_text, AstType, AstTypeModel};

verus! {

broadcast use vstd::std_specs::hash::group_hash_axioms;

/// A handle to a type recorded in a type registry.
#[derive(Debug, Copy, Clone, PartialEq, Eq, Hash, Structural)]
pub struct TypeEntry {
    pub key: u64,
}

/// The types recorded so far, by key, and the key the next one gets.
#[derive(Debug)]
pub struct TypeRegistry {
    registry: HashMap<u64, AstType>,
    i: u64,
}

/// The type recorded under `k`; a key with nothing recorded reads as the unknown type.
pub open spec fn entry_type(reg: Map<u64, AstTypeModel>, k: u64) -> AstTypeModel {
    if reg.contains_key(k) {
        reg[k]
    } else {
        AstTypeModel::UnknownType
    }
}

/// The entries through which the operations on types look into `t`: a symbol's
/// and a struct's generic arguments, the type under a reference, nullable or
/// array, a tuple's elements, and a function's parameters.
pub open spec fn refs(t: AstTypeModel) -> Seq<u64> {
    match t {
        AstTypeModel::SymbolType { generics, .. } => generics,
        AstTypeModel::ReferenceType { underlying } => seq![underlying],
        AstTypeModel::NullableType { underlying } => seq![underlying],
        AstTypeModel::ArrayType { underlying } => seq![underlying],
        AstTypeModel::TupleType(v) => v,
        AstTypeModel::FunctionType { params, .. } => params,
        AstTypeModel::StructType { generics, .. } => generics.map_values(|p: (Seq<char>, u64)| p.1),
        _ => Seq::empty(),
    }
}

/// Every entry of `t` is below `bound`.
pub open spec fn refs_below(t: AstTypeModel, bound: int) -> bool {
    forall|j: int| 0 <= j < refs(t).len() ==> (#[trigger] refs(t)[j]) < bound
}

/// One more than the largest entry of `t`, or 0.
pub open spec fn height(t: AstTypeModel) -> nat {
    max_plus_one(refs(t))
}

/// One more than the largest of `s`, or 0.
pub open spec fn max_plus_one(s: Seq<u64>) -> nat
    decreases s.len(),
{
    if s.len() == 0 {
        0
    } else {
        let m = max_plus_one(s.drop_last());
        if s.last() + 1 > m {
            (s.last() + 1) as nat
        } else {
            m
        }
    }
}

/// Every recorded type refers only to types recorded before it, and every key is below `next`.
pub open spec fn registry_wf(reg: Map<u64, AstTypeModel>, next: u64) -> bool {
    forall|k: u64| #[trigger] reg.contains_key(k) ==> k < next && refs_below(reg[k], k as int)
}

/// The rank that `rk` gives key `k`, or 0.
pub open spec fn rank_of(rk: Map<u64, nat>, k: u64) -> nat {
    if rk.contains_key(k) {
        rk[k]
    } else {
        0
    }
}

/// Every recorded type refers only to entries of lower rank under `rk`.
pub open spec fn ranked(reg: Map<u64, AstTypeModel>, rk: Map<u64, nat>) -> bool {
    forall|k: u64, j: int|
        reg.contains_key(k) && 0 <= j < refs(reg[k]).len() ==> rank_of(rk, #[trigger] refs(reg[k])[j]) < rank_of(
            rk,
            k,
        )
}

/// No recorded type refers, through any chain of entries, back to itself: some
/// ranking of the keys falls along every entry.
pub open spec fn types_acyclic(reg: Map<u64, AstTypeModel>) -> bool {
    exists|rk: Map<u64, nat>| ranked(reg, rk)
}

/// A ranking of the keys of an acyclic registry.
pub open spec fn rank_map(reg: Map<u64, AstTypeModel>) -> Map<u64, nat> {
    choose|rk: Map<u64, nat>| ranked(reg, rk)
}

/// One more than the largest rank, under `rk`, of the entries `s`, or 0.
pub open spec fn max_rank_plus_one(rk: Map<u64, nat>, s: Seq<u64>) -> nat
    decreases s.len(),
{
    if s.len() == 0 {
        0
    } else {
        let m = max_rank_plus_one(rk, s.drop_last());
        if rank_of(rk, s.last()) + 1 > m {
            (rank_of(rk, s.last()) + 1) as nat
        } else {
            m
        }
    }
}

/// How deep `t` reaches into the registry: one more than the largest rank of its
/// entries, or 0.
pub open spec fn level(reg: Map<u64, AstTypeModel>, t: AstTypeModel) -> nat {
    max_rank_plus_one(rank_map(reg), refs(t))
}

/// Every entry of `s` ranks below `max_rank_plus_one(rk, s)`.
pub proof fn lemma_max_rank(rk: Map<u64, nat>, s: Seq<u64>)
    ensures
        forall|j: int| 0 <= j < s.len() ==> rank_of(rk, #[trigger] s[j]) < max_rank_plus_one(rk, s),
    decreases s.len(),
{
    if s.len() > 0 {
        lemma_max_rank(rk, s.drop_last());
        assert forall|j: int| 0 <= j < s.len() implies rank_of(rk, #[trigger] s[j]) < max_rank_plus_one(rk, s) by {
            if j < s.len() - 1 {
                assert(s.drop_last()[j] == s[j]);
            }
        }
    }
}

/// `max_rank_plus_one(rk, s)` is at most any bound above the rank of every entry of `s`.
pub proof fn lemma_max_rank_bound(rk: Map<u64, nat>, s: Seq<u64>, b: int)
    requires
        b >= 0,
        forall|j: int| 0 <= j < s.len() ==> rank_of(rk, #[trigger] s[j]) < b,
    ensures
        max_rank_plus_one(rk, s) <= b,
    decreases s.len(),
{
    if s.len() > 0 {
        assert forall|j: int| 0 <= j < s.drop_last().len() implies rank_of(rk, #[trigger] s.drop_last()[j]) < b by {
            assert(s.drop_last()[j] == s[j]);
        }
        lemma_max_rank_bound(rk, s.drop_last(), b);
        assert(rank_of(rk, s[s.len() - 1]) < b);
    }
}

/// In an acyclic registry, the type under an entry of `t` reaches less deep than `t`.
pub proof fn lemma_child_level(reg: Map<u64, AstTypeModel>, t: AstTypeModel, j: int)
    requires
        types_acyclic(reg),
        0 <= j < refs(t).len(),
    ensures
        level(reg, entry_type(reg, refs(t)[j])) < level(reg, t),
{
    let rk = rank_map(reg);
    let c = refs(t)[j];
    lemma_max_rank(rk, refs(t));
    if reg.contains_key(c) {
        assert forall|i: int| 0 <= i < refs(reg[c]).len() implies rank_of(rk, #[trigger] refs(reg[c])[i]) < rank_of(
            rk,
            c,
        ) by {
            assert(ranked(reg, rk));
        }
        lemma_max_rank_bound(rk, refs(reg[c]), rank_of(rk, c) as int);
    }
}

/// A registry whose types refer only to types recorded before them is acyclic.
pub proof fn lemma_ordered_acyclic(reg: Map<u64, AstTypeModel>, next: u64)
    requires
        registry_wf(reg, next),
    ensures
        types_acyclic(reg),
{
    let rk = Map::new(|k: u64| true, |k: u64| k as nat);
    assert forall|k: u64, j: int| reg.contains_key(k) && 0 <= j < refs(reg[k]).len() implies rank_of(
        rk,
        #[trigger] refs(reg[k])[j],
    ) < rank_of(rk, k) by {
        assert(refs_below(reg[k], k as int));
    }
    assert(ranked(reg, rk));
}

/// Every entry of `s` is below `max_plus_one(s)`.
pub proof fn lemma_max_plus_one(s: Seq<u64>)
    ensures
        forall|j: int| 0 <= j < s.len() ==> (#[trigger] s[j]) < max_plus_one(s),
    decreases s.len(),
{
    if s.len() > 0 {
        lemma_max_plus_one(s.drop_last());
        assert forall|j: int| 0 <= j < s.len() implies (#[trigger] s[j]) < max_plus_one(s) by {
            if j < s.len() - 1 {
                assert(s[j] == s.drop_last()[j]);
            }
        }
    }
}

/// `max_plus_one(s)` is at most any bound above every entry of `s`.
pub proof fn lemma_max_plus_one_bound(s: Seq<u64>, b: int)
    requires
        b >= 0,
        forall|j: int| 0 <= j < s.len() ==> (#[trigger] s[j]) < b,
    ensures
        max_plus_one(s) <= b,
    decreases s.len(),
{
    if s.len() > 0 {
        assert forall|j: int| 0 <= j < s.drop_last().len() implies (#[trigger] s.drop_last()[j]) < b by {
            assert(s.drop_last()[j] == s[j]);
        }
        lemma_max_plus_one_bound(s.drop_last(), b);
        assert(s[s.len() - 1] < b);
    }
}

/// In a well-formed registry, the type under an entry of `t` is lower than `t`.
pub proof fn lemma_child_lower(reg: Map<u64, AstTypeModel>, next: u64, t: AstTypeModel, j: int)
    requires
        registry_wf(reg, next),
        0 <= j < refs(t).len(),
    ensures
        height(entry_type(reg, refs(t)[j])) < height(t),
{
    let c = refs(t)[j];
    lemma_max_plus_one(refs(t));
    if reg.contains_key(c) {
        lemma_max_plus_one_bound(refs(reg[c]), c as int);
    }
}

/// What a registry gives back after recording `t` under `next`: `t` under `next`,
/// and every other key's type as before.
pub proof fn lemma_get_after_register(reg: Map<u64, AstTypeModel>, next: u64, t: AstTypeModel, k: u64)
    ensures
        entry_type(reg.insert(next, t), next) == t,
        k != next ==> entry_type(reg.insert(next, t), k) == entry_type(reg, k),
{
}

impl TypeRegistry {
    /// The recorded types, by key.
    pub closed spec fn types(&self) -> Map<u64, AstTypeModel> {
        self.registry@.map_values(|t: AstType| t@)
    }

    /// The key that the next recorded type gets.
    pub closed spec fn next_key(&self) -> u64 {
        self.i
    }

    /// Every recorded type refers only to types recorded before it (so no chain
    /// of entries leads back to where it started). Registering types keeps this;
    /// the operations that only read types ask for `acyclic` alone.
    pub open spec fn wf(&self) -> bool {
        registry_wf(self.types(), self.next_key()) && types_acyclic(self.types())
    }

    /// No recorded type refers, through any chain of entries, back to itself.
    pub open spec fn acyclic(&self) -> bool {
        types_acyclic(self.types())
    }

    pub fn new() -> (r: Self)
        ensures
            r.wf(),
            r.types() == Map::<u64, AstTypeModel>::empty(),
            r.next_key() == 0,
    {
        let r = TypeRegistry { registry: HashMap::new(), i: 0 };
        assert(r.types() =~= Map::<u64, AstTypeModel>::empty());
        proof {
            lemma_ordered_acyclic(r.types(), 0);
        }
        r
    }

    /// Records `typ` under the next key and gives its entry.
    pub fn register(&mut self, typ: AstType) -> (e: TypeEntry)
        requires
            old(self).next_key() < u64::MAX,
        ensures
            e.key == old(self).next_key(),
            final(self).next_key() == old(self).next_key() + 1,
            final(self).types() == old(self).types().insert(e.key, typ@),
            old(self).wf() && refs_below(typ@, old(self).next_key() as int) ==> final(self).wf(),
    {
        let ind = self.i;
        let ghost t = typ@;
        self.registry.insert(ind, typ);
        self.i += 1;
        assert(self.types() =~= old(self).types().insert(ind, t));
        proof {
            if old(self).wf() && refs_below(t, old(self).next_key() as int) {
                assert(registry_wf(self.types(), self.i));
                lemma_ordered_acyclic(self.types(), self.i);
            }
        }
        TypeEntry { key: ind }
    }

    /// A copy of the type recorded under `key`, or the unknown type.
    pub fn get(&self, key: u64) -> (t: AstType)
        ensures
            t@ == entry_type(self.types(), key),
    {
        match self.registry.get(&key) {
            Some(v) => v.duplicate(),
            None => AstType::UnknownType,
        }
    }

    /// Records `t` under `key`, replacing what was there.
    fn set(&mut self, key: u64, t: AstType)
        ensures
            final(self).next_key() == old(self).next_key(),
            final(self).types() == old(self).types().insert(key, t@),
            old(self).wf() && key < old(self).next_key() && refs_below(t@, key as int)
                ==> final(self).wf(),
    {
        let ghost tv = t@;
        self.registry.insert(key, t);
        assert(self.types() =~= old(self).types().insert(key, tv));
        proof {
            if old(self).wf() && key < old(self).next_key() && refs_below(tv, key as int) {
                assert(registry_wf(self.types(), self.i));
                lemma_ordered_acyclic(self.types(), self.i);
            }
        }
    }
}

impl TypeEntry {
    /// How the type this entry stands for is written in messages.
    pub fn format(&self, registry: &TypeRegistry) -> (r: String)
        requires
            registry.acyclic(),
        ensures
            r@ == type_text(entry_type(registry.types(), self.key), registry.types()),
    {
        self.get(registry).format(registry)
    }

    /// The type this entry stands for.
    pub fn get(&self, parent: &TypeRegistry) -> (t: AstType)
        ensures
            t@ == entry_type(parent.types(), self.key),
    {
        parent.get(self.key)
    }

    /// A new entry holding a copy of this entry's type.
    pub fn new_instance(&self, parent: &mut TypeRegistry) -> (e: TypeEntry)
        requires
            old(parent).wf(),
            old(parent).next_key() < u64::MAX,
        ensures
            final(parent).wf(),
            e.key == old(parent).next_key(),
            final(parent).next_key() == old(parent).next_key() + 1,
            final(parent).types() == old(parent).types().insert(
                e.key,
                entry_type(old(parent).types(), self.key),
            ),
    {
        let t = self.get(parent);
        proof {
            lemma_entry_refs_below(parent.types(), parent.next_key(), self.key);
        }
        parent.register(t)
    }

    /// A new entry holding a copy of this entry's type.
    pub fn duplicate(&self, parent: &mut TypeRegistry) -> (e: TypeEntry)
        requires
            old(parent).wf(),
            old(parent).next_key() < u64::MAX,
        ensures
            final(parent).wf(),
            e.key == old(parent).next_key(),
            final(parent).next_key() == old(parent).next_key() + 1,
            final(parent).types() == old(parent).types().insert(
                e.key,
                entry_type(old(parent).types(), self.key),
            ),
    {
        let resolved = self.get(parent);
        proof {
            lemma_entry_refs_below(parent.types(), parent.next_key(), self.key);
        }
        parent.register(resolved)
    }

    /// Replaces the type this entry stands for.
    pub fn mutate(&self, parent: &mut TypeRegistry, new_value: AstType)
        ensures
            final(parent).next_key() == old(parent).next_key(),
            final(parent).types() == old(parent).types().insert(self.key, new_value@),
            old(parent).wf() && self.key < old(parent).next_key() && refs_below(
                new_value@,
                self.key as int,
            ) ==> final(parent).wf(),
    {
        parent.set(self.key, new_value);
    }

    /// A new entry for the errored type.
    pub fn err(registry: &mut TypeRegistry) -> (e: TypeEntry)
        requires
            old(registry).wf(),
            old(registry).next_key() < u64::MAX,
        ensures
            final(registry).wf(),
            e.key == old(registry).next_key(),
            final(registry).next_key() == old(registry).next_key() + 1,
            final(registry).types() == old(registry).types().insert(e.key, AstTypeModel::ErroredType),
    {
        registry.register(AstType::ErroredType)
    }

    /// Whether this entry stands for the errored type.
    pub fn is_err(&self, registry: &TypeRegistry) -> (b: bool)
        ensures
            b == (entry_type(registry.types(), self.key) is ErroredType),
    {
        matches!(self.get(registry), AstType::ErroredType)
    }
}

/// In a well-formed registry every recorded type refers to keys below the next key.
pub proof fn lemma_entry_refs_below(reg: Map<u64, AstTypeModel>, next: u64, k: u64)
    requires
        registry_wf(reg, next),
    ensures
        refs_below(entry_type(reg, k), next as int),
{
    if reg.contains_key(k) {
        assert(k < next);
    }
}

} // verus!
