use vstd::prelude::*;
use crate::analysis::type_registry::{entry_type, TypeEntry, TypeRegistry};
use crate::ast::ast_type::{mangled_type_name, nameable, AstTypeModel};
use crate::ast::statement::Parameter;
use crate::text::push_str;

verus! {

/// The name of `name` as a member of `owner`: `owner$name`, or `name` when there is no owner.
pub open spec fn owned_name(name: Seq<char>, owner: Seq<char>) -> Seq<char> {
    if owner.len() == 0 {
        name
    } else {
        owner + "$"@ + name
    }
}

/// The name of `name` as a member of `owner`.
pub fn from_owner(name: String, owner: String) -> (r: String)
    ensures
        r@ == owned_name(name@, owner@),
{
    if owner.as_str().is_empty() {
        name
    } else {
        let mut r = owner;
        push_str(&mut r, "$");
        push_str(&mut r, name.as_str());
        r
    }
}

/// The position of the first entry of `ps` (from `i` on) that stands for the errored type, or its length.
pub open spec fn first_errored(reg: Map<u64, AstTypeModel>, ps: Seq<u64>, i: int) -> int
    decreases ps.len() - i,
{
    if i >= ps.len() {
        ps.len() as int
    } else if entry_type(reg, ps[i]) is ErroredType {
        i
    } else {
        first_errored(reg, ps, i + 1)
    }
}

/// The names of the types under the entries `ps`, one after another.
pub open spec fn names_of(reg: Map<u64, AstTypeModel>, ps: Seq<u64>) -> Seq<char>
    decreases ps.len(),
{
    if ps.len() == 0 {
        Seq::empty()
    } else {
        names_of(reg, ps.drop_last()) + mangled_type_name(entry_type(reg, ps.last()), reg)
    }
}

/// The mangled name of a function with the name `base` (owner and `_` included),
/// parameter types `ps` and return type `ret`. An errored parameter type ends the
/// name with `_<err>` after the names of the parameters before it.
pub open spec fn mangled(reg: Map<u64, AstTypeModel>, base: Seq<char>, ps: Seq<u64>, ret: Option<u64>) -> Seq<char> {
    let e = first_errored(reg, ps, 0);
    if e < ps.len() {
        base + names_of(reg, ps.take(e)) + "_<err>"@
    } else {
        base + names_of(reg, ps) + match ret {
            Some(r) => mangled_type_name(entry_type(reg, r), reg),
            None => Seq::empty(),
        }
    }
}

/// Every type that the mangled name names has a name.
pub open spec fn mangleable(reg: Map<u64, AstTypeModel>, ps: Seq<u64>, ret: Option<u64>) -> bool {
    let e = first_errored(reg, ps, 0);
    &&& forall|i: int| 0 <= i < e ==> nameable(entry_type(reg, #[trigger] ps[i]), reg)
    &&& (e == ps.len() && ret is Some) ==> nameable(entry_type(reg, ret->0), reg)
}

/// The keys of a list of entries.
pub open spec fn entry_keys(v: Seq<TypeEntry>) -> Seq<u64> {
    v.map_values(|e: TypeEntry| e.key)
}

/// The keys of the parameters' types.
pub open spec fn param_keys(v: Seq<Parameter>) -> Seq<u64> {
    v.map_values(|p: Parameter| p.param_type.key)
}

proof fn lemma_first_errored(reg: Map<u64, AstTypeModel>, ps: Seq<u64>, i: int)
    requires
        0 <= i <= ps.len(),
        forall|k: int| 0 <= k < i ==> !(entry_type(reg, #[trigger] ps[k]) is ErroredType),
    ensures
        i <= first_errored(reg, ps, i) <= ps.len(),
        first_errored(reg, ps, i) == first_errored(reg, ps, 0),
    decreases i,
{
    if i > 0 {
        lemma_first_errored(reg, ps, i - 1);
    }
    lemma_first_errored_fwd(reg, ps, i);
}

proof fn lemma_first_errored_fwd(reg: Map<u64, AstTypeModel>, ps: Seq<u64>, i: int)
    requires
        0 <= i <= ps.len(),
    ensures
        i <= first_errored(reg, ps, i) <= ps.len(),
    decreases ps.len() - i,
{
    if i < ps.len() && !(entry_type(reg, ps[i]) is ErroredType) {
        lemma_first_errored_fwd(reg, ps, i + 1);
    }
}

/// The mangled name of a function, from the types of its parameters.
pub fn mangle_name_type(registry: &TypeRegistry, name: String, owner: String, params: &Vec<TypeEntry>, return_type: Option<TypeEntry>) -> (r: String)
    requires
        registry.acyclic(),
        mangleable(registry.types(), entry_keys(params@), match return_type {
            Some(e) => Some(e.key),
            None => None,
        }),
    ensures
        r@ == mangled(registry.types(), owned_name(name@, owner@) + "_"@, entry_keys(params@), match return_type {
            Some(e) => Some(e.key),
            None => None,
        }),
{
    let mut base = from_owner(name, owner);
    push_str(&mut base, "_");
    append_type_names(registry, base, params, return_type)
}

/// `name` followed by the names of the parameter types and of the return type, as `mangled` says.
fn append_type_names(registry: &TypeRegistry, name: String, params: &Vec<TypeEntry>, return_type: Option<TypeEntry>) -> (r: String)
    requires
        registry.acyclic(),
        mangleable(registry.types(), entry_keys(params@), match return_type {
            Some(e) => Some(e.key),
            None => None,
        }),
    ensures
        r@ == mangled(registry.types(), name@, entry_keys(params@), match return_type {
            Some(e) => Some(e.key),
            None => None,
        }),
{
    let ghost ps = entry_keys(params@);
    let ghost reg = registry.types();
    let ghost base = name@;
    let mut out = name;
    let mut i: usize = 0;
    while i < params.len()
        invariant
            registry.acyclic(),
            reg == registry.types(),
            ps == entry_keys(params@),
            i <= params@.len(),
            forall|k: int| 0 <= k < i ==> !(entry_type(reg, #[trigger] ps[k]) is ErroredType),
            mangleable(reg, ps, match return_type {
                Some(e) => Some(e.key),
                None => None,
            }),
            out@ == base + names_of(reg, ps.take(i as int)),
            base == name@,
        decreases params@.len() - i,
    {
        proof {
            lemma_first_errored(reg, ps, i as int);
        }
        if params[i].is_err(registry) {
            push_str(&mut out, "_<err>");
            proof {
                assert(ps[i as int] == params@[i as int].key);
                assert(first_errored(reg, ps, i as int) == i);
            }
            return out;
        }
        proof {
            lemma_first_errored(reg, ps, (i + 1) as int);
        }
        let n = params[i].get(registry).get_type_name(registry);
        push_str(&mut out, n.as_str());
        assert(ps.take(i + 1).drop_last() == ps.take(i as int));
        i += 1;
    }
    proof {
        lemma_first_errored(reg, ps, i as int);
        assert(ps.take(i as int) == ps);
    }
    if let Some(ret) = return_type {
        let n = ret.get(registry).get_type_name(registry);
        push_str(&mut out, n.as_str());
    }
    out
}

/// The mangled name of a function, from its parameters.
pub fn mangle_name(registry: &TypeRegistry, name: String, owner: String, params: &Vec<Parameter>, return_type: Option<TypeEntry>) -> (r: String)
    requires
        registry.acyclic(),
        mangleable(registry.types(), param_keys(params@), match return_type {
            Some(e) => Some(e.key),
            None => None,
        }),
    ensures
        r@ == mangled(registry.types(), owned_name(name@, owner@) + "_"@, param_keys(params@), match return_type {
            Some(e) => Some(e.key),
            None => None,
        }),
{
    let mut types: Vec<TypeEntry> = Vec::new();
    let mut i: usize = 0;
    while i < params.len()
        invariant
            i <= params@.len(),
            entry_keys(types@) == param_keys(params@).take(i as int),
        decreases params@.len() - i,
    {
        let ghost t0 = types@;
        types.push(params[i].param_type);
        assert(entry_keys(types@) == entry_keys(t0).push(params@[i as int].param_type.key));
        assert(param_keys(params@).take(i + 1) == param_keys(params@).take(i as int).push(params@[i as int].param_type.key));
        i += 1;
    }
    assert(param_keys(params@).take(params@.len() as int) == param_keys(params@));
    mangle_name_type(registry, name, owner, &types, return_type)
}

/// Whether `t` is one of the primitive types: void, bool, int, float, string.
pub open spec fn is_primitive(t: AstTypeModel) -> bool {
    t is Void || t is Bool || t is Int || t is Float || t is StringType
}

/// Each primitive type has a one-letter name in mangled names, and different
/// primitive types have different names.
pub proof fn lemma_primitive_names_distinct(t1: AstTypeModel, t2: AstTypeModel, reg: Map<u64, AstTypeModel>)
    requires
        is_primitive(t1),
        is_primitive(t2),
    ensures
        nameable(t1, reg),
        mangled_type_name(t1, reg).len() == 1,
        t1 != t2 ==> mangled_type_name(t1, reg) != mangled_type_name(t2, reg),
{
    reveal_strlit("V");
    reveal_strlit("b");
    reveal_strlit("i");
    reveal_strlit("f");
    reveal_strlit("s");
    if t1 != t2 {
        assert(mangled_type_name(t1, reg)[0] != mangled_type_name(t2, reg)[0]);
    }
}

/// The names of primitive parameter types: one letter per parameter, in order.
proof fn lemma_primitive_names_of(reg: Map<u64, AstTypeModel>, ps: Seq<u64>)
    requires
        forall|i: int| 0 <= i < ps.len() ==> is_primitive(entry_type(reg, #[trigger] ps[i])),
    ensures
        names_of(reg, ps).len() == ps.len(),
        forall|i: int| 0 <= i < ps.len() ==> #[trigger] names_of(reg, ps)[i] == mangled_type_name(
            entry_type(reg, ps[i]),
            reg,
        )[0],
        first_errored(reg, ps, 0) == ps.len(),
    decreases ps.len(),
{
    if ps.len() > 0 {
        let init = ps.drop_last();
        assert forall|i: int| 0 <= i < init.len() implies is_primitive(entry_type(reg, #[trigger] init[i])) by {
            assert(init[i] == ps[i]);
        }
        lemma_primitive_names_of(reg, init);
        lemma_primitive_names_distinct(entry_type(reg, ps.last()), entry_type(reg, ps.last()), reg);
        assert forall|i: int| 0 <= i < ps.len() implies #[trigger] names_of(reg, ps)[i] == mangled_type_name(
            entry_type(reg, ps[i]),
            reg,
        )[0] by {
            if i < ps.len() - 1 {
                assert(init[i] == ps[i]);
            }
        }
        lemma_first_errored_none(reg, ps, 0);
    }
}

proof fn lemma_first_errored_none(reg: Map<u64, AstTypeModel>, ps: Seq<u64>, i: int)
    requires
        0 <= i <= ps.len(),
        forall|j: int| 0 <= j < ps.len() ==> is_primitive(entry_type(reg, #[trigger] ps[j])),
    ensures
        first_errored(reg, ps, i) == ps.len(),
    decreases ps.len() - i,
{
    if i < ps.len() {
        assert(is_primitive(entry_type(reg, ps[i])));
        lemma_first_errored_none(reg, ps, i + 1);
    }
}

/// Overloads of a function whose parameters are of primitive types get different
/// mangled names as soon as one parameter's type differs.
pub proof fn lemma_overloads_distinct(reg: Map<u64, AstTypeModel>, base: Seq<char>, ps1: Seq<u64>, ps2: Seq<u64>, k: int)
    requires
        ps1.len() == ps2.len(),
        forall|i: int| 0 <= i < ps1.len() ==> is_primitive(entry_type(reg, #[trigger] ps1[i])),
        forall|i: int| 0 <= i < ps2.len() ==> is_primitive(entry_type(reg, #[trigger] ps2[i])),
        0 <= k < ps1.len(),
        entry_type(reg, ps1[k]) != entry_type(reg, ps2[k]),
    ensures
        mangled(reg, base, ps1, None) != mangled(reg, base, ps2, None),
{
    lemma_primitive_names_of(reg, ps1);
    lemma_primitive_names_of(reg, ps2);
    lemma_primitive_names_distinct(entry_type(reg, ps1[k]), entry_type(reg, ps2[k]), reg);
    lemma_primitive_names_distinct(entry_type(reg, ps2[k]), entry_type(reg, ps1[k]), reg);
    let m1 = mangled(reg, base, ps1, None);
    let m2 = mangled(reg, base, ps2, None);
    assert(m1 == base + names_of(reg, ps1));
    assert(m2 == base + names_of(reg, ps2));
    assert(m1[base.len() + k] == names_of(reg, ps1)[k]);
    assert(m2[base.len() + k] == names_of(reg, ps2)[k]);
    let n1 = mangled_type_name(entry_type(reg, ps1[k]), reg);
    let n2 = mangled_type_name(entry_type(reg, ps2[k]), reg);
    assert(n1 =~= seq![n1[0]]);
    assert(n2 =~= seq![n2[0]]);
}

} // verus!
