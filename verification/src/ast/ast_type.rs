use vstd::prelude::*;
use ordermap::OrderMap;
use std::collections::HashMap;
use crate::analysis::type_registry::{
    entry_type, height, lemma_child_level, lemma_child_lower, lemma_entry_refs_below, level, refs, refs_below, TypeEntry,
    TypeRegistry,
};
use crate::text::{push_str, to_owned_string};
use crate::ast::modifier::Modifier;

verus! {

#[verifier::external_type_specification]
#[verifier::external_body]
#[verifier::reject_recursive_types(K)]
#[verifier::reject_recursive_types(V)]
#[verifier::reject_recursive_types(S)]
pub struct ExOrderMap<K, V, S>(ordermap::OrderMap<K, V, S>);

/// The pairs that an `OrderMap` of generic parameters holds, in their order: the
/// parameter's name and the key of its type.
pub uninterp spec fn generic_entries(m: OrderMap<String, TypeEntry>) -> Seq<(Seq<char>, u64)>;

/// `s` after inserting `(k, v)` the way `OrderMap::insert` does: a key already
/// present keeps its place and takes the new value; a new key goes last.
pub open spec fn entries_insert(s: Seq<(Seq<char>, u64)>, k: Seq<char>, v: u64) -> Seq<(Seq<char>, u64)> {
    if exists|i: int| 0 <= i < s.len() && (#[trigger] s[i]).0 == k {
        let i = choose|i: int| 0 <= i < s.len() && (#[trigger] s[i]).0 == k;
        s.update(i, (k, v))
    } else {
        s.push((k, v))
    }
}

/// ordermap's `OrderMap::new`: a map with no pairs.
#[verifier::external_body]
pub(crate) fn generics_new() -> (m: OrderMap<String, TypeEntry>)
    ensures
        generic_entries(m) == Seq::<(Seq<char>, u64)>::empty(),
{
    OrderMap::new()
}

/// ordermap's `OrderMap::iter`, each pair copied out, in the map's order.
#[verifier::external_body]
pub(crate) fn generics_pairs(m: &OrderMap<String, TypeEntry>) -> (v: Vec<(String, TypeEntry)>)
    ensures
        v@.map_values(|p: (String, TypeEntry)| (p.0@, p.1.key)) == generic_entries(*m),
{
    m.iter().map(|(k, v)| (k.clone(), *v)).collect()
}

/// ordermap's `OrderMap::insert`: a key already present keeps its place and takes
/// the new value; a new key goes last.
#[verifier::external_body]
pub(crate) fn generics_insert(m: &mut OrderMap<String, TypeEntry>, k: String, v: TypeEntry)
    ensures
        generic_entries(*final(m)) == entries_insert(generic_entries(*old(m)), k@, v.key),
{
    m.insert(k, v);
}

/// ordermap's `Clone for OrderMap`: the copy holds the same pairs in the same order.
#[verifier::external_body]
pub(crate) fn generics_clone(m: &OrderMap<String, TypeEntry>) -> (r: OrderMap<String, TypeEntry>)
    ensures
        generic_entries(r) == generic_entries(*m),
{
    m.clone()
}

/// A field or method of a struct: its type, name and position.
#[derive(Debug, PartialEq, Clone)]
pub struct MemberInfo {
    pub typ: TypeEntry,
    pub name: String,
    pub index: u16,
}

impl MemberInfo {
    pub fn new(typ: TypeEntry, name: String, index: u16) -> (m: MemberInfo)
        ensures
            m.typ == typ,
            m.name == name,
            m.index == index,
    {
        MemberInfo { typ, name, index }
    }

    /// A copy of this member.
    pub fn duplicate(&self) -> (m: MemberInfo)
        ensures
            m.typ == self.typ,
            m.name@ == self.name@,
            m.index == self.index,
    {
        MemberInfo { typ: self.typ, name: self.name.clone(), index: self.index }
    }
}

/// What std's `HashMap::get` finds under the key `name` among the methods and
/// fields of a struct, copied out.
pub uninterp spec fn child_named(children: Map<String, MemberInfo>, name: Seq<char>) -> Option<MemberInfo>;

/// std's `HashMap::get` on the methods and fields of a struct, the member found
/// copied out. Its result is named `child_named`: vstd gives `String` keys no
/// model, so which member a key finds is not stated beyond what `new_members`
/// and `insert_member` say.
#[verifier::external_body]
pub(crate) fn child_member(children: &HashMap<String, MemberInfo>, name: &String) -> (r: Option<MemberInfo>)
    ensures
        r == child_named(children@, name@),
{
    children.get(name).cloned()
}

/// std's `HashMap::new` for the members of a struct: `get` finds nothing in it.
#[verifier::external_body]
pub(crate) fn new_members() -> (m: HashMap<String, MemberInfo>)
    ensures
        forall|n: Seq<char>| #[trigger] child_named(m@, n) is None,
{
    HashMap::new()
}

/// Whether `found` is a copy of `member`: the same type, name and position.
pub open spec fn copy_of(found: Option<MemberInfo>, member: MemberInfo) -> bool {
    found matches Some(m) && m.typ == member.typ && m.name@ == member.name@ && m.index == member.index
}

/// std's `HashMap::insert` of a member under `name`: afterwards `get` finds a copy
/// of `member` under that name, and what it finds under any other name is as
/// before.
#[verifier::external_body]
pub(crate) fn insert_member(children: &mut HashMap<String, MemberInfo>, name: String, member: MemberInfo)
    ensures
        copy_of(child_named(final(children)@, name@), member),
        forall|n: Seq<char>| n != name@ ==> #[trigger] child_named(final(children)@, n) == child_named(old(children)@, n),
{
    children.insert(name, member);
}

/// The model of a `MemberInfo`.
pub struct MemberInfoModel {
    pub typ: u64,
    pub name: Seq<char>,
    pub index: u16,
}

/// The types of the language. Types refer to other types through registry entries.
#[derive(Debug, PartialEq)]
pub enum AstType {
    ErroredType,
    UnknownType,
    Void,
    Bool,
    Int,
    Float,
    StringType,
    SymbolType { name: String, generics: Vec<TypeEntry> },
    ReferenceType { underlying: TypeEntry },
    NullableType { underlying: TypeEntry },
    ArrayType { underlying: TypeEntry },
    TupleType(Vec<TypeEntry>),
    FunctionsType { name: String, overloads: Vec<TypeEntry> },
    FunctionType {
        name: String,
        modifier: Modifier,
        generics: OrderMap<String, TypeEntry>,
        params: Vec<TypeEntry>,
        return_type: TypeEntry,
    },
    StructType {
        name: String,
        generics: OrderMap<String, TypeEntry>,
        fields: Vec<MemberInfo>,
        children: HashMap<String, MemberInfo>,
    },
    EnumType { name: String, values: Vec<String> },
    GenericType { name: String },
}

/// The model of an `AstType`: names as character sequences, entries as keys.
pub enum AstTypeModel {
    ErroredType,
    UnknownType,
    Void,
    Bool,
    Int,
    Float,
    StringType,
    SymbolType { name: Seq<char>, generics: Seq<u64> },
    ReferenceType { underlying: u64 },
    NullableType { underlying: u64 },
    ArrayType { underlying: u64 },
    TupleType(Seq<u64>),
    FunctionsType { name: Seq<char>, overloads: Seq<u64> },
    FunctionType {
        name: Seq<char>,
        modifier: Modifier,
        generics: Seq<(Seq<char>, u64)>,
        params: Seq<u64>,
        return_type: u64,
    },
    StructType {
        name: Seq<char>,
        generics: Seq<(Seq<char>, u64)>,
        fields: Seq<MemberInfoModel>,
        children: Map<String, MemberInfo>,
    },
    EnumType { name: Seq<char>, values: Seq<Seq<char>> },
    GenericType { name: Seq<char> },
}

/// The keys of a list of entries.
pub open spec fn keys_of(v: Seq<TypeEntry>) -> Seq<u64> {
    v.map_values(|e: TypeEntry| e.key)
}

impl View for MemberInfo {
    type V = MemberInfoModel;

    open spec fn view(&self) -> MemberInfoModel {
        MemberInfoModel { typ: self.typ.key, name: self.name@, index: self.index }
    }
}

impl View for AstType {
    type V = AstTypeModel;

    open spec fn view(&self) -> AstTypeModel {
        match self {
            AstType::ErroredType => AstTypeModel::ErroredType,
            AstType::UnknownType => AstTypeModel::UnknownType,
            AstType::Void => AstTypeModel::Void,
            AstType::Bool => AstTypeModel::Bool,
            AstType::Int => AstTypeModel::Int,
            AstType::Float => AstTypeModel::Float,
            AstType::StringType => AstTypeModel::StringType,
            AstType::SymbolType { name, generics } => AstTypeModel::SymbolType {
                name: name@,
                generics: keys_of(generics@),
            },
            AstType::ReferenceType { underlying } => AstTypeModel::ReferenceType {
                underlying: underlying.key,
            },
            AstType::NullableType { underlying } => AstTypeModel::NullableType {
                underlying: underlying.key,
            },
            AstType::ArrayType { underlying } => AstTypeModel::ArrayType { underlying: underlying.key },
            AstType::TupleType(v) => AstTypeModel::TupleType(keys_of(v@)),
            AstType::FunctionsType { name, overloads } => AstTypeModel::FunctionsType {
                name: name@,
                overloads: keys_of(overloads@),
            },
            AstType::FunctionType { name, modifier, generics, params, return_type } => {
                AstTypeModel::FunctionType {
                    name: name@,
                    modifier: *modifier,
                    generics: generic_entries(*generics),
                    params: keys_of(params@),
                    return_type: return_type.key,
                }
            },
            AstType::StructType { name, generics, fields, children } => AstTypeModel::StructType {
                name: name@,
                generics: generic_entries(*generics),
                fields: fields@.map_values(|m: MemberInfo| m@),
                children: children@,
            },
            AstType::EnumType { name, values } => AstTypeModel::EnumType {
                name: name@,
                values: values@.map_values(|s: String| s@),
            },
            AstType::GenericType { name } => AstTypeModel::GenericType { name: name@ },
        }
    }
}

fn copy_entries(v: &Vec<TypeEntry>) -> (r: Vec<TypeEntry>)
    ensures
        r@ == v@,
{
    let mut r: Vec<TypeEntry> = Vec::new();
    let mut i: usize = 0;
    while i < v.len()
        invariant
            i <= v@.len(),
            r@ == v@.take(i as int),
        decreases v@.len() - i,
    {
        r.push(v[i]);
        assert(v@.take(i + 1) == v@.take(i as int).push(v@[i as int]));
        i += 1;
    }
    assert(v@.take(v@.len() as int) == v@);
    r
}

fn copy_strings(v: &Vec<String>) -> (r: Vec<String>)
    ensures
        r@.map_values(|s: String| s@) == v@.map_values(|s: String| s@),
{
    let mut r: Vec<String> = Vec::new();
    let mut i: usize = 0;
    while i < v.len()
        invariant
            i <= v@.len(),
            r@.map_values(|s: String| s@) == v@.take(i as int).map_values(|s: String| s@),
        decreases v@.len() - i,
    {
        let ghost r0 = r@;
        r.push(v[i].clone());
        assert(v@.take(i + 1) == v@.take(i as int).push(v@[i as int]));
        assert(r@.map_values(|s: String| s@) == r0.map_values(|s: String| s@).push(v@[i as int]@));
        assert(v@.take(i + 1).map_values(|s: String| s@) == v@.take(i as int).map_values(|s: String| s@).push(v@[i as int]@));
        i += 1;
    }
    assert(v@.take(v@.len() as int) == v@);
    r
}

fn copy_members(v: &Vec<MemberInfo>) -> (r: Vec<MemberInfo>)
    ensures
        r@.map_values(|m: MemberInfo| m@) == v@.map_values(|m: MemberInfo| m@),
{
    let mut r: Vec<MemberInfo> = Vec::new();
    let mut i: usize = 0;
    while i < v.len()
        invariant
            i <= v@.len(),
            r@.map_values(|m: MemberInfo| m@) == v@.take(i as int).map_values(|m: MemberInfo| m@),
        decreases v@.len() - i,
    {
        let ghost r0 = r@;
        r.push(v[i].duplicate());
        assert(v@.take(i + 1) == v@.take(i as int).push(v@[i as int]));
        assert(r@.map_values(|m: MemberInfo| m@) == r0.map_values(|m: MemberInfo| m@).push(v@[i as int]@));
        assert(v@.take(i + 1).map_values(|m: MemberInfo| m@) == v@.take(i as int).map_values(|m: MemberInfo| m@).push(v@[i as int]@));
        i += 1;
    }
    assert(v@.take(v@.len() as int) == v@);
    r
}

impl AstType {
    /// A copy of this type.
    pub fn duplicate(&self) -> (t: AstType)
        ensures
            t@ == self@,
    {
        match self {
            AstType::ErroredType => AstType::ErroredType,
            AstType::UnknownType => AstType::UnknownType,
            AstType::Void => AstType::Void,
            AstType::Bool => AstType::Bool,
            AstType::Int => AstType::Int,
            AstType::Float => AstType::Float,
            AstType::StringType => AstType::StringType,
            AstType::SymbolType { name, generics } => AstType::SymbolType {
                name: name.clone(),
                generics: copy_entries(generics),
            },
            AstType::ReferenceType { underlying } => AstType::ReferenceType { underlying: *underlying },
            AstType::NullableType { underlying } => AstType::NullableType { underlying: *underlying },
            AstType::ArrayType { underlying } => AstType::ArrayType { underlying: *underlying },
            AstType::TupleType(v) => AstType::TupleType(copy_entries(v)),
            AstType::FunctionsType { name, overloads } => AstType::FunctionsType {
                name: name.clone(),
                overloads: copy_entries(overloads),
            },
            AstType::FunctionType { name, modifier, generics, params, return_type } => {
                AstType::FunctionType {
                    name: name.clone(),
                    modifier: *modifier,
                    generics: generics_clone(generics),
                    params: copy_entries(params),
                    return_type: *return_type,
                }
            },
            AstType::StructType { name, generics, fields, children } => AstType::StructType {
                name: name.clone(),
                generics: generics_clone(generics),
                fields: copy_members(fields),
                children: children.clone(),
            },
            AstType::EnumType { name, values } => AstType::EnumType {
                name: name.clone(),
                values: copy_strings(values),
            },
            AstType::GenericType { name } => AstType::GenericType { name: name.clone() },
        }
    }
}

// ---------------------------------------------------------------------------
// Rendering types as text.
// ---------------------------------------------------------------------------

/// The concatenation of `prefix + p` for every part `p`, in order.
pub open spec fn prefixed_concat(parts: Seq<Seq<char>>, prefix: Seq<char>) -> Seq<char>
    decreases parts.len(),
{
    if parts.len() == 0 {
        Seq::empty()
    } else {
        prefixed_concat(parts.drop_last(), prefix) + prefix + parts.last()
    }
}

/// The concatenation of `p + suffix` for every part `p`, in order.
pub open spec fn suffixed_concat(parts: Seq<Seq<char>>, suffix: Seq<char>) -> Seq<char>
    decreases parts.len(),
{
    if parts.len() == 0 {
        Seq::empty()
    } else {
        suffixed_concat(parts.drop_last(), suffix) + parts.last() + suffix
    }
}

/// The parts joined by `", "`.
pub open spec fn comma_joined(parts: Seq<Seq<char>>) -> Seq<char> {
    if parts.len() == 0 {
        Seq::empty()
    } else {
        parts[0] + prefixed_concat(parts.skip(1), ", "@)
    }
}

/// The texts of the types under the entries `s` of `t`.
pub open spec fn child_texts(t: AstTypeModel, reg: Map<u64, AstTypeModel>, s: Seq<u64>) -> Seq<Seq<char>>
    decreases level(reg, t), 0nat, s.len(),
{
    if s.len() == 0 {
        Seq::empty()
    } else {
        child_texts(t, reg, s.drop_last()).push(child_text(t, reg, s.last()))
    }
}

/// The text of the type under entry `u` of `t`.
pub open spec fn child_text(t: AstTypeModel, reg: Map<u64, AstTypeModel>, u: u64) -> Seq<char>
    decreases level(reg, t), 0nat, 0nat,
{
    if level(reg, entry_type(reg, u)) < level(reg, t) {
        type_text(entry_type(reg, u), reg)
    } else {
        Seq::empty()
    }
}

/// How a type is written in messages.
pub open spec fn type_text(t: AstTypeModel, reg: Map<u64, AstTypeModel>) -> Seq<char>
    decreases level(reg, t), 1nat, 0nat,
{
    match t {
        AstTypeModel::ErroredType => "$err$"@,
        AstTypeModel::UnknownType => "$unknown$"@,
        AstTypeModel::Void => "void"@,
        AstTypeModel::Bool => "bool"@,
        AstTypeModel::Int => "int"@,
        AstTypeModel::Float => "float"@,
        AstTypeModel::StringType => "string"@,
        AstTypeModel::SymbolType { name, .. } => "$symbol-"@ + name + "$"@,
        AstTypeModel::ReferenceType { underlying } => "&"@ + child_text(t, reg, underlying),
        AstTypeModel::NullableType { underlying } => child_text(t, reg, underlying) + "?"@,
        AstTypeModel::ArrayType { underlying } => "["@ + child_text(t, reg, underlying) + "]"@,
        AstTypeModel::TupleType(arr) => if arr.len() == 0 {
            "()"@
        } else {
            "("@ + comma_joined(child_texts(t, reg, arr)) + ")"@
        },
        AstTypeModel::FunctionsType { name, .. } => name + "(..)"@,
        AstTypeModel::FunctionType { name, params, .. } => {
            let parts = child_texts(t, reg, params);
            name + "("@ + (if parts.len() == 0 {
                Seq::empty()
            } else {
                parts[0] + suffixed_concat(parts.skip(1), ", "@)
            }) + ")"@
        },
        AstTypeModel::StructType { name, generics, .. } => if generics.len() == 0 {
            name
        } else {
            name + "<"@ + comma_joined(
                child_texts(t, reg, generics.map_values(|p: (Seq<char>, u64)| p.1)),
            ) + ">"@
        },
        AstTypeModel::EnumType { name, .. } => name,
        AstTypeModel::GenericType { name } => name,
    }
}

/// `child_texts` holds the text of each entry, in order.
pub proof fn lemma_child_texts(t: AstTypeModel, reg: Map<u64, AstTypeModel>, s: Seq<u64>)
    ensures
        child_texts(t, reg, s).len() == s.len(),
        forall|k: int| 0 <= k < s.len() ==> #[trigger] child_texts(t, reg, s)[k] == child_text(t, reg, s[k]),
    decreases s.len(),
{
    if s.len() > 0 {
        lemma_child_texts(t, reg, s.drop_last());
        assert forall|k: int| 0 <= k < s.len() implies #[trigger] child_texts(t, reg, s)[k] == child_text(t, reg, s[k]) by {
            if k < s.len() - 1 {
                assert(s.drop_last()[k] == s[k]);
            }
        }
    }
}

impl AstType {
    /// How this type is written in messages.
    pub fn format(&self, registry: &TypeRegistry) -> (r: String)
        requires
            registry.acyclic(),
        ensures
            r@ == type_text(self@, registry.types()),
        decreases level(registry.types(), self@), 2nat, 0nat,
    {
        let ghost reg = registry.types();
        let ghost t = self@;
        match self {
            AstType::ErroredType => {
                let r = to_owned_string("$err$");
                assert(r@ == type_text(t, reg));
                r
            },
            AstType::UnknownType => {
                let r = to_owned_string("$unknown$");
                assert(r@ == type_text(t, reg));
                r
            },
            AstType::Void => {
                let r = to_owned_string("void");
                assert(r@ == type_text(t, reg));
                r
            },
            AstType::Bool => {
                let r = to_owned_string("bool");
                assert(r@ == type_text(t, reg));
                r
            },
            AstType::Int => {
                let r = to_owned_string("int");
                assert(r@ == type_text(t, reg));
                r
            },
            AstType::Float => {
                let r = to_owned_string("float");
                assert(r@ == type_text(t, reg));
                r
            },
            AstType::StringType => {
                let r = to_owned_string("string");
                assert(r@ == type_text(t, reg));
                r
            },
            AstType::SymbolType { name, .. } => {
                let mut r = to_owned_string("$symbol-");
                push_str(&mut r, name.as_str());
                push_str(&mut r, "$");
                assert(r@ == type_text(t, reg));
                r
            },
            AstType::ReferenceType { underlying } => {
                let mut r = to_owned_string("&");
                let sub = Self::child_format(underlying, registry, Ghost(t), Ghost(0));
                push_str(&mut r, sub.as_str());
                assert(r@ == type_text(t, reg));
                r
            },
            AstType::NullableType { underlying } => {
                let mut r = Self::child_format(underlying, registry, Ghost(t), Ghost(0));
                push_str(&mut r, "?");
                assert(r@ == type_text(t, reg));
                r
            },
            AstType::ArrayType { underlying } => {
                let mut r = to_owned_string("[");
                let sub = Self::child_format(underlying, registry, Ghost(t), Ghost(0));
                push_str(&mut r, sub.as_str());
                push_str(&mut r, "]");
                assert(r@ == type_text(t, reg));
                r
            },
            AstType::TupleType(arr) => {
                if arr.len() == 0 {
                    return to_owned_string("()");
                }
                let mut r = to_owned_string("(");
                let joined = Self::format_joined(arr, registry, Ghost(t));
                push_str(&mut r, joined.as_str());
                push_str(&mut r, ")");
                proof {
                    assert(r@ =~= "("@ + comma_joined(child_texts(t, reg, keys_of(arr@))) + ")"@);
                }
                assert(r@ == type_text(t, reg));
                r
            },
            AstType::FunctionsType { name, .. } => {
                let mut r = name.clone();
                push_str(&mut r, "(..)");
                assert(r@ == type_text(t, reg));
                r
            },
            AstType::FunctionType { name, params, .. } => {
                let mut result = name.clone();
                push_str(&mut result, "(");
                let ghost parts = child_texts(t, reg, keys_of(params@));
                proof {
                    lemma_child_texts(t, reg, keys_of(params@));
                }
                if params.len() > 0 {
                    let first = Self::child_format(&params[0], registry, Ghost(t), Ghost(0));
                    push_str(&mut result, first.as_str());
                    let ghost head = result@;
                    assert(head =~= name@ + "("@ + parts[0]);
                    let mut i: usize = 1;
                    while i < params.len()
                        invariant
                            registry.acyclic(),
                            reg == registry.types(),
                            t == self@,
                            t matches AstTypeModel::FunctionType { params: ps, .. } && ps == keys_of(params@),
                            parts == child_texts(t, reg, keys_of(params@)),
                            parts.len() == params@.len(),
                            forall|k: int| 0 <= k < parts.len() ==> #[trigger] parts[k] == child_text(t, reg, keys_of(params@)[k]),
                            1 <= i <= params@.len(),
                            result@ == head + suffixed_concat(parts.subrange(1, i as int), ", "@),
                            head == name@ + "("@ + parts[0],
                        decreases params@.len() - i,
                    {
                        let part = Self::child_format(&params[i], registry, Ghost(t), Ghost(i as int));
                        push_str(&mut result, part.as_str());
                        push_str(&mut result, ", ");
                        assert(parts.subrange(1, i + 1).drop_last() == parts.subrange(1, i as int));
                        i += 1;
                    }
                    assert(parts.subrange(1, params@.len() as int) == parts.skip(1));
                }
                push_str(&mut result, ")");
                proof {
                    if params@.len() == 0 {
                        assert(result@ =~= name@ + "("@ + Seq::<char>::empty() + ")"@);
                    } else {
                        assert(result@ =~= name@ + "("@ + (parts[0] + suffixed_concat(parts.skip(1), ", "@)) + ")"@);
                    }
                }
                assert(result@ == type_text(t, reg));
                result
            },
            AstType::StructType { name, generics, .. } => {
                let mut res = name.clone();
                let pairs = generics_pairs(generics);
                if pairs.len() > 0 {
                    push_str(&mut res, "<");
                    let vals = Self::values_of(&pairs);
                    proof {
                        assert(keys_of(vals@) == generic_entries(*generics).map_values(
                            |p: (Seq<char>, u64)| p.1,
                        ));
                    }
                    let joined = Self::format_joined(&vals, registry, Ghost(t));

                    push_str(&mut res, joined.as_str());
                    push_str(&mut res, ">");
                }
                assert(res@ == type_text(t, reg));
                res
            },
            AstType::EnumType { name, .. } => name.clone(),
            AstType::GenericType { name } => name.clone(),
        }
    }

    /// The entries of a list of generic parameters, in order.
    fn values_of(pairs: &Vec<(String, TypeEntry)>) -> (v: Vec<TypeEntry>)
        ensures
            keys_of(v@) == pairs@.map_values(|p: (String, TypeEntry)| (p.0@, p.1.key)).map_values(
                |p: (Seq<char>, u64)| p.1,
            ),
    {
        let mut v: Vec<TypeEntry> = Vec::new();
        let mut i: usize = 0;
        while i < pairs.len()
            invariant
                i <= pairs@.len(),
                keys_of(v@) == pairs@.take(i as int).map_values(|p: (String, TypeEntry)| p.1.key),
            decreases pairs@.len() - i,
        {
            let ghost v0 = v@;
            v.push(pairs[i].1);
            assert(keys_of(v@) == keys_of(v0).push(pairs@[i as int].1.key));
            assert(pairs@.take(i + 1) == pairs@.take(i as int).push(pairs@[i as int]));
            i += 1;
        }
        assert(pairs@.take(pairs@.len() as int) == pairs@);
        assert(pairs@.map_values(|p: (String, TypeEntry)| (p.0@, p.1.key)).map_values(
            |p: (Seq<char>, u64)| p.1,
        ) =~= pairs@.map_values(|p: (String, TypeEntry)| p.1.key));
        v
    }

    /// The text of the type under entry `e`, which is entry `j` of `t`.
    fn child_format(e: &TypeEntry, registry: &TypeRegistry, Ghost(t): Ghost<AstTypeModel>, Ghost(j): Ghost<int>) -> (r: String)
        requires
            registry.acyclic(),
            0 <= j < refs(t).len(),
            refs(t)[j] == e.key,
        ensures
            r@ == child_text(t, registry.types(), e.key),
        decreases level(registry.types(), t), 0nat, 0nat,
    {
        proof {
            lemma_child_level(registry.types(), t, j);
        }
        let c = e.get(registry);
        c.format(registry)
    }

    /// The texts of the types under the entries `v` (entries of `t`), joined by `", "`.
    fn format_joined(v: &Vec<TypeEntry>, registry: &TypeRegistry, Ghost(t): Ghost<AstTypeModel>) -> (r: String)
        requires
            registry.acyclic(),
            v@.len() > 0,
            refs(t) == keys_of(v@),
        ensures
            r@ == comma_joined(child_texts(t, registry.types(), keys_of(v@))),
        decreases level(registry.types(), t), 1nat, 0nat,
    {
        let ghost reg = registry.types();
        let ghost parts = child_texts(t, reg, keys_of(v@));
        proof {
            lemma_child_texts(t, reg, keys_of(v@));
        }
        let mut r = Self::child_format(&v[0], registry, Ghost(t), Ghost(0));
        let ghost head = r@;
        let mut i: usize = 1;
        while i < v.len()
            invariant
                registry.acyclic(),
                reg == registry.types(),
                refs(t) == keys_of(v@),
                parts == child_texts(t, reg, keys_of(v@)),
                parts.len() == v@.len(),
                forall|k: int| 0 <= k < parts.len() ==> #[trigger] parts[k] == child_text(t, reg, keys_of(v@)[k]),
                1 <= i <= v@.len(),
                head == parts[0],
                r@ == head + prefixed_concat(parts.subrange(1, i as int), ", "@),
            decreases v@.len() - i,
        {
            push_str(&mut r, ", ");
            let part = Self::child_format(&v[i], registry, Ghost(t), Ghost(i as int));
            push_str(&mut r, part.as_str());
            assert(parts.subrange(1, i + 1).drop_last() == parts.subrange(1, i as int));
            i += 1;
        }
        assert(parts.subrange(1, v@.len() as int) == parts.skip(1));
        r
    }
}

// ---------------------------------------------------------------------------
// Comparing types.
// ---------------------------------------------------------------------------

/// Whether the types under entry `u1` of `a` and entry `u2` of `b` are equal.
pub open spec fn child_equal(a: AstTypeModel, b: AstTypeModel, reg: Map<u64, AstTypeModel>, loose: bool, u1: u64, u2: u64) -> bool
    decreases max_level(reg, a, b), level(reg, a) + level(reg, b), 0nat, 0nat,
{
    let x = entry_type(reg, u1);
    let y = entry_type(reg, u2);
    if level(reg, x) < level(reg, a) && level(reg, y) < level(reg, b) {
        types_equal(x, y, reg, loose)
    } else {
        false
    }
}

/// Whether the types under the entries `s1` (of `a`) and `s2` (of `b`) are pairwise equal.
pub open spec fn children_equal(a: AstTypeModel, b: AstTypeModel, reg: Map<u64, AstTypeModel>, loose: bool, s1: Seq<u64>, s2: Seq<u64>) -> bool
    decreases max_level(reg, a, b), level(reg, a) + level(reg, b), 0nat, s1.len(),
{
    if s1.len() != s2.len() {
        false
    } else if s1.len() == 0 {
        true
    } else {
        children_equal(a, b, reg, loose, s1.drop_last(), s2.drop_last()) && child_equal(
            a,
            b,
            reg,
            loose,
            s1.last(),
            s2.last(),
        )
    }
}

/// Whether two lists of generic parameters have the same names in the same order.
pub open spec fn same_names(g1: Seq<(Seq<char>, u64)>, g2: Seq<(Seq<char>, u64)>) -> bool {
    g1.len() == g2.len() && forall|i: int| 0 <= i < g1.len() ==> (#[trigger] g1[i]).0 == g2[i].0
}

/// The entries of a list of generic parameters.
pub open spec fn generic_keys(g: Seq<(Seq<char>, u64)>) -> Seq<u64> {
    g.map_values(|p: (Seq<char>, u64)| p.1)
}

/// The larger of the heights of two types.
pub open spec fn max_level(reg: Map<u64, AstTypeModel>, a: AstTypeModel, b: AstTypeModel) -> nat {
    if level(reg, a) < level(reg, b) {
        level(reg, b)
    } else {
        level(reg, a)
    }
}

/// Type equality. With `loose`, the unknown type and generic types equal any type,
/// and a nullable type equals what its underlying type equals. A type that is not
/// nullable, compared with a nullable one, is compared no further: the nullable
/// type is compared with its own underlying type instead.
pub open spec fn types_equal(a: AstTypeModel, b: AstTypeModel, reg: Map<u64, AstTypeModel>, loose: bool) -> bool
    decreases max_level(reg, a, b), level(reg, a) + level(reg, b), 1nat, 0nat,
{
    if loose && (a is UnknownType || b is UnknownType || a is GenericType || b is GenericType) {
        true
    } else {
        match (a, b) {
            (AstTypeModel::UnknownType, AstTypeModel::UnknownType) => true,
            (AstTypeModel::GenericType { name: n1 }, AstTypeModel::GenericType { name: n2 }) => n1 == n2,
            (AstTypeModel::Void, AstTypeModel::Void) => true,
            (AstTypeModel::Bool, AstTypeModel::Bool) => true,
            (AstTypeModel::Int, AstTypeModel::Int) => true,
            (AstTypeModel::Float, AstTypeModel::Float) => true,
            (AstTypeModel::StringType, AstTypeModel::StringType) => true,
            (
                AstTypeModel::SymbolType { name: n1, generics: g1 },
                AstTypeModel::SymbolType { name: n2, generics: g2 },
            ) => n1 == n2 && children_equal(a, b, reg, loose, g1, g2),
            (
                AstTypeModel::ReferenceType { underlying: u1 },
                AstTypeModel::ReferenceType { underlying: u2 },
            ) => child_equal(a, b, reg, loose, u1, u2),
            (
                AstTypeModel::NullableType { underlying: u1 },
                AstTypeModel::NullableType { underlying: u2 },
            ) => child_equal(a, b, reg, loose, u1, u2),
            (AstTypeModel::ArrayType { underlying: u1 }, AstTypeModel::ArrayType { underlying: u2 }) => {
                child_equal(a, b, reg, loose, u1, u2)
            },
            (AstTypeModel::TupleType(s1), AstTypeModel::TupleType(s2)) => children_equal(
                a,
                b,
                reg,
                loose,
                s1,
                s2,
            ),
            (
                AstTypeModel::StructType { name: n1, generics: g1, .. },
                AstTypeModel::StructType { name: n2, generics: g2, .. },
            ) => n1 == n2 && same_names(g1, g2) && children_equal(
                a,
                b,
                reg,
                loose,
                generic_keys(g1),
                generic_keys(g2),
            ),
            (AstTypeModel::EnumType { name: n1, values: v1 }, AstTypeModel::EnumType { name: n2, values: v2 }) => {
                n1 == n2 && v1 == v2
            },
            (AstTypeModel::NullableType { underlying }, _) => loose && {
                let x = entry_type(reg, underlying);
                if level(reg, x) < level(reg, a) {
                    types_equal(x, b, reg, loose)
                } else {
                    false
                }
            },
            (_, AstTypeModel::NullableType { underlying }) => loose && {
                let y = entry_type(reg, underlying);
                if level(reg, y) < level(reg, b) {
                    if y is UnknownType || y is GenericType {
                        true
                    } else {
                        match y {
                            AstTypeModel::NullableType { underlying: u2 } => {
                                let z = entry_type(reg, u2);
                                if level(reg, z) < level(reg, y) {
                                    types_equal(y, z, reg, loose)
                                } else {
                                    false
                                }
                            },
                            _ => types_equal(y, y, reg, loose),
                        }
                    }
                } else {
                    false
                }
            },
            _ => false,
        }
    }
}

impl AstType {
    /// Strict type equality.
    pub fn equals(&self, other: &Self, registry: &TypeRegistry) -> (b: bool)
        requires
            registry.acyclic(),
        ensures
            b == types_equal(self@, other@, registry.types(), false),
    {
        self._equals(other, registry, false)
    }

    /// Loose type equality: the unknown type and generic types equal any type; a
    /// nullable type on the left equals what its underlying type equals; and any
    /// other type, compared with a nullable type on the right, is equal exactly when
    /// that nullable's underlying type is unknown or generic or loosely equals
    /// itself, whatever the type on the left is.
    pub fn loose_equals(&self, other: &Self, registry: &TypeRegistry) -> (b: bool)
        requires
            registry.acyclic(),
        ensures
            b == types_equal(self@, other@, registry.types(), true),
    {
        self._equals(other, registry, true)
    }

    /// Type equality, loose or strict.
    pub fn _equals(&self, other: &Self, registry: &TypeRegistry, loose: bool) -> (b: bool)
        requires
            registry.acyclic(),
        ensures
            b == types_equal(self@, other@, registry.types(), loose),
        decreases max_level(registry.types(), self@, other@), level(registry.types(), self@) + level(registry.types(), other@), 1nat, 0nat,
    {
        let ghost a = self@;
        let ghost o = other@;
        let ghost reg = registry.types();
        if loose && (matches!(self, AstType::UnknownType) || matches!(other, AstType::UnknownType)
            || matches!(self, AstType::GenericType { .. }) || matches!(other, AstType::GenericType { .. })) {
            return true;
        }
        match (self, other) {
            (AstType::UnknownType, AstType::UnknownType) => true,
            (AstType::GenericType { name: n1 }, AstType::GenericType { name: n2 }) => same_text(n1, n2),
            (AstType::Void, AstType::Void) => true,
            (AstType::Bool, AstType::Bool) => true,
            (AstType::Int, AstType::Int) => true,
            (AstType::Float, AstType::Float) => true,
            (AstType::StringType, AstType::StringType) => true,
            (AstType::SymbolType { name: n1, generics: g1 }, AstType::SymbolType { name: n2, generics: g2 }) => {
                if !same_text(n1, n2) {
                    return false;
                }
                Self::type_arrays_equal(registry, loose, g1, g2, Ghost(a), Ghost(o))
            },
            (AstType::ReferenceType { underlying: u1 }, AstType::ReferenceType { underlying: u2 }) => {
                Self::entries_equal(u1, u2, registry, loose, Ghost(a), Ghost(o), Ghost(0), Ghost(0))
            },
            (AstType::NullableType { underlying: u1 }, AstType::NullableType { underlying: u2 }) => {
                Self::entries_equal(u1, u2, registry, loose, Ghost(a), Ghost(o), Ghost(0), Ghost(0))
            },
            (AstType::ArrayType { underlying: u1 }, AstType::ArrayType { underlying: u2 }) => {
                Self::entries_equal(u1, u2, registry, loose, Ghost(a), Ghost(o), Ghost(0), Ghost(0))
            },
            (AstType::TupleType(arr1), AstType::TupleType(arr2)) => {
                Self::type_arrays_equal(registry, loose, arr1, arr2, Ghost(a), Ghost(o))
            },
            (AstType::StructType { name: n1, generics: g1, .. }, AstType::StructType { name: n2, generics: g2, .. }) => {
                if !same_text(n1, n2) {
                    return false;
                }
                let p1 = generics_pairs(g1);
                let p2 = generics_pairs(g2);
                if !same_pair_names(&p1, &p2) {
                    return false;
                }
                let v1 = Self::values_of(&p1);
                let v2 = Self::values_of(&p2);
                proof {
                    assert(keys_of(v1@) == generic_keys(generic_entries(*g1)));
                    assert(keys_of(v2@) == generic_keys(generic_entries(*g2)));
                }
                Self::type_arrays_equal(registry, loose, &v1, &v2, Ghost(a), Ghost(o))
            },
            (AstType::EnumType { name: n1, values: v1 }, AstType::EnumType { name: n2, values: v2 }) => {
                if !same_text(n1, n2) {
                    return false;
                }
                same_texts(v1, v2)
            },
            (AstType::NullableType { underlying }, _) => {
                if !loose {
                    return false;
                }
                proof {
                    lemma_child_level(reg, a, 0);
                }
                underlying.get(registry)._equals(other, registry, loose)
            },
            (_, AstType::NullableType { underlying }) => {
                if !loose {
                    return false;
                }
                proof {
                    lemma_child_level(reg, o, 0);
                }
                // `other` is compared with its own underlying type.
                let y = underlying.get(registry);
                if matches!(y, AstType::UnknownType) || matches!(y, AstType::GenericType { .. }) {
                    return true;
                }
                match &y {
                    AstType::NullableType { underlying: u2 } => {
                        proof {
                            lemma_child_level(reg, y@, 0);
                        }
                        y._equals(&u2.get(registry), registry, loose)
                    },
                    _ => y._equals(&y, registry, loose),
                }
            },
            _ => false,
        }
    }

    /// Whether the types under `e1` (entry `j1` of `a`) and `e2` (entry `j2` of `b`) are equal.
    fn entries_equal(e1: &TypeEntry, e2: &TypeEntry, registry: &TypeRegistry, loose: bool, Ghost(a): Ghost<AstTypeModel>, Ghost(b): Ghost<AstTypeModel>, Ghost(j1): Ghost<int>, Ghost(j2): Ghost<int>) -> (r: bool)
        requires
            registry.acyclic(),
            0 <= j1 < refs(a).len(),
            0 <= j2 < refs(b).len(),
            refs(a)[j1] == e1.key,
            refs(b)[j2] == e2.key,
        ensures
            r == child_equal(a, b, registry.types(), loose, e1.key, e2.key),
        decreases max_level(registry.types(), a, b), level(registry.types(), a) + level(registry.types(), b), 0nat, 0nat,
    {
        proof {
            lemma_child_level(registry.types(), a, j1);
            lemma_child_level(registry.types(), b, j2);
        }
        e1.get(registry)._equals(&e2.get(registry), registry, loose)
    }

    /// Whether the types under `arr1` (the entries of `a`) and `arr2` (of `b`) are pairwise equal.
    fn type_arrays_equal(registry: &TypeRegistry, loose: bool, arr1: &Vec<TypeEntry>, arr2: &Vec<TypeEntry>, Ghost(a): Ghost<AstTypeModel>, Ghost(b): Ghost<AstTypeModel>) -> (r: bool)
        requires
            registry.acyclic(),
            refs(a) == keys_of(arr1@),
            refs(b) == keys_of(arr2@),
        ensures
            r == children_equal(a, b, registry.types(), loose, keys_of(arr1@), keys_of(arr2@)),
        decreases max_level(registry.types(), a, b), level(registry.types(), a) + level(registry.types(), b), 0nat, arr1@.len(),
    {
        if arr1.len() != arr2.len() {
            return false;
        }
        let ghost s1 = keys_of(arr1@);
        let ghost s2 = keys_of(arr2@);
        let mut i: usize = 0;
        while i < arr1.len()
            invariant
                registry.acyclic(),
                refs(a) == s1,
                refs(b) == s2,
                s1 == keys_of(arr1@),
                s2 == keys_of(arr2@),
                arr1@.len() == arr2@.len(),
                i <= arr1@.len(),
                children_equal(a, b, registry.types(), loose, s1.take(i as int), s2.take(i as int)),
            decreases arr1@.len() - i,
        {
            let same = Self::entries_equal(&arr1[i], &arr2[i], registry, loose, Ghost(a), Ghost(b), Ghost(i as int), Ghost(i as int));
            proof {
                assert(s1.take(i + 1).drop_last() == s1.take(i as int));
                assert(s2.take(i + 1).drop_last() == s2.take(i as int));
            }
            if !same {
                proof {
                    lemma_children_equal_prefix(a, b, registry.types(), loose, s1, s2, i as int);
                }
                return false;
            }
            i += 1;
        }
        assert(s1.take(arr1@.len() as int) == s1);
        assert(s2.take(arr1@.len() as int) == s2);
        true
    }
}

/// Whether two strings hold the same text.
fn same_text(a: &String, b: &String) -> (r: bool)
    ensures
        r == (a@ == b@),
{
    *a == *b
}

/// Whether two lists of strings hold the same texts.
fn same_texts(v1: &Vec<String>, v2: &Vec<String>) -> (r: bool)
    ensures
        r == (v1@.map_values(|s: String| s@) == v2@.map_values(|s: String| s@)),
{
    if v1.len() != v2.len() {
        assert(v1@.map_values(|s: String| s@).len() != v2@.map_values(|s: String| s@).len());
        return false;
    }
    let mut i: usize = 0;
    while i < v1.len()
        invariant
            i <= v1@.len(),
            v1@.len() == v2@.len(),
            forall|k: int| 0 <= k < i ==> (#[trigger] v1@[k])@ == v2@[k]@,
        decreases v1@.len() - i,
    {
        if !same_text(&v1[i], &v2[i]) {
            assert(v1@.map_values(|s: String| s@)[i as int] != v2@.map_values(|s: String| s@)[i as int]);
            return false;
        }
        i += 1;
    }
    assert(v1@.map_values(|s: String| s@) =~= v2@.map_values(|s: String| s@));
    true
}

/// Whether two lists of generic parameters have the same names in the same order.
fn same_pair_names(p1: &Vec<(String, TypeEntry)>, p2: &Vec<(String, TypeEntry)>) -> (r: bool)
    ensures
        r == same_names(
            p1@.map_values(|p: (String, TypeEntry)| (p.0@, p.1.key)),
            p2@.map_values(|p: (String, TypeEntry)| (p.0@, p.1.key)),
        ),
{
    let ghost e1 = p1@.map_values(|p: (String, TypeEntry)| (p.0@, p.1.key));
    let ghost e2 = p2@.map_values(|p: (String, TypeEntry)| (p.0@, p.1.key));
    if p1.len() != p2.len() {
        return false;
    }
    let mut i: usize = 0;
    while i < p1.len()
        invariant
            i <= p1@.len(),
            p1@.len() == p2@.len(),
            e1 == p1@.map_values(|p: (String, TypeEntry)| (p.0@, p.1.key)),
            e2 == p2@.map_values(|p: (String, TypeEntry)| (p.0@, p.1.key)),
            forall|k: int| 0 <= k < i ==> (#[trigger] e1[k]).0 == e2[k].0,
        decreases p1@.len() - i,
    {
        if !same_text(&p1[i].0, &p2[i].0) {
            assert(e1[i as int].0 != e2[i as int].0);
            return false;
        }
        i += 1;
    }
    true
}

/// If a pair of entries differs, the lists are not pairwise equal.
proof fn lemma_children_equal_prefix(a: AstTypeModel, b: AstTypeModel, reg: Map<u64, AstTypeModel>, loose: bool, s1: Seq<u64>, s2: Seq<u64>, i: int)
    requires
        s1.len() == s2.len(),
        0 <= i < s1.len(),
        !child_equal(a, b, reg, loose, s1[i], s2[i]),
    ensures
        !children_equal(a, b, reg, loose, s1, s2),
    decreases s1.len(),
{
    if i < s1.len() - 1 {
        assert(s1.drop_last()[i] == s1[i]);
        assert(s2.drop_last()[i] == s2[i]);
        lemma_children_equal_prefix(a, b, reg, loose, s1.drop_last(), s2.drop_last(), i);
    }
}

/// Strict type equality does not depend on the order of the two types.
pub proof fn lemma_types_equal_symmetric(a: AstTypeModel, b: AstTypeModel, reg: Map<u64, AstTypeModel>, loose: bool)
    requires
        !loose,
    ensures
        types_equal(a, b, reg, loose) == types_equal(b, a, reg, loose),
    decreases max_level(reg, a, b), level(reg, a) + level(reg, b), 1nat, 0nat,
{
    match (a, b) {
        (AstTypeModel::SymbolType { generics: g1, .. }, AstTypeModel::SymbolType { generics: g2, .. }) => {
            lemma_children_equal_symmetric(a, b, reg, loose, g1, g2);
        },
        (AstTypeModel::ReferenceType { underlying: u1 }, AstTypeModel::ReferenceType { underlying: u2 }) => {
            lemma_child_equal_symmetric(a, b, reg, loose, u1, u2);
        },
        (AstTypeModel::NullableType { underlying: u1 }, AstTypeModel::NullableType { underlying: u2 }) => {
            lemma_child_equal_symmetric(a, b, reg, loose, u1, u2);
        },
        (AstTypeModel::ArrayType { underlying: u1 }, AstTypeModel::ArrayType { underlying: u2 }) => {
            lemma_child_equal_symmetric(a, b, reg, loose, u1, u2);
        },
        (AstTypeModel::TupleType(s1), AstTypeModel::TupleType(s2)) => {
            lemma_children_equal_symmetric(a, b, reg, loose, s1, s2);
        },
        (AstTypeModel::StructType { generics: g1, .. }, AstTypeModel::StructType { generics: g2, .. }) => {
            lemma_children_equal_symmetric(a, b, reg, loose, generic_keys(g1), generic_keys(g2));
        },
        _ => {},
    }
}

proof fn lemma_child_equal_symmetric(a: AstTypeModel, b: AstTypeModel, reg: Map<u64, AstTypeModel>, loose: bool, u1: u64, u2: u64)
    requires
        !loose,
    ensures
        child_equal(a, b, reg, loose, u1, u2) == child_equal(b, a, reg, loose, u2, u1),
    decreases max_level(reg, a, b), level(reg, a) + level(reg, b), 0nat, 0nat,
{
    let x = entry_type(reg, u1);
    let y = entry_type(reg, u2);
    if level(reg, x) < level(reg, a) && level(reg, y) < level(reg, b) {
        lemma_types_equal_symmetric(x, y, reg, loose);
    }
}

proof fn lemma_children_equal_symmetric(a: AstTypeModel, b: AstTypeModel, reg: Map<u64, AstTypeModel>, loose: bool, s1: Seq<u64>, s2: Seq<u64>)
    requires
        !loose,
    ensures
        children_equal(a, b, reg, loose, s1, s2) == children_equal(b, a, reg, loose, s2, s1),
    decreases max_level(reg, a, b), level(reg, a) + level(reg, b), 0nat, s1.len(),
{
    if s1.len() == s2.len() && s1.len() > 0 {
        lemma_children_equal_symmetric(a, b, reg, loose, s1.drop_last(), s2.drop_last());
        lemma_child_equal_symmetric(a, b, reg, loose, s1.last(), s2.last());
    }
}

/// Whether no nullable type occurs in `t` or, through its entries, in the types
/// below it.
pub open spec fn no_nullable(t: AstTypeModel, reg: Map<u64, AstTypeModel>) -> bool
    decreases level(reg, t), 1nat, 0nat,
{
    !(t is NullableType) && entries_no_nullable(t, reg, refs(t))
}

/// Whether no nullable type occurs in the types under the entries `s` of `t`.
pub open spec fn entries_no_nullable(t: AstTypeModel, reg: Map<u64, AstTypeModel>, s: Seq<u64>) -> bool
    decreases level(reg, t), 0nat, s.len(),
{
    if s.len() == 0 {
        true
    } else {
        entries_no_nullable(t, reg, s.drop_last()) && {
            let x = entry_type(reg, s.last());
            level(reg, x) < level(reg, t) ==> no_nullable(x, reg)
        }
    }
}

/// Each type under an entry of `s` that is lower than `t` holds no nullable type.
pub open spec fn children_free(t: AstTypeModel, reg: Map<u64, AstTypeModel>, s: Seq<u64>) -> bool {
    forall|j: int|
        0 <= j < s.len() && level(reg, entry_type(reg, #[trigger] s[j])) < level(reg, t) ==> no_nullable(
            entry_type(reg, s[j]),
            reg,
        )
}

proof fn lemma_entries_free(t: AstTypeModel, reg: Map<u64, AstTypeModel>, s: Seq<u64>)
    requires
        entries_no_nullable(t, reg, s),
    ensures
        children_free(t, reg, s),
    decreases s.len(),
{
    if s.len() > 0 {
        lemma_entries_free(t, reg, s.drop_last());
        assert forall|j: int|
            0 <= j < s.len() && level(reg, entry_type(reg, #[trigger] s[j])) < level(reg, t) implies no_nullable(
                entry_type(reg, s[j]),
                reg,
            ) by {
            if j < s.len() - 1 {
                assert(s.drop_last()[j] == s[j]);
            }
        }
    }
}

/// Loose type equality does not depend on the order of the two types where
/// neither holds a nullable type. (With a nullable type on one side only, the
/// order matters: a float loosely equals a nullable int, not the reverse.)
pub proof fn lemma_loose_equal_symmetric(a: AstTypeModel, b: AstTypeModel, reg: Map<u64, AstTypeModel>)
    requires
        no_nullable(a, reg),
        no_nullable(b, reg),
    ensures
        types_equal(a, b, reg, true) == types_equal(b, a, reg, true),
    decreases max_level(reg, a, b), level(reg, a) + level(reg, b), 1nat, 0nat,
{
    lemma_entries_free(a, reg, refs(a));
    lemma_entries_free(b, reg, refs(b));
    if a is UnknownType || b is UnknownType || a is GenericType || b is GenericType {
    } else {
        match (a, b) {
            (AstTypeModel::SymbolType { generics: g1, .. }, AstTypeModel::SymbolType { generics: g2, .. }) => {
                lemma_children_loose_symmetric(a, b, reg, g1, g2);
            },
            (AstTypeModel::ReferenceType { underlying: u1 }, AstTypeModel::ReferenceType { underlying: u2 }) => {
                assert(refs(a)[0] == u1 && refs(b)[0] == u2);
                lemma_child_loose_symmetric(a, b, reg, u1, u2);
            },
            (AstTypeModel::ArrayType { underlying: u1 }, AstTypeModel::ArrayType { underlying: u2 }) => {
                assert(refs(a)[0] == u1 && refs(b)[0] == u2);
                lemma_child_loose_symmetric(a, b, reg, u1, u2);
            },
            (AstTypeModel::TupleType(s1), AstTypeModel::TupleType(s2)) => {
                lemma_children_loose_symmetric(a, b, reg, s1, s2);
            },
            (AstTypeModel::StructType { generics: g1, .. }, AstTypeModel::StructType { generics: g2, .. }) => {
                assert(generic_keys(g1) =~= refs(a));
                assert(generic_keys(g2) =~= refs(b));
                lemma_children_loose_symmetric(a, b, reg, generic_keys(g1), generic_keys(g2));
            },
            _ => {},
        }
    }
}

proof fn lemma_child_loose_symmetric(a: AstTypeModel, b: AstTypeModel, reg: Map<u64, AstTypeModel>, u1: u64, u2: u64)
    requires
        level(reg, entry_type(reg, u1)) < level(reg, a) ==> no_nullable(entry_type(reg, u1), reg),
        level(reg, entry_type(reg, u2)) < level(reg, b) ==> no_nullable(entry_type(reg, u2), reg),
    ensures
        child_equal(a, b, reg, true, u1, u2) == child_equal(b, a, reg, true, u2, u1),
    decreases max_level(reg, a, b), level(reg, a) + level(reg, b), 0nat, 0nat,
{
    let x = entry_type(reg, u1);
    let y = entry_type(reg, u2);
    if level(reg, x) < level(reg, a) && level(reg, y) < level(reg, b) {
        lemma_loose_equal_symmetric(x, y, reg);
    }
}

proof fn lemma_children_loose_symmetric(a: AstTypeModel, b: AstTypeModel, reg: Map<u64, AstTypeModel>, s1: Seq<u64>, s2: Seq<u64>)
    requires
        children_free(a, reg, s1),
        children_free(b, reg, s2),
    ensures
        children_equal(a, b, reg, true, s1, s2) == children_equal(b, a, reg, true, s2, s1),
    decreases max_level(reg, a, b), level(reg, a) + level(reg, b), 0nat, s1.len(),
{
    if s1.len() == s2.len() && s1.len() > 0 {
        assert forall|j: int|
            0 <= j < s1.drop_last().len() && level(reg, entry_type(reg, #[trigger] s1.drop_last()[j])) < level(reg, a)
                implies no_nullable(entry_type(reg, s1.drop_last()[j]), reg) by {
            assert(s1.drop_last()[j] == s1[j]);
        }
        assert forall|j: int|
            0 <= j < s2.drop_last().len() && level(reg, entry_type(reg, #[trigger] s2.drop_last()[j])) < level(reg, b)
                implies no_nullable(entry_type(reg, s2.drop_last()[j]), reg) by {
            assert(s2.drop_last()[j] == s2[j]);
        }
        lemma_children_loose_symmetric(a, b, reg, s1.drop_last(), s2.drop_last());
        assert(s1.last() == s1[s1.len() - 1]);
        assert(s2.last() == s2[s2.len() - 1]);
        lemma_child_loose_symmetric(a, b, reg, s1.last(), s2.last());
    }
}

/// Types that are equal strictly are equal loosely too.
pub proof fn lemma_strict_implies_loose(a: AstTypeModel, b: AstTypeModel, reg: Map<u64, AstTypeModel>)
    requires
        types_equal(a, b, reg, false),
    ensures
        types_equal(a, b, reg, true),
    decreases max_level(reg, a, b), level(reg, a) + level(reg, b), 1nat, 0nat,
{
    match (a, b) {
        (AstTypeModel::SymbolType { generics: g1, .. }, AstTypeModel::SymbolType { generics: g2, .. }) => {
            lemma_children_strict_implies_loose(a, b, reg, g1, g2);
        },
        (AstTypeModel::ReferenceType { underlying: u1 }, AstTypeModel::ReferenceType { underlying: u2 }) => {
            lemma_child_strict_implies_loose(a, b, reg, u1, u2);
        },
        (AstTypeModel::NullableType { underlying: u1 }, AstTypeModel::NullableType { underlying: u2 }) => {
            lemma_child_strict_implies_loose(a, b, reg, u1, u2);
        },
        (AstTypeModel::ArrayType { underlying: u1 }, AstTypeModel::ArrayType { underlying: u2 }) => {
            lemma_child_strict_implies_loose(a, b, reg, u1, u2);
        },
        (AstTypeModel::TupleType(s1), AstTypeModel::TupleType(s2)) => {
            lemma_children_strict_implies_loose(a, b, reg, s1, s2);
        },
        (AstTypeModel::StructType { generics: g1, .. }, AstTypeModel::StructType { generics: g2, .. }) => {
            lemma_children_strict_implies_loose(a, b, reg, generic_keys(g1), generic_keys(g2));
        },
        _ => {},
    }
}

proof fn lemma_child_strict_implies_loose(a: AstTypeModel, b: AstTypeModel, reg: Map<u64, AstTypeModel>, u1: u64, u2: u64)
    requires
        child_equal(a, b, reg, false, u1, u2),
    ensures
        child_equal(a, b, reg, true, u1, u2),
    decreases max_level(reg, a, b), level(reg, a) + level(reg, b), 0nat, 0nat,
{
    let x = entry_type(reg, u1);
    let y = entry_type(reg, u2);
    if level(reg, x) < level(reg, a) && level(reg, y) < level(reg, b) {
        lemma_strict_implies_loose(x, y, reg);
    }
}

proof fn lemma_children_strict_implies_loose(a: AstTypeModel, b: AstTypeModel, reg: Map<u64, AstTypeModel>, s1: Seq<u64>, s2: Seq<u64>)
    requires
        children_equal(a, b, reg, false, s1, s2),
    ensures
        children_equal(a, b, reg, true, s1, s2),
    decreases max_level(reg, a, b), level(reg, a) + level(reg, b), 0nat, s1.len(),
{
    if s1.len() > 0 {
        lemma_children_strict_implies_loose(a, b, reg, s1.drop_last(), s2.drop_last());
        lemma_child_strict_implies_loose(a, b, reg, s1.last(), s2.last());
    }
}

// ---------------------------------------------------------------------------
// Type names in mangled function names.
// ---------------------------------------------------------------------------

/// Whether the type under entry `u` of `t` has a name (see `nameable`).
pub open spec fn child_nameable(t: AstTypeModel, reg: Map<u64, AstTypeModel>, u: u64) -> bool
    decreases level(reg, t), 0nat, 0nat,
{
    let x = entry_type(reg, u);
    level(reg, x) < level(reg, t) && nameable(x, reg)
}

/// Whether the types under all the entries `s` of `t` have names.
pub open spec fn children_nameable(t: AstTypeModel, reg: Map<u64, AstTypeModel>, s: Seq<u64>) -> bool
    decreases level(reg, t), 0nat, s.len(),
{
    s.len() == 0 || (children_nameable(t, reg, s.drop_last()) && child_nameable(t, reg, s.last()))
}

/// Whether a type has a name in mangled names: function, overload set, enum and
/// errored types have none, nor has a type that contains one of them.
pub open spec fn nameable(t: AstTypeModel, reg: Map<u64, AstTypeModel>) -> bool
    decreases level(reg, t), 1nat, 0nat,
{
    match t {
        AstTypeModel::Void | AstTypeModel::Bool | AstTypeModel::Int | AstTypeModel::Float
        | AstTypeModel::StringType | AstTypeModel::SymbolType { .. } | AstTypeModel::GenericType { .. }
        | AstTypeModel::UnknownType => true,
        AstTypeModel::ReferenceType { underlying } => child_nameable(t, reg, underlying),
        AstTypeModel::NullableType { underlying } => child_nameable(t, reg, underlying),
        AstTypeModel::ArrayType { underlying } => child_nameable(t, reg, underlying),
        AstTypeModel::TupleType(ts) => children_nameable(t, reg, ts),
        AstTypeModel::StructType { generics, .. } => children_nameable(t, reg, generic_keys(generics)),
        _ => false,
    }
}

/// The name of the type under entry `u` of `t`.
pub open spec fn child_name(t: AstTypeModel, reg: Map<u64, AstTypeModel>, u: u64) -> Seq<char>
    decreases level(reg, t), 0nat, 0nat,
{
    let x = entry_type(reg, u);
    if level(reg, x) < level(reg, t) {
        mangled_type_name(x, reg)
    } else {
        Seq::empty()
    }
}

/// The names of the types under the entries `s` of `t`, one after another.
pub open spec fn child_names(t: AstTypeModel, reg: Map<u64, AstTypeModel>, s: Seq<u64>) -> Seq<char>
    decreases level(reg, t), 0nat, s.len(),
{
    if s.len() == 0 {
        Seq::empty()
    } else {
        child_names(t, reg, s.drop_last()) + child_name(t, reg, s.last())
    }
}

/// The name of a type in mangled function names.
pub open spec fn mangled_type_name(t: AstTypeModel, reg: Map<u64, AstTypeModel>) -> Seq<char>
    decreases level(reg, t), 1nat, 0nat,
{
    match t {
        AstTypeModel::Void => "V"@,
        AstTypeModel::Bool => "b"@,
        AstTypeModel::Int => "i"@,
        AstTypeModel::Float => "f"@,
        AstTypeModel::StringType => "s"@,
        AstTypeModel::SymbolType { name, .. } => "L"@ + name + ";"@,
        AstTypeModel::ReferenceType { underlying } => child_name(t, reg, underlying),
        AstTypeModel::ArrayType { underlying } => "A"@ + child_name(t, reg, underlying) + ";"@,
        AstTypeModel::TupleType(ts) => "T"@ + child_names(t, reg, ts) + ";"@,
        AstTypeModel::StructType { name, generics, .. } => "L"@ + name + "_"@ + child_names(
            t,
            reg,
            generic_keys(generics),
        ) + ";"@,
        AstTypeModel::NullableType { underlying } => child_name(t, reg, underlying),
        AstTypeModel::GenericType { .. } => "g"@,
        AstTypeModel::UnknownType => "?"@,
        _ => Seq::empty(),
    }
}

/// Facts about the children of a nameable type.
pub proof fn lemma_children_nameable(t: AstTypeModel, reg: Map<u64, AstTypeModel>, s: Seq<u64>, i: int)
    requires
        children_nameable(t, reg, s),
        0 <= i < s.len(),
    ensures
        child_nameable(t, reg, s[i]),
    decreases s.len(),
{
    if i < s.len() - 1 {
        assert(s.drop_last()[i] == s[i]);
        lemma_children_nameable(t, reg, s.drop_last(), i);
    }
}

impl AstType {
    /// The name of this type in mangled function names.
    pub fn get_type_name(&self, registry: &TypeRegistry) -> (r: String)
        requires
            registry.acyclic(),
            nameable(self@, registry.types()),
        ensures
            r@ == mangled_type_name(self@, registry.types()),
        decreases level(registry.types(), self@), 2nat, 0nat,
    {
        let ghost t = self@;
        let ghost reg = registry.types();
        match self {
            AstType::Void => to_owned_string("V"),
            AstType::Bool => to_owned_string("b"),
            AstType::Int => to_owned_string("i"),
            AstType::Float => to_owned_string("f"),
            AstType::StringType => to_owned_string("s"),
            AstType::SymbolType { name: n, .. } => {
                let mut r = to_owned_string("L");
                push_str(&mut r, n.as_str());
                push_str(&mut r, ";");
                r
            },
            AstType::ReferenceType { underlying } => Self::child_type_name(underlying, registry, Ghost(t), Ghost(0)),
            AstType::ArrayType { underlying } => {
                let mut r = to_owned_string("A");
                let sub = Self::child_type_name(underlying, registry, Ghost(t), Ghost(0));
                push_str(&mut r, sub.as_str());
                push_str(&mut r, ";");
                r
            },
            AstType::TupleType(types) => {
                let mut name = to_owned_string("T");
                let names = Self::type_names(types, registry, Ghost(t));
                push_str(&mut name, names.as_str());
                push_str(&mut name, ";");
                name
            },
            AstType::StructType { name, generics, .. } => {
                let mut r = to_owned_string("L");
                push_str(&mut r, name.as_str());
                push_str(&mut r, "_");
                let pairs = generics_pairs(generics);
                let vals = Self::values_of(&pairs);
                proof {
                    assert(keys_of(vals@) == generic_keys(generic_entries(*generics)));
                }
                let names = Self::type_names(&vals, registry, Ghost(t));
                push_str(&mut r, names.as_str());
                push_str(&mut r, ";");
                r
            },
            AstType::NullableType { underlying } => Self::child_type_name(underlying, registry, Ghost(t), Ghost(0)),
            AstType::GenericType { .. } => to_owned_string("g"),
            AstType::UnknownType => to_owned_string("?"),
            _ => String::new(),
        }
    }

    /// The name of the type under `e`, which is entry `j` of `t`.
    fn child_type_name(e: &TypeEntry, registry: &TypeRegistry, Ghost(t): Ghost<AstTypeModel>, Ghost(j): Ghost<int>) -> (r: String)
        requires
            registry.acyclic(),
            0 <= j < refs(t).len(),
            refs(t)[j] == e.key,
            child_nameable(t, registry.types(), e.key),
        ensures
            r@ == child_name(t, registry.types(), e.key),
        decreases level(registry.types(), t), 0nat, 0nat,
    {
        proof {
            lemma_child_level(registry.types(), t, j);
        }
        e.get(registry).get_type_name(registry)
    }

    /// The names of the types under the entries `v` of `t`, one after another.
    fn type_names(v: &Vec<TypeEntry>, registry: &TypeRegistry, Ghost(t): Ghost<AstTypeModel>) -> (r: String)
        requires
            registry.acyclic(),
            refs(t) == keys_of(v@),
            children_nameable(t, registry.types(), keys_of(v@)),
        ensures
            r@ == child_names(t, registry.types(), keys_of(v@)),
        decreases level(registry.types(), t), 1nat, 0nat,
    {
        let ghost s = keys_of(v@);
        let mut r = String::new();
        let mut i: usize = 0;
        while i < v.len()
            invariant
                registry.acyclic(),
                refs(t) == s,
                s == keys_of(v@),
                children_nameable(t, registry.types(), s),
                i <= v@.len(),
                r@ == child_names(t, registry.types(), s.take(i as int)),
            decreases v@.len() - i,
        {
            proof {
                lemma_children_nameable(t, registry.types(), s, i as int);
            }
            let part = Self::child_type_name(&v[i], registry, Ghost(t), Ghost(i as int));
            push_str(&mut r, part.as_str());
            assert(s.take(i + 1).drop_last() == s.take(i as int));
            i += 1;
        }
        assert(s.take(v@.len() as int) == s);
        r
    }

    /// The number of words a value of this type takes: none for `void`, one otherwise.
    pub fn word_size(&self, registry: &TypeRegistry) -> (n: u32)
        ensures
            n == if self@ is Void { 0u32 } else { 1u32 },
    {
        if matches!(self, AstType::Void) {
            return 0;
        }
        1
    }
}

// ---------------------------------------------------------------------------
// The type that an assignment gives.
// ---------------------------------------------------------------------------

/// The outcome of working out an assignment: the resulting type if any, and the
/// registry and next key after the types it recorded.
pub type AssignOutcome = (Option<AstTypeModel>, Map<u64, AstTypeModel>, int);

/// Assigning a value of a type equal to the variable's gives that type back and
/// records nothing.
pub proof fn lemma_assign_equal_types(a: AstTypeModel, b: AstTypeModel, reg: Map<u64, AstTypeModel>, next: int)
    requires
        types_equal(a, b, reg, false),
    ensures
        assign_result(a, b, reg, next) == (Some(b), reg, next),
{
}

/// The type that assigning a value of type `b` to a slot of type `a` gives, if the
/// assignment is allowed, with the registry (`reg`, next key `next`) after it.
pub open spec fn assign_result(a: AstTypeModel, b: AstTypeModel, reg: Map<u64, AstTypeModel>, next: int) -> AssignOutcome
    decreases height(a), 1nat, 0nat,
{
    if types_equal(a, b, reg, false) {
        (Some(b), reg, next)
    } else {
        match (a, b) {
            (AstTypeModel::UnknownType, _) => (Some(b), reg, next),
            (_, AstTypeModel::UnknownType) => (Some(a), reg, next),
            (AstTypeModel::Float, AstTypeModel::Int) => (Some(AstTypeModel::Float), reg, next),
            (AstTypeModel::NullableType { underlying: u1 }, AstTypeModel::NullableType { underlying: u2 }) => {
                if entry_type(reg, u1) is UnknownType {
                    (Some(AstTypeModel::NullableType { underlying: u2 }), reg, next)
                } else if entry_type(reg, u2) is UnknownType {
                    (Some(a), reg, next)
                } else {
                    (None, reg, next)
                }
            },
            (AstTypeModel::NullableType { underlying }, _) => {
                let x = entry_type(reg, underlying);
                if x is UnknownType {
                    (Some(AstTypeModel::NullableType { underlying: next as u64 }), reg.insert(next as u64, b), next + 1)
                } else if height(x) < height(a) {
                    let (r, reg2, next2) = assign_result(x, b, reg, next);
                    match r {
                        Some(res) => (
                            Some(AstTypeModel::NullableType { underlying: next2 as u64 }),
                            reg2.insert(next2 as u64, res),
                            next2 + 1,
                        ),
                        None => (None, reg2, next2),
                    }
                } else {
                    (None, reg, next)
                }
            },
            (
                AstTypeModel::StructType { name: n1, generics: g1, fields, children },
                AstTypeModel::StructType { name: n2, generics: g2, .. },
            ) => {
                if n1 != n2 || g1.len() != g2.len() {
                    (None, reg, next)
                } else {
                    let (r, reg2, next2) = assign_generics(a, g1, g2, 0, Seq::empty(), reg, next);
                    match r {
                        Some(entries) => (
                            Some(AstTypeModel::StructType { name: n1, generics: entries, fields, children }),
                            reg2,
                            next2,
                        ),
                        None => (None, reg2, next2),
                    }
                }
            },
            _ => (None, reg, next),
        }
    }
}

/// Working out the generic arguments of a struct assignment from position `k` on,
/// with the arguments `acc` worked out so far.
pub open spec fn assign_generics(
    a: AstTypeModel,
    g1: Seq<(Seq<char>, u64)>,
    g2: Seq<(Seq<char>, u64)>,
    k: int,
    acc: Seq<(Seq<char>, u64)>,
    reg: Map<u64, AstTypeModel>,
    next: int,
) -> (Option<Seq<(Seq<char>, u64)>>, Map<u64, AstTypeModel>, int)
    decreases height(a), 0nat, g1.len() - k,
{
    if k >= g1.len() || k < 0 {
        (Some(acc), reg, next)
    } else if g1[k].0 != g2[k].0 {
        (None, reg, next)
    } else {
        let x = entry_type(reg, g1[k].1);
        let y = entry_type(reg, g2[k].1);
        if height(x) < height(a) {
            let (r, reg2, next2) = assign_result(x, y, reg, next);
            match r {
                Some(res) => assign_generics(
                    a,
                    g1,
                    g2,
                    k + 1,
                    entries_insert(acc, g1[k].0, next2 as u64),
                    reg2.insert(next2 as u64, res),
                    next2 + 1,
                ),
                None => (None, reg2, next2),
            }
        } else {
            (None, reg, next)
        }
    }
}

impl AstType {
    /// The type that assigning a value of type `other` to a slot of this type
    /// gives, if the assignment is allowed. The types it builds are recorded in
    /// the registry.
    pub fn get_assign_result(&self, other: Self, registry: &mut TypeRegistry) -> (r: Option<Self>)
        requires
            old(registry).wf(),
            refs_below(other@, old(registry).next_key() as int),
            assign_result(self@, other@, old(registry).types(), old(registry).next_key() as int).2 <= u64::MAX,
        ensures
            ({
                let (res, reg2, next2) = assign_result(self@, other@, old(registry).types(), old(registry).next_key() as int);
                &&& final(registry).types() == reg2
                &&& final(registry).next_key() == next2
                &&& match (r, res) {
                    (Some(t), Some(m)) => t@ == m,
                    (None, None) => true,
                    _ => false,
                }
            }),
            final(registry).wf(),
            final(registry).next_key() >= old(registry).next_key(),
            r matches Some(t) ==> refs_below(t@, final(registry).next_key() as int) || t@ == self@,
        decreases height(self@), 1nat, 0nat,
    {
        let ghost reg0 = registry.types();
        let ghost next0 = registry.next_key() as int;
        if self.equals(&other, registry) {
            return Some(other);
        }
        if matches!(self, AstType::UnknownType) {
            return Some(other);
        }
        if matches!(other, AstType::UnknownType) {
            return Some(self.duplicate());
        }
        if matches!(self, AstType::Float) && matches!(other, AstType::Int) {
            return Some(AstType::Float);
        }
        match self {
            AstType::NullableType { underlying } => {
                let inner = underlying.get(registry);
                match other {
                    AstType::NullableType { underlying: other_underlying } => {
                        if matches!(inner, AstType::UnknownType) {
                            Some(AstType::NullableType { underlying: other_underlying })
                        } else if matches!(other_underlying.get(registry), AstType::UnknownType) {
                            Some(self.duplicate())
                        } else {
                            None
                        }
                    },
                    _ => {
                        if matches!(inner, AstType::UnknownType) {
                            let e = registry.register(other);
                            Some(AstType::NullableType { underlying: e })
                        } else {
                            proof {
                                assert(refs(self@)[0] == underlying.key);
                                lemma_child_lower(reg0, registry.next_key(), self@, 0);
                                lemma_entry_refs_below(reg0, registry.next_key(), underlying.key);
                                lemma_assign_grows(inner@, other@, reg0, next0);
                            }
                            let res = inner.get_assign_result(other, registry);
                            match res {
                                Some(t) => {
                                    let e = registry.register(t);
                                    Some(AstType::NullableType { underlying: e })
                                },
                                None => None,
                            }
                        }
                    },
                }
            },
            AstType::StructType { name: n1, generics: g1, fields, children } => {
                match &other {
                    AstType::StructType { name: n2, generics: g2, .. } => {
                        if !same_text(n1, n2) {
                            return None;
                        }
                        let p1 = generics_pairs(g1);
                        let p2 = generics_pairs(g2);
                        let ghost e1 = generic_entries(*g1);
                        let ghost e2 = generic_entries(*g2);
                        assert(p1@.len() == e1.len());
                        assert(p2@.len() == e2.len());
                        if p1.len() != p2.len() {
                            return None;
                        }
                        let ghost total = assign_generics(self@, e1, e2, 0, Seq::empty(), reg0, next0);
                        assert(assign_result(self@, other@, reg0, next0).1 == total.1);
                        assert(assign_result(self@, other@, reg0, next0).2 == total.2);
                        assert(total.0 is None ==> assign_result(self@, other@, reg0, next0).0 is None);
                        let mut acc = generics_new();
                        let mut k: usize = 0;
                        while k < p1.len()
                            invariant
                                registry.wf(),
                                k <= p1@.len(),
                                p1@.len() == e1.len(),
                                p2@.len() == e2.len(),
                                e1.len() == e2.len(),
                                e1 == p1@.map_values(|p: (String, TypeEntry)| (p.0@, p.1.key)),
                                e2 == p2@.map_values(|p: (String, TypeEntry)| (p.0@, p.1.key)),
                                refs(self@) == e1.map_values(|p: (Seq<char>, u64)| p.1),
                                registry.next_key() >= next0,
                                next0 == old(registry).next_key(),
                                reg0 == old(registry).types(),
                                total == assign_generics(self@, e1, e2, 0, Seq::empty(), reg0, next0),
                                assign_result(self@, other@, reg0, next0).1 == total.1,
                                assign_result(self@, other@, reg0, next0).2 == total.2,
                                total.0 is None ==> assign_result(self@, other@, reg0, next0).0 is None,
                                assign_generics(self@, e1, e2, k as int, generic_entries(acc), registry.types(), registry.next_key() as int)
                                    == assign_generics(self@, e1, e2, 0, Seq::empty(), reg0, next0),
                                assign_generics(self@, e1, e2, 0, Seq::empty(), reg0, next0).2 <= u64::MAX,
                                forall|j: int| 0 <= j < generic_entries(acc).len()
                                    ==> (#[trigger] generic_entries(acc)[j]).1 < registry.next_key(),
                            decreases p1@.len() - k,
                        {
                            let ghost acc0 = generic_entries(acc);
                            let ghost reg_k = registry.types();
                            let ghost next_k = registry.next_key() as int;
                            assert(e1[k as int] == (p1@[k as int].0@, p1@[k as int].1.key));
                            assert(e2[k as int] == (p2@[k as int].0@, p2@[k as int].1.key));
                            if !same_text(&p1[k].0, &p2[k].0) {
                                assert(assign_generics(self@, e1, e2, k as int, acc0, reg_k, next_k)
                                    == (None::<Seq<(Seq<char>, u64)>>, reg_k, next_k));
                                return None;
                            }
                            let a = p1[k].1.get(registry);
                            let b = p2[k].1.get(registry);
                            proof {
                                assert(refs(self@)[k as int] == e1[k as int].1);
                                lemma_child_lower(reg_k, registry.next_key(), self@, k as int);
                                lemma_entry_refs_below(reg_k, registry.next_key(), e2[k as int].1);
                                lemma_assign_grows(a@, b@, reg_k, next_k);
                                let (r, reg2, next2) = assign_result(a@, b@, reg_k, next_k);
                                if r is Some {
                                    lemma_assign_generics_grows(
                                        self@, e1, e2, k + 1,
                                        entries_insert(acc0, e1[k as int].0, next2 as u64),
                                        reg2.insert(next2 as u64, r->0), next2 + 1,
                                    );
                                }
                            }
                            let res = a.get_assign_result(b, registry);
                            match res {
                                Some(t) => {
                                    let e = registry.register(t);
                                    generics_insert(&mut acc, p1[k].0.clone(), e);
                                    proof {
                                        let s = generic_entries(acc);
                                        assert forall|j: int| 0 <= j < s.len() implies (#[trigger] s[j]).1 < registry.next_key() by {
                                            if exists|i: int| 0 <= i < acc0.len() && (#[trigger] acc0[i]).0 == e1[k as int].0 {
                                                let i = choose|i: int| 0 <= i < acc0.len() && (#[trigger] acc0[i]).0 == e1[k as int].0;
                                                assert(s == acc0.update(i, (e1[k as int].0, e.key)));
                                                if j != i {
                                                    assert(s[j] == acc0[j]);
                                                }
                                            } else {
                                                assert(s == acc0.push((e1[k as int].0, e.key)));
                                                if j < acc0.len() {
                                                    assert(s[j] == acc0[j]);
                                                }
                                            }
                                        }
                                    }
                                },
                                None => {
                                    proof {
                                        assert(a@ == entry_type(reg_k, e1[k as int].1));
                                        assert(b@ == entry_type(reg_k, e2[k as int].1));
                                        assert(assign_generics(self@, e1, e2, k as int, acc0, reg_k, next_k)
                                            == (None::<Seq<(Seq<char>, u64)>>, registry.types(), registry.next_key() as int));
                                    }
                                    return None;
                                },
                            }
                            k += 1;
                        }
                        let r = AstType::StructType {
                            name: n1.clone(),
                            generics: acc,
                            fields: copy_members(fields),
                            children: children.clone(),
                        };
                        proof {
                            let s = generic_entries(acc);
                            assert forall|j: int| 0 <= j < refs(r@).len() implies (#[trigger] refs(r@)[j]) < registry.next_key() by {
                                assert(refs(r@)[j] == s[j].1);
                            }
                        }
                        Some(r)
                    },
                    _ => None,
                }
            },
            _ => None,
        }
    }
}

/// Working out an assignment leaves every type recorded under a key below the
/// next key as it was: the types it records go under new keys.
pub proof fn lemma_assign_keeps_entries(a: AstTypeModel, b: AstTypeModel, reg: Map<u64, AstTypeModel>, next: int, k: u64)
    requires
        0 <= next,
        k < next,
        assign_result(a, b, reg, next).2 <= u64::MAX,
    ensures
        assign_result(a, b, reg, next).1.contains_key(k) == reg.contains_key(k),
        reg.contains_key(k) ==> assign_result(a, b, reg, next).1[k] == reg[k],
    decreases height(a), 1nat, 0nat,
{
    if !types_equal(a, b, reg, false) {
        match (a, b) {
            (AstTypeModel::UnknownType, _) => {},
            (_, AstTypeModel::UnknownType) => {},
            (AstTypeModel::Float, AstTypeModel::Int) => {},
            (AstTypeModel::NullableType { .. }, AstTypeModel::NullableType { .. }) => {},
            (AstTypeModel::NullableType { underlying }, _) => {
                let x = entry_type(reg, underlying);
                if !(x is UnknownType) && height(x) < height(a) {
                    lemma_assign_grows(x, b, reg, next);
                    lemma_assign_keeps_entries(x, b, reg, next, k);
                }
            },
            (
                AstTypeModel::StructType { name: n1, generics: g1, .. },
                AstTypeModel::StructType { name: n2, generics: g2, .. },
            ) => {
                if !(n1 != n2 || g1.len() != g2.len()) {
                    lemma_assign_generics_keeps_entries(a, g1, g2, 0, Seq::empty(), reg, next, k);
                }
            },
            _ => {},
        }
    }
}

/// Working out the generic arguments of a struct assignment leaves every type
/// recorded under a key below the next key as it was.
pub proof fn lemma_assign_generics_keeps_entries(
    a: AstTypeModel,
    g1: Seq<(Seq<char>, u64)>,
    g2: Seq<(Seq<char>, u64)>,
    i: int,
    acc: Seq<(Seq<char>, u64)>,
    reg: Map<u64, AstTypeModel>,
    next: int,
    k: u64,
)
    requires
        0 <= next,
        k < next,
        assign_generics(a, g1, g2, i, acc, reg, next).2 <= u64::MAX,
    ensures
        assign_generics(a, g1, g2, i, acc, reg, next).1.contains_key(k) == reg.contains_key(k),
        reg.contains_key(k) ==> assign_generics(a, g1, g2, i, acc, reg, next).1[k] == reg[k],
    decreases height(a), 0nat, g1.len() - i,
{
    if !(i >= g1.len() || i < 0) && g1[i].0 == g2[i].0 {
        let x = entry_type(reg, g1[i].1);
        let y = entry_type(reg, g2[i].1);
        if height(x) < height(a) {
            lemma_assign_grows(x, y, reg, next);
            let (r, reg2, next2) = assign_result(x, y, reg, next);
            match r {
                Some(res) => {
                    lemma_assign_generics_grows(
                        a, g1, g2, i + 1,
                        entries_insert(acc, g1[i].0, next2 as u64),
                        reg2.insert(next2 as u64, res),
                        next2 + 1,
                    );
                    lemma_assign_keeps_entries(x, y, reg, next, k);
                    lemma_assign_generics_keeps_entries(
                        a, g1, g2, i + 1,
                        entries_insert(acc, g1[i].0, next2 as u64),
                        reg2.insert(next2 as u64, res),
                        next2 + 1,
                        k,
                    );
                },
                None => {
                    lemma_assign_keeps_entries(x, y, reg, next, k);
                },
            }
        }
    }
}

/// Working out an assignment never lowers the next key.
proof fn lemma_assign_grows(a: AstTypeModel, b: AstTypeModel, reg: Map<u64, AstTypeModel>, next: int)
    ensures
        assign_result(a, b, reg, next).2 >= next,
    decreases height(a), 1nat, 0nat,
{
    if !types_equal(a, b, reg, false) {
        match (a, b) {
            (AstTypeModel::UnknownType, _) => {},
            (_, AstTypeModel::UnknownType) => {},
            (AstTypeModel::Float, AstTypeModel::Int) => {},
            (AstTypeModel::NullableType { .. }, AstTypeModel::NullableType { .. }) => {},
            (AstTypeModel::NullableType { underlying }, _) => {
                let x = entry_type(reg, underlying);
                if !(x is UnknownType) && height(x) < height(a) {
                    lemma_assign_grows(x, b, reg, next);
                }
            },
            (
                AstTypeModel::StructType { name: n1, generics: g1, .. },
                AstTypeModel::StructType { name: n2, generics: g2, .. },
            ) => {
                if !(n1 != n2 || g1.len() != g2.len()) {
                    lemma_assign_generics_grows(a, g1, g2, 0, Seq::empty(), reg, next);
                }
            },
            _ => {},
        }
    }
}

/// Working out the generic arguments of a struct assignment never lowers the next key.
proof fn lemma_assign_generics_grows(
    a: AstTypeModel,
    g1: Seq<(Seq<char>, u64)>,
    g2: Seq<(Seq<char>, u64)>,
    k: int,
    acc: Seq<(Seq<char>, u64)>,
    reg: Map<u64, AstTypeModel>,
    next: int,
)
    ensures
        assign_generics(a, g1, g2, k, acc, reg, next).2 >= next,
    decreases height(a), 0nat, g1.len() - k,
{
    if !(k >= g1.len() || k < 0) && g1[k].0 == g2[k].0 {
        let x = entry_type(reg, g1[k].1);
        let y = entry_type(reg, g2[k].1);
        if height(x) < height(a) {
            lemma_assign_grows(x, y, reg, next);
            let (r, reg2, next2) = assign_result(x, y, reg, next);
            if let Some(res) = r {
                lemma_assign_generics_grows(
                    a, g1, g2, k + 1,
                    entries_insert(acc, g1[k].0, next2 as u64),
                    reg2.insert(next2 as u64, res),
                    next2 + 1,
                );
            }
        }
    }
}

impl Clone for AstType {
    fn clone(&self) -> (t: Self)
        ensures
            t@ == self@,
    {
        self.duplicate()
    }
}

} // verus!
