use vstd::prelude::*;
use std::collections::HashMap;
use crate::analysis::type_registry::{TypeEntry, TypeRegistry};
use crate::ast::ast_type::{
    child_named, generic_entries, generics_insert, generics_new, insert_member, new_members, AstType, AstTypeModel,
    MemberInfo,
};
use crate::ast::modifier::Modifier;
use crate::text::to_owned_string;

verus! {

/// The mangled names of the functions that the runtime implements itself, with the
/// number of words their arguments take.
pub fn get_injected_function_identifiers() -> (v: Vec<(&'static str, u32)>)
    ensures
        v@.len() == 5,
        v@[0].0@ == "int_f"@ && v@[0].1 == 1,
        v@[1].0@ == "float_i"@ && v@[1].1 == 1,
        v@[2].0@ == "__heap_alloc_i"@ && v@[2].1 == 1,
        v@[3].0@ == "address$__load_at_i"@ && v@[3].1 == 2,
        v@[4].0@ == "address$__store_at_ig"@ && v@[4].1 == 3,
{
    let mut v: Vec<(&'static str, u32)> = Vec::new();
    v.push(("int_f", 1));
    v.push(("float_i", 1));
    v.push(("__heap_alloc_i", 1));
    v.push(("address$__load_at_i", 2));
    v.push(("address$__store_at_ig", 3));
    v
}

/// A function type with no modifier and no generic parameters.
pub open spec fn plain_function(name: Seq<char>, params: Seq<u64>, ret: u64) -> AstTypeModel {
    AstTypeModel::FunctionType {
        name,
        modifier: Modifier { public: None, is_static: None },
        generics: Seq::empty(),
        params,
        return_type: ret,
    }
}

/// `fn __store_at<T>(off: int, value: T)` as recorded from key `n` on: `T` stands
/// for entry `n + 4`, the parameters are entries `n + 6` and `n + 5`, the result
/// entry `n + 7`.
pub open spec fn store_at_function(n: u64) -> AstTypeModel {
    AstTypeModel::FunctionType {
        name: "__store_at"@,
        modifier: Modifier { public: None, is_static: None },
        generics: seq![("T"@, (n + 4) as u64)],
        params: seq![(n + 6) as u64, (n + 5) as u64],
        return_type: (n + 7) as u64,
    }
}

/// The registry after recording the parts of the `address` struct, from key `n` on.
pub open spec fn address_parts(reg: Map<u64, AstTypeModel>, n: u64) -> Map<u64, AstTypeModel> {
    reg.insert(n, AstTypeModel::Int)
        .insert((n + 1) as u64, AstTypeModel::UnknownType)
        .insert((n + 2) as u64, plain_function("__load_at"@, seq![n], (n + 1) as u64))
        .insert((n + 3) as u64, AstTypeModel::FunctionsType { name: "__load_at"@, overloads: seq![(n + 2) as u64] })
        .insert((n + 4) as u64, AstTypeModel::UnknownType)
        .insert((n + 5) as u64, AstTypeModel::GenericType { name: "T"@ })
        .insert((n + 6) as u64, AstTypeModel::Int)
        .insert((n + 7) as u64, AstTypeModel::Void)
        .insert((n + 8) as u64, store_at_function(n))
        .insert((n + 9) as u64, AstTypeModel::FunctionsType { name: "__store_at"@, overloads: seq![(n + 8) as u64] })
}

/// Whether `t` is the `address` struct: no generic parameters, no fields.
pub open spec fn is_address_struct(t: AstTypeModel) -> bool {
    t matches AstTypeModel::StructType { name, generics, fields, .. }
        && name == "address"@ && generics.len() == 0 && fields.len() == 0
}

/// Whether `get` finds, under `name`, the member named `name` of type `typ` at
/// position `index`.
pub open spec fn has_member(children: Map<String, MemberInfo>, name: Seq<char>, typ: u64, index: u16) -> bool {
    child_named(children, name) matches Some(m) && m.typ.key == typ && m.name@ == name && m.index == index
}

/// Whether `t` holds the two methods of `address` recorded from key `n` on:
/// `__load_at` (entry `n + 3`, position 1) and `__store_at` (entry `n + 9`,
/// position 2), and nothing else.
pub open spec fn has_address_methods(t: AstTypeModel, n: u64) -> bool {
    t matches AstTypeModel::StructType { children, .. } && has_member(children, "__load_at"@, (n + 3) as u64, 1)
        && has_member(children, "__store_at"@, (n + 9) as u64, 2) && forall|s: Seq<char>|
        s != "__load_at"@ && s != "__store_at"@ ==> #[trigger] child_named(children, s) is None
}

/// The registry after recording what `__heap_alloc` refers to, from key `n` on: the
/// parts of `address`, then `int` and `address` themselves.
pub open spec fn heap_alloc_parts(reg: Map<u64, AstTypeModel>, n: u64, address: AstTypeModel) -> Map<u64, AstTypeModel> {
    address_parts(reg, n).insert((n + 10) as u64, AstTypeModel::Int).insert((n + 11) as u64, address)
}

/// The functions that the runtime implements itself: `__heap_alloc`, `int` and `float`.
pub fn get_injected_functions(registry: &mut TypeRegistry) -> (v: Vec<AstType>)
    requires
        old(registry).wf(),
        old(registry).next_key() + 16 <= u64::MAX,
    ensures
        final(registry).wf(),
        final(registry).next_key() == old(registry).next_key() + 16,
        v@.len() == 3,
        v@[0]@ == plain_function("__heap_alloc"@, seq![(old(registry).next_key() + 10) as u64], (old(registry).next_key() + 11) as u64),
        final(registry).types()[(old(registry).next_key() + 10) as u64] == AstTypeModel::Int,
        is_address_struct(final(registry).types()[(old(registry).next_key() + 11) as u64]),
        has_address_methods(final(registry).types()[(old(registry).next_key() + 11) as u64], old(registry).next_key()),
        v@[1]@ == plain_function("int"@, seq![(old(registry).next_key() + 12) as u64], (old(registry).next_key() + 13) as u64),
        v@[2]@ == plain_function("float"@, seq![(old(registry).next_key() + 14) as u64], (old(registry).next_key() + 15) as u64),
        final(registry).types()[(old(registry).next_key() + 12) as u64] == AstTypeModel::Float,
        final(registry).types()[(old(registry).next_key() + 13) as u64] == AstTypeModel::Int,
        final(registry).types()[(old(registry).next_key() + 14) as u64] == AstTypeModel::Int,
        final(registry).types()[(old(registry).next_key() + 15) as u64] == AstTypeModel::Float,
        forall|k: u64| old(registry).types().contains_key(k) ==> #[trigger] final(registry).types()[k] == old(registry).types()[k],
{
    let ghost n = registry.next_key();
    let ghost reg0 = registry.types();
    let h = heap_alloc_func(registry);
    let i = int_func(registry);
    let f = float_func(registry);
    proof {
        assert forall|k: u64| reg0.contains_key(k) implies #[trigger] registry.types()[k] == reg0[k] by {
            assert(k < n);
        }
    }
    let mut v: Vec<AstType> = Vec::new();
    v.push(h);
    v.push(i);
    v.push(f);
    v
}

/// The structs that the runtime implements itself: `address`.
pub fn get_injected_structs(registry: &mut TypeRegistry) -> (v: Vec<AstType>)
    requires
        old(registry).wf(),
        old(registry).next_key() + 10 <= u64::MAX,
    ensures
        final(registry).wf(),
        final(registry).next_key() == old(registry).next_key() + 10,
        final(registry).types() == address_parts(old(registry).types(), old(registry).next_key()),
        v@.len() == 1,
        is_address_struct(v@[0]@),
        has_address_methods(v@[0]@, old(registry).next_key()),
{
    let a = address_struct(registry);
    let mut v: Vec<AstType> = Vec::new();
    v.push(a);
    v
}

/// `fn __heap_alloc(size: int) -> address;`
fn heap_alloc_func(registry: &mut TypeRegistry) -> (t: AstType)
    requires
        old(registry).wf(),
        old(registry).next_key() + 12 <= u64::MAX,
    ensures
        final(registry).wf(),
        final(registry).next_key() == old(registry).next_key() + 12,
        is_address_struct(final(registry).types()[(old(registry).next_key() + 11) as u64]),
        has_address_methods(final(registry).types()[(old(registry).next_key() + 11) as u64], old(registry).next_key()),
        final(registry).types() == heap_alloc_parts(
            old(registry).types(),
            old(registry).next_key(),
            final(registry).types()[(old(registry).next_key() + 11) as u64],
        ),
        t@ == plain_function("__heap_alloc"@, seq![(old(registry).next_key() + 10) as u64], (old(registry).next_key() + 11) as u64),
{
    let return_type = address_struct(registry);
    let ghost address = return_type@;
    let param = registry.register(AstType::Int);
    let ret = registry.register(return_type);
    let mut params: Vec<TypeEntry> = Vec::new();
    params.push(param);
    assert(params@.map_values(|e: TypeEntry| e.key) =~= seq![param.key]);
    let t = AstType::FunctionType {
        name: to_owned_string("__heap_alloc"),
        modifier: Modifier::new(),
        generics: generics_new(),
        params,
        return_type: ret,
    };
    assert(registry.types()[ret.key] == address);
    t
}

/// `fn int(value: float) -> int;`
fn int_func(registry: &mut TypeRegistry) -> (t: AstType)
    requires
        old(registry).wf(),
        old(registry).next_key() + 2 <= u64::MAX,
    ensures
        final(registry).wf(),
        final(registry).next_key() == old(registry).next_key() + 2,
        final(registry).types() == old(registry).types().insert(old(registry).next_key(), AstTypeModel::Float)
            .insert((old(registry).next_key() + 1) as u64, AstTypeModel::Int),
        t@ == plain_function("int"@, seq![old(registry).next_key()], (old(registry).next_key() + 1) as u64),
{
    let param = registry.register(AstType::Float);
    let ret = registry.register(AstType::Int);
    let mut params: Vec<TypeEntry> = Vec::new();
    params.push(param);
    assert(params@.map_values(|e: TypeEntry| e.key) =~= seq![param.key]);
    AstType::FunctionType {
        name: to_owned_string("int"),
        modifier: Modifier::new(),
        generics: generics_new(),
        params,
        return_type: ret,
    }
}

/// `fn float(value: int) -> float;`
fn float_func(registry: &mut TypeRegistry) -> (t: AstType)
    requires
        old(registry).wf(),
        old(registry).next_key() + 2 <= u64::MAX,
    ensures
        final(registry).wf(),
        final(registry).next_key() == old(registry).next_key() + 2,
        final(registry).types() == old(registry).types().insert(old(registry).next_key(), AstTypeModel::Int)
            .insert((old(registry).next_key() + 1) as u64, AstTypeModel::Float),
        t@ == plain_function("float"@, seq![old(registry).next_key()], (old(registry).next_key() + 1) as u64),
{
    let param = registry.register(AstType::Int);
    let ret = registry.register(AstType::Float);
    let mut params: Vec<TypeEntry> = Vec::new();
    params.push(param);
    assert(params@.map_values(|e: TypeEntry| e.key) =~= seq![param.key]);
    AstType::FunctionType {
        name: to_owned_string("float"),
        modifier: Modifier::new(),
        generics: generics_new(),
        params,
        return_type: ret,
    }
}

/// ```text
/// struct address() {
///     fn __load_at(off: int) -> $unknown$;
///     fn __store_at<T>(off: int, value: T);
/// }
/// ```
fn address_struct(registry: &mut TypeRegistry) -> (t: AstType)
    requires
        old(registry).wf(),
        old(registry).next_key() + 10 <= u64::MAX,
    ensures
        final(registry).wf(),
        final(registry).next_key() == old(registry).next_key() + 10,
        final(registry).types() == address_parts(old(registry).types(), old(registry).next_key()),
        is_address_struct(t@),
        has_address_methods(t@, old(registry).next_key()),
{
    let ghost n = registry.next_key();
    let mut children: HashMap<String, MemberInfo> = new_members();

    let off = registry.register(AstType::Int);
    let loaded = registry.register(AstType::UnknownType);
    let mut load_params: Vec<TypeEntry> = Vec::new();
    load_params.push(off);
    assert(load_params@.map_values(|e: TypeEntry| e.key) =~= seq![off.key]);
    let load_at = AstType::FunctionType {
        name: to_owned_string("__load_at"),
        modifier: Modifier::new(),
        generics: generics_new(),
        params: load_params,
        return_type: loaded,
    };
    let load_entry = registry.register(load_at);
    let mut load_overloads: Vec<TypeEntry> = Vec::new();
    load_overloads.push(load_entry);
    assert(load_overloads@.map_values(|e: TypeEntry| e.key) =~= seq![load_entry.key]);
    let load_funcs = AstType::FunctionsType { name: to_owned_string("__load_at"), overloads: load_overloads };
    let load_funcs_entry = registry.register(load_funcs);
    insert_member(
        &mut children,
        to_owned_string("__load_at"),
        MemberInfo::new(load_funcs_entry, to_owned_string("__load_at"), 1),
    );

    let mut store_generics = generics_new();
    let generic_param = registry.register(AstType::UnknownType);
    generics_insert(&mut store_generics, to_owned_string("T"), generic_param);
    proof {
        reveal_strlit("T");
        assert(generic_entries(store_generics) =~= seq![("T"@, generic_param.key)]);
    }
    let generic_type = registry.register(AstType::GenericType { name: to_owned_string("T") });

    let store_off = registry.register(AstType::Int);
    let mut store_params: Vec<TypeEntry> = Vec::new();
    store_params.push(store_off);
    store_params.push(generic_type);
    let store_ret = registry.register(AstType::Void);
    assert(store_params@.map_values(|e: TypeEntry| e.key) =~= seq![store_off.key, generic_type.key]);
    let store_at = AstType::FunctionType {
        name: to_owned_string("__store_at"),
        modifier: Modifier::new(),
        generics: store_generics,
        params: store_params,
        return_type: store_ret,
    };
    let store_entry = registry.register(store_at);
    let mut store_overloads: Vec<TypeEntry> = Vec::new();
    store_overloads.push(store_entry);
    assert(store_overloads@.map_values(|e: TypeEntry| e.key) =~= seq![store_entry.key]);
    let store_funcs = AstType::FunctionsType { name: to_owned_string("__store_at"), overloads: store_overloads };
    let store_funcs_entry = registry.register(store_funcs);
    insert_member(
        &mut children,
        to_owned_string("__store_at"),
        MemberInfo::new(store_funcs_entry, to_owned_string("__store_at"), 2),
    );
    proof {
        reveal_strlit("__load_at");
        reveal_strlit("__store_at");
        assert("__load_at"@ != "__store_at"@) by {
            assert("__load_at"@[2] != "__store_at"@[2]);
        }
    }

    AstType::StructType {
        name: to_owned_string("address"),
        generics: generics_new(),
        fields: Vec::new(),
        children,
    }
}

} // verus!
