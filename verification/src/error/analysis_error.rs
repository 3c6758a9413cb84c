use vstd::prelude::*;
use crate::analysis::type_registry::{entry_type, TypeEntry, TypeRegistry};
use crate::ast::ast_type::{comma_joined, keys_of, prefixed_concat, type_text, AstTypeModel};
use crate::ast::statement::Parameter;
use crate::error::runtime_error::ValueTypeVariant;
use crate::lexer::token::SimpleToken;
use crate::text::{push_char, push_str};

verus! {

/// The kinds of statement that the analysis can expect.
#[derive(Debug, PartialEq, Eq, Structural, Copy, Clone)]
pub enum StatementType {
    Block,
    Function,
}

/// Errors found while analysing a program.
#[derive(Debug, PartialEq, Clone)]
pub enum AnalysisError {
    UnknownType(String),
    ExpectedConst(String),
    TypeMismatch { expected: ValueTypeVariant, got: String },
    IllegalTypeAssignment { expected_type: String, tried: String },
    IllegalBinaryExpression { left: String, op: SimpleToken, right: String },
    IllegalCall { called_type: String },
    IllegalFuncArgs { func_name: String, args: String },
    IllegalIndexing { typ: String },
    DanglingReturn,
    IllegalNullDeref(String),
    RedundantNullable,
    TypeResolutionFailed(String),
    NullableAccess,
    TypelessConst,
    IllegalMemberAccess(String),
    IllegalTupleIndex,
    IndexOutOfBounds(i64, i64),
    NameAlreadyUsed(String),
    FunctionAlreadyDefined(String),
}

/// The text of the type recorded under `k`.
pub open spec fn entry_text(reg: Map<u64, AstTypeModel>, k: u64) -> Seq<char> {
    type_text(entry_type(reg, k), reg)
}

/// The texts of the types recorded under the keys `ks`, in order.
pub open spec fn entry_texts(reg: Map<u64, AstTypeModel>, ks: Seq<u64>) -> Seq<Seq<char>> {
    ks.map_values(|k: u64| entry_text(reg, k))
}

/// The texts of the types under `v`, joined by `", "`.
pub fn format_entries(v: &Vec<TypeEntry>, registry: &TypeRegistry) -> (r: String)
    requires
        registry.acyclic(),
    ensures
        r@ == comma_joined(entry_texts(registry.types(), keys_of(v@))),
{
    let ghost reg = registry.types();
    let ghost texts = entry_texts(reg, keys_of(v@));
    let mut r = String::new();
    if v.len() == 0 {
        return r;
    }
    r = v[0].format(registry);
    let mut i: usize = 1;
    while i < v.len()
        invariant
            registry.acyclic(),
            reg == registry.types(),
            texts == entry_texts(reg, keys_of(v@)),
            texts.len() == v@.len(),
            1 <= i <= v@.len(),
            r@ == texts[0] + prefixed_concat(texts.skip(1).take(i - 1), ", "@),
        decreases v@.len() - i,
    {
        let part = v[i].format(registry);
        push_str(&mut r, ", ");
        push_str(&mut r, part.as_str());
        proof {
            let s = texts.skip(1);
            assert(s.take(i as int).drop_last() == s.take(i - 1));
            assert(s.take(i as int).last() == texts[i as int]);
        }
        i += 1;
    }
    assert(texts.skip(1).take(v@.len() - 1) == texts.skip(1));
    r
}

impl AnalysisError {
    /// A value of the wrong kind where `expected` was wanted.
    pub fn type_mismatch(expected: ValueTypeVariant, got: TypeEntry, registry: &TypeRegistry) -> (e: AnalysisError)
        requires
            registry.acyclic(),
        ensures
            e matches AnalysisError::TypeMismatch { expected: x, got: g }
                && x == expected && g@ == entry_text(registry.types(), got.key),
    {
        AnalysisError::TypeMismatch { expected, got: got.get(registry).format(registry) }
    }

    /// A value of type `tried` assigned where `expected_type` is wanted.
    pub fn illegal_type_assignment(expected_type: TypeEntry, tried: TypeEntry, registry: &TypeRegistry) -> (e: AnalysisError)
        requires
            registry.acyclic(),
        ensures
            e matches AnalysisError::IllegalTypeAssignment { expected_type: x, tried: t }
                && x@ == entry_text(registry.types(), expected_type.key)
                && t@ == entry_text(registry.types(), tried.key),
    {
        AnalysisError::IllegalTypeAssignment {
            expected_type: expected_type.get(registry).format(registry),
            tried: tried.get(registry).format(registry),
        }
    }

    /// An operator applied to operands it is not defined on.
    pub fn illegal_binary_expression(left: TypeEntry, op: SimpleToken, right: TypeEntry, registry: &TypeRegistry) -> (e: AnalysisError)
        requires
            registry.acyclic(),
        ensures
            e matches AnalysisError::IllegalBinaryExpression { left: l, op: o, right: r }
                && l@ == entry_text(registry.types(), left.key) && o == op
                && r@ == entry_text(registry.types(), right.key),
    {
        AnalysisError::IllegalBinaryExpression {
            left: left.get(registry).format(registry),
            op,
            right: right.get(registry).format(registry),
        }
    }

    /// A call of a value that cannot be called.
    pub fn illegal_call(called: TypeEntry, registry: &TypeRegistry) -> (e: AnalysisError)
        requires
            registry.acyclic(),
        ensures
            e matches AnalysisError::IllegalCall { called_type: c }
                && c@ == entry_text(registry.types(), called.key),
    {
        AnalysisError::IllegalCall { called_type: called.get(registry).format(registry) }
    }

    /// Indexing of a value that cannot be indexed.
    pub fn illegal_indexing(indexed: TypeEntry, registry: &TypeRegistry) -> (e: AnalysisError)
        requires
            registry.acyclic(),
        ensures
            e matches AnalysisError::IllegalIndexing { typ: t }
                && t@ == entry_text(registry.types(), indexed.key),
    {
        AnalysisError::IllegalIndexing { typ: indexed.get(registry).format(registry) }
    }

    /// The `!!` operator applied to a value that is not nullable.
    pub fn illegal_null_deref(typ: TypeEntry, registry: &TypeRegistry) -> (e: AnalysisError)
        requires
            registry.acyclic(),
        ensures
            e matches AnalysisError::IllegalNullDeref(t) && t@ == entry_text(registry.types(), typ.key),
    {
        AnalysisError::IllegalNullDeref(typ.get(registry).format(registry))
    }

    /// A member access on a value that has no members.
    pub fn illegal_member_access(typ: TypeEntry, registry: &TypeRegistry) -> (e: AnalysisError)
        requires
            registry.acyclic(),
        ensures
            e matches AnalysisError::IllegalMemberAccess(t) && t@ == entry_text(registry.types(), typ.key),
    {
        AnalysisError::IllegalMemberAccess(typ.format(registry))
    }

    /// No overload of `name` takes arguments of the types `arg_types`.
    pub fn illegal_func_args(name: String, arg_types: &Vec<TypeEntry>, registry: &TypeRegistry) -> (e: AnalysisError)
        requires
            registry.acyclic(),
        ensures
            e matches AnalysisError::IllegalFuncArgs { func_name: f, args: a }
                && f@ == name@
                && a@ == comma_joined(entry_texts(registry.types(), keys_of(arg_types@))),
    {
        AnalysisError::IllegalFuncArgs { func_name: name, args: format_entries(arg_types, registry) }
    }

    /// A function of this name and these parameter types exists already.
    pub fn function_already_defined(name: String, params: &Vec<Parameter>, registry: &TypeRegistry) -> (e: AnalysisError)
        requires
            registry.acyclic(),
        ensures
            e matches AnalysisError::FunctionAlreadyDefined(s)
                && s@ == name@ + "("@ + comma_joined(
                    entry_texts(registry.types(), params@.map_values(|p: Parameter| p.param_type.key)),
                ) + ")"@,
    {
        let mut types: Vec<TypeEntry> = Vec::new();
        let mut i: usize = 0;
        while i < params.len()
            invariant
                i <= params@.len(),
                keys_of(types@) == params@.take(i as int).map_values(|p: Parameter| p.param_type.key),
            decreases params@.len() - i,
        {
            let ghost t0 = types@;
            types.push(params[i].param_type);
            assert(params@.take(i + 1) == params@.take(i as int).push(params@[i as int]));
            assert(keys_of(types@) =~= keys_of(t0).push(params@[i as int].param_type.key));
            assert(params@.take(i + 1).map_values(|p: Parameter| p.param_type.key)
                =~= params@.take(i as int).map_values(|p: Parameter| p.param_type.key).push(params@[i as int].param_type.key));
            i += 1;
        }
        assert(params@.take(params@.len() as int) == params@);
        assert(keys_of(types@) == params@.map_values(|p: Parameter| p.param_type.key));
        let ghost n = name@;
        let mut s = name;
        push_char(&mut s, '(');
        let joined = format_entries(&types, registry);
        push_str(&mut s, joined.as_str());
        push_char(&mut s, ')');
        assert(s@ =~= n + "("@ + joined@ + ")"@) by {
            reveal_strlit("(");
            reveal_strlit(")");
        }
        AnalysisError::FunctionAlreadyDefined(s)
    }
}

} // verus!
