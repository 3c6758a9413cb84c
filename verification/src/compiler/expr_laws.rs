use vstd::prelude::*;
use crate::analysis::type_registry::{entry_type, TypeEntry};
use crate::ast::ast_type::{AstTypeModel, MemberInfo, MemberInfoModel};
use crate::ast::expression::{deref_type, expr_type, Expression, TypedExpr};
use crate::compiler::bytecode::ByteCode;
use crate::compiler::codegen::{exits_patched, scope_closed, ScopeModel};
use crate::compiler::expr_gen::{
    array_code, call_code, gen_code, lemma_size_pos, load_all_code, load_code, load_field_code, member_models,
    op_size, ref_offset_code, size, sizes, store_code, store_field_code, struct_args_code, GenModel, Operation,
};
use crate::error::compilation_error::EmptyRes;
use crate::interpreter::execution::int_arith;
use crate::lexer::token::SimpleToken;

verus! {

/// Whether `g2` holds every instruction of `g`, in place: generation only adds code.
pub open spec fn extends(g: GenModel, g2: GenModel) -> bool {
    &&& g.insns.len() <= g2.insns.len()
    &&& forall|i: int| 0 <= i < g.insns.len() ==> #[trigger] g2.insns[i] == g.insns[i]
}

/// Whether a step of generation from `g` keeps the code already generated, and,
/// where it succeeds, leaves the scopes as they were.
pub open spec fn keeps(g: GenModel, out: Option<(GenModel, EmptyRes)>) -> bool {
    out matches Some((g2, r)) ==> extends(g, g2) && (r is Ok ==> g2.scopes == g.scopes)
}

proof fn lemma_extends_trans(a: GenModel, b: GenModel, c: GenModel)
    requires
        extends(a, b),
        extends(b, c),
    ensures
        extends(a, c),
{
    assert forall|i: int| 0 <= i < a.insns.len() implies #[trigger] c.insns[i] == a.insns[i] by {
        assert(c.insns[i] == b.insns[i]);
    }
}

proof fn lemma_emit_extends(g: GenModel, i: ByteCode)
    ensures
        extends(g, g.emit(i)),
        g.emit(i).scopes == g.scopes,
        g.emit(i).insns.len() == g.insns.len() + 1,
        g.emit(i).insns[g.insns.len() as int] == i,
{
}

/// Code generation under any operation only adds code.
pub proof fn lemma_gen_keeps(e: TypedExpr, op: Operation, reg: Map<u64, AstTypeModel>, g: GenModel)
    ensures
        keeps(g, gen_code(e, op, reg, g)),
    decreases size(e) + op_size(op), 3int, 0nat,
{
    match op {
        Operation::Load => lemma_load_keeps(e, reg, g, false),
        Operation::LoadDeref => lemma_load_keeps(e, reg, g, true),
        Operation::Store => lemma_store_keeps(e, reg, g),
        Operation::LoadField { fields, children } => lemma_load_field_keeps(e, member_models(fields@), children@, reg, g),
        Operation::StoreField { fields } => lemma_store_field_keeps(e, member_models(fields@), reg, g),
        Operation::LoadRefOffset(i) => lemma_ref_offset_keeps(e, i, reg, g, true),
        Operation::StoreRefOffset(i) => lemma_ref_offset_keeps(e, i, reg, g, false),
    }
}

proof fn lemma_load_all_keeps(s: Seq<TypedExpr>, reg: Map<u64, AstTypeModel>, g: GenModel)
    ensures
        keeps(g, load_all_code(s, reg, g)),
    decreases sizes(s), 4int, 0nat,
{
    if s.len() > 0 {
        lemma_gen_keeps(s[0], Operation::Load, reg, g);
        if let Some((g1, Ok(()))) = gen_code(s[0], Operation::Load, reg, g) {
            lemma_size_pos(s[0]);
            lemma_load_all_keeps(s.drop_first(), reg, g1);
            if let Some((g2, _)) = load_all_code(s.drop_first(), reg, g1) {
                lemma_extends_trans(g, g1, g2);
            }
        }
    }
}

proof fn lemma_array_keeps(s: Seq<TypedExpr>, k: int, reg: Map<u64, AstTypeModel>, g: GenModel)
    ensures
        keeps(g, array_code(s, k, reg, g)),
    decreases sizes(s), 4int, 0nat,
{
    if s.len() > 0 {
        let g0 = g.emit(ByteCode::Dup);
        lemma_emit_extends(g, ByteCode::Dup);
        lemma_gen_keeps(s[0], Operation::Load, reg, g0);
        match gen_code(s[0], Operation::Load, reg, g0) {
            Some((g1, Ok(()))) => {
                lemma_extends_trans(g, g0, g1);
                match crate::compiler::codegen::word_kind(entry_type(reg, expr_type(s[0].node).key)) {
                    Some(kind) => if 0 <= k <= u32::MAX {
                        lemma_size_pos(s[0]);
                        let g2 = g1.emit(ByteCode::Swap);
                        let g3 = g2.emit(crate::compiler::expr_gen::offset_insn(kind, false, Some(k as u32)));
                        lemma_emit_extends(g1, ByteCode::Swap);
                        lemma_emit_extends(g2, crate::compiler::expr_gen::offset_insn(kind, false, Some(k as u32)));
                        lemma_extends_trans(g, g1, g2);
                        lemma_extends_trans(g, g2, g3);
                        lemma_array_keeps(s.drop_first(), k + 1, reg, g3);
                        if let Some((g4, _)) = array_code(s.drop_first(), k + 1, reg, g3) {
                            lemma_extends_trans(g, g3, g4);
                        }
                    },
                    None => {},
                }
            },
            Some((g1, Err(_))) => {
                lemma_extends_trans(g, g0, g1);
            },
            None => {},
        }
    }
}

proof fn lemma_struct_args_keeps(s: Seq<TypedExpr>, reg: Map<u64, AstTypeModel>, g: GenModel)
    ensures
        keeps(g, struct_args_code(s, reg, g)),
    decreases sizes(s), 4int, 0nat,
{
    if s.len() > 0 {
        lemma_gen_keeps(s[0], Operation::Load, reg, g);
        if let Some((g1, Ok(()))) = gen_code(s[0], Operation::Load, reg, g) {
            if let Some(g2) = g1.store_internal(reg, expr_type(s[0].node)) {
                lemma_size_pos(s[0]);
                assert(extends(g1, g2));
                lemma_extends_trans(g, g1, g2);
                lemma_struct_args_keeps(s.drop_first(), reg, g2);
                if let Some((g3, _)) = struct_args_code(s.drop_first(), reg, g2) {
                    lemma_extends_trans(g, g2, g3);
                }
            }
        }
    }
}

proof fn lemma_call_keeps(args: Seq<TypedExpr>, t: TypeEntry, reg: Map<u64, AstTypeModel>, g: GenModel)
    ensures
        keeps(g, call_code(args, t, reg, g)),
    decreases sizes(args) + 1, 5int, crate::analysis::type_registry::level(reg, entry_type(reg, t.key)),
{
    match entry_type(reg, t.key) {
        AstTypeModel::FunctionType { name, .. } => {
            let g0 = g.emit(ByteCode::Comment(crate::compiler::expr_gen::call_comment(name, args)));
            lemma_emit_extends(g, ByteCode::Comment(crate::compiler::expr_gen::call_comment(name, args)));
            lemma_load_all_keeps(args, reg, g0);
            if let Some((g1, _)) = load_all_code(args, reg, g0) {
                lemma_extends_trans(g, g0, g1);
                if g1.funcs.contains_key(name) {
                    let i = ByteCode::Call(g1.funcs[name].index);
                    lemma_emit_extends(g1, i);
                    lemma_extends_trans(g, g1, g1.emit(i));
                }
            }
        },
        AstTypeModel::StructType { .. } => {
            lemma_struct_args_keeps(args, reg, g);
            if let Some((g1, _)) = struct_args_code(args, reg, g) {
                if let Some((g2, _)) = g1.stack_ptr(crate::compiler::expr_gen::words(args, reg)) {
                    lemma_extends_trans(g, g1, g2);
                }
            }
        },
        AstTypeModel::NullableType { underlying } => {
            if crate::analysis::type_registry::level(reg, entry_type(reg, underlying))
                < crate::analysis::type_registry::level(reg, entry_type(reg, t.key)) {
                lemma_call_keeps(args, TypeEntry { key: underlying }, reg, g);
            }
        },
        _ => {},
    }
}

/// The state after a binary step whose parts are `first` and, from its result, `second`.
proof fn lemma_chain(g: GenModel, g1: GenModel, g2: GenModel)
    requires
        extends(g, g1),
        extends(g1, g2),
    ensures
        extends(g, g2),
{
    lemma_extends_trans(g, g1, g2);
}

proof fn lemma_load_keeps(e: TypedExpr, reg: Map<u64, AstTypeModel>, g: GenModel, deref: bool)
    ensures
        keeps(g, load_code(e, reg, g, deref)),
    decreases size(e), 2int, 0nat,
{
    match e.node {
        Expression::ArrayLiteralExpr(t, values) => {
            if entry_type(reg, t.key) is ArrayType && values.len() <= u32::MAX {
                let g0 = g.emit(ByteCode::HeapAlloc(values.len() as u32));
                lemma_emit_extends(g, ByteCode::HeapAlloc(values.len() as u32));
                lemma_array_keeps(values@, 0, reg, g0);
                if let Some((g1, _)) = array_code(values@, 0, reg, g0) {
                    lemma_extends_trans(g, g0, g1);
                }
            }
        },
        Expression::IdentifierExpr(t, name) => {
            if let Some(slot) = g.slot(name@) {
                if let AstTypeModel::NullableType { underlying } = entry_type(reg, t.key) {
                    if deref {
                        if let Some(k) = crate::compiler::expr_gen::offset_kind(entry_type(reg, underlying)) {
                            let g0 = g.emit(ByteCode::ALoad(slot));
                            lemma_emit_extends(g, ByteCode::ALoad(slot));
                            let i = crate::compiler::expr_gen::offset_insn(k, true, Some(0));
                            lemma_emit_extends(g0, i);
                            lemma_extends_trans(g, g0, g0.emit(i));
                        }
                    }
                }
            }
        },
        Expression::NullableExpr(t, child) => {
            lemma_gen_keeps(*child, Operation::Load, reg, g);
            if let Some((g1, Ok(()))) = gen_code(*child, Operation::Load, reg, g) {
                if let AstTypeModel::NullableType { underlying } = entry_type(reg, t.key) {
                    if let Some(g2) = g1.store_internal(reg, TypeEntry { key: underlying }) {
                        assert(extends(g1, g2));
                        lemma_extends_trans(g, g1, g2);
                        if let Some((g3, _)) = g2.stack_ptr(1) {
                            lemma_extends_trans(g, g2, g3);
                        }
                    }
                }
            }
        },
        Expression::IncrementExpr(_, inner) => lemma_step_keeps(*inner, reg, g, ByteCode::Add),
        Expression::DecrementExpr(_, inner) => lemma_step_keeps(*inner, reg, g, ByteCode::Sub),
        Expression::PrefixExpr { operator, expr, .. } => {
            if operator == SimpleToken::Dash {
                let g0 = g.emit(ByteCode::IConst(0));
                lemma_emit_extends(g, ByteCode::IConst(0));
                lemma_gen_keeps(*expr, Operation::LoadDeref, reg, g0);
                if let Some((g1, r)) = gen_code(*expr, Operation::LoadDeref, reg, g0) {
                    lemma_extends_trans(g, g0, g1);
                    if r is Ok {
                        lemma_emit_extends(g1, ByteCode::Sub);
                        lemma_extends_trans(g, g1, g1.emit(ByteCode::Sub));
                    }
                }
            } else if operator == SimpleToken::Exclamation {
                lemma_gen_keeps(*expr, Operation::LoadDeref, reg, g);
                if let Some((g1, Ok(()))) = gen_code(*expr, Operation::LoadDeref, reg, g) {
                    lemma_emit_extends(g1, ByteCode::BoolNot);
                    lemma_extends_trans(g, g1, g1.emit(ByteCode::BoolNot));
                }
            }
        },
        Expression::BinaryExpr { left, operator, right, .. } => {
            if operator == SimpleToken::BoolOr || operator == SimpleToken::BoolAnd {
                let (skip, combine) = if operator == SimpleToken::BoolOr {
                    (ByteCode::IfNe(0), ByteCode::Or)
                } else {
                    (ByteCode::IfEq(0), ByteCode::And)
                };
                lemma_gen_keeps(*left, Operation::LoadDeref, reg, g);
                if let Some((g1, Ok(()))) = gen_code(*left, Operation::LoadDeref, reg, g) {
                    let g1d = g1.emit(ByteCode::Dup);
                    lemma_emit_extends(g1, ByteCode::Dup);
                    lemma_extends_trans(g, g1, g1d);
                    if let Some(g2) = g1d.skippable(skip) {
                        let sc = ScopeModel {
                            start_index: g1d.insns.len() as i32,
                            skippable: true,
                            exit_points: Seq::empty(),
                            local_count: g1d.locals,
                        };
                        assert(g2.scopes == g1d.scopes.push(sc));
                        assert(extends(g1d, g2));
                        lemma_extends_trans(g, g1d, g2);
                        lemma_gen_keeps(*right, Operation::LoadDeref, reg, g2);
                        if let Some((g3, r3)) = gen_code(*right, Operation::LoadDeref, reg, g2) {
                            lemma_extends_trans(g, g2, g3);
                            if r3 is Ok {
                                let g4 = g3.emit(combine);
                                lemma_emit_extends(g3, combine);
                                lemma_extends_trans(g, g3, g4);
                                if let Some((g5, _)) = g4.end_scope() {
                                    assert(g4.scopes.last() == sc);
                                    let n = g4.insns.len() as int;
                                    let p = exits_patched(g4.insns, sc.exit_points, n);
                                    assert(p =~= g4.insns);
                                    assert(g5.insns == scope_closed(g4.insns, sc).0);
                                    assert forall|i: int| 0 <= i < g.insns.len() implies #[trigger] g5.insns[i]
                                        == g.insns[i] by {
                                        assert(g5.insns[i] == g4.insns[i]);
                                    }
                                    assert(g4.scopes.drop_last() =~= g1d.scopes);
                                }
                            }
                        }
                    }
                }
            } else {
                let op = if operator == SimpleToken::Equals || operator == SimpleToken::NotEquals {
                    Operation::Load
                } else {
                    Operation::LoadDeref
                };
                lemma_gen_keeps(*left, op, reg, g);
                if let Some((g1, Ok(()))) = gen_code(*left, op, reg, g) {
                    lemma_gen_keeps(*right, op, reg, g1);
                    if let Some((g2, r2)) = gen_code(*right, op, reg, g1) {
                        lemma_extends_trans(g, g1, g2);
                        if r2 is Ok {
                            if let Some(i) = crate::compiler::expr_gen::binary_insn(operator) {
                                lemma_emit_extends(g2, i);
                                lemma_extends_trans(g, g2, g2.emit(i));
                            }
                        }
                    }
                }
            }
        },
        Expression::AssignExpr { assignee, value, .. } => {
            lemma_gen_keeps(*value, Operation::Load, reg, g);
            if let Some((g1, Ok(()))) = gen_code(*value, Operation::Load, reg, g) {
                lemma_gen_keeps(*assignee, Operation::Store, reg, g1);
                if let Some((g2, _)) = gen_code(*assignee, Operation::Store, reg, g1) {
                    lemma_extends_trans(g, g1, g2);
                }
            }
        },
        Expression::TupleExpr { values, .. } => lemma_load_all_keeps(values@, reg, g),
        Expression::MemberExpr { member, property, .. } => {
            if let AstTypeModel::StructType { fields, children, .. } = deref_type(entry_type(reg, expr_type(member.node).key), reg) {
                lemma_gen_keeps(*member, Operation::LoadDeref, reg, g);
                if let Some((g1, Ok(()))) = gen_code(*member, Operation::LoadDeref, reg, g) {
                    lemma_load_field_keeps(*property, fields, children, reg, g1);
                    if let Some((g2, _)) = load_field_code(*property, fields, children, reg, g1) {
                        lemma_extends_trans(g, g1, g2);
                    }
                }
            }
        },
        Expression::ArrayAccessExpr { property, index, .. } => lemma_ref_offset_keeps(*property, *index, reg, g, true),
        Expression::CallExpr { func, args, .. } => {
            lemma_size_pos(*func);
            lemma_call_keeps(args@, expr_type(func.node), reg, g);
        },
        _ => {},
    }
}

/// `x++` and `x--`: load, add the constant one with `insn`, store.
proof fn lemma_step_keeps(inner: TypedExpr, reg: Map<u64, AstTypeModel>, g: GenModel, insn: ByteCode)
    ensures
        keeps(g, match gen_code(inner, Operation::LoadDeref, reg, g) {
            Some((g1, Ok(()))) => gen_code(inner, Operation::Store, reg, g1.emit(ByteCode::IConst(1)).emit(insn)),
            other => other,
        }),
    decreases size(inner) + 1, 1int, 0nat,
{
    lemma_gen_keeps(inner, Operation::LoadDeref, reg, g);
    if let Some((g1, Ok(()))) = gen_code(inner, Operation::LoadDeref, reg, g) {
        let g2 = g1.emit(ByteCode::IConst(1));
        let g3 = g2.emit(insn);
        lemma_emit_extends(g1, ByteCode::IConst(1));
        lemma_emit_extends(g2, insn);
        lemma_extends_trans(g, g1, g2);
        lemma_extends_trans(g, g2, g3);
        lemma_gen_keeps(inner, Operation::Store, reg, g3);
        if let Some((g4, _)) = gen_code(inner, Operation::Store, reg, g3) {
            lemma_extends_trans(g, g3, g4);
        }
    }
}

proof fn lemma_store_keeps(e: TypedExpr, reg: Map<u64, AstTypeModel>, g: GenModel)
    ensures
        keeps(g, store_code(e, reg, g)),
    decreases size(e), 2int, 0nat,
{
    match e.node {
        Expression::MemberExpr { member, property, .. } => {
            if let AstTypeModel::StructType { fields, .. } = entry_type(reg, expr_type(member.node).key) {
                lemma_gen_keeps(*member, Operation::Load, reg, g);
                if let Some((g1, Ok(()))) = gen_code(*member, Operation::Load, reg, g) {
                    lemma_store_field_keeps(*property, fields, reg, g1);
                    if let Some((g2, _)) = store_field_code(*property, fields, reg, g1) {
                        lemma_extends_trans(g, g1, g2);
                    }
                }
            }
        },
        Expression::ArrayAccessExpr { property, index, .. } => lemma_ref_offset_keeps(*property, *index, reg, g, false),
        _ => {},
    }
}

proof fn lemma_load_field_keeps(
    e: TypedExpr,
    fields: Seq<MemberInfoModel>,
    children: Map<String, MemberInfo>,
    reg: Map<u64, AstTypeModel>,
    g: GenModel,
)
    ensures
        keeps(g, load_field_code(e, fields, children, reg, g)),
    decreases size(e), 2int, 0nat,
{
    match e.node {
        Expression::CallExpr { func, args, .. } => {
            lemma_size_pos(*func);
            lemma_call_keeps(args@, expr_type(func.node), reg, g);
        },
        _ => {},
    }
}

proof fn lemma_store_field_keeps(e: TypedExpr, fields: Seq<MemberInfoModel>, reg: Map<u64, AstTypeModel>, g: GenModel)
    ensures
        keeps(g, store_field_code(e, fields, reg, g)),
    decreases size(e), 2int, 0nat,
{
}

proof fn lemma_ref_offset_keeps(e: TypedExpr, index: TypedExpr, reg: Map<u64, AstTypeModel>, g: GenModel, load: bool)
    ensures
        keeps(g, ref_offset_code(e, index, reg, g, load)),
    decreases size(e) + size(index), 2int, 0nat,
{
    match e.node {
        Expression::IdentifierExpr(t, name) => {
            if let Some(slot) = g.slot(name@) {
                let g0 = g.emit(ByteCode::ALoad(slot));
                lemma_emit_extends(g, ByteCode::ALoad(slot));
                lemma_gen_keeps(index, Operation::Load, reg, g0);
                if let Some((g1, r1)) = gen_code(index, Operation::Load, reg, g0) {
                    lemma_extends_trans(g, g0, g1);
                    if r1 is Ok {
                        if let AstTypeModel::ArrayType { underlying } = entry_type(reg, t.key) {
                            if let Some(k) = crate::compiler::expr_gen::offset_kind(entry_type(reg, underlying)) {
                                let i = crate::compiler::expr_gen::offset_insn(k, load, None);
                                lemma_emit_extends(g1, i);
                                lemma_extends_trans(g, g1, g1.emit(i));
                            }
                        }
                    }
                }
            }
        },
        _ => {},
    }
}

/// Whether `g2` is what storing into `inner` gives after the code of `g1`, the
/// constant one and `insn`.
pub open spec fn then_stored(inner: TypedExpr, reg: Map<u64, AstTypeModel>, g1: GenModel, insn: ByteCode, g2: GenModel) -> bool {
    gen_code(inner, Operation::Store, reg, g1.emit(ByteCode::IConst(1)).emit(insn)) matches Some((g4, r4)) && g4 == g2
        && r4 is Ok
}

/// An instruction that, run on a value and the constant one, gives the value plus one.
pub open spec fn adds_one(insn: ByteCode) -> bool {
    forall|a: i32| a < i32::MAX ==> #[trigger] int_arith(insn, a, 1) == Some((a + 1) as i32)
}

/// An instruction that, run on a value and the constant one, gives the value minus one.
pub open spec fn subtracts_one(insn: ByteCode) -> bool {
    forall|a: i32| a > i32::MIN ==> #[trigger] int_arith(insn, a, 1) == Some((a - 1) as i32)
}

/// The code for `x++` loads `x`, then pushes the constant one and applies an
/// instruction that adds one to the loaded value, then stores the result back into
/// `x`, keeping the loading code where it stands; the code for `x--` does the same
/// with an instruction that subtracts one.
pub proof fn lemma_step_code(e: TypedExpr, reg: Map<u64, AstTypeModel>, g: GenModel, deref: bool)
    ensures
        match e.node {
            Expression::IncrementExpr(_, inner) => load_code(e, reg, g, deref) matches Some((g2, Ok(()))) ==> (
            gen_code(*inner, Operation::LoadDeref, reg, g) matches Some((g1, Ok(()))) && extends(g1, g2)
                && g1.insns.len() + 2 <= g2.insns.len() && g2.insns[g1.insns.len() as int] == ByteCode::IConst(1)
                && adds_one(g2.insns[g1.insns.len() + 1int]) && then_stored(*inner, reg, g1, g2.insns[g1.insns.len() + 1int], g2)),
            Expression::DecrementExpr(_, inner) => load_code(e, reg, g, deref) matches Some((g2, Ok(()))) ==> (
            gen_code(*inner, Operation::LoadDeref, reg, g) matches Some((g1, Ok(()))) && extends(g1, g2)
                && g1.insns.len() + 2 <= g2.insns.len() && g2.insns[g1.insns.len() as int] == ByteCode::IConst(1)
                && subtracts_one(g2.insns[g1.insns.len() + 1int]) && then_stored(*inner, reg, g1, g2.insns[g1.insns.len() + 1int], g2)),
            _ => true,
        },
{
    match e.node {
        Expression::IncrementExpr(_, inner) => {
            lemma_step_facts(*inner, reg, g, ByteCode::Add);
            assert forall|a: i32| a < i32::MAX implies #[trigger] int_arith(ByteCode::Add, a, 1) == Some((a + 1) as i32) by {}
        },
        Expression::DecrementExpr(_, inner) => {
            lemma_step_facts(*inner, reg, g, ByteCode::Sub);
            assert forall|a: i32| a > i32::MIN implies #[trigger] int_arith(ByteCode::Sub, a, 1) == Some((a - 1) as i32) by {}
        },
        _ => {},
    }
}

proof fn lemma_step_facts(inner: TypedExpr, reg: Map<u64, AstTypeModel>, g: GenModel, insn: ByteCode)
    ensures
        (match gen_code(inner, Operation::LoadDeref, reg, g) {
            Some((g1, Ok(()))) => gen_code(inner, Operation::Store, reg, g1.emit(ByteCode::IConst(1)).emit(insn)),
            other => other,
        }) matches Some((g2, Ok(()))) ==> (gen_code(inner, Operation::LoadDeref, reg, g) matches Some((g1, Ok(())))
            && extends(g1, g2) && g1.insns.len() + 2 <= g2.insns.len() && g2.insns[g1.insns.len() as int]
            == ByteCode::IConst(1) && g2.insns[g1.insns.len() + 1int] == insn && then_stored(inner, reg, g1, insn, g2)),
{
    if let Some((g1, Ok(()))) = gen_code(inner, Operation::LoadDeref, reg, g) {
        let g2 = g1.emit(ByteCode::IConst(1));
        let g3 = g2.emit(insn);
        lemma_emit_extends(g1, ByteCode::IConst(1));
        lemma_emit_extends(g2, insn);
        lemma_extends_trans(g1, g2, g3);
        lemma_gen_keeps(inner, Operation::Store, reg, g3);
        if let Some((g4, r4)) = gen_code(inner, Operation::Store, reg, g3) {
            lemma_extends_trans(g1, g3, g4);
            assert(g4.insns[g1.insns.len() as int] == g3.insns[g1.insns.len() as int]);
            assert(g4.insns[g1.insns.len() + 1int] == g3.insns[g1.insns.len() + 1int]);
        }
    }
}

} // verus!
