use vstd::prelude::*;
use std::collections::HashMap;
use crate::analysis::symbol_table::lookup_scopes;
use crate::analysis::type_registry::{entry_type, lemma_child_level, level, TypeEntry, TypeRegistry};
use crate::ast::ast_type::{child_member, child_named, AstType, AstTypeModel, MemberInfo, MemberInfoModel};
use crate::ast::expression::{deref, deref_type, expr_type, Expression, TypedExpr};
use crate::compiler::bytecode::ByteCode;
use crate::compiler::codegen::{scope_closed, slot_of, store_of, word_kind, BytecodeGen, FunctionInfo, ScopeModel};
use crate::error::compilation_error::{CompilationError, EmptyRes};
use crate::interpreter::value::ValueType;
use crate::lexer::token::SimpleToken;
use crate::util::spanned::Spanned;

verus! {

/// What code is generated for an expression: load its value, load it and follow a
/// nullable to the value inside, store the value on top into it, load or store a
/// field of the struct below, or load or store an element of the array it names
/// at the index given by another expression.
pub enum Operation {
    Load,
    LoadDeref,
    Store,
    LoadField { fields: Vec<MemberInfo>, children: HashMap<String, MemberInfo> },
    StoreField { fields: Vec<MemberInfo> },
    LoadRefOffset(TypedExpr),
    StoreRefOffset(TypedExpr),
}

/// The state of a code generator, as its contracts speak of it.
pub struct GenModel {
    pub insns: Seq<ByteCode>,
    pub lines: Seq<usize>,
    pub scopes: Seq<ScopeModel>,
    pub line_stack: Seq<usize>,
    pub locals: u16,
    pub scope_locals: u16,
    pub boxed: Seq<(usize, TypeEntry)>,
    pub symbols: Seq<Map<Seq<char>, (u16, Option<()>)>>,
    pub funcs: Map<Seq<char>, FunctionInfo>,
    pub func_count: u16,
    pub text: Seq<char>,
}

/// The state of the generator `g`.
pub open spec fn gen_model(g: BytecodeGen) -> GenModel {
    GenModel {
        insns: g.insns(),
        lines: g.insn_lines(),
        scopes: g.scopes(),
        line_stack: g.line_stack(),
        locals: g.locals(),
        scope_locals: g.scope_locals(),
        boxed: g.boxed(),
        symbols: g.symbols(),
        funcs: g.funcs(),
        func_count: g.func_count(),
        text: g.text(),
    }
}

impl GenModel {
    /// The line that a new instruction gets.
    pub open spec fn line(self) -> usize {
        if self.line_stack.len() > 0 {
            self.line_stack.last()
        } else {
            0
        }
    }

    /// The state after adding the instruction `i`.
    pub open spec fn emit(self, i: ByteCode) -> GenModel {
        GenModel { insns: self.insns.push(i), lines: self.lines.push(self.line()), ..self }
    }

    /// Every instruction has a line, each open scope has its locals, positions fit `i32`.
    pub open spec fn wf(self) -> bool {
        &&& self.lines.len() == self.insns.len()
        &&& self.symbols.len() == self.scopes.len() + 1
        &&& self.insns.len() < i32::MAX
    }

    /// The slot of the variable `name`, where one is in scope.
    pub open spec fn slot(self, name: Seq<char>) -> Option<u16> {
        if lookup_scopes(self.symbols, name) is Some {
            Some(slot_of(self.symbols, name))
        } else {
            None
        }
    }

    /// Storing a word of the type under `t` in a fresh local; `None` where the type
    /// takes no word or the locals are exhausted.
    pub open spec fn store_internal(self, reg: Map<u64, AstTypeModel>, t: TypeEntry) -> Option<GenModel> {
        match word_kind(entry_type(reg, t.key)) {
            Some(k) => if self.locals < u16::MAX && self.scope_locals < u16::MAX {
                Some(GenModel {
                    locals: (self.locals + 1) as u16,
                    scope_locals: (self.scope_locals + 1) as u16,
                    ..self.emit(store_of(k, self.scope_locals))
                })
            } else {
                None
            },
            None => None,
        }
    }

    /// Opening a scope that the comparison `i` skips.
    pub open spec fn skippable(self, i: ByteCode) -> Option<GenModel> {
        if self.wf() && self.insns.len() + 1 < i32::MAX {
            Some(GenModel {
                scopes: self.scopes.push(ScopeModel { start_index: self.insns.len() as i32, skippable: true, exit_points: Seq::empty(), local_count: self.locals }),
                symbols: self.symbols.push(Map::empty()),
                ..self
            }.emit(i))
        } else {
            None
        }
    }

    /// Closing the innermost scope (see `BytecodeGen::end_scope`).
    pub open spec fn end_scope(self) -> Option<(GenModel, EmptyRes)> {
        if self.wf() && self.scopes.len() > 0 && crate::compiler::codegen::closable(self.scopes.last(), self.insns.len() as int) {
            let sc = self.scopes.last();
            let (ins, res) = scope_closed(self.insns, sc);
            Some((GenModel {
                insns: ins,
                scopes: self.scopes.drop_last(),
                symbols: self.symbols.drop_last(),
                scope_locals: sc.local_count,
                ..self
            }, res))
        } else {
            None
        }
    }

    /// Pushing a reference to the last `n` locals of the current scope.
    pub open spec fn stack_ptr(self, n: int) -> Option<(GenModel, EmptyRes)> {
        if 0 <= n <= u16::MAX && self.scope_locals >= n {
            Some((self.emit(ByteCode::CreateStackPtr { offset: (self.scope_locals - n) as u16, consume_words: n as u16 }), Ok(())))
        } else {
            None
        }
    }
}

/// The models of a list of members.
pub open spec fn member_models(v: Seq<MemberInfo>) -> Seq<MemberInfoModel> {
    v.map_values(|m: MemberInfo| m@)
}

/// A finished step.
pub open spec fn done(g: GenModel) -> Option<(GenModel, EmptyRes)> {
    Some((g, Ok(())))
}

/// The number of nodes of an expression.
pub open spec fn size(e: TypedExpr) -> nat
    decreases e, 1nat,
{
    match e.node {
        Expression::ArrayLiteralExpr(_, v) => {
            proof {
                vstd::std_specs::vec::axiom_vec_decreases_to_view(v);
            }
            1 + sizes(v@)
        },
        Expression::TupleExpr { values, .. } => {
            proof {
                vstd::std_specs::vec::axiom_vec_decreases_to_view(values);
            }
            1 + sizes(values@)
        },
        Expression::CallExpr { func, args, .. } => {
            proof {
                vstd::std_specs::vec::axiom_vec_decreases_to_view(args);
            }
            1 + size(*func) + sizes(args@)
        },
        Expression::NullableExpr(_, b) => 1 + size(*b),
        Expression::IncrementExpr(_, b) => 1 + size(*b),
        Expression::DecrementExpr(_, b) => 1 + size(*b),
        Expression::NullDerefExpr(_, b) => 1 + size(*b),
        Expression::PrefixExpr { expr, .. } => 1 + size(*expr),
        Expression::BinaryExpr { left, right, .. } => 1 + size(*left) + size(*right),
        Expression::AssignExpr { assignee, value, .. } => 1 + size(*assignee) + size(*value),
        Expression::ArrayAccessExpr { property, index, .. } => 1 + size(*property) + size(*index),
        Expression::MemberExpr { member, property, .. } => 1 + size(*member) + size(*property),
        _ => 1,
    }
}

/// The number of nodes of a list of expressions.
pub open spec fn sizes(s: Seq<TypedExpr>) -> nat
    decreases s, 0nat,
{
    if s.len() == 0 {
        0
    } else {
        proof {
            vstd::seq::axiom_seq_index_decreases(s, 0);
        }
        size(s[0]) + sizes(s.drop_first())
    }
}

/// Every expression has at least one node.
pub proof fn lemma_size_pos(e: TypedExpr)
    ensures
        size(e) >= 1,
{
}

/// An element of a list has no more nodes than the list, and a suffix of the list
/// is its element followed by the next suffix.
pub proof fn lemma_size_in_sizes(s: Seq<TypedExpr>, i: int)
    requires
        0 <= i < s.len(),
    ensures
        size(s[i]) <= sizes(s),
        s.skip(i).len() > 0,
        s.skip(i)[0] == s[i],
        s.skip(i).drop_first() == s.skip(i + 1),
        sizes(s.skip(i)) == size(s[i]) + sizes(s.skip(i + 1)),
        sizes(s.skip(i)) <= sizes(s),
    decreases i,
{
    assert(s.skip(i)[0] == s[i]);
    assert(s.skip(i).drop_first() == s.skip(i + 1));
    if i > 0 {
        lemma_size_in_sizes(s.drop_first(), i - 1);
        assert(s.drop_first()[i - 1] == s[i]);
        assert(s.drop_first().skip(i - 1) == s.skip(i));
        assert(s.drop_first().skip(i) == s.skip(i + 1));
    } else {
        assert(s.skip(0) == s);
    }
}

/// The words that the values of `s` take on the stack: one each, none for `void`.
pub open spec fn words(s: Seq<TypedExpr>, reg: Map<u64, AstTypeModel>) -> int
    decreases s.len(),
{
    if s.len() == 0 {
        0
    } else {
        (if entry_type(reg, expr_type(s[0].node).key) is Void { 0int } else { 1int }) + words(s.drop_first(), reg)
    }
}

/// The first field of `fields` named `name`.
pub open spec fn field_named(fields: Seq<MemberInfoModel>, name: Seq<char>) -> Option<MemberInfoModel>
    decreases fields.len(),
{
    if fields.len() == 0 {
        None
    } else if fields[0].name == name {
        Some(fields[0])
    } else {
        field_named(fields.drop_first(), name)
    }
}


/// The text std's `format!` makes of `"Loading func {name}, with args {args:?}"`.
pub uninterp spec fn call_comment(name: Seq<char>, args: Seq<TypedExpr>) -> String;

/// std's `format!` of the comment that precedes the arguments of a call: the
/// function's name and the arguments as `Debug` prints them. Its result is named
/// `call_comment`; the text of the derived `Debug` output is not stated.
#[verifier::external_body]
fn call_comment_text(name: &String, args: &Vec<TypedExpr>) -> (s: String)
    ensures
        s == call_comment(name@, args@),
{
    format!("Loading func {name}, with args {args:?}")
}

/// The instruction that a binary operator computes with, where it is one.
pub open spec fn binary_insn(op: SimpleToken) -> Option<ByteCode> {
    match op {
        SimpleToken::Plus => Some(ByteCode::Add),
        SimpleToken::Dash => Some(ByteCode::Sub),
        SimpleToken::Star => Some(ByteCode::Mul),
        SimpleToken::Slash => Some(ByteCode::Div),
        SimpleToken::Percent => Some(ByteCode::Mod),
        SimpleToken::Equals => Some(ByteCode::CmpEq),
        SimpleToken::NotEquals => Some(ByteCode::CmpNotEq),
        SimpleToken::Greater => Some(ByteCode::CmpGreater),
        SimpleToken::GreaterEquals => Some(ByteCode::CmpEqGreater),
        SimpleToken::Less => Some(ByteCode::CmpLess),
        SimpleToken::LessEquals => Some(ByteCode::CmpEqLess),
        _ => None,
    }
}

/// The instruction that reads (`load`) or writes a word of kind `k` at an offset
/// given by the instruction (`Some(o)`) or by the stack (`None`).
pub open spec fn offset_insn(k: ValueType, load: bool, o: Option<u32>) -> ByteCode {
    match (k, load, o) {
        (ValueType::Float, true, Some(o)) => ByteCode::FLoadOffset(o),
        (ValueType::Address, true, Some(o)) => ByteCode::ALoadOffset(o),
        (_, true, Some(o)) => ByteCode::ILoadOffset(o),
        (ValueType::Float, false, Some(o)) => ByteCode::FStoreOffset(o),
        (ValueType::Address, false, Some(o)) => ByteCode::AStoreOffset(o),
        (_, false, Some(o)) => ByteCode::IStoreOffset(o),
        (ValueType::Float, true, None) => ByteCode::FLoadVarOffset,
        (ValueType::Address, true, None) => ByteCode::ALoadVarOffset,
        (_, true, None) => ByteCode::ILoadVarOffset,
        (ValueType::Float, false, None) => ByteCode::FStoreVarOffset,
        (ValueType::Address, false, None) => ByteCode::AStoreVarOffset,
        (_, false, None) => ByteCode::IStoreVarOffset,
    }
}

/// The kind of word a value of type `t` takes where a field or a nullable may
/// hold it by offset: `Int` for booleans and integers, `Float`, `Address` for structs.
pub open spec fn offset_kind(t: AstTypeModel) -> Option<ValueType> {
    match t {
        AstTypeModel::Bool | AstTypeModel::Int => Some(ValueType::Int),
        AstTypeModel::Float => Some(ValueType::Float),
        AstTypeModel::StructType { .. } => Some(ValueType::Address),
        _ => None,
    }
}

/// The size of what an operation carries.
pub open spec fn op_size(op: Operation) -> nat {
    match op {
        Operation::LoadRefOffset(i) => size(i),
        Operation::StoreRefOffset(i) => size(i),
        _ => 0,
    }
}

/// The code generated for `e` under `op`, from the generator state `g` with the
/// types `reg`: the new state and the result, or `None` where generation panics.
pub open spec fn gen_code(e: TypedExpr, op: Operation, reg: Map<u64, AstTypeModel>, g: GenModel) -> Option<(GenModel, EmptyRes)>
    decreases size(e) + op_size(op), 3int, 0nat,
{
    match op {
        Operation::Load => load_code(e, reg, g, false),
        Operation::LoadDeref => load_code(e, reg, g, true),
        Operation::Store => store_code(e, reg, g),
        Operation::LoadField { fields, children } => load_field_code(e, member_models(fields@), children@, reg, g),
        Operation::StoreField { fields } => store_field_code(e, member_models(fields@), reg, g),
        Operation::LoadRefOffset(i) => ref_offset_code(e, i, reg, g, true),
        Operation::StoreRefOffset(i) => ref_offset_code(e, i, reg, g, false),
    }
}

/// Loading the values of `s` in order.
pub open spec fn load_all_code(s: Seq<TypedExpr>, reg: Map<u64, AstTypeModel>, g: GenModel) -> Option<(GenModel, EmptyRes)>
    decreases sizes(s), 4int, 0nat,
{
    if s.len() == 0 {
        done(g)
    } else {
        match gen_code(s[0], Operation::Load, reg, g) {
            Some((g1, Ok(()))) => {
                proof {
                    lemma_size_pos(s[0]);
                }
                load_all_code(s.drop_first(), reg, g1)
            },
            other => other,
        }
    }
}

/// The elements `s` of an array literal, the first at offset `k`: each is stored
/// at its offset in the block whose reference is on top.
pub open spec fn array_code(s: Seq<TypedExpr>, k: int, reg: Map<u64, AstTypeModel>, g: GenModel) -> Option<(GenModel, EmptyRes)>
    decreases sizes(s), 4int, 0nat,
{
    if s.len() == 0 {
        done(g)
    } else {
        match gen_code(s[0], Operation::Load, reg, g.emit(ByteCode::Dup)) {
            Some((g1, Ok(()))) => match word_kind(entry_type(reg, expr_type(s[0].node).key)) {
                Some(kind) => if 0 <= k <= u32::MAX {
                    proof {
                        lemma_size_pos(s[0]);
                    }
                    array_code(s.drop_first(), k + 1, reg, g1.emit(ByteCode::Swap).emit(offset_insn(kind, false, Some(k as u32))))
                } else {
                    None
                },
                None => None,
            },
            other => other,
        }
    }
}

/// The arguments `s` of a constructor: each is loaded and stored in a fresh local.
pub open spec fn struct_args_code(s: Seq<TypedExpr>, reg: Map<u64, AstTypeModel>, g: GenModel) -> Option<(GenModel, EmptyRes)>
    decreases sizes(s), 4int, 0nat,
{
    if s.len() == 0 {
        done(g)
    } else {
        match gen_code(s[0], Operation::Load, reg, g) {
            Some((g1, Ok(()))) => match g1.store_internal(reg, expr_type(s[0].node)) {
                Some(g2) => {
                    proof {
                        lemma_size_pos(s[0]);
                    }
                    struct_args_code(s.drop_first(), reg, g2)
                },
                None => None,
            },
            other => other,
        }
    }
}

/// A call with the arguments `args` of what has the type under `t`: a function is
/// called after its arguments are loaded, a struct is built from its arguments in
/// fresh locals, a nullable is called as what it holds.
pub open spec fn call_code(args: Seq<TypedExpr>, t: TypeEntry, reg: Map<u64, AstTypeModel>, g: GenModel) -> Option<(GenModel, EmptyRes)>
    decreases sizes(args) + 1, 5int, level(reg, entry_type(reg, t.key)),
{
    match entry_type(reg, t.key) {
        AstTypeModel::FunctionType { name, .. } => {
            match load_all_code(args, reg, g.emit(ByteCode::Comment(call_comment(name, args)))) {
                Some((g1, Ok(()))) => if g1.funcs.contains_key(name) {
                    done(g1.emit(ByteCode::Call(g1.funcs[name].index)))
                } else {
                    None
                },
                other => other,
            }
        },
        AstTypeModel::StructType { .. } => {
            if args.len() > u32::MAX || words(args, reg) > u16::MAX {
                None
            } else {
                match struct_args_code(args, reg, g) {
                    Some((g1, Ok(()))) => g1.stack_ptr(words(args, reg)),
                    other => other,
                }
            }
        },
        AstTypeModel::NullableType { underlying } => {
            if level(reg, entry_type(reg, underlying)) < level(reg, entry_type(reg, t.key)) {
                call_code(args, TypeEntry { key: underlying }, reg, g)
            } else {
                None
            }
        },
        _ => None,
    }
}

/// Loading the value of `e`; with `deref`, a nullable variable is followed to the
/// value it holds.
pub open spec fn load_code(e: TypedExpr, reg: Map<u64, AstTypeModel>, g: GenModel, deref: bool) -> Option<(GenModel, EmptyRes)>
    decreases size(e), 2int, 0nat,
{
    match e.node {
        Expression::NullLiteralExpr(_) => done(g.emit(ByteCode::NullPtr)),
        Expression::BoolLiteralExpr(_, b) => done(g.emit(ByteCode::IConst(if b { 1 } else { 0 }))),
        Expression::IntLiteralExpr(_, i) => if i32::MIN <= i <= i32::MAX {
            done(g.emit(ByteCode::IConst(i as i32)))
        } else {
            Some((g, Err(CompilationError::IntOutOfBounds(i))))
        },
        Expression::FloatLiteralExpr(_, f) => done(g.emit(ByteCode::FConst(f))),
        Expression::ArrayLiteralExpr(t, values) => {
            if entry_type(reg, t.key) is ArrayType && values.len() <= u32::MAX {
                array_code(values@, 0, reg, g.emit(ByteCode::HeapAlloc(values.len() as u32)))
            } else {
                None
            }
        },
        Expression::IdentifierExpr(t, name) => match g.slot(name@) {
            Some(slot) => match entry_type(reg, t.key) {
                AstTypeModel::Bool | AstTypeModel::Int => done(g.emit(ByteCode::ILoad(slot))),
                AstTypeModel::Float => done(g.emit(ByteCode::FLoad(slot))),
                AstTypeModel::StructType { .. } | AstTypeModel::ArrayType { .. } | AstTypeModel::TupleType(_) => done(
                    g.emit(ByteCode::ALoad(slot)),
                ),
                AstTypeModel::NullableType { underlying } => if !deref {
                    done(g.emit(ByteCode::ALoad(slot)))
                } else {
                    match offset_kind(entry_type(reg, underlying)) {
                        Some(k) => done(g.emit(ByteCode::ALoad(slot)).emit(offset_insn(k, true, Some(0)))),
                        None => None,
                    }
                },
                _ => None,
            },
            None => None,
        },
        Expression::NullableExpr(t, child) => match gen_code(*child, Operation::Load, reg, g) {
            Some((g1, Ok(()))) => match entry_type(reg, t.key) {
                AstTypeModel::NullableType { underlying } => match g1.store_internal(reg, TypeEntry { key: underlying }) {
                    Some(g2) => g2.stack_ptr(1),
                    None => None,
                },
                _ => None,
            },
            other => other,
        },
        Expression::IncrementExpr(_, inner) => match gen_code(*inner, Operation::LoadDeref, reg, g) {
            Some((g1, Ok(()))) => gen_code(*inner, Operation::Store, reg, g1.emit(ByteCode::IConst(1)).emit(ByteCode::Add)),
            other => other,
        },
        Expression::DecrementExpr(_, inner) => match gen_code(*inner, Operation::LoadDeref, reg, g) {
            Some((g1, Ok(()))) => gen_code(*inner, Operation::Store, reg, g1.emit(ByteCode::IConst(1)).emit(ByteCode::Sub)),
            other => other,
        },
        Expression::PrefixExpr { operator, expr, .. } => {
            if operator == SimpleToken::Dash {
                match gen_code(*expr, Operation::LoadDeref, reg, g.emit(ByteCode::IConst(0))) {
                    Some((g1, Ok(()))) => done(g1.emit(ByteCode::Sub)),
                    other => other,
                }
            } else if operator == SimpleToken::Exclamation {
                match gen_code(*expr, Operation::LoadDeref, reg, g) {
                    Some((g1, Ok(()))) => done(g1.emit(ByteCode::BoolNot)),
                    other => other,
                }
            } else {
                None
            }
        },
        Expression::BinaryExpr { left, operator, right, .. } => {
            if operator == SimpleToken::BoolOr || operator == SimpleToken::BoolAnd {
                let (skip, combine) = if operator == SimpleToken::BoolOr {
                    (ByteCode::IfNe(0), ByteCode::Or)
                } else {
                    (ByteCode::IfEq(0), ByteCode::And)
                };
                match gen_code(*left, Operation::LoadDeref, reg, g) {
                    Some((g1, Ok(()))) => match g1.emit(ByteCode::Dup).skippable(skip) {
                        Some(g2) => match gen_code(*right, Operation::LoadDeref, reg, g2) {
                            Some((g3, Ok(()))) => g3.emit(combine).end_scope(),
                            other => other,
                        },
                        None => None,
                    },
                    other => other,
                }
            } else {
                let op = if operator == SimpleToken::Equals || operator == SimpleToken::NotEquals {
                    Operation::Load
                } else {
                    Operation::LoadDeref
                };
                match gen_code(*left, op, reg, g) {
                    Some((g1, Ok(()))) => match gen_code(*right, op, reg, g1) {
                        Some((g2, Ok(()))) => match binary_insn(operator) {
                            Some(i) => done(g2.emit(i)),
                            None => None,
                        },
                        other => other,
                    },
                    other => other,
                }
            }
        },
        Expression::AssignExpr { assignee, value, .. } => match gen_code(*value, Operation::Load, reg, g) {
            Some((g1, Ok(()))) => gen_code(*assignee, Operation::Store, reg, g1),
            other => other,
        },
        Expression::TupleExpr { values, .. } => load_all_code(values@, reg, g),
        Expression::MemberExpr { member, property, .. } => {
            match deref_type(entry_type(reg, expr_type(member.node).key), reg) {
                AstTypeModel::StructType { fields, children, .. } => match gen_code(*member, Operation::LoadDeref, reg, g) {
                    Some((g1, Ok(()))) => load_field_code(*property, fields, children, reg, g1),
                    other => other,
                },
                _ => None,
            }
        },
        Expression::ArrayAccessExpr { property, index, .. } => ref_offset_code(*property, *index, reg, g, true),
        Expression::CallExpr { func, args, .. } => {
            proof {
                lemma_size_pos(*func);
            }
            call_code(args@, expr_type(func.node), reg, g)
        },
        _ => None,
    }
}

/// Storing the value on top into `e`: a variable, a field of a struct, or an
/// element of an array.
pub open spec fn store_code(e: TypedExpr, reg: Map<u64, AstTypeModel>, g: GenModel) -> Option<(GenModel, EmptyRes)>
    decreases size(e), 2int, 0nat,
{
    match e.node {
        Expression::IdentifierExpr(t, name) => match word_kind(entry_type(reg, t.key)) {
            Some(k) => match g.slot(name@) {
                Some(slot) => done(g.emit(store_of(k, slot))),
                None => Some((g, Err(CompilationError::MissingVariable(name)))),
            },
            None => None,
        },
        Expression::MemberExpr { member, property, .. } => match entry_type(reg, expr_type(member.node).key) {
            AstTypeModel::StructType { fields, .. } => match gen_code(*member, Operation::Load, reg, g) {
                Some((g1, Ok(()))) => store_field_code(*property, fields, reg, g1),
                other => other,
            },
            _ => None,
        },
        Expression::ArrayAccessExpr { property, index, .. } => ref_offset_code(*property, *index, reg, g, false),
        _ => None,
    }
}

/// Loading the field or calling the method named by `e` of the struct whose
/// reference is on top; a call is generated as a call.
pub open spec fn load_field_code(
    e: TypedExpr,
    fields: Seq<MemberInfoModel>,
    children: Map<String, MemberInfo>,
    reg: Map<u64, AstTypeModel>,
    g: GenModel,
) -> Option<(GenModel, EmptyRes)>
    decreases size(e), 2int, 0nat,
{
    match e.node {
        Expression::IdentifierExpr(t, name) => match field_named(fields, name@) {
            Some(f) => match offset_kind(entry_type(reg, t.key)) {
                Some(k) => done(g.emit(offset_insn(k, true, Some(f.index as u32)))),
                None => None,
            },
            None => match child_named(children, name@) {
                Some(m) => if g.funcs.contains_key(m.name@) {
                    done(g.emit(ByteCode::Call(g.funcs[m.name@].index)))
                } else {
                    None
                },
                None => None,
            },
        },
        Expression::CallExpr { func, args, .. } => {
            proof {
                lemma_size_pos(*func);
            }
            call_code(args@, expr_type(func.node), reg, g)
        },
        _ => None,
    }
}

/// Storing the value on top into the field named by `e` of the struct below.
pub open spec fn store_field_code(e: TypedExpr, fields: Seq<MemberInfoModel>, reg: Map<u64, AstTypeModel>, g: GenModel) -> Option<
    (GenModel, EmptyRes),
>
    decreases size(e), 2int, 0nat,
{
    match e.node {
        Expression::IdentifierExpr(t, name) => match field_named(fields, name@) {
            Some(f) => match entry_type(reg, t.key) {
                AstTypeModel::NullableType { .. } => done(g.emit(offset_insn(ValueType::Address, false, Some(f.index as u32)))),
                other => match offset_kind(other) {
                    Some(k) => done(g.emit(offset_insn(k, false, Some(f.index as u32)))),
                    None => None,
                },
            },
            None => None,
        },
        _ => None,
    }
}

/// Loading (`load`) or storing an element of the array variable `e` at the index
/// that `index` computes.
pub open spec fn ref_offset_code(e: TypedExpr, index: TypedExpr, reg: Map<u64, AstTypeModel>, g: GenModel, load: bool) -> Option<
    (GenModel, EmptyRes),
>
    decreases size(e) + size(index), 2int, 0nat,
{
    match e.node {
        Expression::IdentifierExpr(t, name) => match g.slot(name@) {
            Some(slot) => match gen_code(index, Operation::Load, reg, g.emit(ByteCode::ALoad(slot))) {
                Some((g1, Ok(()))) => match entry_type(reg, t.key) {
                    AstTypeModel::ArrayType { underlying } => match offset_kind(entry_type(reg, underlying)) {
                        Some(k) => done(g1.emit(offset_insn(k, load, None))),
                        None => None,
                    },
                    _ => None,
                },
                other => other,
            },
            None => None,
        },
        _ => None,
    }
}


broadcast use crate::compiler::codegen::lemma_code_added_one;

/// Adds the instruction that the binary operator `operator` computes with.
fn emit_binary(generator: &mut BytecodeGen, operator: SimpleToken)
    requires
        binary_insn(operator) is Some,
    ensures
        gen_model(*final(generator)) == gen_model(*old(generator)).emit(binary_insn(operator)->0),
{
    match operator {
        SimpleToken::Plus => generator.add(),
        SimpleToken::Dash => generator.sub(),
        SimpleToken::Star => generator.mul(),
        SimpleToken::Slash => generator.div(),
        SimpleToken::Percent => generator.modulo(),
        SimpleToken::Equals => generator.cmp_eq(),
        SimpleToken::NotEquals => generator.cmp_ne(),
        SimpleToken::Greater => generator.cmp_gt(),
        SimpleToken::GreaterEquals => generator.cmp_ge(),
        SimpleToken::Less => generator.cmp_lt(),
        SimpleToken::LessEquals => generator.cmp_le(),
        _ => {},
    }
}

impl Spanned<Expression<TypeEntry>> {
    /// Generates the code of this expression under `operation` (see `gen_code`).
    pub fn generate_bytecode(&self, registry: &TypeRegistry, generator: &mut BytecodeGen, operation: Operation) -> (r: EmptyRes)
        requires
            registry.acyclic(),
            gen_code(*self, operation, registry.types(), gen_model(*old(generator))) is Some,
        ensures
            gen_code(*self, operation, registry.types(), gen_model(*old(generator))) == Some((gen_model(*final(generator)), r)),
        decreases size(*self) + op_size(operation), 3int, 0nat,
    {
        match operation {
            Operation::Load => self.load(registry, generator, false),
            Operation::LoadDeref => self.load(registry, generator, true),
            Operation::Store => self.store(registry, generator),
            Operation::LoadField { fields, children } => self.load_field(registry, fields, children, generator),
            Operation::StoreField { fields } => self.store_field(registry, fields, generator),
            Operation::LoadRefOffset(index) => self.load_ref_offset(registry, &index, generator),
            Operation::StoreRefOffset(index) => self.store_ref_offset(registry, &index, generator),
        }
    }

    /// Loads the value of this expression; with `dereference`, a nullable variable
    /// is followed to the value it holds (see `load_code`).
    #[verifier::loop_isolation(false)]
    pub fn load(&self, registry: &TypeRegistry, generator: &mut BytecodeGen, dereference: bool) -> (r: EmptyRes)
        requires
            registry.acyclic(),
            load_code(*self, registry.types(), gen_model(*old(generator)), dereference) is Some,
        ensures
            load_code(*self, registry.types(), gen_model(*old(generator)), dereference) == Some((gen_model(*final(generator)), r)),
        decreases size(*self), 2int, 0nat,
    {
        let ghost reg = registry.types();
        match &self.node {
            Expression::NullLiteralExpr(_) => {
                generator.null_ptr();
                Ok(())
            },
            Expression::BoolLiteralExpr(_, b) => {
                if *b {
                    generator.i_const(1);
                } else {
                    generator.i_const(0);
                }
                Ok(())
            },
            Expression::IntLiteralExpr(_, i) => {
                if *i >= -2147483648i64 && *i <= 2147483647i64 {
                    generator.i_const(*i as i32);
                    Ok(())
                } else {
                    Err(CompilationError::IntOutOfBounds(*i))
                }
            },
            Expression::FloatLiteralExpr(_, f) => {
                generator.f_const(*f);
                Ok(())
            },
            Expression::ArrayLiteralExpr(t, values) => {
                let typ = t.get(registry);
                if !matches!(typ, AstType::ArrayType { .. }) {
                    return Ok(());
                }
                generator.heap_alloc(values.len() as u32);
                let ghost target = load_code(*self, reg, gen_model(*old(generator)), dereference);
                let mut i: usize = 0;
                assert(values@.skip(0) == values@);
                while i < values.len()
                    invariant
                        registry.acyclic(),
                        reg == registry.types(),
                        0 <= i <= values.len(),
                        values.len() <= u32::MAX,
                        target is Some,
                        array_code(values@.skip(i as int), i as int, reg, gen_model(*generator)) == target,
                        sizes(values@) < size(*self),
                    decreases values.len() - i,
                {
                    let v = &values[i];
                    proof {
                        lemma_size_in_sizes(values@, i as int);
                    }
                    generator.dup();
                    let r = v.generate_bytecode(registry, generator, Operation::Load);
                    if r.is_err() {
                        return r;
                    }
                    generator.swap();
                    let _ = generator.store_offset_value(registry, i as u32, v.get_type());
                    i += 1;
                }
                Ok(())
            },
            Expression::IdentifierExpr(t, name) => {
                let typ = t.get(registry);
                match typ {
                    AstType::Bool | AstType::Int => generator.i_load(name.clone()),
                    AstType::Float => generator.f_load(name.clone()),
                    AstType::StructType { .. } | AstType::ArrayType { .. } | AstType::TupleType(_) => generator.a_load(name.clone()),
                    AstType::NullableType { underlying } => {
                        generator.a_load(name.clone());
                        if dereference {
                            let inner = underlying.get(registry);
                            match inner {
                                AstType::Bool | AstType::Int | AstType::Float | AstType::StructType { .. } => {
                                    let _ = generator.load_offset_value(registry, 0, underlying);
                                },
                                _ => {},
                            }
                        }
                    },
                    _ => {},
                }
                Ok(())
            },
            Expression::NullableExpr(t, child) => {
                let r = child.generate_bytecode(registry, generator, Operation::Load);
                if r.is_err() {
                    return r;
                }
                let typ = t.get(registry);
                if let AstType::NullableType { underlying } = typ {
                    let _ = generator.store_internal_value(registry, underlying);
                    generator.create_stack_ptr(1);
                }
                Ok(())
            },
            Expression::IncrementExpr(_, inner) => {
                let r = inner.generate_bytecode(registry, generator, Operation::LoadDeref);
                if r.is_err() {
                    return r;
                }
                generator.i_const(1);
                generator.add();
                inner.generate_bytecode(registry, generator, Operation::Store)
            },
            Expression::DecrementExpr(_, inner) => {
                let r = inner.generate_bytecode(registry, generator, Operation::LoadDeref);
                if r.is_err() {
                    return r;
                }
                generator.i_const(1);
                generator.sub();
                inner.generate_bytecode(registry, generator, Operation::Store)
            },
            Expression::PrefixExpr { operator, expr, .. } => {
                match operator {
                    SimpleToken::Dash => {
                        generator.i_const(0);
                        let r = expr.generate_bytecode(registry, generator, Operation::LoadDeref);
                        if r.is_err() {
                            return r;
                        }
                        generator.sub();
                    },
                    SimpleToken::Exclamation => {
                        let r = expr.generate_bytecode(registry, generator, Operation::LoadDeref);
                        if r.is_err() {
                            return r;
                        }
                        generator.bool_not();
                    },
                    _ => {},
                }
                Ok(())
            },
            Expression::BinaryExpr { left, operator, right, .. } => {
                match operator {
                    SimpleToken::BoolOr => {
                        let r = left.generate_bytecode(registry, generator, Operation::LoadDeref);
                        if r.is_err() {
                            return r;
                        }
                        generator.dup();
                        generator.new_skippable_scope_ne();
                        let r = right.generate_bytecode(registry, generator, Operation::LoadDeref);
                        if r.is_err() {
                            return r;
                        }
                        generator.or();
                        return generator.end_scope();
                    },
                    SimpleToken::BoolAnd => {
                        let r = left.generate_bytecode(registry, generator, Operation::LoadDeref);
                        if r.is_err() {
                            return r;
                        }
                        generator.dup();
                        generator.new_skippable_scope_eq();
                        let r = right.generate_bytecode(registry, generator, Operation::LoadDeref);
                        if r.is_err() {
                            return r;
                        }
                        generator.and();
                        return generator.end_scope();
                    },
                    _ => {},
                }
                let compares = matches!(operator, SimpleToken::Equals) || matches!(operator, SimpleToken::NotEquals);
                let r = if compares {
                    left.generate_bytecode(registry, generator, Operation::Load)
                } else {
                    left.generate_bytecode(registry, generator, Operation::LoadDeref)
                };
                if r.is_err() {
                    return r;
                }
                let r = if compares {
                    right.generate_bytecode(registry, generator, Operation::Load)
                } else {
                    right.generate_bytecode(registry, generator, Operation::LoadDeref)
                };
                if r.is_err() {
                    return r;
                }
                emit_binary(generator, *operator);
                Ok(())
            },
            Expression::AssignExpr { assignee, value, .. } => {
                let r = value.generate_bytecode(registry, generator, Operation::Load);
                if r.is_err() {
                    return r;
                }
                assignee.generate_bytecode(registry, generator, Operation::Store)
            },
            Expression::TupleExpr { values, .. } => {
                let ghost target = load_code(*self, reg, gen_model(*old(generator)), dereference);
                let mut i: usize = 0;
                assert(values@.skip(0) == values@);
                while i < values.len()
                    invariant
                        registry.acyclic(),
                        reg == registry.types(),
                        0 <= i <= values.len(),
                        target is Some,
                        load_all_code(values@.skip(i as int), reg, gen_model(*generator)) == target,
                        sizes(values@) < size(*self),
                    decreases values.len() - i,
                {
                    proof {
                        lemma_size_in_sizes(values@, i as int);
                    }
                    let r = values[i].generate_bytecode(registry, generator, Operation::Load);
                    if r.is_err() {
                        return r;
                    }
                    i += 1;
                }
                Ok(())
            },
            Expression::MemberExpr { member, property, .. } => {
                let mt = deref(member.get_type(), registry);
                if let AstType::StructType { fields, children, .. } = mt {
                    assert(member_models(fields@) =~= fields@.map_values(|m: MemberInfo| m@));
                    let r = member.generate_bytecode(registry, generator, Operation::LoadDeref);
                    if r.is_err() {
                        return r;
                    }
                    property.generate_bytecode(registry, generator, Operation::LoadField { fields, children })
                } else {
                    Ok(())
                }
            },
            Expression::ArrayAccessExpr { property, index, .. } => {
                property.load_ref_offset(registry, index, generator)
            },
            Expression::CallExpr { func, args, .. } => {
                proof {
                    lemma_size_pos(**func);
                }
                Self::generate_call_expr_load(registry, generator, func, args)
            },
            _ => Ok(()),
        }
    }

    /// Generates a call of `func` with `args` (see `call_code`).
    fn generate_call_expr_load(registry: &TypeRegistry, generator: &mut BytecodeGen, func: &Box<TypedExpr>, args: &Vec<TypedExpr>) -> (r: EmptyRes)
        requires
            registry.acyclic(),
            call_code(args@, expr_type(func.node), registry.types(), gen_model(*old(generator))) is Some,
        ensures
            call_code(args@, expr_type(func.node), registry.types(), gen_model(*old(generator))) == Some((gen_model(*final(generator)), r)),
        decreases sizes(args@) + 1, 6int, 0nat,
    {
        let t = func.get_type();
        Self::call_typed(registry, generator, args, t)
    }

    /// Generates a call with `args` of what has the type under `typ` (see `call_code`).
    #[verifier::loop_isolation(false)]
    fn call_typed(registry: &TypeRegistry, generator: &mut BytecodeGen, args: &Vec<TypedExpr>, typ: TypeEntry) -> (r: EmptyRes)
        requires
            registry.acyclic(),
            call_code(args@, typ, registry.types(), gen_model(*old(generator))) is Some,
        ensures
            call_code(args@, typ, registry.types(), gen_model(*old(generator))) == Some((gen_model(*final(generator)), r)),
        decreases sizes(args@) + 1, 5int, level(registry.types(), entry_type(registry.types(), typ.key)),
    {
        let ghost reg = registry.types();
        let t = typ.get(registry);
        match t {
            AstType::FunctionType { name, .. } => {
                let c = call_comment_text(&name, args);
                generator.comment(c);
                let ghost target = load_all_code(args@, reg, gen_model(*generator));
                let mut i: usize = 0;
                assert(args@.skip(0) == args@);
                while i < args.len()
                    invariant
                        registry.acyclic(),
                        reg == registry.types(),
                        0 <= i <= args.len(),
                        target is Some,
                        load_all_code(args@.skip(i as int), reg, gen_model(*generator)) == target,
                    decreases args.len() - i,
                {
                    proof {
                        lemma_size_in_sizes(args@, i as int);
                    }
                    let r = args[i].generate_bytecode(registry, generator, Operation::Load);
                    if r.is_err() {
                        return r;
                    }
                    i += 1;
                }
                proof {
                    assert(args@.skip(0) == args@);
                }
                generator.call(&name);
                Ok(())
            },
            AstType::StructType { .. } => {
                let ghost target = struct_args_code(args@, reg, gen_model(*generator));
                let mut size: u32 = 0;
                let mut i: usize = 0;
                assert(args@.skip(0) == args@);
                while i < args.len()
                    invariant
                        registry.acyclic(),
                        reg == registry.types(),
                        0 <= i <= args.len(),
                        args.len() <= u32::MAX,
                        size <= i,
                        size + words(args@.skip(i as int), reg) == words(args@, reg),
                        target is Some,
                        struct_args_code(args@.skip(i as int), reg, gen_model(*generator)) == target,
                    decreases args.len() - i,
                {
                    proof {
                        lemma_size_in_sizes(args@, i as int);
                    }
                    let a = &args[i];
                    let r = a.generate_bytecode(registry, generator, Operation::Load);
                    if r.is_err() {
                        return r;
                    }
                    let _ = generator.store_internal_value(registry, a.get_type());
                    size = size + a.get_type().get(registry).word_size(registry);
                    i += 1;
                }
                proof {
                    assert(args@.skip(0) == args@);
                    assert(args@.skip(args.len() as int).len() == 0);
                }
                generator.create_stack_ptr(size as u16);
                Ok(())
            },
            AstType::NullableType { underlying } => Self::call_typed(registry, generator, args, underlying),
            _ => Ok(()),
        }
    }

    /// Stores the value on top into this expression (see `store_code`).
    pub fn store(&self, registry: &TypeRegistry, generator: &mut BytecodeGen) -> (r: EmptyRes)
        requires
            registry.acyclic(),
            store_code(*self, registry.types(), gen_model(*old(generator))) is Some,
        ensures
            store_code(*self, registry.types(), gen_model(*old(generator))) == Some((gen_model(*final(generator)), r)),
        decreases size(*self), 2int, 0nat,
    {
        match &self.node {
            Expression::IdentifierExpr(t, name) => generator.store_value(registry, name, *t),
            Expression::MemberExpr { member, property, .. } => {
                let mt = member.get_type().get(registry);
                if let AstType::StructType { fields, .. } = mt {
                    assert(member_models(fields@) =~= fields@.map_values(|m: MemberInfo| m@));
                    let r = member.generate_bytecode(registry, generator, Operation::Load);
                    if r.is_err() {
                        return r;
                    }
                    property.generate_bytecode(registry, generator, Operation::StoreField { fields })
                } else {
                    Ok(())
                }
            },
            Expression::ArrayAccessExpr { property, index, .. } => property.store_ref_offset(registry, index, generator),
            _ => Ok(()),
        }
    }

    /// Loads the field, or calls the method, that this expression names, of the
    /// struct whose reference is on top (see `load_field_code`).
    #[verifier::loop_isolation(false)]
    pub fn load_field(&self, registry: &TypeRegistry, fields: Vec<MemberInfo>, children: HashMap<String, MemberInfo>, generator: &mut BytecodeGen) -> (r: EmptyRes)
        requires
            registry.acyclic(),
            load_field_code(*self, member_models(fields@), children@, registry.types(), gen_model(*old(generator))) is Some,
        ensures
            load_field_code(*self, member_models(fields@), children@, registry.types(), gen_model(*old(generator)))
                == Some((gen_model(*final(generator)), r)),
        decreases size(*self), 2int, 0nat,
    {
        let ghost fm = member_models(fields@);
        match &self.node {
            Expression::IdentifierExpr(t, name) => {
                let mut i: usize = 0;
                assert(fm.skip(0) == fm);
                while i < fields.len()
                    invariant
                        0 <= i <= fields.len(),
                        fm == member_models(fields@),
                        field_named(fm, name@) == field_named(fm.skip(i as int), name@),
                        *generator == *old(generator),
                    decreases fields.len() - i,
                {
                    assert(fm.skip(i as int)[0] == fields@[i as int]@);
                    assert(fm.skip(i as int).drop_first() == fm.skip(i + 1));
                    if fields[i].name == *name {
                        let typ = t.get(registry);
                        match typ {
                            AstType::Bool | AstType::Int | AstType::Float | AstType::StructType { .. } => {
                                let _ = generator.load_offset_value(registry, fields[i].index as u32, *t);
                            },
                            _ => {},
                        }
                        return Ok(());
                    }
                    i += 1;
                }
                assert(fm.skip(i as int).len() == 0);
                match child_member(&children, name) {
                    Some(m) => {
                        generator.call(&m.name);
                        Ok(())
                    },
                    None => Ok(()),
                }
            },
            Expression::CallExpr { func, args, .. } => {
                proof {
                    lemma_size_pos(**func);
                }
                Self::generate_call_expr_load(registry, generator, func, args)
            },
            _ => Ok(()),
        }
    }

    /// Stores the value on top into the field that this expression names, of the
    /// struct below it (see `store_field_code`).
    #[verifier::loop_isolation(false)]
    pub fn store_field(&self, registry: &TypeRegistry, fields: Vec<MemberInfo>, generator: &mut BytecodeGen) -> (r: EmptyRes)
        requires
            registry.acyclic(),
            store_field_code(*self, member_models(fields@), registry.types(), gen_model(*old(generator))) is Some,
        ensures
            store_field_code(*self, member_models(fields@), registry.types(), gen_model(*old(generator)))
                == Some((gen_model(*final(generator)), r)),
        decreases size(*self), 2int, 0nat,
    {
        let ghost fm = member_models(fields@);
        match &self.node {
            Expression::IdentifierExpr(t, name) => {
                let mut i: usize = 0;
                assert(fm.skip(0) == fm);
                while i < fields.len()
                    invariant
                        0 <= i <= fields.len(),
                        fm == member_models(fields@),
                        field_named(fm, name@) == field_named(fm.skip(i as int), name@),
                        *generator == *old(generator),
                    decreases fields.len() - i,
                {
                    assert(fm.skip(i as int)[0] == fields@[i as int]@);
                    assert(fm.skip(i as int).drop_first() == fm.skip(i + 1));
                    if fields[i].name == *name {
                        let typ = t.get(registry);
                        match typ {
                            AstType::Bool | AstType::Int | AstType::Float | AstType::StructType { .. } | AstType::NullableType { .. } => {
                                let _ = generator.store_offset_value(registry, fields[i].index as u32, *t);
                            },
                            _ => {},
                        }
                        return Ok(());
                    }
                    i += 1;
                }
                Ok(())
            },
            _ => Ok(()),
        }
    }

    /// Loads the element of the array variable that this expression names at the
    /// index that `index` computes (see `ref_offset_code`).
    pub fn load_ref_offset(&self, registry: &TypeRegistry, index: &TypedExpr, generator: &mut BytecodeGen) -> (r: EmptyRes)
        requires
            registry.acyclic(),
            ref_offset_code(*self, *index, registry.types(), gen_model(*old(generator)), true) is Some,
        ensures
            ref_offset_code(*self, *index, registry.types(), gen_model(*old(generator)), true) == Some((gen_model(*final(generator)), r)),
        decreases size(*self) + size(*index), 2int, 0nat,
    {
        self.ref_offset(registry, index, generator, true)
    }

    /// Stores the value on top into the element of the array variable that this
    /// expression names at the index that `index` computes (see `ref_offset_code`).
    pub fn store_ref_offset(&self, registry: &TypeRegistry, index: &TypedExpr, generator: &mut BytecodeGen) -> (r: EmptyRes)
        requires
            registry.acyclic(),
            ref_offset_code(*self, *index, registry.types(), gen_model(*old(generator)), false) is Some,
        ensures
            ref_offset_code(*self, *index, registry.types(), gen_model(*old(generator)), false) == Some((gen_model(*final(generator)), r)),
        decreases size(*self) + size(*index), 2int, 0nat,
    {
        self.ref_offset(registry, index, generator, false)
    }

    fn ref_offset(&self, registry: &TypeRegistry, index: &TypedExpr, generator: &mut BytecodeGen, load: bool) -> (r: EmptyRes)
        requires
            registry.acyclic(),
            ref_offset_code(*self, *index, registry.types(), gen_model(*old(generator)), load) is Some,
        ensures
            ref_offset_code(*self, *index, registry.types(), gen_model(*old(generator)), load) == Some((gen_model(*final(generator)), r)),
        decreases size(*self) + size(*index), 1int, 0nat,
    {
        match &self.node {
            Expression::IdentifierExpr(t, name) => {
                generator.a_load(name.clone());
                proof {
                    lemma_size_pos(*self);
                }
                let r = index.generate_bytecode(registry, generator, Operation::Load);
                if r.is_err() {
                    return r;
                }
                let typ = t.get(registry);
                if let AstType::ArrayType { underlying } = typ {
                    let inner = underlying.get(registry);
                    match inner {
                        AstType::Bool | AstType::Int | AstType::Float | AstType::StructType { .. } => {
                            if load {
                                let _ = generator.load_var_offset(registry, underlying);
                            } else {
                                let _ = generator.store_var_offset(registry, underlying);
                            }
                        },
                        _ => {},
                    }
                }
                Ok(())
            },
            _ => Ok(()),
        }
    }
}

} // verus!
