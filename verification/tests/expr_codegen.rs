use tropaion::analysis::type_registry::{TypeEntry, TypeRegistry};
use tropaion::ast::ast_type::AstType;
use tropaion::ast::expression::{Expression, TypedExpr};
use tropaion::compiler::bytecode::ByteCode;
use tropaion::compiler::codegen::BytecodeGen;
use tropaion::compiler::expr_gen::Operation;
use tropaion::error::compilation_error::CompilationError;
use tropaion::error::context::Span;
use tropaion::lexer::token::SimpleToken;
use tropaion::util::spanned::Spanned;

fn node(e: Expression<TypeEntry>) -> TypedExpr {
    Spanned { node: e, span: Span { from: 0, to: 0 } }
}

fn int_lit(t: TypeEntry, v: i64) -> TypedExpr {
    node(Expression::IntLiteralExpr(t, v))
}

fn binary(t: TypeEntry, left: TypedExpr, operator: SimpleToken, right: TypedExpr) -> TypedExpr {
    node(Expression::BinaryExpr { t, left: Box::new(left), operator, right: Box::new(right) })
}

#[test]
fn a_sum_loads_both_sides_then_adds() {
    let mut registry = TypeRegistry::new();
    let t = registry.register(AstType::Int);
    let mut gen = BytecodeGen::new(vec![]);
    let e = binary(t, int_lit(t, 5), SimpleToken::Plus, int_lit(t, 3));
    assert_eq!(e.generate_bytecode(&registry, &mut gen, Operation::Load), Ok(()));
    assert_eq!(gen.instructions, vec![ByteCode::IConst(5), ByteCode::IConst(3), ByteCode::Add]);
}

#[test]
fn an_or_skips_its_right_side_when_the_left_holds() {
    let mut registry = TypeRegistry::new();
    let t = registry.register(AstType::Bool);
    let mut gen = BytecodeGen::new(vec![]);
    let e = binary(t, node(Expression::BoolLiteralExpr(t, true)), SimpleToken::BoolOr, node(Expression::BoolLiteralExpr(t, false)));
    assert_eq!(e.load(&registry, &mut gen, false), Ok(()));
    assert_eq!(
        gen.instructions,
        vec![ByteCode::IConst(1), ByteCode::Dup, ByteCode::IfNe(2), ByteCode::IConst(0), ByteCode::Or]
    );
}

#[test]
fn a_negation_subtracts_from_zero() {
    let mut registry = TypeRegistry::new();
    let t = registry.register(AstType::Int);
    let mut gen = BytecodeGen::new(vec![]);
    let e = node(Expression::PrefixExpr { t, operator: SimpleToken::Dash, expr: Box::new(int_lit(t, 7)) });
    assert_eq!(e.load(&registry, &mut gen, true), Ok(()));
    assert_eq!(gen.instructions, vec![ByteCode::IConst(0), ByteCode::IConst(7), ByteCode::Sub]);
}

#[test]
fn an_integer_beyond_i32_is_refused() {
    let mut registry = TypeRegistry::new();
    let t = registry.register(AstType::Int);
    let mut gen = BytecodeGen::new(vec![]);
    let e = int_lit(t, 1 << 40);
    assert_eq!(e.load(&registry, &mut gen, false), Err(CompilationError::IntOutOfBounds(1 << 40)));
    assert!(gen.instructions.is_empty());
}

#[test]
fn storing_into_an_unknown_variable_is_refused() {
    let mut registry = TypeRegistry::new();
    let t = registry.register(AstType::Int);
    let mut gen = BytecodeGen::new(vec![]);
    let e = node(Expression::IdentifierExpr(t, "x".to_string()));
    assert_eq!(e.store(&registry, &mut gen), Err(CompilationError::MissingVariable("x".to_string())));
}

#[test]
fn a_variable_is_loaded_from_its_slot_and_an_assignment_stores_into_it() {
    let mut registry = TypeRegistry::new();
    let t = registry.register(AstType::Int);
    let mut gen = BytecodeGen::new(vec![]);
    gen.i_const(1);
    gen.store_new_var("x".to_string(), &registry, t).unwrap();
    let x = node(Expression::IdentifierExpr(t, "x".to_string()));
    let assign = node(Expression::AssignExpr { t, assignee: Box::new(x), value: Box::new(int_lit(t, 4)) });
    assert_eq!(assign.load(&registry, &mut gen, false), Ok(()));
    assert_eq!(gen.instructions, vec![ByteCode::IConst(1), ByteCode::IStore(0), ByteCode::IConst(4), ByteCode::IStore(0)]);
}

#[test]
fn an_array_literal_stores_each_element_at_its_offset() {
    let mut registry = TypeRegistry::new();
    let it = registry.register(AstType::Int);
    let at = registry.register(AstType::ArrayType { underlying: it });
    let mut gen = BytecodeGen::new(vec![]);
    let e = node(Expression::ArrayLiteralExpr(at, vec![int_lit(it, 8), int_lit(it, 9)]));
    assert_eq!(e.load(&registry, &mut gen, false), Ok(()));
    assert_eq!(
        gen.instructions,
        vec![
            ByteCode::HeapAlloc(2),
            ByteCode::Dup,
            ByteCode::IConst(8),
            ByteCode::Swap,
            ByteCode::IStoreOffset(0),
            ByteCode::Dup,
            ByteCode::IConst(9),
            ByteCode::Swap,
            ByteCode::IStoreOffset(1),
        ]
    );
}
