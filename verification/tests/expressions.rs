use tropaion::analysis::type_registry::{TypeEntry, TypeRegistry};
use tropaion::ast::ast_type::AstType;
use tropaion::ast::expression::{
    array_access, assign, binary, bool, box_arg, call, decrement, deref, float, identifier, increment, integer,
    member, null_deref, prefix, string, tuple, Expression,
};
use tropaion::error::context::Span;
use tropaion::lexer::token::SimpleToken;
use tropaion::util::float_bits::f32_bits_of_int;
use tropaion::util::spanned::Spanned;

fn typed(node: Expression<TypeEntry>, from: usize, to: usize) -> Spanned<Expression<TypeEntry>> {
    Spanned::new(node, from, to)
}

fn name(n: &str, from: usize, to: usize) -> Spanned<Expression<()>> {
    Spanned::new(identifier(n.to_string()), from, to)
}

#[test]
fn builders_make_the_expected_nodes() {
    assert_eq!(bool(true), Expression::BoolLiteralExpr((), true));
    assert_eq!(integer(42), Expression::IntLiteralExpr((), 42));
    assert_eq!(float(1.5f32.to_bits()), Expression::FloatLiteralExpr((), 1.5f32.to_bits()));
    assert_eq!(string("hi".to_string()), Expression::StringLiteralExpr((), "hi".to_string()));
    assert_eq!(identifier("x".to_string()), Expression::IdentifierExpr((), "x".to_string()));
    assert_eq!(
        increment(name("x", 0, 1)),
        Expression::IncrementExpr((), Box::new(name("x", 0, 1)))
    );
    assert_eq!(
        decrement(name("x", 0, 1)),
        Expression::DecrementExpr((), Box::new(name("x", 0, 1)))
    );
    assert_eq!(
        null_deref(name("x", 0, 1)),
        Expression::NullDerefExpr((), Box::new(name("x", 0, 1)))
    );
    assert_eq!(
        prefix(SimpleToken::Dash, name("x", 1, 2)),
        Expression::PrefixExpr { t: (), operator: SimpleToken::Dash, expr: Box::new(name("x", 1, 2)) }
    );
    assert_eq!(
        array_access(name("a", 0, 1), name("i", 2, 3)),
        Expression::ArrayAccessExpr { t: (), property: Box::new(name("a", 0, 1)), index: Box::new(name("i", 2, 3)) }
    );
    assert_eq!(
        member(name("a", 0, 1), name("b", 2, 3), true),
        Expression::MemberExpr {
            t: (),
            member: Box::new(name("a", 0, 1)),
            property: Box::new(name("b", 2, 3)),
            null_safe: true
        }
    );
    assert_eq!(
        call(name("f", 0, 1), vec![name("x", 2, 3)]),
        Expression::CallExpr { t: (), func: Box::new(name("f", 0, 1)), args: vec![name("x", 2, 3)] }
    );
    assert_eq!(
        tuple(vec![name("x", 1, 2)]),
        Expression::TupleExpr { t: (), values: vec![name("x", 1, 2)] }
    );
}

#[test]
fn plain_assignment_keeps_both_sides() {
    assert_eq!(
        assign(name("x", 0, 1), SimpleToken::Assign, name("y", 4, 5)),
        Expression::AssignExpr { t: (), assignee: Box::new(name("x", 0, 1)), value: Box::new(name("y", 4, 5)) }
    );
}

#[test]
fn compound_assignment_becomes_assignment_of_the_operation() {
    let e = assign(name("x", 0, 1), SimpleToken::PlusAssign, name("y", 5, 6));
    let sum = binary(name("x", 0, 1), SimpleToken::Plus, name("y", 5, 6));
    assert_eq!(
        e,
        Expression::AssignExpr {
            t: (),
            assignee: Box::new(name("x", 0, 1)),
            value: Box::new(Spanned::of(sum, Span::new(0, 6)))
        }
    );
    let shifted = assign(name("x", 0, 1), SimpleToken::LeftLeftAssign, name("y", 6, 7));
    match shifted {
        Expression::AssignExpr { value, .. } => match value.node {
            Expression::BinaryExpr { operator, .. } => assert_eq!(operator, SimpleToken::LeftLeft),
            other => panic!("unexpected {:?}", other),
        },
        other => panic!("unexpected {:?}", other),
    }
}

#[test]
fn get_type_reads_the_entry_of_each_kind() {
    let t = TypeEntry { key: 9 };
    assert_eq!(typed(Expression::IntLiteralExpr(t, 1), 0, 1).get_type(), t);
    assert_eq!(typed(Expression::IdentifierExpr(t, "x".to_string()), 0, 1).get_type(), t);
    assert_eq!(typed(Expression::TupleExpr { t, values: vec![] }, 0, 2).get_type(), t);
}

#[test]
fn deref_looks_through_every_nullable_layer() {
    let mut reg = TypeRegistry::new();
    let int = reg.register(AstType::Int);
    let once = reg.register(AstType::NullableType { underlying: int });
    let twice = reg.register(AstType::NullableType { underlying: once });
    assert_eq!(deref(twice, &reg), AstType::Int);
    assert_eq!(deref(int, &reg), AstType::Int);
}

#[test]
fn set_type_on_an_equal_type_changes_nothing() {
    let mut reg = TypeRegistry::new();
    let t = reg.register(AstType::Int);
    let mut e = typed(Expression::IdentifierExpr(t, "x".to_string()), 0, 1);
    e.set_type(&mut reg, AstType::Int);
    assert_eq!(e, typed(Expression::IdentifierExpr(t, "x".to_string()), 0, 1));
    assert_eq!(t.get(&reg), AstType::Int);
}

#[test]
fn set_type_mutates_the_entry_of_an_identifier() {
    let mut reg = TypeRegistry::new();
    let t = reg.register(AstType::UnknownType);
    let mut e = typed(Expression::IdentifierExpr(t, "x".to_string()), 0, 1);
    e.set_type(&mut reg, AstType::StringType);
    assert_eq!(t.get(&reg), AstType::StringType);
    assert_eq!(e.get_type(), t);
}

#[test]
fn set_type_turns_an_integer_literal_into_a_float_literal() {
    let mut reg = TypeRegistry::new();
    let t = reg.register(AstType::Int);
    let mut e = typed(Expression::IntLiteralExpr(t, 16_777_217), 0, 8);
    e.set_type(&mut reg, AstType::Float);
    assert_eq!(e, typed(Expression::FloatLiteralExpr(t, (16_777_217i64 as f32).to_bits()), 0, 8));
    assert_eq!(t.get(&reg), AstType::Float);
}

#[test]
fn set_type_to_nullable_wraps_the_expression() {
    let mut reg = TypeRegistry::new();
    let int = reg.register(AstType::Int);
    let t = reg.register(AstType::UnknownType);
    let mut e = typed(Expression::IdentifierExpr(t, "x".to_string()), 3, 4);
    e.set_type(&mut reg, AstType::NullableType { underlying: int });
    assert_eq!(
        e,
        typed(
            Expression::NullableExpr(t, Box::new(typed(Expression::IdentifierExpr(t, "x".to_string()), 3, 4))),
            3,
            4
        )
    );
    assert_eq!(t.get(&reg), AstType::NullableType { underlying: int });
}

#[test]
fn set_type_to_nullable_on_null_only_sets_the_type() {
    let mut reg = TypeRegistry::new();
    let int = reg.register(AstType::Int);
    let t = reg.register(AstType::UnknownType);
    let mut e = typed(Expression::NullLiteralExpr(t), 0, 4);
    e.set_type(&mut reg, AstType::NullableType { underlying: int });
    assert_eq!(e, typed(Expression::NullLiteralExpr(t), 0, 4));
    assert_eq!(t.get(&reg), AstType::NullableType { underlying: int });
}

#[test]
fn change_type_gives_a_new_entry() {
    let mut reg = TypeRegistry::new();
    let t = reg.register(AstType::Int);
    let mut e = typed(Expression::IdentifierExpr(t, "x".to_string()), 0, 1);
    e.change_type(&mut reg, AstType::Bool);
    assert_eq!(e, typed(Expression::IdentifierExpr(TypeEntry { key: 1 }, "x".to_string()), 0, 1));
    assert_eq!(t.get(&reg), AstType::Int);
    assert_eq!(reg.get(1), AstType::Bool);
}

#[test]
fn change_type_of_an_integer_literal_makes_a_float() {
    let mut reg = TypeRegistry::new();
    let t = reg.register(AstType::Int);
    let mut e = typed(Expression::IntLiteralExpr(t, -3), 0, 2);
    e.change_type(&mut reg, AstType::Float);
    assert_eq!(e, typed(Expression::FloatLiteralExpr(TypeEntry { key: 2 }, (-3.0f32).to_bits()), 0, 2));
    assert_eq!(reg.get(1), AstType::Float);
    assert_eq!(reg.get(2), AstType::Float);
}

#[test]
fn box_arg_sets_an_unknown_argument_to_the_desired_type() {
    let mut reg = TypeRegistry::new();
    let desired = reg.register(AstType::Int);
    let t = reg.register(AstType::UnknownType);
    let mut arg = typed(Expression::IdentifierExpr(t, "x".to_string()), 0, 1);
    box_arg(&mut reg, &mut arg, desired);
    assert_eq!(t.get(&reg), AstType::Int);
    assert_eq!(arg, typed(Expression::IdentifierExpr(t, "x".to_string()), 0, 1));
}

#[test]
fn box_arg_wraps_a_plain_argument_for_a_nullable_parameter() {
    let mut reg = TypeRegistry::new();
    let int = reg.register(AstType::Int);
    let desired = reg.register(AstType::NullableType { underlying: int });
    let t = reg.register(AstType::Int);
    let mut arg = typed(Expression::IntLiteralExpr(t, 5), 2, 3);
    box_arg(&mut reg, &mut arg, desired);
    let boxed = TypeEntry { key: 3 };
    assert_eq!(
        arg,
        typed(Expression::NullableExpr(boxed, Box::new(typed(Expression::IntLiteralExpr(t, 5), 2, 3))), 2, 3)
    );
    assert_eq!(boxed.get(&reg), AstType::NullableType { underlying: t });
}

#[test]
fn box_arg_leaves_a_fitting_argument() {
    let mut reg = TypeRegistry::new();
    let desired = reg.register(AstType::Int);
    let t = reg.register(AstType::Int);
    let mut arg = typed(Expression::IntLiteralExpr(t, 5), 0, 1);
    box_arg(&mut reg, &mut arg, desired);
    assert_eq!(arg, typed(Expression::IntLiteralExpr(t, 5), 0, 1));
    assert_eq!(reg.get(2), AstType::UnknownType);
}

#[test]
fn integers_round_to_the_nearest_float() {
    let samples: Vec<i64> = vec![
        0,
        1,
        -1,
        2,
        7,
        -100,
        8_388_607,
        8_388_608,
        16_777_215,
        16_777_216,
        16_777_217,
        16_777_218,
        16_777_219,
        33_554_435,
        -33_554_437,
        123_456_789,
        -987_654_321_012,
        (1i64 << 40) + (1i64 << 16) + 1,
        (1i64 << 40) + (1i64 << 16),
        (1i64 << 40) + (3i64 << 16),
        i64::MAX,
        i64::MIN,
        i64::MIN + 1,
        i64::MAX - 1,
        0x7FFF_FF80_0000_0000,
    ];
    for v in samples {
        assert_eq!(f32_bits_of_int(v), (v as f32).to_bits(), "for {}", v);
    }
    let mut x: i64 = 1;
    for _ in 0..200 {
        x = x.wrapping_mul(6364136223846793005).wrapping_add(1442695040888963407);
        assert_eq!(f32_bits_of_int(x), (x as f32).to_bits(), "for {}", x);
        let small = x >> 37;
        assert_eq!(f32_bits_of_int(small), (small as f32).to_bits(), "for {}", small);
    }
}
