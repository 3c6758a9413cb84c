use tropaion::analysis::constant_folding::ConstExprFolder;
use tropaion::analysis::type_registry::{TypeEntry, TypeRegistry};
use tropaion::ast::expression::Expression;
use tropaion::ast::statement::{Parameter, Statement};
use tropaion::lexer::token::SimpleToken;
use tropaion::util::spanned::Spanned;

fn e(node: Expression<TypeEntry>, from: usize, to: usize) -> Spanned<Expression<TypeEntry>> {
    Spanned::new(node, from, to)
}

fn neg(t: TypeEntry, inner: Spanned<Expression<TypeEntry>>, from: usize, to: usize) -> Spanned<Expression<TypeEntry>> {
    e(Expression::PrefixExpr { t, operator: SimpleToken::Dash, expr: Box::new(inner) }, from, to)
}

fn fold_expr(expr: Spanned<Expression<TypeEntry>>) -> Spanned<Expression<TypeEntry>> {
    let mut reg = TypeRegistry::new();
    let span = expr.span;
    match ConstExprFolder::fold(Spanned::of(Statement::ExpressionStmt(expr), span), &mut reg).node {
        Statement::ExpressionStmt(x) => x,
        other => panic!("unexpected {:?}", other),
    }
}

#[test]
fn a_negated_integer_literal_becomes_a_literal() {
    let outer = TypeEntry { key: 1 };
    let inner = TypeEntry { key: 2 };
    let folded = fold_expr(neg(outer, e(Expression::IntLiteralExpr(inner, 5), 1, 2), 0, 2));
    assert_eq!(folded, e(Expression::IntLiteralExpr(inner, -5), 0, 2));
}

#[test]
fn a_double_negation_folds_back() {
    let t = TypeEntry { key: 0 };
    let folded = fold_expr(neg(t, neg(t, e(Expression::IntLiteralExpr(t, 7), 2, 3), 1, 3), 0, 3));
    assert_eq!(folded, e(Expression::IntLiteralExpr(t, 7), 0, 3));
}

#[test]
fn a_negated_float_literal_flips_its_sign() {
    let t = TypeEntry { key: 0 };
    let folded = fold_expr(neg(t, e(Expression::FloatLiteralExpr(t, 1.5f32.to_bits()), 1, 4), 0, 4));
    assert_eq!(folded, e(Expression::FloatLiteralExpr(t, (-1.5f32).to_bits()), 0, 4));
    let zero = fold_expr(neg(t, e(Expression::FloatLiteralExpr(t, 0.0f32.to_bits()), 1, 2), 0, 2));
    assert_eq!(zero, e(Expression::FloatLiteralExpr(t, (-0.0f32).to_bits()), 0, 2));
}

#[test]
fn other_prefix_expressions_stay() {
    let t = TypeEntry { key: 0 };
    let x = || e(Expression::IdentifierExpr(t, "x".to_string()), 1, 2);
    assert_eq!(fold_expr(neg(t, x(), 0, 2)), neg(t, x(), 0, 2));
    let not = || {
        e(
            Expression::PrefixExpr {
                t,
                operator: SimpleToken::Exclamation,
                expr: Box::new(e(Expression::IntLiteralExpr(t, 1), 1, 2)),
            },
            0,
            2,
        )
    };
    assert_eq!(fold_expr(not()), not());
}

#[test]
fn folding_reaches_nested_expressions_and_statements() {
    let t = TypeEntry { key: 0 };
    let five = || neg(t, e(Expression::IntLiteralExpr(t, 5), 1, 2), 0, 2);
    let folded_five = || e(Expression::IntLiteralExpr(t, -5), 0, 2);
    let call = e(
        Expression::CallExpr { t, func: Box::new(e(Expression::IdentifierExpr(t, "f".to_string()), 0, 1)), args: vec![five()] },
        0,
        5,
    );
    let program = Spanned::new(
        Statement::BlockStmt {
            body: vec![
                Spanned::new(
                    Statement::VarDeclarationStmt { name: "a".to_string(), is_const: true, value: five(), explicit_type: None },
                    0,
                    9,
                ),
                Spanned::new(
                    Statement::IfStmt {
                        condition: e(Expression::BoolLiteralExpr(t, true), 0, 4),
                        body: vec![Spanned::new(Statement::ExpressionStmt(call), 0, 5)],
                        else_branch: Some(Box::new(Spanned::new(Statement::ReturnStmt(five()), 0, 6))),
                    },
                    10,
                    30,
                ),
                Spanned::new(
                    Statement::FunctionStmt {
                        name: "g".to_string(),
                        params: vec![Parameter { name: "p".to_string(), param_type: t }],
                        return_type: t,
                        body: vec![Spanned::new(Statement::ReturnStmt(five()), 0, 6)],
                    },
                    31,
                    50,
                ),
            ],
        },
        0,
        50,
    );
    let mut reg = TypeRegistry::new();
    let folded = ConstExprFolder::fold(program, &mut reg);
    let expected = Spanned::new(
        Statement::BlockStmt {
            body: vec![
                Spanned::new(
                    Statement::VarDeclarationStmt {
                        name: "a".to_string(),
                        is_const: true,
                        value: folded_five(),
                        explicit_type: None,
                    },
                    0,
                    9,
                ),
                Spanned::new(
                    Statement::IfStmt {
                        condition: e(Expression::BoolLiteralExpr(t, true), 0, 4),
                        body: vec![Spanned::new(
                            Statement::ExpressionStmt(e(
                                Expression::CallExpr {
                                    t,
                                    func: Box::new(e(Expression::IdentifierExpr(t, "f".to_string()), 0, 1)),
                                    args: vec![folded_five()],
                                },
                                0,
                                5,
                            )),
                            0,
                            5,
                        )],
                        else_branch: Some(Box::new(Spanned::new(Statement::ReturnStmt(folded_five()), 0, 6))),
                    },
                    10,
                    30,
                ),
                Spanned::new(
                    Statement::FunctionStmt {
                        name: "g".to_string(),
                        params: vec![Parameter { name: "p".to_string(), param_type: t }],
                        return_type: t,
                        body: vec![Spanned::new(Statement::ReturnStmt(folded_five()), 0, 6)],
                    },
                    31,
                    50,
                ),
            ],
        },
        0,
        50,
    );
    assert_eq!(folded, expected);
}

#[test]
fn fold_prefix_negates_an_already_folded_literal() {
    let mut reg = TypeRegistry::new();
    let mut folder = ConstExprFolder::new(&mut reg);
    let t = TypeEntry { key: 3 };
    let lit = Box::new(e(Expression::IntLiteralExpr(t, 9), 1, 2));
    assert_eq!(folder.fold_prefix(TypeEntry { key: 4 }, SimpleToken::Dash, lit), Expression::IntLiteralExpr(t, -9));
}

#[test]
fn folding_twice_changes_nothing_more() {
    let t = TypeEntry { key: 0 };
    let x = || e(Expression::IdentifierExpr(t, "x".to_string()), 2, 3);
    let program = || {
        Spanned::new(
            Statement::ExpressionStmt(e(
                Expression::BinaryExpr {
                    t,
                    left: Box::new(neg(t, neg(t, e(Expression::IntLiteralExpr(t, 4), 2, 3), 1, 3), 0, 3)),
                    operator: SimpleToken::Plus,
                    right: Box::new(neg(t, x(), 4, 6)),
                },
                0,
                6,
            )),
            0,
            6,
        )
    };
    let mut reg = TypeRegistry::new();
    let once = ConstExprFolder::fold(program(), &mut reg);
    let twice = ConstExprFolder::fold(ConstExprFolder::fold(program(), &mut reg), &mut reg);
    assert_eq!(once, twice);
}
