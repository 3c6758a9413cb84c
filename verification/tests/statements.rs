use tropaion::analysis::symbol_table::{SymbolTable, TypeSymTable};
use tropaion::analysis::type_registry::{TypeEntry, TypeRegistry};
use tropaion::ast::ast_type::AstType;
use tropaion::ast::expression::Expression;
use tropaion::ast::statement::{Parameter, Statement};
use tropaion::compiler::compiler::Compiler;
use tropaion::error::context::Span;
use tropaion::util::spanned::Spanned;

fn stmt(node: Statement<TypeEntry>) -> Spanned<Statement<TypeEntry>> {
    Spanned::new(node, 0, 1)
}

fn func(name: &str, params: Vec<Parameter>) -> Spanned<Statement<TypeEntry>> {
    stmt(Statement::FunctionStmt { name: name.to_string(), params, return_type: TypeEntry { key: 0 }, body: vec![] })
}

fn param(name: &str, t: TypeEntry) -> Parameter {
    Parameter { name: name.to_string(), param_type: t }
}

#[test]
fn typed_error_statement_holds_an_errored_expression() {
    let mut reg = TypeRegistry::new();
    reg.register(AstType::Int);
    let s = Spanned::<Statement<TypeEntry>>::err(&mut reg, Span::new(2, 5));
    assert_eq!(
        s,
        Statement::ExpressionStmt(Spanned::of(Expression::ErroredExpr(TypeEntry { key: 1 }), Span::new(2, 5)))
    );
    assert_eq!(reg.get(1), AstType::ErroredType);
    assert!(Spanned::of(s, Span::new(2, 5)).is_err(&reg));
}

#[test]
fn other_statements_are_not_errors() {
    let mut reg = TypeRegistry::new();
    let int = reg.register(AstType::Int);
    let e = Spanned::new(Expression::IntLiteralExpr(int, 3), 0, 1);
    assert!(!stmt(Statement::ExpressionStmt(e)).is_err(&reg));
    assert!(!stmt(Statement::CommentStmt("c".to_string())).is_err(&reg));
}

#[test]
fn untyped_error_statement_spans_its_expression() {
    let s = Spanned::<Statement<()>>::err(Span::new(1, 4));
    assert_eq!(
        s,
        Spanned::of(Statement::ExpressionStmt(Spanned::of(Expression::ErroredExpr(()), Span::new(1, 4))), Span::new(1, 4))
    );
}

#[test]
fn statements_box_as_they_are() {
    let s: Statement<()> = Statement::CommentStmt("x".to_string());
    assert_eq!(*Statement::CommentStmt("x".to_string()).boxed(), s);
}

#[test]
fn collecting_registers_functions_in_order_with_their_parameter_words() {
    let mut reg = TypeRegistry::new();
    let int = reg.register(AstType::Int);
    let void = reg.register(AstType::Void);
    let root = stmt(Statement::BlockStmt {
        body: vec![
            func("a", vec![param("x", int), param("v", void), param("y", int)]),
            stmt(Statement::WhileStmt {
                condition: Spanned::new(Expression::BoolLiteralExpr(int, true), 0, 1),
                body: vec![func("b", vec![])],
            }),
            stmt(Statement::StructStmt { name: "S".to_string(), fields: vec![], body: vec![func("c", vec![param("s", int)])] }),
        ],
    });
    let mut comp = Compiler::new(stmt(Statement::CommentStmt(String::new())), vec![]);
    comp.collect_functions(&reg, &root);
    let a = *comp.generator.functions.get("a").unwrap();
    let b = *comp.generator.functions.get("b").unwrap();
    let c = *comp.generator.functions.get("c").unwrap();
    assert_eq!((a.index, a.params_len), (0, 2));
    assert_eq!((b.index, b.params_len), (1, 0));
    assert_eq!((c.index, c.params_len), (2, 1));
}

#[test]
fn collecting_skips_else_branches_and_function_bodies() {
    let mut reg = TypeRegistry::new();
    let int = reg.register(AstType::Int);
    let root = stmt(Statement::BlockStmt {
        body: vec![
            stmt(Statement::IfStmt {
                condition: Spanned::new(Expression::BoolLiteralExpr(int, true), 0, 1),
                body: vec![func("then", vec![])],
                else_branch: Some(Box::new(func("otherwise", vec![]))),
            }),
            stmt(Statement::FunctionStmt {
                name: "outer".to_string(),
                params: vec![],
                return_type: int,
                body: vec![func("inner", vec![])],
            }),
        ],
    });
    let mut comp = Compiler::new(stmt(Statement::CommentStmt(String::new())), vec![]);
    comp.collect_functions(&reg, &root);
    assert!(comp.generator.functions.get("then").is_some());
    assert!(comp.generator.functions.get("outer").is_some());
    assert!(comp.generator.functions.get("otherwise").is_none());
    assert!(comp.generator.functions.get("inner").is_none());
}

#[test]
fn a_duplicated_statement_equals_the_statement_it_copies() {
    let t = TypeEntry { key: 0 };
    let s = stmt(Statement::IfStmt {
        condition: Spanned::new(Expression::BoolLiteralExpr(t, true), 0, 1),
        body: vec![func("f", vec![param("a", t)])],
        else_branch: Some(Box::new(stmt(Statement::ReturnStmt(Spanned::new(Expression::IntLiteralExpr(t, 1), 0, 1))))),
    });
    assert_eq!(tropaion::ast::statement::duplicate_stmt(&s), s);
}

#[test]
fn struct_methods_get_a_receiver() {
    let s_type = TypeEntry { key: 5 };
    let int = TypeEntry { key: 1 };
    let mut table: TypeSymTable = SymbolTable::new();
    table.record("S".to_string(), s_type);
    let program = stmt(Statement::BlockStmt {
        body: vec![
            stmt(Statement::StructStmt {
                name: "S".to_string(),
                fields: vec![param("x", int)],
                body: vec![func("get", vec![param("a", int)])],
            }),
            func("free", vec![param("b", int)]),
        ],
    });
    let expected = stmt(Statement::BlockStmt {
        body: vec![
            stmt(Statement::StructStmt {
                name: "S".to_string(),
                fields: vec![param("x", int)],
                body: vec![func("get", vec![param("this", s_type), param("a", int)])],
            }),
            func("free", vec![param("b", int)]),
        ],
    });
    assert_eq!(program.transform_methods(&table), expected);
}
