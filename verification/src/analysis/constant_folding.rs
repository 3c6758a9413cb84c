use vstd::prelude::*;
use crate::analysis::type_registry::{TypeEntry, TypeRegistry};
use crate::ast::expression::{spanned_views, ExprModel, Expression, SpannedModel};
use crate::ast::statement::{duplicate_params, spanned_stmt_views, SpannedStmtModel, Statement, StmtModel};
use crate::lexer::token::SimpleToken;
use crate::util::spanned::Spanned;

verus! {

/// `e` with each negation of a number literal replaced by the negated literal,
/// inner negations first, and whether no negated integer was the smallest `i64`.
/// A negated float literal has its sign bit flipped.
pub open spec fn fold_expr(e: ExprModel<TypeEntry>) -> (ExprModel<TypeEntry>, bool)
    decreases e, 2nat,
{
    match e {
        ExprModel::ArrayLiteralExpr(t, v) => {
            let r = fold_exprs(v);
            (ExprModel::ArrayLiteralExpr(t, r.0), r.1)
        },
        ExprModel::NullableExpr(t, b) => {
            let r = fold_spanned(*b);
            (ExprModel::NullableExpr(t, Box::new(r.0)), r.1)
        },
        ExprModel::IncrementExpr(t, b) => {
            let r = fold_spanned(*b);
            (ExprModel::IncrementExpr(t, Box::new(r.0)), r.1)
        },
        ExprModel::DecrementExpr(t, b) => {
            let r = fold_spanned(*b);
            (ExprModel::DecrementExpr(t, Box::new(r.0)), r.1)
        },
        ExprModel::NullDerefExpr(t, b) => {
            let r = fold_spanned(*b);
            (ExprModel::NullDerefExpr(t, Box::new(r.0)), r.1)
        },
        ExprModel::PrefixExpr { t, operator, expr } => {
            let r = fold_spanned(*expr);
            let kept = ExprModel::PrefixExpr { t, operator, expr: Box::new(r.0) };
            if operator == SimpleToken::Dash {
                match r.0.node {
                    ExprModel::IntLiteralExpr(t2, i) => (ExprModel::IntLiteralExpr(t2, (-i) as i64), r.1 && i != i64::MIN),
                    ExprModel::FloatLiteralExpr(t2, f) => (ExprModel::FloatLiteralExpr(t2, f ^ 0x8000_0000u32), r.1),
                    _ => (kept, r.1),
                }
            } else {
                (kept, r.1)
            }
        },
        ExprModel::BinaryExpr { t, left, operator, right } => {
            let l = fold_spanned(*left);
            let r = fold_spanned(*right);
            (ExprModel::BinaryExpr { t, left: Box::new(l.0), operator, right: Box::new(r.0) }, l.1 && r.1)
        },
        ExprModel::AssignExpr { t, assignee, value } => {
            let a = fold_spanned(*assignee);
            let v = fold_spanned(*value);
            (ExprModel::AssignExpr { t, assignee: Box::new(a.0), value: Box::new(v.0) }, a.1 && v.1)
        },
        ExprModel::TupleExpr { t, values } => {
            let r = fold_exprs(values);
            (ExprModel::TupleExpr { t, values: r.0 }, r.1)
        },
        ExprModel::ArrayAccessExpr { t, property, index } => {
            let p = fold_spanned(*property);
            let i = fold_spanned(*index);
            (ExprModel::ArrayAccessExpr { t, property: Box::new(p.0), index: Box::new(i.0) }, p.1 && i.1)
        },
        ExprModel::MemberExpr { t, member, property, null_safe } => {
            let m = fold_spanned(*member);
            let p = fold_spanned(*property);
            (ExprModel::MemberExpr { t, member: Box::new(m.0), property: Box::new(p.0), null_safe }, m.1 && p.1)
        },
        ExprModel::CallExpr { t, func, args } => {
            let f = fold_spanned(*func);
            let a = fold_exprs(args);
            (ExprModel::CallExpr { t, func: Box::new(f.0), args: a.0 }, f.1 && a.1)
        },
        _ => (e, true),
    }
}

/// `fold_expr` of an expression with its span, which it keeps.
pub open spec fn fold_spanned(s: SpannedModel<TypeEntry>) -> (SpannedModel<TypeEntry>, bool)
    decreases s, 1nat,
{
    let r = fold_expr(s.node);
    (SpannedModel { node: r.0, span: s.span }, r.1)
}

/// `fold_spanned` of each expression of a list.
pub open spec fn fold_exprs(s: Seq<SpannedModel<TypeEntry>>) -> (Seq<SpannedModel<TypeEntry>>, bool)
    decreases s, 0nat,
{
    if s.len() == 0 {
        (Seq::empty(), true)
    } else {
        proof {
            vstd::seq::axiom_seq_index_decreases(s, s.len() - 1);
        }
        let a = fold_exprs(s.drop_last());
        let b = fold_spanned(s.last());
        (a.0.push(b.0), a.1 && b.1)
    }
}

/// `s` with `fold_expr` applied to each of its expressions, and whether no negated
/// integer was the smallest `i64`. Names, parameters and types stay as they are.
pub open spec fn fold_stmt(s: StmtModel<TypeEntry>) -> (StmtModel<TypeEntry>, bool)
    decreases s, 2nat,
{
    match s {
        StmtModel::BlockStmt { body } => {
            let b = fold_stmts(body);
            (StmtModel::BlockStmt { body: b.0 }, b.1)
        },
        StmtModel::ExpressionStmt(e) => {
            let r = fold_spanned(e);
            (StmtModel::ExpressionStmt(r.0), r.1)
        },
        StmtModel::VarDeclarationStmt { name, is_const, value, explicit_type } => {
            let r = fold_spanned(value);
            (StmtModel::VarDeclarationStmt { name, is_const, value: r.0, explicit_type }, r.1)
        },
        StmtModel::IfStmt { condition, body, else_branch } => {
            let c = fold_spanned(condition);
            let b = fold_stmts(body);
            match else_branch {
                Some(e) => {
                    let f = fold_stmt_spanned(*e);
                    (StmtModel::IfStmt { condition: c.0, body: b.0, else_branch: Some(Box::new(f.0)) }, c.1 && b.1 && f.1)
                },
                None => (StmtModel::IfStmt { condition: c.0, body: b.0, else_branch: None }, c.1 && b.1),
            }
        },
        StmtModel::WhileStmt { condition, body } => {
            let c = fold_spanned(condition);
            let b = fold_stmts(body);
            (StmtModel::WhileStmt { condition: c.0, body: b.0 }, c.1 && b.1)
        },
        StmtModel::FunctionStmt { name, params, return_type, body } => {
            let b = fold_stmts(body);
            (StmtModel::FunctionStmt { name, params, return_type, body: b.0 }, b.1)
        },
        StmtModel::StructStmt { name, fields, body } => {
            let b = fold_stmts(body);
            (StmtModel::StructStmt { name, fields, body: b.0 }, b.1)
        },
        StmtModel::ReturnStmt(e) => {
            let r = fold_spanned(e);
            (StmtModel::ReturnStmt(r.0), r.1)
        },
        _ => (s, true),
    }
}

/// `fold_stmt` of a statement with its span, which it keeps.
pub open spec fn fold_stmt_spanned(s: SpannedStmtModel<TypeEntry>) -> (SpannedStmtModel<TypeEntry>, bool)
    decreases s, 1nat,
{
    let r = fold_stmt(s.node);
    (SpannedStmtModel { node: r.0, span: s.span }, r.1)
}

/// `fold_stmt_spanned` of each statement of a list.
pub open spec fn fold_stmts(s: Seq<SpannedStmtModel<TypeEntry>>) -> (Seq<SpannedStmtModel<TypeEntry>>, bool)
    decreases s, 0nat,
{
    if s.len() == 0 {
        (Seq::empty(), true)
    } else {
        proof {
            vstd::seq::axiom_seq_index_decreases(s, s.len() - 1);
        }
        let a = fold_stmts(s.drop_last());
        let b = fold_stmt_spanned(s.last());
        (a.0.push(b.0), a.1 && b.1)
    }
}

/// Folds the constant expressions of a typed program.
pub struct ConstExprFolder<'a> {
    registry: &'a mut TypeRegistry,
}

impl<'a> ConstExprFolder<'a> {
    /// The registry that the folder works on, as it now stands.
    pub closed spec fn registry(&self) -> TypeRegistry {
        *self.registry
    }

    /// A folder over the types of `registry`.
    pub fn new(registry: &'a mut TypeRegistry) -> (f: Self)
        ensures
            f.registry() == *old(registry),
    {
        ConstExprFolder { registry }
    }

    /// `stmt` with its negated number literals folded (see `fold_stmt`).
    pub fn fold(stmt: Spanned<Statement<TypeEntry>>, registry: &'a mut TypeRegistry) -> (r: Spanned<Statement<TypeEntry>>)
        requires
            fold_stmt_spanned(stmt@).1,
        ensures
            r@ == fold_stmt_spanned(stmt@).0,
    {
        let _folder = Self::new(registry);
        fold_statement(&stmt)
    }

    /// `operator expr`, where `expr` is already folded: a negated number literal
    /// becomes the negated literal, typed as the literal was.
    pub fn fold_prefix(&mut self, t: TypeEntry, operator: SimpleToken, expr: Box<Spanned<Expression<TypeEntry>>>) -> (e: Expression<TypeEntry>)
        requires
            operator == SimpleToken::Dash ==> !(expr.node matches Expression::IntLiteralExpr(_, i) && i == i64::MIN),
        ensures
            e == (if operator == SimpleToken::Dash {
                match expr.node {
                    Expression::IntLiteralExpr(t2, i) => Expression::IntLiteralExpr(t2, (-i) as i64),
                    Expression::FloatLiteralExpr(t2, f) => Expression::FloatLiteralExpr(t2, f ^ 0x8000_0000u32),
                    _ => Expression::PrefixExpr { t, operator, expr },
                }
            } else {
                Expression::PrefixExpr { t, operator, expr }
            }),
    {
        negate_literal(t, operator, *expr)
    }
}

/// `operator` applied to the folded `expr`.
fn negate_literal(t: TypeEntry, operator: SimpleToken, expr: Spanned<Expression<TypeEntry>>) -> (e: Expression<TypeEntry>)
    requires
        operator == SimpleToken::Dash ==> !(expr.node matches Expression::IntLiteralExpr(_, i) && i == i64::MIN),
    ensures
        e == (if operator == SimpleToken::Dash {
            match expr.node {
                Expression::IntLiteralExpr(t2, i) => Expression::IntLiteralExpr(t2, (-i) as i64),
                Expression::FloatLiteralExpr(t2, f) => Expression::FloatLiteralExpr(t2, f ^ 0x8000_0000u32),
                _ => Expression::PrefixExpr { t, operator, expr: Box::new(expr) },
            }
        } else {
            Expression::PrefixExpr { t, operator, expr: Box::new(expr) }
        }),
{
    if let SimpleToken::Dash = operator {
        if let Expression::IntLiteralExpr(t2, i) = expr.node {
            return Expression::IntLiteralExpr(t2, -i);
        }
        if let Expression::FloatLiteralExpr(t2, f) = expr.node {
            return Expression::FloatLiteralExpr(t2, f ^ 0x8000_0000u32);
        }
    }
    Expression::PrefixExpr { t, operator, expr: Box::new(expr) }
}

/// `fold_expr` of an expression.
fn fold_node(e: &Expression<TypeEntry>) -> (r: Expression<TypeEntry>)
    requires
        fold_expr(e@).1,
    ensures
        r@ == fold_expr(e@).0,
    decreases *e,
{
    match e {
        Expression::ArrayLiteralExpr(t, v) => {
            proof {
                assert(decreases_to!(*e => (*e)->ArrayLiteralExpr_1));
            }
            Expression::ArrayLiteralExpr(*t, fold_list(v))
        },
        Expression::NullableExpr(t, b) => Expression::NullableExpr(*t, Box::new(fold_expression(b))),
        Expression::IncrementExpr(t, b) => Expression::IncrementExpr(*t, Box::new(fold_expression(b))),
        Expression::DecrementExpr(t, b) => Expression::DecrementExpr(*t, Box::new(fold_expression(b))),
        Expression::NullDerefExpr(t, b) => Expression::NullDerefExpr(*t, Box::new(fold_expression(b))),
        Expression::PrefixExpr { t, operator, expr } => {
            let inner = fold_expression(expr);
            negate_literal(*t, *operator, inner)
        },
        Expression::BinaryExpr { t, left, operator, right } => Expression::BinaryExpr {
            t: *t,
            left: Box::new(fold_expression(left)),
            operator: *operator,
            right: Box::new(fold_expression(right)),
        },
        Expression::AssignExpr { t, assignee, value } => Expression::AssignExpr {
            t: *t,
            assignee: Box::new(fold_expression(assignee)),
            value: Box::new(fold_expression(value)),
        },
        Expression::TupleExpr { t, values } => {
            proof {
                assert(decreases_to!(*e => (*e)->values));
            }
            Expression::TupleExpr { t: *t, values: fold_list(values) }
        },
        Expression::ArrayAccessExpr { t, property, index } => Expression::ArrayAccessExpr {
            t: *t,
            property: Box::new(fold_expression(property)),
            index: Box::new(fold_expression(index)),
        },
        Expression::MemberExpr { t, member, property, null_safe } => Expression::MemberExpr {
            t: *t,
            member: Box::new(fold_expression(member)),
            property: Box::new(fold_expression(property)),
            null_safe: *null_safe,
        },
        Expression::CallExpr { t, func, args } => {
            proof {
                assert(decreases_to!(*e => (*e)->args));
            }
            let f = fold_expression(func);
            Expression::CallExpr { t: *t, func: Box::new(f), args: fold_list(args) }
        },
        _ => e.duplicate(),
    }
}

/// `fold_spanned` of an expression with its span.
fn fold_expression(s: &Spanned<Expression<TypeEntry>>) -> (r: Spanned<Expression<TypeEntry>>)
    requires
        fold_spanned(s@).1,
    ensures
        r@ == fold_spanned(s@).0,
    decreases *s,
{
    proof {
        assert(decreases_to!(*s => s.node));
    }
    Spanned { node: fold_node(&s.node), span: s.span }
}

/// `fold_exprs` of a list of expressions.
fn fold_list(v: &Vec<Spanned<Expression<TypeEntry>>>) -> (r: Vec<Spanned<Expression<TypeEntry>>>)
    requires
        fold_exprs(spanned_views(v@)).1,
    ensures
        spanned_views(r@) == fold_exprs(spanned_views(v@)).0,
    decreases *v,
{
    let mut out: Vec<Spanned<Expression<TypeEntry>>> = Vec::new();
    let mut i: usize = 0;
    while i < v.len()
        invariant
            i <= v@.len(),
            fold_exprs(spanned_views(v@)).1,
            spanned_views(out@) == fold_exprs(spanned_views(v@.take(i as int))).0,
        decreases v@.len() - i,
    {
        proof {
            vstd::std_specs::vec::axiom_vec_index_decreases(*v, i as int);
            lemma_fold_exprs_prefix(v@, i as int + 1);
            assert(v@.take(i + 1).drop_last() == v@.take(i as int));
        }
        let ghost t = v@.take(i + 1);
        proof {
            assert(t.drop_last() == v@.take(i as int));
            assert(t.last() == v@[i as int]);
            let st = spanned_views(t);
            assert(st.drop_last() == spanned_views(t.drop_last()));
            assert(fold_exprs(st).1 == (fold_exprs(st.drop_last()).1 && fold_spanned(st.last()).1));
        }
        let c = fold_expression(&v[i]);
        let ghost o = out@;
        out.push(c);
        proof {
            assert(out@.drop_last() == o);
            assert(out@.last() == c);
            let st = spanned_views(t);
            assert(spanned_views(out@) == spanned_views(o).push(spanned_views(out@).last()));
            assert(fold_exprs(st).0 == fold_exprs(st.drop_last()).0.push(fold_spanned(st.last()).0));
        }
        i += 1;
    }
    assert(v@.take(v@.len() as int) == v@);
    out
}

/// Folding a list succeeds on each of its prefixes where it succeeds on the whole.
proof fn lemma_fold_exprs_prefix(v: Seq<Spanned<Expression<TypeEntry>>>, i: int)
    requires
        0 <= i <= v.len(),
        fold_exprs(spanned_views(v)).1,
    ensures
        fold_exprs(spanned_views(v.take(i))).1,
    decreases v.len(),
{
    if i < v.len() {
        assert(v.take(i) == v.drop_last().take(i));
        let sv = spanned_views(v);
        assert(sv.drop_last() == spanned_views(v.drop_last()));
        assert(fold_exprs(sv).1 == (fold_exprs(sv.drop_last()).1 && fold_spanned(sv.last()).1));
        lemma_fold_exprs_prefix(v.drop_last(), i);
    } else {
        assert(v.take(i) == v);
    }
}

/// `fold_stmt` of a statement.
fn fold_statement_node(s: &Statement<TypeEntry>) -> (r: Statement<TypeEntry>)
    requires
        fold_stmt(s@).1,
    ensures
        r@ == fold_stmt(s@).0,
    decreases *s,
{
    match s {
        Statement::BlockStmt { body } => {
            proof {
                assert(decreases_to!(*s => (*s)->BlockStmt_body));
            }
            Statement::BlockStmt { body: fold_block(body) }
        },
        Statement::ExpressionStmt(e) => Statement::ExpressionStmt(fold_expression(e)),
        Statement::VarDeclarationStmt { name, is_const, value, explicit_type } => Statement::VarDeclarationStmt {
            name: name.clone(),
            is_const: *is_const,
            value: fold_expression(value),
            explicit_type: *explicit_type,
        },
        Statement::IfStmt { condition, body, else_branch } => {
            proof {
                assert(decreases_to!(*s => (*s)->IfStmt_body));
            }
            let c = fold_expression(condition);
            let b = fold_block(body);
            let e = match else_branch {
                Some(branch) => Some(Box::new(fold_statement(branch))),
                None => None,
            };
            Statement::IfStmt { condition: c, body: b, else_branch: e }
        },
        Statement::WhileStmt { condition, body } => {
            proof {
                assert(decreases_to!(*s => (*s)->WhileStmt_body));
            }
            Statement::WhileStmt { condition: fold_expression(condition), body: fold_block(body) }
        },
        Statement::FunctionStmt { name, params, return_type, body } => {
            proof {
                assert(decreases_to!(*s => (*s)->FunctionStmt_body));
            }
            Statement::FunctionStmt {
                name: name.clone(),
                params: duplicate_params(params),
                return_type: *return_type,
                body: fold_block(body),
            }
        },
        Statement::StructStmt { name, fields, body } => {
            proof {
                assert(decreases_to!(*s => (*s)->StructStmt_body));
            }
            Statement::StructStmt { name: name.clone(), fields: duplicate_params(fields), body: fold_block(body) }
        },
        Statement::ReturnStmt(e) => Statement::ReturnStmt(fold_expression(e)),
        Statement::CommentStmt(c) => Statement::CommentStmt(c.clone()),
        Statement::MultilineCommentStmt(c) => Statement::MultilineCommentStmt(c.clone()),
    }
}

/// `fold_stmt_spanned` of a statement with its span.
fn fold_statement(s: &Spanned<Statement<TypeEntry>>) -> (r: Spanned<Statement<TypeEntry>>)
    requires
        fold_stmt_spanned(s@).1,
    ensures
        r@ == fold_stmt_spanned(s@).0,
    decreases *s,
{
    proof {
        assert(decreases_to!(*s => s.node));
    }
    Spanned { node: fold_statement_node(&s.node), span: s.span }
}

/// `fold_stmts` of a list of statements.
fn fold_block(v: &Vec<Spanned<Statement<TypeEntry>>>) -> (r: Vec<Spanned<Statement<TypeEntry>>>)
    requires
        fold_stmts(spanned_stmt_views(v@)).1,
    ensures
        spanned_stmt_views(r@) == fold_stmts(spanned_stmt_views(v@)).0,
    decreases *v,
{
    let mut out: Vec<Spanned<Statement<TypeEntry>>> = Vec::new();
    let mut i: usize = 0;
    while i < v.len()
        invariant
            i <= v@.len(),
            fold_stmts(spanned_stmt_views(v@)).1,
            spanned_stmt_views(out@) == fold_stmts(spanned_stmt_views(v@.take(i as int))).0,
        decreases v@.len() - i,
    {
        proof {
            vstd::std_specs::vec::axiom_vec_index_decreases(*v, i as int);
            lemma_fold_stmts_prefix(v@, i as int + 1);
            assert(v@.take(i + 1).drop_last() == v@.take(i as int));
        }
        let ghost t = v@.take(i + 1);
        proof {
            assert(t.drop_last() == v@.take(i as int));
            assert(t.last() == v@[i as int]);
            let st = spanned_stmt_views(t);
            assert(st.drop_last() == spanned_stmt_views(t.drop_last()));
            assert(fold_stmts(st).1 == (fold_stmts(st.drop_last()).1 && fold_stmt_spanned(st.last()).1));
        }
        let c = fold_statement(&v[i]);
        let ghost o = out@;
        out.push(c);
        proof {
            assert(out@.drop_last() == o);
            assert(out@.last() == c);
            let st = spanned_stmt_views(t);
            assert(spanned_stmt_views(out@) == spanned_stmt_views(o).push(spanned_stmt_views(out@).last()));
            assert(fold_stmts(st).0 == fold_stmts(st.drop_last()).0.push(fold_stmt_spanned(st.last()).0));
        }
        i += 1;
    }
    assert(v@.take(v@.len() as int) == v@);
    out
}

/// Folding a list of statements succeeds on each of its prefixes where it succeeds
/// on the whole.
proof fn lemma_fold_stmts_prefix(v: Seq<Spanned<Statement<TypeEntry>>>, i: int)
    requires
        0 <= i <= v.len(),
        fold_stmts(spanned_stmt_views(v)).1,
    ensures
        fold_stmts(spanned_stmt_views(v.take(i))).1,
    decreases v.len(),
{
    if i < v.len() {
        assert(v.take(i) == v.drop_last().take(i));
        let sv = spanned_stmt_views(v);
        assert(sv.drop_last() == spanned_stmt_views(v.drop_last()));
        assert(fold_stmts(sv).1 == (fold_stmts(sv.drop_last()).1 && fold_stmt_spanned(sv.last()).1));
        lemma_fold_stmts_prefix(v.drop_last(), i);
    } else {
        assert(v.take(i) == v);
    }
}

/// Folding is idempotent: folding a folded expression changes nothing.
pub proof fn lemma_fold_expr_idempotent(e: ExprModel<TypeEntry>)
    requires
        fold_expr(e).1,
    ensures
        fold_expr(fold_expr(e).0) == (fold_expr(e).0, true),
    decreases e, 2nat,
{
    match e {
        ExprModel::ArrayLiteralExpr(_, v) => lemma_fold_exprs_idempotent(v),
        ExprModel::NullableExpr(_, b) => lemma_fold_spanned_idempotent(*b),
        ExprModel::IncrementExpr(_, b) => lemma_fold_spanned_idempotent(*b),
        ExprModel::DecrementExpr(_, b) => lemma_fold_spanned_idempotent(*b),
        ExprModel::NullDerefExpr(_, b) => lemma_fold_spanned_idempotent(*b),
        ExprModel::PrefixExpr { expr, .. } => lemma_fold_spanned_idempotent(*expr),
        ExprModel::BinaryExpr { left, right, .. } => {
            lemma_fold_spanned_idempotent(*left);
            lemma_fold_spanned_idempotent(*right);
        },
        ExprModel::AssignExpr { assignee, value, .. } => {
            lemma_fold_spanned_idempotent(*assignee);
            lemma_fold_spanned_idempotent(*value);
        },
        ExprModel::TupleExpr { values, .. } => lemma_fold_exprs_idempotent(values),
        ExprModel::ArrayAccessExpr { property, index, .. } => {
            lemma_fold_spanned_idempotent(*property);
            lemma_fold_spanned_idempotent(*index);
        },
        ExprModel::MemberExpr { member, property, .. } => {
            lemma_fold_spanned_idempotent(*member);
            lemma_fold_spanned_idempotent(*property);
        },
        ExprModel::CallExpr { func, args, .. } => {
            lemma_fold_spanned_idempotent(*func);
            lemma_fold_exprs_idempotent(args);
        },
        _ => {},
    }
}

/// Folding a folded expression with its span changes nothing.
pub proof fn lemma_fold_spanned_idempotent(s: SpannedModel<TypeEntry>)
    requires
        fold_spanned(s).1,
    ensures
        fold_spanned(fold_spanned(s).0) == (fold_spanned(s).0, true),
    decreases s, 1nat,
{
    lemma_fold_expr_idempotent(s.node);
}

/// Folding a folded list of expressions changes nothing.
pub proof fn lemma_fold_exprs_idempotent(s: Seq<SpannedModel<TypeEntry>>)
    requires
        fold_exprs(s).1,
    ensures
        fold_exprs(fold_exprs(s).0) == (fold_exprs(s).0, true),
    decreases s, 0nat,
{
    if s.len() > 0 {
        vstd::seq::axiom_seq_index_decreases(s, s.len() - 1);
        lemma_fold_exprs_idempotent(s.drop_last());
        lemma_fold_spanned_idempotent(s.last());
        let a = fold_exprs(s.drop_last());
        let b = fold_spanned(s.last());
        let f = a.0.push(b.0);
        assert(f.drop_last() == a.0);
        assert(f.last() == b.0);
    }
}

/// Folding is idempotent on statements: folding a folded program changes nothing.
pub proof fn lemma_fold_stmt_idempotent(s: StmtModel<TypeEntry>)
    requires
        fold_stmt(s).1,
    ensures
        fold_stmt(fold_stmt(s).0) == (fold_stmt(s).0, true),
    decreases s, 2nat,
{
    match s {
        StmtModel::BlockStmt { body } => lemma_fold_stmts_idempotent(body),
        StmtModel::ExpressionStmt(e) => lemma_fold_spanned_idempotent(e),
        StmtModel::VarDeclarationStmt { value, .. } => lemma_fold_spanned_idempotent(value),
        StmtModel::IfStmt { condition, body, else_branch } => {
            lemma_fold_spanned_idempotent(condition);
            lemma_fold_stmts_idempotent(body);
            match else_branch {
                Some(b) => lemma_fold_stmt_spanned_idempotent(*b),
                None => {},
            }
        },
        StmtModel::WhileStmt { condition, body } => {
            lemma_fold_spanned_idempotent(condition);
            lemma_fold_stmts_idempotent(body);
        },
        StmtModel::FunctionStmt { body, .. } => lemma_fold_stmts_idempotent(body),
        StmtModel::StructStmt { body, .. } => lemma_fold_stmts_idempotent(body),
        StmtModel::ReturnStmt(e) => lemma_fold_spanned_idempotent(e),
        _ => {},
    }
}

/// Folding a folded statement with its span changes nothing.
pub proof fn lemma_fold_stmt_spanned_idempotent(s: SpannedStmtModel<TypeEntry>)
    requires
        fold_stmt_spanned(s).1,
    ensures
        fold_stmt_spanned(fold_stmt_spanned(s).0) == (fold_stmt_spanned(s).0, true),
    decreases s, 1nat,
{
    lemma_fold_stmt_idempotent(s.node);
}

/// Folding a folded list of statements changes nothing.
pub proof fn lemma_fold_stmts_idempotent(s: Seq<SpannedStmtModel<TypeEntry>>)
    requires
        fold_stmts(s).1,
    ensures
        fold_stmts(fold_stmts(s).0) == (fold_stmts(s).0, true),
    decreases s, 0nat,
{
    if s.len() > 0 {
        vstd::seq::axiom_seq_index_decreases(s, s.len() - 1);
        lemma_fold_stmts_idempotent(s.drop_last());
        lemma_fold_stmt_spanned_idempotent(s.last());
        let a = fold_stmts(s.drop_last());
        let b = fold_stmt_spanned(s.last());
        let f = a.0.push(b.0);
        assert(f.drop_last() == a.0);
        assert(f.last() == b.0);
    }
}

/// Whether `e` holds no negation of a number literal anywhere.
pub open spec fn no_negated_literal(e: ExprModel<TypeEntry>) -> bool
    decreases e, 2nat,
{
    match e {
        ExprModel::ArrayLiteralExpr(_, v) => all_without_negated_literal(v),
        ExprModel::NullableExpr(_, b) => spanned_without_negated_literal(*b),
        ExprModel::IncrementExpr(_, b) => spanned_without_negated_literal(*b),
        ExprModel::DecrementExpr(_, b) => spanned_without_negated_literal(*b),
        ExprModel::NullDerefExpr(_, b) => spanned_without_negated_literal(*b),
        ExprModel::PrefixExpr { operator, expr, .. } => spanned_without_negated_literal(*expr) && !(operator
            == SimpleToken::Dash && (expr.node is IntLiteralExpr || expr.node is FloatLiteralExpr)),
        ExprModel::BinaryExpr { left, right, .. } => spanned_without_negated_literal(*left)
            && spanned_without_negated_literal(*right),
        ExprModel::AssignExpr { assignee, value, .. } => spanned_without_negated_literal(*assignee)
            && spanned_without_negated_literal(*value),
        ExprModel::TupleExpr { values, .. } => all_without_negated_literal(values),
        ExprModel::ArrayAccessExpr { property, index, .. } => spanned_without_negated_literal(*property)
            && spanned_without_negated_literal(*index),
        ExprModel::MemberExpr { member, property, .. } => spanned_without_negated_literal(*member)
            && spanned_without_negated_literal(*property),
        ExprModel::CallExpr { func, args, .. } => spanned_without_negated_literal(*func)
            && all_without_negated_literal(args),
        _ => true,
    }
}

/// `no_negated_literal` of an expression with its span.
pub open spec fn spanned_without_negated_literal(s: SpannedModel<TypeEntry>) -> bool
    decreases s, 1nat,
{
    no_negated_literal(s.node)
}

/// `no_negated_literal` of each expression of a list.
pub open spec fn all_without_negated_literal(s: Seq<SpannedModel<TypeEntry>>) -> bool
    decreases s, 0nat,
{
    if s.len() == 0 {
        true
    } else {
        proof {
            vstd::seq::axiom_seq_index_decreases(s, s.len() - 1);
        }
        all_without_negated_literal(s.drop_last()) && spanned_without_negated_literal(s.last())
    }
}

/// Folding changes only negated number literals: an expression that holds none is
/// given back exactly as it was, every other part of it (types, names, operators,
/// the null-safety of member accesses) included.
pub proof fn lemma_fold_keeps_unnegated(e: ExprModel<TypeEntry>)
    requires
        no_negated_literal(e),
    ensures
        fold_expr(e) == (e, true),
    decreases e, 2nat,
{
    match e {
        ExprModel::ArrayLiteralExpr(_, v) => lemma_fold_keeps_unnegated_list(v),
        ExprModel::NullableExpr(_, b) => lemma_fold_keeps_unnegated_spanned(*b),
        ExprModel::IncrementExpr(_, b) => lemma_fold_keeps_unnegated_spanned(*b),
        ExprModel::DecrementExpr(_, b) => lemma_fold_keeps_unnegated_spanned(*b),
        ExprModel::NullDerefExpr(_, b) => lemma_fold_keeps_unnegated_spanned(*b),
        ExprModel::PrefixExpr { expr, .. } => lemma_fold_keeps_unnegated_spanned(*expr),
        ExprModel::BinaryExpr { left, right, .. } => {
            lemma_fold_keeps_unnegated_spanned(*left);
            lemma_fold_keeps_unnegated_spanned(*right);
        },
        ExprModel::AssignExpr { assignee, value, .. } => {
            lemma_fold_keeps_unnegated_spanned(*assignee);
            lemma_fold_keeps_unnegated_spanned(*value);
        },
        ExprModel::TupleExpr { values, .. } => lemma_fold_keeps_unnegated_list(values),
        ExprModel::ArrayAccessExpr { property, index, .. } => {
            lemma_fold_keeps_unnegated_spanned(*property);
            lemma_fold_keeps_unnegated_spanned(*index);
        },
        ExprModel::MemberExpr { member, property, .. } => {
            lemma_fold_keeps_unnegated_spanned(*member);
            lemma_fold_keeps_unnegated_spanned(*property);
        },
        ExprModel::CallExpr { func, args, .. } => {
            lemma_fold_keeps_unnegated_spanned(*func);
            lemma_fold_keeps_unnegated_list(args);
        },
        _ => {},
    }
}

/// Folding an expression with its span that holds no negated literal changes nothing.
pub proof fn lemma_fold_keeps_unnegated_spanned(s: SpannedModel<TypeEntry>)
    requires
        spanned_without_negated_literal(s),
    ensures
        fold_spanned(s) == (s, true),
    decreases s, 1nat,
{
    lemma_fold_keeps_unnegated(s.node);
}

/// Folding a list of expressions that hold no negated literal changes nothing.
pub proof fn lemma_fold_keeps_unnegated_list(s: Seq<SpannedModel<TypeEntry>>)
    requires
        all_without_negated_literal(s),
    ensures
        fold_exprs(s) == (s, true),
    decreases s, 0nat,
{
    if s.len() > 0 {
        vstd::seq::axiom_seq_index_decreases(s, s.len() - 1);
        lemma_fold_keeps_unnegated_list(s.drop_last());
        lemma_fold_keeps_unnegated_spanned(s.last());
        assert(s.drop_last().push(s.last()) == s);
    }
}

/// Whether no expression of the statement `s` holds a negated number literal.
pub open spec fn stmt_without_negated_literal(s: StmtModel<TypeEntry>) -> bool
    decreases s, 2nat,
{
    match s {
        StmtModel::BlockStmt { body } => stmts_without_negated_literal(body),
        StmtModel::ExpressionStmt(e) => spanned_without_negated_literal(e),
        StmtModel::VarDeclarationStmt { value, .. } => spanned_without_negated_literal(value),
        StmtModel::IfStmt { condition, body, else_branch } => spanned_without_negated_literal(condition)
            && stmts_without_negated_literal(body) && match else_branch {
            Some(b) => spanned_stmt_without_negated_literal(*b),
            None => true,
        },
        StmtModel::WhileStmt { condition, body } => spanned_without_negated_literal(condition)
            && stmts_without_negated_literal(body),
        StmtModel::FunctionStmt { body, .. } => stmts_without_negated_literal(body),
        StmtModel::StructStmt { body, .. } => stmts_without_negated_literal(body),
        StmtModel::ReturnStmt(e) => spanned_without_negated_literal(e),
        _ => true,
    }
}

/// `stmt_without_negated_literal` of a statement with its span.
pub open spec fn spanned_stmt_without_negated_literal(s: SpannedStmtModel<TypeEntry>) -> bool
    decreases s, 1nat,
{
    stmt_without_negated_literal(s.node)
}

/// `stmt_without_negated_literal` of each statement of a list.
pub open spec fn stmts_without_negated_literal(s: Seq<SpannedStmtModel<TypeEntry>>) -> bool
    decreases s, 0nat,
{
    if s.len() == 0 {
        true
    } else {
        proof {
            vstd::seq::axiom_seq_index_decreases(s, s.len() - 1);
        }
        stmts_without_negated_literal(s.drop_last()) && spanned_stmt_without_negated_literal(s.last())
    }
}

/// Folding a program that holds no negated number literal gives it back unchanged.
pub proof fn lemma_fold_stmt_keeps_unnegated(s: StmtModel<TypeEntry>)
    requires
        stmt_without_negated_literal(s),
    ensures
        fold_stmt(s) == (s, true),
    decreases s, 2nat,
{
    match s {
        StmtModel::BlockStmt { body } => lemma_fold_stmts_keep_unnegated(body),
        StmtModel::ExpressionStmt(e) => lemma_fold_keeps_unnegated_spanned(e),
        StmtModel::VarDeclarationStmt { value, .. } => lemma_fold_keeps_unnegated_spanned(value),
        StmtModel::IfStmt { condition, body, else_branch } => {
            lemma_fold_keeps_unnegated_spanned(condition);
            lemma_fold_stmts_keep_unnegated(body);
            match else_branch {
                Some(b) => lemma_fold_stmt_spanned_keeps_unnegated(*b),
                None => {},
            }
        },
        StmtModel::WhileStmt { condition, body } => {
            lemma_fold_keeps_unnegated_spanned(condition);
            lemma_fold_stmts_keep_unnegated(body);
        },
        StmtModel::FunctionStmt { body, .. } => lemma_fold_stmts_keep_unnegated(body),
        StmtModel::StructStmt { body, .. } => lemma_fold_stmts_keep_unnegated(body),
        StmtModel::ReturnStmt(e) => lemma_fold_keeps_unnegated_spanned(e),
        _ => {},
    }
}

/// Folding a statement with its span that holds no negated literal changes nothing.
pub proof fn lemma_fold_stmt_spanned_keeps_unnegated(s: SpannedStmtModel<TypeEntry>)
    requires
        spanned_stmt_without_negated_literal(s),
    ensures
        fold_stmt_spanned(s) == (s, true),
    decreases s, 1nat,
{
    lemma_fold_stmt_keeps_unnegated(s.node);
}

/// Folding a list of statements that hold no negated literal changes nothing.
pub proof fn lemma_fold_stmts_keep_unnegated(s: Seq<SpannedStmtModel<TypeEntry>>)
    requires
        stmts_without_negated_literal(s),
    ensures
        fold_stmts(s) == (s, true),
    decreases s, 0nat,
{
    if s.len() > 0 {
        vstd::seq::axiom_seq_index_decreases(s, s.len() - 1);
        lemma_fold_stmts_keep_unnegated(s.drop_last());
        lemma_fold_stmt_spanned_keeps_unnegated(s.last());
        assert(s.drop_last().push(s.last()) == s);
    }
}

/// Folding a negated integer literal gives the literal of the opposite value, typed
/// as the literal was, wherever that value fits.
pub proof fn lemma_fold_negates_int(t: TypeEntry, t2: TypeEntry, i: i64, span: crate::error::context::Span)
    requires
        i != i64::MIN,
    ensures
        fold_expr(
            ExprModel::PrefixExpr {
                t,
                operator: SimpleToken::Dash,
                expr: Box::new(SpannedModel { node: ExprModel::IntLiteralExpr(t2, i), span }),
            },
        ) == (ExprModel::<TypeEntry>::IntLiteralExpr(t2, (-i) as i64), true),
        (-i) as i64 == -i,
{
    let inner = SpannedModel { node: ExprModel::<TypeEntry>::IntLiteralExpr(t2, i), span };
    assert(fold_expr(inner.node) == (inner.node, true));
    assert(fold_spanned(inner) == (inner, true));
}

/// Folding a negated float literal gives the literal that differs from it only in
/// its sign bit, typed as the literal was.
pub proof fn lemma_fold_negates_float(t: TypeEntry, t2: TypeEntry, f: u32, span: crate::error::context::Span)
    ensures
        fold_expr(
            ExprModel::PrefixExpr {
                t,
                operator: SimpleToken::Dash,
                expr: Box::new(SpannedModel { node: ExprModel::FloatLiteralExpr(t2, f), span }),
            },
        ) matches (ExprModel::FloatLiteralExpr(t3, g), ok) && t3 == t2 && ok && (g ^ f) == 0x8000_0000u32,
{
    let inner = SpannedModel { node: ExprModel::<TypeEntry>::FloatLiteralExpr(t2, f), span };
    assert(fold_expr(inner.node) == (inner.node, true));
    assert(fold_spanned(inner) == (inner, true));
    let g = f ^ 0x8000_0000u32;
    assert((g ^ f) == 0x8000_0000u32) by (bit_vector)
        requires
            g == f ^ 0x8000_0000u32,
    ;
}

} // verus!
