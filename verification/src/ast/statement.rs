use vstd::prelude::*;
use crate::analysis::type_registry::{entry_type, TypeEntry, TypeRegistry};
use crate::ast::ast_type::AstTypeModel;
use crate::ast::expression::{duplicate_spanned, expr_type, Expression, SpannedModel};
use crate::error::context::Span;
use crate::util::spanned::Spanned;

verus! {

/// A named parameter (or field) and its type.
#[derive(Debug, PartialEq, Clone)]
pub struct Parameter {
    pub name: String,
    pub param_type: TypeEntry,
}

/// The statements of the language, their expressions typed by `T`.
#[derive(Debug, PartialEq)]
pub enum Statement<T> {
    BlockStmt { body: Vec<Spanned<Statement<T>>> },
    ExpressionStmt(Spanned<Expression<T>>),
    VarDeclarationStmt { name: String, is_const: bool, value: Spanned<Expression<T>>, explicit_type: Option<TypeEntry> },
    /// The else branch is another `if` statement or a block.
    IfStmt { condition: Spanned<Expression<T>>, body: Vec<Spanned<Statement<T>>>, else_branch: Option<Box<Spanned<Statement<T>>>> },
    WhileStmt { condition: Spanned<Expression<T>>, body: Vec<Spanned<Statement<T>>> },
    FunctionStmt { name: String, params: Vec<Parameter>, return_type: TypeEntry, body: Vec<Spanned<Statement<T>>> },
    StructStmt { name: String, fields: Vec<Parameter>, body: Vec<Spanned<Statement<T>>> },
    ReturnStmt(Spanned<Expression<T>>),
    CommentStmt(String),
    MultilineCommentStmt(String),
}

/// A statement before type resolution.
pub type UntypedStmt = Spanned<Statement<()>>;

/// A statement whose expressions carry the registry entries of their types.
pub type TypedStmt = Spanned<Statement<TypeEntry>>;

/// The model of a parameter: its name and type.
pub open spec fn param_model(p: Parameter) -> (Seq<char>, TypeEntry) {
    (p.name@, p.param_type)
}

/// The models of a list of parameters.
pub open spec fn param_models(v: Seq<Parameter>) -> Seq<(Seq<char>, TypeEntry)> {
    v.map_values(|p: Parameter| param_model(p))
}

/// The model of a statement: texts as character sequences, lists as sequences.
pub enum StmtModel<T> {
    BlockStmt { body: Seq<SpannedStmtModel<T>> },
    ExpressionStmt(SpannedModel<T>),
    VarDeclarationStmt { name: Seq<char>, is_const: bool, value: SpannedModel<T>, explicit_type: Option<TypeEntry> },
    IfStmt { condition: SpannedModel<T>, body: Seq<SpannedStmtModel<T>>, else_branch: Option<Box<SpannedStmtModel<T>>> },
    WhileStmt { condition: SpannedModel<T>, body: Seq<SpannedStmtModel<T>> },
    FunctionStmt { name: Seq<char>, params: Seq<(Seq<char>, TypeEntry)>, return_type: TypeEntry, body: Seq<SpannedStmtModel<T>> },
    StructStmt { name: Seq<char>, fields: Seq<(Seq<char>, TypeEntry)>, body: Seq<SpannedStmtModel<T>> },
    ReturnStmt(SpannedModel<T>),
    CommentStmt(Seq<char>),
    MultilineCommentStmt(Seq<char>),
}

/// The model of a statement with its span.
pub struct SpannedStmtModel<T> {
    pub node: StmtModel<T>,
    pub span: Span,
}

/// The model of a statement.
pub open spec fn stmt_view<T>(s: Statement<T>) -> StmtModel<T>
    decreases s, 2nat,
{
    match s {
        Statement::BlockStmt { body } => {
            proof {
                vstd::std_specs::vec::axiom_vec_decreases_to_view(body);
            }
            StmtModel::BlockStmt { body: spanned_stmt_views(body@) }
        },
        Statement::ExpressionStmt(e) => StmtModel::ExpressionStmt(e@),
        Statement::VarDeclarationStmt { name, is_const, value, explicit_type } => StmtModel::VarDeclarationStmt {
            name: name@,
            is_const,
            value: value@,
            explicit_type,
        },
        Statement::IfStmt { condition, body, else_branch } => {
            proof {
                vstd::std_specs::vec::axiom_vec_decreases_to_view(body);
            }
            StmtModel::IfStmt {
                condition: condition@,
                body: spanned_stmt_views(body@),
                else_branch: match else_branch {
                    Some(b) => Some(Box::new(spanned_stmt_view(*b))),
                    None => None,
                },
            }
        },
        Statement::WhileStmt { condition, body } => {
            proof {
                vstd::std_specs::vec::axiom_vec_decreases_to_view(body);
            }
            StmtModel::WhileStmt { condition: condition@, body: spanned_stmt_views(body@) }
        },
        Statement::FunctionStmt { name, params, return_type, body } => {
            proof {
                vstd::std_specs::vec::axiom_vec_decreases_to_view(body);
            }
            StmtModel::FunctionStmt {
                name: name@,
                params: param_models(params@),
                return_type,
                body: spanned_stmt_views(body@),
            }
        },
        Statement::StructStmt { name, fields, body } => {
            proof {
                vstd::std_specs::vec::axiom_vec_decreases_to_view(body);
            }
            StmtModel::StructStmt { name: name@, fields: param_models(fields@), body: spanned_stmt_views(body@) }
        },
        Statement::ReturnStmt(e) => StmtModel::ReturnStmt(e@),
        Statement::CommentStmt(c) => StmtModel::CommentStmt(c@),
        Statement::MultilineCommentStmt(c) => StmtModel::MultilineCommentStmt(c@),
    }
}

/// The model of a statement with its span.
pub open spec fn spanned_stmt_view<T>(s: Spanned<Statement<T>>) -> SpannedStmtModel<T>
    decreases s, 1nat,
{
    SpannedStmtModel { node: stmt_view(s.node), span: s.span }
}

/// The models of a list of statements.
pub open spec fn spanned_stmt_views<T>(s: Seq<Spanned<Statement<T>>>) -> Seq<SpannedStmtModel<T>>
    decreases s, 0nat,
{
    if s.len() == 0 {
        Seq::empty()
    } else {
        proof {
            vstd::seq::axiom_seq_index_decreases(s, s.len() - 1);
        }
        spanned_stmt_views(s.drop_last()).push(spanned_stmt_view(s.last()))
    }
}

impl<T> View for Statement<T> {
    type V = StmtModel<T>;

    open spec fn view(&self) -> StmtModel<T> {
        stmt_view(*self)
    }
}

impl<T> View for Spanned<Statement<T>> {
    type V = SpannedStmtModel<T>;

    open spec fn view(&self) -> SpannedStmtModel<T> {
        spanned_stmt_view(*self)
    }
}

impl<T> Statement<T> {
    /// This statement, boxed.
    pub fn boxed(self) -> (b: Box<Self>)
        ensures
            *b == self,
    {
        Box::new(self)
    }
}

impl<T: Copy> Statement<T> {
    /// A copy of this statement.
    pub fn duplicate(&self) -> (r: Self)
        ensures
            r@ == self@,
        decreases *self,
    {
        match self {
            Statement::BlockStmt { body } => {
                proof {
                    assert(decreases_to!(*self => (*self)->BlockStmt_body));
                }
                Statement::BlockStmt { body: duplicate_block(body) }
            },
            Statement::ExpressionStmt(e) => Statement::ExpressionStmt(duplicate_spanned(e)),
            Statement::VarDeclarationStmt { name, is_const, value, explicit_type } => Statement::VarDeclarationStmt {
                name: name.clone(),
                is_const: *is_const,
                value: duplicate_spanned(value),
                explicit_type: *explicit_type,
            },
            Statement::IfStmt { condition, body, else_branch } => {
                proof {
                    assert(decreases_to!(*self => (*self)->IfStmt_body));
                }
                let c = duplicate_spanned(condition);
                let b = duplicate_block(body);
                let e = match else_branch {
                    Some(branch) => Some(Box::new(duplicate_stmt(branch))),
                    None => None,
                };
                Statement::IfStmt { condition: c, body: b, else_branch: e }
            },
            Statement::WhileStmt { condition, body } => {
                proof {
                    assert(decreases_to!(*self => (*self)->WhileStmt_body));
                }
                Statement::WhileStmt { condition: duplicate_spanned(condition), body: duplicate_block(body) }
            },
            Statement::FunctionStmt { name, params, return_type, body } => {
                proof {
                    assert(decreases_to!(*self => (*self)->FunctionStmt_body));
                }
                Statement::FunctionStmt {
                    name: name.clone(),
                    params: duplicate_params(params),
                    return_type: *return_type,
                    body: duplicate_block(body),
                }
            },
            Statement::StructStmt { name, fields, body } => {
                proof {
                    assert(decreases_to!(*self => (*self)->StructStmt_body));
                }
                Statement::StructStmt { name: name.clone(), fields: duplicate_params(fields), body: duplicate_block(body) }
            },
            Statement::ReturnStmt(e) => Statement::ReturnStmt(duplicate_spanned(e)),
            Statement::CommentStmt(c) => Statement::CommentStmt(c.clone()),
            Statement::MultilineCommentStmt(c) => Statement::MultilineCommentStmt(c.clone()),
        }
    }
}

/// A copy of a statement with its span.
pub fn duplicate_stmt<T: Copy>(s: &Spanned<Statement<T>>) -> (r: Spanned<Statement<T>>)
    ensures
        r@ == s@,
    decreases *s,
{
    proof {
        assert(decreases_to!(*s => s.node));
    }
    Spanned { node: s.node.duplicate(), span: s.span }
}

/// Copies of a list of statements.
pub fn duplicate_block<T: Copy>(v: &Vec<Spanned<Statement<T>>>) -> (r: Vec<Spanned<Statement<T>>>)
    ensures
        spanned_stmt_views(r@) == spanned_stmt_views(v@),
    decreases *v,
{
    let mut out: Vec<Spanned<Statement<T>>> = Vec::new();
    let mut i: usize = 0;
    while i < v.len()
        invariant
            i <= v@.len(),
            spanned_stmt_views(out@) == spanned_stmt_views(v@.take(i as int)),
        decreases v@.len() - i,
    {
        proof {
            vstd::std_specs::vec::axiom_vec_index_decreases(*v, i as int);
        }
        let c = duplicate_stmt(&v[i]);
        let ghost o = out@;
        out.push(c);
        proof {
            assert(out@.drop_last() == o);
            assert(v@.take(i + 1).drop_last() == v@.take(i as int));
        }
        i += 1;
    }
    assert(v@.take(v@.len() as int) == v@);
    out
}

/// Copies of a list of parameters.
pub fn duplicate_params(v: &Vec<Parameter>) -> (r: Vec<Parameter>)
    ensures
        param_models(r@) == param_models(v@),
{
    let mut out: Vec<Parameter> = Vec::new();
    let mut i: usize = 0;
    while i < v.len()
        invariant
            i <= v@.len(),
            param_models(out@) == param_models(v@.take(i as int)),
        decreases v@.len() - i,
    {
        let p = Parameter { name: v[i].name.clone(), param_type: v[i].param_type };
        let ghost o = out@;
        out.push(p);
        proof {
            assert(out@ == o.push(p));
            assert(v@.take(i + 1) == v@.take(i as int).push(v@[i as int]));
            let a = param_models(out@);
            let b = param_models(v@.take(i + 1));
            let a0 = param_models(o);
            let b0 = param_models(v@.take(i as int));
            assert(a0.len() == o.len());
            assert(b0.len() == i);
            assert(a.len() == out@.len());
            assert(b.len() == i + 1);
            assert forall|j: int| 0 <= j < a.len() implies #[trigger] a[j] == b[j] by {
                if j < i {
                    assert(a0[j] == b0[j]);
                }
            }
            assert(a =~= b);
        }
        i += 1;
    }
    assert(v@.take(v@.len() as int) == v@);
    out
}

impl Spanned<Statement<TypeEntry>> {
    /// The statement that stands for one that could not be typed: an expression
    /// statement whose expression is errored, of a new entry holding the errored type.
    pub fn err(registry: &mut TypeRegistry, span: Span) -> (s: Statement<TypeEntry>)
        requires
            old(registry).wf(),
            old(registry).next_key() < u64::MAX,
        ensures
            final(registry).wf(),
            final(registry).next_key() == old(registry).next_key() + 1,
            final(registry).types() == old(registry).types().insert(
                old(registry).next_key(),
                AstTypeModel::ErroredType,
            ),
            s == Statement::ExpressionStmt(
                Spanned { node: Expression::ErroredExpr(TypeEntry { key: old(registry).next_key() }), span },
            ),
    {
        let t = TypeEntry::err(registry);
        Statement::ExpressionStmt(Spanned::of(Expression::ErroredExpr(t), span))
    }

    /// Whether this is an expression statement whose expression has the errored type.
    pub fn is_err(&self, registry: &TypeRegistry) -> (b: bool)
        ensures
            b == (match self.node {
                Statement::ExpressionStmt(e) => entry_type(registry.types(), expr_type(e.node).key) is ErroredType,
                _ => false,
            }),
    {
        if let Statement::ExpressionStmt(expr) = &self.node {
            return expr.get_type().is_err(registry);
        }
        false
    }
}

impl Spanned<Statement<()>> {
    /// The untyped statement that stands for one that could not be parsed: an
    /// expression statement whose expression is errored, both at `span`.
    pub fn err(span: Span) -> (s: Spanned<Statement<()>>)
        ensures
            s == (Spanned { node: Statement::ExpressionStmt(Spanned { node: Expression::ErroredExpr(()), span }), span }),
    {
        Spanned::of(Statement::ExpressionStmt(Spanned::of(Expression::ErroredExpr(()), span)), span)
    }
}

} // verus!
