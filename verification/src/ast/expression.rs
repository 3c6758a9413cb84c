use vstd::prelude::*;
use crate::analysis::type_registry::{entry_type, height, lemma_child_lower, level, refs_below, TypeEntry, TypeRegistry};
use crate::ast::ast_type::{types_equal, AstType, AstTypeModel};
use crate::util::float_bits::{f32_bits_of, f32_bits_of_int};
use crate::error::context::Span;
use crate::lexer::token::SimpleToken;
use crate::util::spanned::Spanned;

verus! {

/// The expressions of the language, each with its type `T` (`()` before the types
/// are known). A float literal holds the bit pattern of its value.
#[derive(Debug, PartialEq)]
pub enum Expression<T> {
    ErroredExpr(T),
    NullLiteralExpr(T),
    BoolLiteralExpr(T, bool),
    IntLiteralExpr(T, i64),
    FloatLiteralExpr(T, u32),
    StringLiteralExpr(T, String),
    ArrayLiteralExpr(T, Vec<Spanned<Expression<T>>>),
    IdentifierExpr(T, String),
    NullableExpr(T, Box<Spanned<Expression<T>>>),
    IncrementExpr(T, Box<Spanned<Expression<T>>>),
    DecrementExpr(T, Box<Spanned<Expression<T>>>),
    NullDerefExpr(T, Box<Spanned<Expression<T>>>),
    PrefixExpr { t: T, operator: SimpleToken, expr: Box<Spanned<Expression<T>>> },
    BinaryExpr { t: T, left: Box<Spanned<Expression<T>>>, operator: SimpleToken, right: Box<Spanned<Expression<T>>> },
    AssignExpr { t: T, assignee: Box<Spanned<Expression<T>>>, value: Box<Spanned<Expression<T>>> },
    TupleExpr { t: T, values: Vec<Spanned<Expression<T>>> },
    ArrayAccessExpr { t: T, property: Box<Spanned<Expression<T>>>, index: Box<Spanned<Expression<T>>> },
    MemberExpr { t: T, member: Box<Spanned<Expression<T>>>, property: Box<Spanned<Expression<T>>>, null_safe: bool },
    CallExpr { t: T, func: Box<Spanned<Expression<T>>>, args: Vec<Spanned<Expression<T>>> },
}

/// An expression before type resolution.
pub type UntypedExpr = Spanned<Expression<()>>;

/// An expression with the registry entry of its type.
pub type TypedExpr = Spanned<Expression<TypeEntry>>;

/// The model of an expression: texts as character sequences, lists as sequences.
pub enum ExprModel<T> {
    ErroredExpr(T),
    NullLiteralExpr(T),
    BoolLiteralExpr(T, bool),
    IntLiteralExpr(T, i64),
    FloatLiteralExpr(T, u32),
    StringLiteralExpr(T, Seq<char>),
    ArrayLiteralExpr(T, Seq<SpannedModel<T>>),
    IdentifierExpr(T, Seq<char>),
    NullableExpr(T, Box<SpannedModel<T>>),
    IncrementExpr(T, Box<SpannedModel<T>>),
    DecrementExpr(T, Box<SpannedModel<T>>),
    NullDerefExpr(T, Box<SpannedModel<T>>),
    PrefixExpr { t: T, operator: SimpleToken, expr: Box<SpannedModel<T>> },
    BinaryExpr { t: T, left: Box<SpannedModel<T>>, operator: SimpleToken, right: Box<SpannedModel<T>> },
    AssignExpr { t: T, assignee: Box<SpannedModel<T>>, value: Box<SpannedModel<T>> },
    TupleExpr { t: T, values: Seq<SpannedModel<T>> },
    ArrayAccessExpr { t: T, property: Box<SpannedModel<T>>, index: Box<SpannedModel<T>> },
    MemberExpr { t: T, member: Box<SpannedModel<T>>, property: Box<SpannedModel<T>>, null_safe: bool },
    CallExpr { t: T, func: Box<SpannedModel<T>>, args: Seq<SpannedModel<T>> },
}

/// The model of an expression with its span.
pub struct SpannedModel<T> {
    pub node: ExprModel<T>,
    pub span: Span,
}

/// The model of an expression.
pub open spec fn expr_view<T>(e: Expression<T>) -> ExprModel<T>
    decreases e, 2nat,
{
    match e {
        Expression::ErroredExpr(t) => ExprModel::ErroredExpr(t),
        Expression::NullLiteralExpr(t) => ExprModel::NullLiteralExpr(t),
        Expression::BoolLiteralExpr(t, b) => ExprModel::BoolLiteralExpr(t, b),
        Expression::IntLiteralExpr(t, i) => ExprModel::IntLiteralExpr(t, i),
        Expression::FloatLiteralExpr(t, f) => ExprModel::FloatLiteralExpr(t, f),
        Expression::StringLiteralExpr(t, s) => ExprModel::StringLiteralExpr(t, s@),
        Expression::ArrayLiteralExpr(t, v) => {
            proof {
                vstd::std_specs::vec::axiom_vec_decreases_to_view(v);
            }
            ExprModel::ArrayLiteralExpr(t, spanned_views(v@))
        },
        Expression::IdentifierExpr(t, s) => ExprModel::IdentifierExpr(t, s@),
        Expression::NullableExpr(t, b) => ExprModel::NullableExpr(t, Box::new(spanned_view(*b))),
        Expression::IncrementExpr(t, b) => ExprModel::IncrementExpr(t, Box::new(spanned_view(*b))),
        Expression::DecrementExpr(t, b) => ExprModel::DecrementExpr(t, Box::new(spanned_view(*b))),
        Expression::NullDerefExpr(t, b) => ExprModel::NullDerefExpr(t, Box::new(spanned_view(*b))),
        Expression::PrefixExpr { t, operator, expr } => ExprModel::PrefixExpr {
            t,
            operator,
            expr: Box::new(spanned_view(*expr)),
        },
        Expression::BinaryExpr { t, left, operator, right } => ExprModel::BinaryExpr {
            t,
            left: Box::new(spanned_view(*left)),
            operator,
            right: Box::new(spanned_view(*right)),
        },
        Expression::AssignExpr { t, assignee, value } => ExprModel::AssignExpr {
            t,
            assignee: Box::new(spanned_view(*assignee)),
            value: Box::new(spanned_view(*value)),
        },
        Expression::TupleExpr { t, values } => {
            proof {
                vstd::std_specs::vec::axiom_vec_decreases_to_view(values);
            }
            ExprModel::TupleExpr { t, values: spanned_views(values@) }
        },
        Expression::ArrayAccessExpr { t, property, index } => ExprModel::ArrayAccessExpr {
            t,
            property: Box::new(spanned_view(*property)),
            index: Box::new(spanned_view(*index)),
        },
        Expression::MemberExpr { t, member, property, null_safe } => ExprModel::MemberExpr {
            t,
            member: Box::new(spanned_view(*member)),
            property: Box::new(spanned_view(*property)),
            null_safe,
        },
        Expression::CallExpr { t, func, args } => {
            proof {
                vstd::std_specs::vec::axiom_vec_decreases_to_view(args);
            }
            ExprModel::CallExpr { t, func: Box::new(spanned_view(*func)), args: spanned_views(args@) }
        },
    }
}

/// The model of an expression with its span.
pub open spec fn spanned_view<T>(s: Spanned<Expression<T>>) -> SpannedModel<T>
    decreases s, 1nat,
{
    SpannedModel { node: expr_view(s.node), span: s.span }
}

/// The models of a list of expressions.
pub open spec fn spanned_views<T>(s: Seq<Spanned<Expression<T>>>) -> Seq<SpannedModel<T>>
    decreases s, 0nat,
{
    if s.len() == 0 {
        Seq::empty()
    } else {
        proof {
            vstd::seq::axiom_seq_index_decreases(s, s.len() - 1);
        }
        spanned_views(s.drop_last()).push(spanned_view(s.last()))
    }
}

impl<T> View for Expression<T> {
    type V = ExprModel<T>;

    open spec fn view(&self) -> ExprModel<T> {
        expr_view(*self)
    }
}

impl<T> View for Spanned<Expression<T>> {
    type V = SpannedModel<T>;

    open spec fn view(&self) -> SpannedModel<T> {
        spanned_view(*self)
    }
}

/// The type of an expression.
pub open spec fn expr_type<T>(e: Expression<T>) -> T {
    match e {
        Expression::ErroredExpr(t) => t,
        Expression::NullLiteralExpr(t) => t,
        Expression::BoolLiteralExpr(t, _) => t,
        Expression::IntLiteralExpr(t, _) => t,
        Expression::FloatLiteralExpr(t, _) => t,
        Expression::StringLiteralExpr(t, _) => t,
        Expression::ArrayLiteralExpr(t, _) => t,
        Expression::IdentifierExpr(t, _) => t,
        Expression::NullableExpr(t, _) => t,
        Expression::IncrementExpr(t, _) => t,
        Expression::DecrementExpr(t, _) => t,
        Expression::NullDerefExpr(t, _) => t,
        Expression::PrefixExpr { t, .. } => t,
        Expression::BinaryExpr { t, .. } => t,
        Expression::AssignExpr { t, .. } => t,
        Expression::TupleExpr { t, .. } => t,
        Expression::ArrayAccessExpr { t, .. } => t,
        Expression::MemberExpr { t, .. } => t,
        Expression::CallExpr { t, .. } => t,
    }
}

impl<T> Expression<T> {
    /// This expression, boxed.
    pub fn boxed(self) -> (b: Box<Self>)
        ensures
            *b == self,
    {
        Box::new(self)
    }
}

impl<T: Copy> Expression<T> {
    /// A copy of this expression.
    pub fn duplicate(&self) -> (e: Self)
        ensures
            e@ == self@,
        decreases *self,
    {
        match self {
            Expression::ErroredExpr(t) => Expression::ErroredExpr(*t),
            Expression::NullLiteralExpr(t) => Expression::NullLiteralExpr(*t),
            Expression::BoolLiteralExpr(t, b) => Expression::BoolLiteralExpr(*t, *b),
            Expression::IntLiteralExpr(t, i) => Expression::IntLiteralExpr(*t, *i),
            Expression::FloatLiteralExpr(t, f) => Expression::FloatLiteralExpr(*t, *f),
            Expression::StringLiteralExpr(t, s) => Expression::StringLiteralExpr(*t, s.clone()),
            Expression::ArrayLiteralExpr(t, v) => {
                proof {
                    assert(decreases_to!(*self => (*self)->ArrayLiteralExpr_1));
                }
                Expression::ArrayLiteralExpr(*t, duplicate_all(v))
            },
            Expression::IdentifierExpr(t, s) => Expression::IdentifierExpr(*t, s.clone()),
            Expression::NullableExpr(t, b) => Expression::NullableExpr(*t, Box::new(duplicate_spanned(b))),
            Expression::IncrementExpr(t, b) => Expression::IncrementExpr(*t, Box::new(duplicate_spanned(b))),
            Expression::DecrementExpr(t, b) => Expression::DecrementExpr(*t, Box::new(duplicate_spanned(b))),
            Expression::NullDerefExpr(t, b) => Expression::NullDerefExpr(*t, Box::new(duplicate_spanned(b))),
            Expression::PrefixExpr { t, operator, expr } => Expression::PrefixExpr {
                t: *t,
                operator: *operator,
                expr: Box::new(duplicate_spanned(expr)),
            },
            Expression::BinaryExpr { t, left, operator, right } => Expression::BinaryExpr {
                t: *t,
                left: Box::new(duplicate_spanned(left)),
                operator: *operator,
                right: Box::new(duplicate_spanned(right)),
            },
            Expression::AssignExpr { t, assignee, value } => Expression::AssignExpr {
                t: *t,
                assignee: Box::new(duplicate_spanned(assignee)),
                value: Box::new(duplicate_spanned(value)),
            },
            Expression::TupleExpr { t, values } => {
                proof {
                    assert(decreases_to!(*self => (*self)->values));
                }
                Expression::TupleExpr { t: *t, values: duplicate_all(values) }
            },
            Expression::ArrayAccessExpr { t, property, index } => Expression::ArrayAccessExpr {
                t: *t,
                property: Box::new(duplicate_spanned(property)),
                index: Box::new(duplicate_spanned(index)),
            },
            Expression::MemberExpr { t, member, property, null_safe } => Expression::MemberExpr {
                t: *t,
                member: Box::new(duplicate_spanned(member)),
                property: Box::new(duplicate_spanned(property)),
                null_safe: *null_safe,
            },
            Expression::CallExpr { t, func, args } => {
                proof {
                    assert(decreases_to!(*self => (*self)->args));
                }
                Expression::CallExpr { t: *t, func: Box::new(duplicate_spanned(func)), args: duplicate_all(args) }
            },
        }
    }
}

/// A copy of an expression with its span.
pub fn duplicate_spanned<T: Copy>(s: &Spanned<Expression<T>>) -> (r: Spanned<Expression<T>>)
    ensures
        r@ == s@,
    decreases *s,
{
    proof {
        assert(decreases_to!(*s => s.node));
    }
    Spanned { node: s.node.duplicate(), span: s.span }
}

/// Copies of a list of expressions.
pub fn duplicate_all<T: Copy>(v: &Vec<Spanned<Expression<T>>>) -> (r: Vec<Spanned<Expression<T>>>)
    ensures
        spanned_views(r@) == spanned_views(v@),
    decreases *v,
{
    let mut out: Vec<Spanned<Expression<T>>> = Vec::new();
    let mut i: usize = 0;
    while i < v.len()
        invariant
            i <= v@.len(),
            spanned_views(out@) == spanned_views(v@.take(i as int)),
        decreases v@.len() - i,
    {
        proof {
            vstd::std_specs::vec::axiom_vec_index_decreases(*v, i as int);
        }
        let c = duplicate_spanned(&v[i]);
        let ghost o = out@;
        out.push(c);
        proof {
            assert(out@.drop_last() == o);
            assert(v@.take(i + 1).drop_last() == v@.take(i as int));
        }
        i += 1;
    }
    assert(v@.take(v@.len() as int) == v@);
    out
}

/// The smallest span that covers both `a` and `b`.
pub open spec fn covering(a: Span, b: Span) -> Span {
    Span { from: if a.from <= b.from { a.from } else { b.from }, to: if a.to >= b.to { a.to } else { b.to } }
}

/// The operator that a compound assignment operator applies; `None` for other tokens.
pub open spec fn compound_base(op: SimpleToken) -> Option<SimpleToken> {
    match op {
        SimpleToken::PlusAssign => Some(SimpleToken::Plus),
        SimpleToken::DashAssign => Some(SimpleToken::Dash),
        SimpleToken::StarAssign => Some(SimpleToken::Star),
        SimpleToken::SlashAssign => Some(SimpleToken::Slash),
        SimpleToken::PercentAssign => Some(SimpleToken::Percent),
        SimpleToken::RightRightAssign => Some(SimpleToken::RightRight),
        SimpleToken::LeftLeftAssign => Some(SimpleToken::LeftLeft),
        SimpleToken::VertBarAssign => Some(SimpleToken::VerticalBar),
        SimpleToken::AmpersandAssign => Some(SimpleToken::Ampersand),
        SimpleToken::BitXorAssign => Some(SimpleToken::BitXor),
        _ => None,
    }
}

/// The type that dereferencing gives: the type under any number of nullable layers.
pub open spec fn deref_type(x: AstTypeModel, reg: Map<u64, AstTypeModel>) -> AstTypeModel
    decreases level(reg, x),
{
    match x {
        AstTypeModel::NullableType { underlying } => {
            let y = entry_type(reg, underlying);
            if level(reg, y) < level(reg, x) {
                deref_type(y, reg)
            } else {
                x
            }
        },
        _ => x,
    }
}

/// The type under any number of nullable layers of the type under `t`.
pub fn deref(t: TypeEntry, registry: &TypeRegistry) -> (r: AstType)
    requires
        registry.acyclic(),
    ensures
        r@ == deref_type(entry_type(registry.types(), t.key), registry.types()),
    decreases level(registry.types(), entry_type(registry.types(), t.key)),
{
    let x = t.get(registry);
    match x {
        AstType::NullableType { underlying } => {
            proof {
                assert(crate::analysis::type_registry::refs(x@)[0] == underlying.key);
                crate::analysis::type_registry::lemma_child_level(registry.types(), x@, 0);
            }
            deref(underlying, registry)
        },
        _ => x,
    }
}

impl Spanned<Expression<TypeEntry>> {
    /// The entry of this expression's type.
    pub fn get_type(&self) -> (t: TypeEntry)
        ensures
            t == expr_type(self.node),
    {
        match &self.node {
            Expression::ErroredExpr(t) => *t,
            Expression::NullLiteralExpr(t) => *t,
            Expression::BoolLiteralExpr(t, ..) => *t,
            Expression::IntLiteralExpr(t, ..) => *t,
            Expression::FloatLiteralExpr(t, ..) => *t,
            Expression::StringLiteralExpr(t, ..) => *t,
            Expression::NullDerefExpr(t, ..) => *t,
            Expression::ArrayLiteralExpr(t, ..) => *t,
            Expression::IdentifierExpr(t, _) => *t,
            Expression::NullableExpr(t, _) => *t,
            Expression::IncrementExpr(t, _) => *t,
            Expression::DecrementExpr(t, _) => *t,
            Expression::PrefixExpr { t, .. } => *t,
            Expression::BinaryExpr { t, .. } => *t,
            Expression::AssignExpr { t, .. } => *t,
            Expression::ArrayAccessExpr { t, .. } => *t,
            Expression::TupleExpr { t, .. } => *t,
            Expression::MemberExpr { t, .. } => *t,
            Expression::CallExpr { t, .. } => *t,
        }
    }
}

/// What giving `s` the type `typ` makes of the expression and of the registry's
/// types, or `None` where that is refused. A type equal to the current one changes
/// nothing. A nullable type makes a null literal's type that type; any other
/// expression first gets the underlying type, then its type entry becomes the
/// nullable type and the expression is wrapped in a nullable expression with that
/// same entry. Any other type turns an integer literal into the float literal
/// nearest to it, typed float, and becomes the type of the other non-literal
/// expressions; errored, boolean, float and string literals and null literals are
/// refused.
pub open spec fn set_type_outcome(
    s: Spanned<Expression<TypeEntry>>,
    reg: Map<u64, AstTypeModel>,
    typ: AstTypeModel,
) -> Option<(Spanned<Expression<TypeEntry>>, Map<u64, AstTypeModel>)>
    decreases level(reg, typ),
{
    let t = expr_type(s.node);
    if types_equal(entry_type(reg, t.key), typ, reg, false) {
        Some((s, reg))
    } else {
        match typ {
            AstTypeModel::NullableType { underlying } => {
                if s.node is NullLiteralExpr {
                    Some((s, reg.insert(t.key, typ)))
                } else {
                    let u = entry_type(reg, underlying);
                    if level(reg, u) < level(reg, typ) {
                        match set_type_outcome(s, reg, u) {
                            Some(inner) => {
                                let t2 = expr_type(inner.0.node);
                                Some((
                                    Spanned { node: Expression::NullableExpr(t2, Box::new(inner.0)), span: s.span },
                                    inner.1.insert(t2.key, typ),
                                ))
                            },
                            None => None,
                        }
                    } else {
                        None
                    }
                }
            },
            _ => match s.node {
                Expression::ErroredExpr(_) => None,
                Expression::NullLiteralExpr(_) => None,
                Expression::BoolLiteralExpr(..) => None,
                Expression::FloatLiteralExpr(..) => None,
                Expression::StringLiteralExpr(..) => None,
                Expression::IntLiteralExpr(_, v) => Some((
                    Spanned { node: Expression::FloatLiteralExpr(t, f32_bits_of(v as int)), span: s.span },
                    reg.insert(t.key, AstTypeModel::Float),
                )),
                _ => Some((s, reg.insert(t.key, typ))),
            },
        }
    }
}

/// Giving an expression a type leaves its own type entry where it was and changes
/// at most that entry of the registry: to `typ`, or to the float type.
pub proof fn lemma_set_type_touches_own_entry(
    s: Spanned<Expression<TypeEntry>>,
    reg: Map<u64, AstTypeModel>,
    typ: AstTypeModel,
)
    ensures
        set_type_outcome(s, reg, typ) matches Some((s2, reg2)) ==> {
            let k = expr_type(s.node).key;
            &&& expr_type(s2.node) == expr_type(s.node)
            &&& (reg2 == reg || reg2 == reg.insert(k, typ) || reg2 == reg.insert(k, AstTypeModel::Float))
        },
    decreases level(reg, typ),
{
    let t = expr_type(s.node);
    if !types_equal(entry_type(reg, t.key), typ, reg, false) {
        if let AstTypeModel::NullableType { underlying } = typ {
            if !(s.node is NullLiteralExpr) {
                let u = entry_type(reg, underlying);
                if level(reg, u) < level(reg, typ) {
                    lemma_set_type_touches_own_entry(s, reg, u);
                    if let Some(inner) = set_type_outcome(s, reg, u) {
                        assert(inner.1.insert(t.key, typ) =~= reg.insert(t.key, typ));
                    }
                }
            }
        }
    }
}

impl Spanned<Expression<TypeEntry>> {
    /// Gives this expression the type `typ`, changing its type entry in place (see
    /// `set_type_outcome`).
    pub fn set_type(&mut self, registry: &mut TypeRegistry, typ: AstType)
        requires
            old(registry).acyclic(),
            set_type_outcome(*old(self), old(registry).types(), typ@) is Some,
        ensures
            final(registry).next_key() == old(registry).next_key(),
            (*final(self), final(registry).types()) == set_type_outcome(*old(self), old(registry).types(), typ@)->0,
            old(registry).wf() && expr_type(old(self).node).key < old(registry).next_key() && refs_below(
                typ@,
                expr_type(old(self).node).key as int,
            ) ==> final(registry).wf(),
        decreases level(registry.types(), typ@),
    {
        proof {
            lemma_set_type_touches_own_entry(*self, registry.types(), typ@);
        }
        let current = self.get_type().get(registry);
        if current.equals(&typ, registry) {
            return;
        }
        match typ {
            AstType::NullableType { underlying } => {
                if let Expression::NullLiteralExpr(t) = self.node {
                    t.mutate(registry, AstType::NullableType { underlying });
                    return;
                }
                let inner_type = underlying.get(registry);
                proof {
                    assert(crate::analysis::type_registry::refs(typ@)[0] == underlying.key);
                    crate::analysis::type_registry::lemma_child_level(registry.types(), typ@, 0);
                }
                self.set_type(registry, inner_type);
                let t = self.get_type();
                t.mutate(registry, AstType::NullableType { underlying });
                let mut inner = Expression::ErroredExpr(t);
                std::mem::swap(&mut inner, &mut self.node);
                let span = self.span;
                self.node = Expression::NullableExpr(t, Box::new(Spanned { node: inner, span }));
            },
            _ => {
                let t = self.get_type();
                if let Expression::IntLiteralExpr(_, v) = self.node {
                    t.mutate(registry, AstType::Float);
                    self.node = Expression::FloatLiteralExpr(t, f32_bits_of_int(v));
                } else {
                    t.mutate(registry, typ);
                }
            },
        }
    }
}

/// `e` with its own type entry replaced by `t`.
pub open spec fn with_type<T>(e: Expression<T>, t: T) -> Expression<T> {
    match e {
        Expression::ErroredExpr(_) => Expression::ErroredExpr(t),
        Expression::NullLiteralExpr(_) => Expression::NullLiteralExpr(t),
        Expression::BoolLiteralExpr(_, b) => Expression::BoolLiteralExpr(t, b),
        Expression::IntLiteralExpr(_, i) => Expression::IntLiteralExpr(t, i),
        Expression::FloatLiteralExpr(_, f) => Expression::FloatLiteralExpr(t, f),
        Expression::StringLiteralExpr(_, v) => Expression::StringLiteralExpr(t, v),
        Expression::ArrayLiteralExpr(_, v) => Expression::ArrayLiteralExpr(t, v),
        Expression::IdentifierExpr(_, n) => Expression::IdentifierExpr(t, n),
        Expression::NullableExpr(_, b) => Expression::NullableExpr(t, b),
        Expression::IncrementExpr(_, b) => Expression::IncrementExpr(t, b),
        Expression::DecrementExpr(_, b) => Expression::DecrementExpr(t, b),
        Expression::NullDerefExpr(_, b) => Expression::NullDerefExpr(t, b),
        Expression::PrefixExpr { operator, expr, .. } => Expression::PrefixExpr { t, operator, expr },
        Expression::BinaryExpr { left, operator, right, .. } => Expression::BinaryExpr { t, left, operator, right },
        Expression::AssignExpr { assignee, value, .. } => Expression::AssignExpr { t, assignee, value },
        Expression::TupleExpr { values, .. } => Expression::TupleExpr { t, values },
        Expression::ArrayAccessExpr { property, index, .. } => Expression::ArrayAccessExpr { t, property, index },
        Expression::MemberExpr { member, property, null_safe, .. } => Expression::MemberExpr {
            t,
            member,
            property,
            null_safe,
        },
        Expression::CallExpr { func, args, .. } => Expression::CallExpr { t, func, args },
    }
}

/// Whether `change_type` refuses `e`: errored, boolean, float and string literals,
/// and a null literal given a type that is not nullable.
pub open spec fn change_refused<T>(e: Expression<T>, typ: AstTypeModel) -> bool {
    ||| e is ErroredExpr
    ||| e is BoolLiteralExpr
    ||| e is FloatLiteralExpr
    ||| e is StringLiteralExpr
    ||| (e is NullLiteralExpr && !(typ is NullableType))
}

impl Spanned<Expression<TypeEntry>> {
    /// Gives this expression a new entry holding `typ`, leaving its old entry as it
    /// was. An integer literal becomes the float literal nearest to it, with a second
    /// new entry, holding the float type.
    pub fn change_type(&mut self, registry: &mut TypeRegistry, typ: AstType)
        requires
            old(registry).next_key() < u64::MAX - 1,
            !change_refused(old(self).node, typ@),
        ensures
            final(self).span == old(self).span,
            ({
                let n = old(registry).next_key();
                let reg = old(registry).types().insert(n, typ@);
                match old(self).node {
                    Expression::IntLiteralExpr(_, v) => {
                        &&& final(self).node == Expression::FloatLiteralExpr(
                            TypeEntry { key: (n + 1) as u64 },
                            f32_bits_of(v as int),
                        )
                        &&& final(registry).types() == reg.insert((n + 1) as u64, AstTypeModel::Float)
                        &&& final(registry).next_key() == n + 2
                    },
                    _ => {
                        &&& final(self).node == with_type(old(self).node, TypeEntry { key: n })
                        &&& final(registry).types() == reg
                        &&& final(registry).next_key() == n + 1
                    },
                }
            }),
            old(registry).wf() && crate::analysis::type_registry::refs_below(typ@, old(registry).next_key() as int)
                ==> final(registry).wf(),
    {
        let new_type = registry.register(typ.duplicate());
        match &mut self.node {
            Expression::IntLiteralExpr(_, v) => {
                let v = *v;
                let float_type = registry.register(AstType::Float);
                self.node = Expression::FloatLiteralExpr(float_type, f32_bits_of_int(v));
            },
            Expression::NullLiteralExpr(t) => *t = new_type,
            Expression::ArrayLiteralExpr(t, _) => *t = new_type,
            Expression::IdentifierExpr(t, _) => *t = new_type,
            Expression::NullableExpr(t, _) => *t = new_type,
            Expression::IncrementExpr(t, _) => *t = new_type,
            Expression::DecrementExpr(t, _) => *t = new_type,
            Expression::NullDerefExpr(t, _) => *t = new_type,
            Expression::PrefixExpr { t, .. } => *t = new_type,
            Expression::BinaryExpr { t, .. } => *t = new_type,
            Expression::AssignExpr { t, .. } => *t = new_type,
            Expression::TupleExpr { t, .. } => *t = new_type,
            Expression::ArrayAccessExpr { t, .. } => *t = new_type,
            Expression::MemberExpr { t, .. } => *t = new_type,
            Expression::CallExpr { t, .. } => *t = new_type,
            _ => {},
        }
    }
}

/// What `box_arg` makes of `arg`, of the registry's types and of its next key, or
/// `None` where it is refused. An argument of unknown type gets the desired type; so
/// does one of a nullable unknown type, which is refused unless the desired type is
/// nullable. An argument whose type is not nullable, passed where a nullable type is
/// desired, is wrapped in a nullable expression of a new nullable type over its
/// own. Any other argument stays as it is.
pub open spec fn box_arg_outcome(
    arg: Spanned<Expression<TypeEntry>>,
    reg: Map<u64, AstTypeModel>,
    next: u64,
    desired: TypeEntry,
) -> Option<(Spanned<Expression<TypeEntry>>, Map<u64, AstTypeModel>, u64)> {
    let own = entry_type(reg, expr_type(arg.node).key);
    let wanted = entry_type(reg, desired.key);
    if own is UnknownType {
        match set_type_outcome(arg, reg, wanted) {
            Some(r) => Some((r.0, r.1, next)),
            None => None,
        }
    } else if own is NullableType && entry_type(reg, own->NullableType_underlying) is UnknownType {
        if wanted is NullableType {
            match set_type_outcome(arg, reg, wanted) {
                Some(r) => Some((r.0, r.1, next)),
                None => None,
            }
        } else {
            None
        }
    } else if wanted is NullableType && !(own is NullableType) {
        Some((
            Spanned { node: Expression::NullableExpr(TypeEntry { key: next }, Box::new(arg)), span: arg.span },
            reg.insert(next, AstTypeModel::NullableType { underlying: expr_type(arg.node).key }),
            (next + 1) as u64,
        ))
    } else {
        Some((arg, reg, next))
    }
}

/// Makes `arg` fit a parameter of type `desired` (see `box_arg_outcome`).
pub fn box_arg(registry: &mut TypeRegistry, arg: &mut Spanned<Expression<TypeEntry>>, desired: TypeEntry)
    requires
        old(registry).wf(),
        old(registry).next_key() < u64::MAX,
        box_arg_outcome(*old(arg), old(registry).types(), old(registry).next_key(), desired) is Some,
    ensures
        ({
            let r = box_arg_outcome(*old(arg), old(registry).types(), old(registry).next_key(), desired)->0;
            &&& *final(arg) == r.0
            &&& final(registry).types() == r.1
            &&& final(registry).next_key() == r.2
        }),
{
    let own = arg.get_type().get(registry);
    if let AstType::UnknownType = own {
        arg.set_type(registry, desired.get(registry));
        return;
    }
    if let AstType::NullableType { underlying } = own {
        if let AstType::UnknownType = underlying.get(registry) {
            arg.set_type(registry, desired.get(registry));
            return;
        }
    }
    let wanted = desired.get(registry);
    let own_nullable = matches!(own, AstType::NullableType { .. });
    if matches!(wanted, AstType::NullableType { .. }) && !own_nullable {
        let t = arg.get_type();
        let span = arg.span;
        let boxed_type = registry.register(AstType::NullableType { underlying: t });
        let mut inner = Spanned { node: Expression::ErroredExpr(t), span };
        std::mem::swap(&mut inner, arg);
        *arg = Spanned::of(Expression::NullableExpr(boxed_type, Box::new(inner)), span);
    }
}

/// The boolean literal `b`.
pub fn bool(b: bool) -> (e: Expression<()>)
    ensures
        e == Expression::BoolLiteralExpr((), b),
{
    Expression::BoolLiteralExpr((), b)
}

/// The integer literal `i`.
pub fn integer(i: i64) -> (e: Expression<()>)
    ensures
        e == Expression::IntLiteralExpr((), i),
{
    Expression::IntLiteralExpr((), i)
}

/// The float literal whose bit pattern is `f`.
pub fn float(f: u32) -> (e: Expression<()>)
    ensures
        e == Expression::FloatLiteralExpr((), f),
{
    Expression::FloatLiteralExpr((), f)
}

/// The string literal `s`.
pub fn string(s: String) -> (e: Expression<()>)
    ensures
        e == Expression::StringLiteralExpr((), s),
{
    Expression::StringLiteralExpr((), s)
}

/// The name `name`.
pub fn identifier(name: String) -> (e: Expression<()>)
    ensures
        e == Expression::IdentifierExpr((), name),
{
    Expression::IdentifierExpr((), name)
}

/// The array literal with the elements `values`.
pub fn array_literal(values: Vec<UntypedExpr>) -> (e: Expression<()>)
    ensures
        e == Expression::ArrayLiteralExpr((), values),
{
    Expression::ArrayLiteralExpr((), values)
}

/// `expr++`.
pub fn increment(expr: UntypedExpr) -> (e: Expression<()>)
    ensures
        e == Expression::IncrementExpr((), Box::new(expr)),
{
    Expression::IncrementExpr((), Box::new(expr))
}

/// `expr--`.
pub fn decrement(expr: UntypedExpr) -> (e: Expression<()>)
    ensures
        e == Expression::DecrementExpr((), Box::new(expr)),
{
    Expression::DecrementExpr((), Box::new(expr))
}

/// `expr!!`.
pub fn null_deref(expr: UntypedExpr) -> (e: Expression<()>)
    ensures
        e == Expression::NullDerefExpr((), Box::new(expr)),
{
    Expression::NullDerefExpr((), Box::new(expr))
}

/// `operator expr`.
pub fn prefix(operator: SimpleToken, expr: UntypedExpr) -> (e: Expression<()>)
    ensures
        e == (Expression::PrefixExpr { t: (), operator, expr: Box::new(expr) }),
{
    Expression::PrefixExpr { t: (), operator, expr: Box::new(expr) }
}

/// `left operator right`.
pub fn binary(left: UntypedExpr, operator: SimpleToken, right: UntypedExpr) -> (e: Expression<()>)
    ensures
        e == (Expression::BinaryExpr { t: (), left: Box::new(left), operator, right: Box::new(right) }),
{
    Expression::BinaryExpr { t: (), left: Box::new(left), operator, right: Box::new(right) }
}

/// `assignee operator value`, for `=` and the compound assignments: `a op= b`
/// becomes `a = a op b`, where `a op b` spans both operands.
pub fn assign(assignee: UntypedExpr, operator: SimpleToken, value: UntypedExpr) -> (e: Expression<()>)
    requires
        operator == SimpleToken::Assign || compound_base(operator) is Some,
    ensures
        operator == SimpleToken::Assign ==> e == (Expression::AssignExpr { t: (), assignee: Box::new(assignee), value: Box::new(value) }),
        operator != SimpleToken::Assign ==> e@ == (ExprModel::AssignExpr {
            t: (),
            assignee: Box::new(assignee@),
            value: Box::new(SpannedModel {
                node: ExprModel::BinaryExpr {
                    t: (),
                    left: Box::new(assignee@),
                    operator: compound_base(operator)->0,
                    right: Box::new(value@),
                },
                span: covering(assignee.span, value.span),
            }),
        }),
{
    match operator {
        SimpleToken::Assign => Expression::AssignExpr { t: (), assignee: Box::new(assignee), value: Box::new(value) },
        SimpleToken::PlusAssign => compound(assignee, SimpleToken::Plus, value),
        SimpleToken::DashAssign => compound(assignee, SimpleToken::Dash, value),
        SimpleToken::StarAssign => compound(assignee, SimpleToken::Star, value),
        SimpleToken::SlashAssign => compound(assignee, SimpleToken::Slash, value),
        SimpleToken::PercentAssign => compound(assignee, SimpleToken::Percent, value),
        SimpleToken::RightRightAssign => compound(assignee, SimpleToken::RightRight, value),
        SimpleToken::LeftLeftAssign => compound(assignee, SimpleToken::LeftLeft, value),
        SimpleToken::VertBarAssign => compound(assignee, SimpleToken::VerticalBar, value),
        SimpleToken::AmpersandAssign => compound(assignee, SimpleToken::Ampersand, value),
        _ => compound(assignee, SimpleToken::BitXor, value),
    }
}

/// `assignee = assignee op value`.
fn compound(assignee: UntypedExpr, op: SimpleToken, value: UntypedExpr) -> (e: Expression<()>)
    ensures
        e@ == (ExprModel::AssignExpr {
            t: (),
            assignee: Box::new(assignee@),
            value: Box::new(SpannedModel {
                node: ExprModel::BinaryExpr { t: (), left: Box::new(assignee@), operator: op, right: Box::new(value@) },
                span: covering(assignee.span, value.span),
            }),
        }),
{
    let span = crate::error::context::Span::combined(assignee.span, value.span);
    let target = duplicate_spanned(&assignee);
    let ghost (a, v) = (assignee@, value@);
    let sum = Spanned::of(binary(assignee, op, value), span);
    assert(sum@ == SpannedModel {
        node: ExprModel::BinaryExpr { t: (), left: Box::new(a), operator: op, right: Box::new(v) },
        span: span,
    });
    Expression::AssignExpr { t: (), assignee: Box::new(target), value: Box::new(sum) }
}

/// `property[index]`.
pub fn array_access(property: UntypedExpr, index: UntypedExpr) -> (e: Expression<()>)
    ensures
        e == (Expression::ArrayAccessExpr { t: (), property: Box::new(property), index: Box::new(index) }),
{
    Expression::ArrayAccessExpr { t: (), property: Box::new(property), index: Box::new(index) }
}

/// The tuple of `values`.
pub fn tuple(values: Vec<UntypedExpr>) -> (e: Expression<()>)
    ensures
        e == (Expression::TupleExpr { t: (), values }),
{
    Expression::TupleExpr { t: (), values }
}

/// `target.property`, or `target?.property` when `null_safe`.
pub fn member(target: UntypedExpr, property: UntypedExpr, null_safe: bool) -> (e: Expression<()>)
    ensures
        e == (Expression::MemberExpr { t: (), member: Box::new(target), property: Box::new(property), null_safe }),
{
    Expression::MemberExpr { t: (), member: Box::new(target), property: Box::new(property), null_safe }
}

/// `func(args)`.
pub fn call(func: UntypedExpr, args: Vec<UntypedExpr>) -> (e: Expression<()>)
    ensures
        e == (Expression::CallExpr { t: (), func: Box::new(func), args }),
{
    Expression::CallExpr { t: (), func: Box::new(func), args }
}

} // verus!
