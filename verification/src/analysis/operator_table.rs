use vstd::prelude::*;
use crate::analysis::type_registry::{entry_type, TypeEntry, TypeRegistry};
use crate::ast::ast_type::{types_equal, AstType, AstTypeModel};
use crate::error::analysis_error::{entry_text, AnalysisError};
use crate::lexer::token::SimpleToken;

verus! {

/// The types that the operator table knows, by number.
pub const BOOL: usize = 0;
pub const INT: usize = 1;
pub const FLOAT: usize = 2;
pub const STRING_T: usize = 3;

/// A key of the operator table: the left operand's type, the operator, the right operand's type.
pub type OpKey = (usize, SimpleToken, usize);

/// The map that a list of entries stands for: a later entry overrides an earlier one.
pub open spec fn entries_map(s: Seq<(OpKey, usize)>) -> Map<OpKey, usize>
    decreases s.len(),
{
    if s.len() == 0 {
        Map::empty()
    } else {
        entries_map(s.drop_last()).insert(s.last().0, s.last().1)
    }
}

/// Whether `op` is one of the arithmetic operators (and their assigning forms).
pub open spec fn is_arithmetic(op: SimpleToken) -> bool {
    op == SimpleToken::Plus || op == SimpleToken::Dash || op == SimpleToken::Star || op
        == SimpleToken::Slash || op == SimpleToken::Percent || op == SimpleToken::PlusAssign || op
        == SimpleToken::DashAssign || op == SimpleToken::StarAssign || op
        == SimpleToken::SlashAssign || op == SimpleToken::PercentAssign
}

/// Whether `op` is one of the bit operators (and their assigning forms).
pub open spec fn is_bit_operator(op: SimpleToken) -> bool {
    op == SimpleToken::RightRight || op == SimpleToken::LeftLeft || op == SimpleToken::Ampersand
        || op == SimpleToken::VerticalBar || op == SimpleToken::BitXor || op
        == SimpleToken::RightRightAssign || op == SimpleToken::LeftLeftAssign || op
        == SimpleToken::AmpersandAssign || op == SimpleToken::VertBarAssign || op
        == SimpleToken::BitXorAssign
}

/// Whether `op` is one of the comparisons.
pub open spec fn is_comparison(op: SimpleToken) -> bool {
    op == SimpleToken::Equals || op == SimpleToken::NotEquals || op == SimpleToken::Less || op
        == SimpleToken::LessEquals || op == SimpleToken::Greater || op
        == SimpleToken::GreaterEquals
}

/// The type of `left op right` for the built-in types, where the language defines it.
pub open spec fn builtin_op_result(left: usize, op: SimpleToken, right: usize) -> Option<usize> {
    if left != right {
        None
    } else if is_arithmetic(op) && (left == INT || left == FLOAT) {
        Some(left)
    } else if op == SimpleToken::Plus && left == STRING_T {
        Some(STRING_T)
    } else if is_bit_operator(op) && left == INT {
        Some(INT)
    } else if is_comparison(op) && (left == INT || left == FLOAT) {
        Some(BOOL)
    } else if (op == SimpleToken::BoolOr || op == SimpleToken::BoolAnd) && left == BOOL {
        Some(BOOL)
    } else if op == SimpleToken::Assign && (left == BOOL || left == INT || left == FLOAT) {
        Some(left)
    } else {
        None
    }
}

/// The operator table's number for a type, where it has one.
pub open spec fn simple_type_of(t: AstTypeModel) -> Option<usize> {
    match t {
        AstTypeModel::Bool => Some(BOOL),
        AstTypeModel::Int => Some(INT),
        AstTypeModel::Float => Some(FLOAT),
        AstTypeModel::StringType => Some(STRING_T),
        _ => None,
    }
}

/// The type that an operator table number stands for.
pub open spec fn type_of_simple(t: usize) -> Option<AstTypeModel> {
    if t == BOOL {
        Some(AstTypeModel::Bool)
    } else if t == INT {
        Some(AstTypeModel::Int)
    } else if t == FLOAT {
        Some(AstTypeModel::Float)
    } else if t == STRING_T {
        Some(AstTypeModel::StringType)
    } else {
        None
    }
}

/// The type of `left op right`, for operands of the types recorded under `left`
/// and `right`, with `table` as the operator table; `None` where the expression is
/// not allowed.
pub open spec fn op_result(
    table: Map<OpKey, usize>,
    reg: Map<u64, AstTypeModel>,
    left: u64,
    op: SimpleToken,
    right: u64,
) -> Option<AstTypeModel> {
    let l = entry_type(reg, left);
    let r = entry_type(reg, right);
    if types_equal(r, l, reg, true) && (op == SimpleToken::Equals || op == SimpleToken::NotEquals) {
        Some(AstTypeModel::Bool)
    } else if op == SimpleToken::TwoQuestion && (l is NullableType) && (r is NullableType) {
        None
    } else if op == SimpleToken::TwoQuestion && (l is NullableType) && types_equal(
        entry_type(reg, l->NullableType_underlying),
        r,
        reg,
        true,
    ) {
        Some(entry_type(reg, l->NullableType_underlying))
    } else {
        match (simple_type_of(r), simple_type_of(l)) {
            (Some(rs), Some(ls)) => if table.contains_key((rs, op, ls)) {
                type_of_simple(table[(rs, op, ls)])
            } else {
                None
            },
            _ => None,
        }
    }
}

/// The operator table's number for a type, where it has one.
fn from_ast_type(t: AstType, registry: &TypeRegistry) -> (r: Option<usize>)
    ensures
        r == simple_type_of(t@),
{
    match t {
        AstType::Bool => Some(BOOL),
        AstType::Int => Some(INT),
        AstType::Float => Some(FLOAT),
        AstType::StringType => Some(STRING_T),
        _ => None,
    }
}

/// The type that an operator table number stands for.
fn to_ast_type(t: usize) -> (r: Option<AstType>)
    ensures
        match r {
            Some(a) => type_of_simple(t) == Some(a@),
            None => type_of_simple(t) is None,
        },
{
    if t == BOOL {
        return Some(AstType::Bool);
    }
    if t == INT {
        return Some(AstType::Int);
    }
    if t == FLOAT {
        return Some(AstType::Float);
    }
    if t == STRING_T {
        return Some(AstType::StringType);
    }
    None
}

/// The result types of the operators on the built-in types.
#[derive(Debug)]
pub struct OperatorTable {
    table: Vec<(OpKey, usize)>,
}

impl View for OperatorTable {
    type V = Map<OpKey, usize>;

    closed spec fn view(&self) -> Map<OpKey, usize> {
        entries_map(self.table@)
    }
}

impl OperatorTable {
    /// The table of the built-in operators.
    pub fn new() -> (t: Self)
        ensures
            is_builtin_table(t@),
            forall|l: usize, op: SimpleToken, r: usize|
                #[trigger] t@.contains_key((l, op, r)) <==> builtin_op_result(l, op, r) is Some,
            forall|l: usize, op: SimpleToken, r: usize|
                t@.contains_key((l, op, r)) ==> #[trigger] t@[(l, op, r)] == builtin_op_result(
                    l,
                    op,
                    r,
                )->0,
    {
        let mut new = OperatorTable { table: Vec::new() };
        new.init();
        new
    }

    /// Records the result types of the built-in operators.
    fn init(&mut self)
        requires
            old(self)@ == Map::<OpKey, usize>::empty(),
        ensures
            forall|l: usize, op: SimpleToken, r: usize|
                #[trigger] final(self)@.contains_key((l, op, r)) <==> builtin_op_result(l, op, r) is Some,
            forall|l: usize, op: SimpleToken, r: usize|
                final(self)@.contains_key((l, op, r)) ==> #[trigger] final(self)@[(l, op, r)]
                    == builtin_op_result(l, op, r)->0,
    {
        let ops = [
            SimpleToken::Plus,
            SimpleToken::Dash,
            SimpleToken::Star,
            SimpleToken::Slash,
            SimpleToken::Percent,
            SimpleToken::PlusAssign,
            SimpleToken::DashAssign,
            SimpleToken::StarAssign,
            SimpleToken::SlashAssign,
            SimpleToken::PercentAssign,
        ];
        let bit_ops = [
            SimpleToken::RightRight,
            SimpleToken::LeftLeft,
            SimpleToken::Ampersand,
            SimpleToken::VerticalBar,
            SimpleToken::BitXor,
            SimpleToken::RightRightAssign,
            SimpleToken::LeftLeftAssign,
            SimpleToken::AmpersandAssign,
            SimpleToken::VertBarAssign,
            SimpleToken::BitXorAssign,
        ];
        let comps = [
            SimpleToken::Equals,
            SimpleToken::NotEquals,
            SimpleToken::Less,
            SimpleToken::LessEquals,
            SimpleToken::Greater,
            SimpleToken::GreaterEquals,
        ];
        let mut i: usize = 0;
        while i < 10
            invariant
                i <= 10,
                ops@ == seq![
                    SimpleToken::Plus,
                    SimpleToken::Dash,
                    SimpleToken::Star,
                    SimpleToken::Slash,
                    SimpleToken::Percent,
                    SimpleToken::PlusAssign,
                    SimpleToken::DashAssign,
                    SimpleToken::StarAssign,
                    SimpleToken::SlashAssign,
                    SimpleToken::PercentAssign,
                ],
                forall|l: usize, op: SimpleToken, r: usize|
                    #[trigger] self@.contains_key((l, op, r)) <==> (exists|k: int|
                        0 <= k < i && ops@[k] == op) && l == r && (l == INT || l == FLOAT),
                forall|l: usize, op: SimpleToken, r: usize|
                    self@.contains_key((l, op, r)) ==> #[trigger] self@[(l, op, r)] == l,
            decreases 10 - i,
        {
            self.add(INT, ops[i], INT, INT);
            self.add(FLOAT, ops[i], FLOAT, FLOAT);
            i += 1;
        }
        let ghost after_arith = self@;
        let mut i: usize = 0;
        while i < 10
            invariant
                i <= 10,
                bit_ops@ == seq![
                    SimpleToken::RightRight,
                    SimpleToken::LeftLeft,
                    SimpleToken::Ampersand,
                    SimpleToken::VerticalBar,
                    SimpleToken::BitXor,
                    SimpleToken::RightRightAssign,
                    SimpleToken::LeftLeftAssign,
                    SimpleToken::AmpersandAssign,
                    SimpleToken::VertBarAssign,
                    SimpleToken::BitXorAssign,
                ],
                forall|l: usize, op: SimpleToken, r: usize|
                    #[trigger] self@.contains_key((l, op, r)) <==> (after_arith.contains_key(
                        (l, op, r),
                    ) || ((exists|k: int| 0 <= k < i && bit_ops@[k] == op) && l == INT && r
                        == INT)),
                forall|l: usize, op: SimpleToken, r: usize|
                    self@.contains_key((l, op, r)) ==> #[trigger] self@[(l, op, r)] == l,
                forall|l: usize, op: SimpleToken, r: usize|
                    after_arith.contains_key((l, op, r)) ==> #[trigger] after_arith[(l, op, r)]
                        == l,
                forall|l: usize, op: SimpleToken, r: usize|
                    #[trigger] after_arith.contains_key((l, op, r)) <==> is_arithmetic(op) && l
                        == r && (l == INT || l == FLOAT),
            decreases 10 - i,
        {
            self.add(INT, bit_ops[i], INT, INT);
            i += 1;
        }
        let ghost after_bits = self@;
        let mut i: usize = 0;
        while i < 6
            invariant
                i <= 6,
                comps@ == seq![
                    SimpleToken::Equals,
                    SimpleToken::NotEquals,
                    SimpleToken::Less,
                    SimpleToken::LessEquals,
                    SimpleToken::Greater,
                    SimpleToken::GreaterEquals,
                ],
                forall|l: usize, op: SimpleToken, r: usize|
                    #[trigger] self@.contains_key((l, op, r)) <==> (after_bits.contains_key(
                        (l, op, r),
                    ) || ((exists|k: int| 0 <= k < i && comps@[k] == op) && l == r && (l == INT
                        || l == FLOAT))),
                forall|l: usize, op: SimpleToken, r: usize|
                    self@.contains_key((l, op, r)) ==> #[trigger] self@[(l, op, r)] == if is_comparison(op) {
                        BOOL
                    } else {
                        l
                    },
                forall|l: usize, op: SimpleToken, r: usize|
                    after_bits.contains_key((l, op, r)) ==> #[trigger] after_bits[(l, op, r)] == l,
                forall|l: usize, op: SimpleToken, r: usize|
                    #[trigger] after_bits.contains_key((l, op, r)) <==> (is_arithmetic(op) && l
                        == r && (l == INT || l == FLOAT)) || (is_bit_operator(op) && l == INT && r
                        == INT),
            decreases 6 - i,
        {
            self.add(INT, comps[i], INT, BOOL);
            self.add(FLOAT, comps[i], FLOAT, BOOL);
            i += 1;
        }
        self.add(BOOL, SimpleToken::BoolOr, BOOL, BOOL);
        self.add(BOOL, SimpleToken::BoolAnd, BOOL, BOOL);
        self.add(BOOL, SimpleToken::Assign, BOOL, BOOL);
        self.add(INT, SimpleToken::Assign, INT, INT);
        self.add(FLOAT, SimpleToken::Assign, FLOAT, FLOAT);
        self.add(STRING_T, SimpleToken::Plus, STRING_T, STRING_T);
        proof {
            assert forall|l: usize, op: SimpleToken, r: usize|
                #[trigger] self@.contains_key((l, op, r)) <==> builtin_op_result(l, op, r) is Some by {
                if is_arithmetic(op) {
                    assert(exists|k: int| 0 <= k < 10 && ops@[k] == op);
                }
                if is_bit_operator(op) {
                    assert(exists|k: int| 0 <= k < 10 && bit_ops@[k] == op);
                }
                if is_comparison(op) {
                    assert(exists|k: int| 0 <= k < 6 && comps@[k] == op);
                }
            }
        }
    }

    /// Records that `left op right` gives `result`.
    fn add(&mut self, left: usize, op: SimpleToken, right: usize, result: usize)
        ensures
            final(self)@ == old(self)@.insert((left, op, right), result),
    {
        self.table.push(((left, op, right), result));
        proof {
            assert(self.table@.drop_last() == old(self).table@);
        }
    }

    /// The type of `left op right`, or the error that the expression is not allowed.
    pub fn get_op_result(&self, registry: &TypeRegistry, left_type: TypeEntry, op: SimpleToken, right_type: TypeEntry) -> (r: Result<AstType, AnalysisError>)
        requires
            registry.acyclic(),
        ensures
            match r {
                Ok(t) => op_result(self@, registry.types(), left_type.key, op, right_type.key) == Some(t@),
                Err(e) => {
                    &&& op_result(self@, registry.types(), left_type.key, op, right_type.key) is None
                    &&& e matches AnalysisError::IllegalBinaryExpression { left: l, op: o, right: rt }
                        && l@ == entry_text(registry.types(), left_type.key) && o == op
                        && rt@ == entry_text(registry.types(), right_type.key)
                },
            },
    {
        let ghost reg = registry.types();
        let lt = left_type.get(registry);
        let rt = right_type.get(registry);
        if rt.loose_equals(&lt, registry) {
            if matches!(op, SimpleToken::Equals) || matches!(op, SimpleToken::NotEquals) {
                return Ok(AstType::Bool);
            }
        }
        if matches!(op, SimpleToken::TwoQuestion) {
            if let AstType::NullableType { underlying } = &lt {
                if matches!(rt, AstType::NullableType { .. }) {
                    return Err(AnalysisError::illegal_binary_expression(left_type, op, right_type, registry));
                }
                let inner = underlying.get(registry);
                if inner.loose_equals(&rt, registry) {
                    return Ok(inner);
                }
            }
        }
        let right = from_ast_type(rt, registry);
        let left = from_ast_type(lt, registry);
        match (right, left) {
            (Some(r), Some(l)) => {
                match self.lookup(r, op, l) {
                    Some(res) => match to_ast_type(res) {
                        Some(t) => Ok(t),
                        None => Err(AnalysisError::illegal_binary_expression(left_type, op, right_type, registry)),
                    },
                    None => Err(AnalysisError::illegal_binary_expression(left_type, op, right_type, registry)),
                }
            },
            _ => Err(AnalysisError::illegal_binary_expression(left_type, op, right_type, registry)),
        }
    }

    /// The result type that the table records for `left op right`.
    pub fn lookup(&self, left: usize, op: SimpleToken, right: usize) -> (r: Option<usize>)
        ensures
            r == if self@.contains_key((left, op, right)) {
                Some(self@[(left, op, right)])
            } else {
                None
            },
    {
        let ghost key = (left, op, right);
        let mut i: usize = self.table.len();
        assert(self.table@.subrange(0, i as int) == self.table@);
        while i > 0
            invariant
                key == (left, op, right),
                i <= self.table@.len(),
                forall|j: int| i <= j < self.table@.len() ==> (#[trigger] self.table@[j]).0 != key,
                entries_map(self.table@).contains_key(key) == entries_map(
                    self.table@.subrange(0, i as int),
                ).contains_key(key),
                entries_map(self.table@).contains_key(key) ==> entries_map(self.table@)[key]
                    == entries_map(self.table@.subrange(0, i as int))[key],
            decreases i,
        {
            let entry = self.table[i - 1];
            proof {
                assert(self.table@.subrange(0, i as int).drop_last() == self.table@.subrange(
                    0,
                    i - 1,
                ));
                assert(self.table@.subrange(0, i as int).last() == self.table@[i - 1]);
            }
            if entry.0.0 == left && entry.0.2 == right && entry.0.1 == op {
                proof {
                    let pre = self.table@.subrange(0, i as int);
                    assert(entry.0 == key);
                    assert(entries_map(pre) == entries_map(pre.drop_last()).insert(key, entry.1));
                }
                return Some(entry.1);
            }
            proof {
                let pre = self.table@.subrange(0, i as int);
                assert(entry.0 != key);
                assert(entries_map(pre) == entries_map(pre.drop_last()).insert(entry.0, entry.1));
            }
            i -= 1;
        }
        None
    }
}

/// Whether `table` holds exactly the operators of the built-in types, with the
/// result types the language gives them (what `OperatorTable::new` builds).
pub open spec fn is_builtin_table(table: Map<OpKey, usize>) -> bool {
    &&& forall|l: usize, op: SimpleToken, r: usize|
        #[trigger] table.contains_key((l, op, r)) <==> builtin_op_result(l, op, r) is Some
    &&& forall|l: usize, op: SimpleToken, r: usize|
        table.contains_key((l, op, r)) ==> #[trigger] table[(l, op, r)] == builtin_op_result(l, op, r)->0
}

/// `!=` is allowed on exactly the operands that `==` is allowed on, and both give
/// `bool`; in particular operands whose types are loosely equal can always be
/// compared with either.
pub proof fn lemma_not_equals_like_equals(table: Map<OpKey, usize>, reg: Map<u64, AstTypeModel>, left: u64, right: u64)
    requires
        is_builtin_table(table),
    ensures
        op_result(table, reg, left, SimpleToken::NotEquals, right) == op_result(table, reg, left, SimpleToken::Equals, right),
        op_result(table, reg, left, SimpleToken::Equals, right) is Some ==> op_result(
            table,
            reg,
            left,
            SimpleToken::Equals,
            right,
        ) == Some(AstTypeModel::Bool),
        types_equal(entry_type(reg, right), entry_type(reg, left), reg, true) ==> op_result(
            table,
            reg,
            left,
            SimpleToken::NotEquals,
            right,
        ) == Some(AstTypeModel::Bool),
{
    let l = entry_type(reg, left);
    let r = entry_type(reg, right);
    match (simple_type_of(r), simple_type_of(l)) {
        (Some(rs), Some(ls)) => {
            assert(table.contains_key((rs, SimpleToken::Equals, ls)) == table.contains_key((rs, SimpleToken::NotEquals, ls)));
            if table.contains_key((rs, SimpleToken::Equals, ls)) {
                assert(table[(rs, SimpleToken::Equals, ls)] == BOOL);
                assert(table[(rs, SimpleToken::NotEquals, ls)] == BOOL);
            }
        },
        _ => {},
    }
}

/// Every comparison, where it is allowed, gives `bool`.
pub proof fn lemma_comparisons_give_bool(
    table: Map<OpKey, usize>,
    reg: Map<u64, AstTypeModel>,
    left: u64,
    op: SimpleToken,
    right: u64,
)
    requires
        is_builtin_table(table),
        is_comparison(op),
    ensures
        op_result(table, reg, left, op, right) is Some ==> op_result(table, reg, left, op, right) == Some(
            AstTypeModel::Bool,
        ),
{
    let l = entry_type(reg, left);
    let r = entry_type(reg, right);
    match (simple_type_of(r), simple_type_of(l)) {
        (Some(rs), Some(ls)) => {
            if table.contains_key((rs, op, ls)) {
                assert(table[(rs, op, ls)] == BOOL);
            }
        },
        _ => {},
    }
}

/// Arithmetic on two integers gives an integer, and on two floats a float.
pub proof fn lemma_arithmetic_keeps_type(
    table: Map<OpKey, usize>,
    reg: Map<u64, AstTypeModel>,
    left: u64,
    op: SimpleToken,
    right: u64,
)
    requires
        is_builtin_table(table),
        is_arithmetic(op),
        entry_type(reg, left) == entry_type(reg, right),
        entry_type(reg, left) is Int || entry_type(reg, left) is Float,
    ensures
        op_result(table, reg, left, op, right) == Some(entry_type(reg, left)),
{
    let t = entry_type(reg, left);
    let k = simple_type_of(t)->0;
    assert(builtin_op_result(k, op, k) == Some(k));
    assert(table.contains_key((k, op, k)));
    assert(table[(k, op, k)] == k);
}

} // verus!
