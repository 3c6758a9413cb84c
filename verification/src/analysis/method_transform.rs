use vstd::prelude::*;
use crate::analysis::symbol_table::{lookup_scopes, TypeSymTable};
use crate::analysis::type_registry::TypeEntry;
use crate::ast::expression::duplicate_spanned;
use crate::ast::statement::{
    duplicate_params, duplicate_stmt, param_models, spanned_stmt_views, Parameter, SpannedStmtModel, Statement,
    StmtModel,
};
use crate::text::to_owned_string;
use crate::util::spanned::Spanned;

verus! {

/// The name of the receiver parameter that methods get.
pub open spec fn this_name() -> Seq<char> {
    seq!['t', 'h', 'i', 's']
}

/// The type recorded for `name` in the innermost scope of `scopes` that has one.
pub open spec fn recorded_type(scopes: Seq<Map<Seq<char>, (TypeEntry, Option<bool>)>>, name: Seq<char>) -> Option<TypeEntry> {
    match lookup_scopes(scopes, name) {
        Some(e) => Some(e.0),
        None => None,
    }
}

/// `s` with a receiver parameter `this`, of the struct's type, put first in each
/// function declared directly in a struct's body (blocks, `if`s with their else
/// branches, and `while`s are searched too; a function's own body is not), and
/// whether every struct met has a recorded type.
pub open spec fn transformed(s: StmtModel<TypeEntry>, scopes: Seq<Map<Seq<char>, (TypeEntry, Option<bool>)>>, inside: Option<TypeEntry>) -> (StmtModel<TypeEntry>, bool)
    decreases s, 2nat,
{
    match s {
        StmtModel::BlockStmt { body } => {
            let b = transformed_all(body, scopes, inside);
            (StmtModel::BlockStmt { body: b.0 }, b.1)
        },
        StmtModel::IfStmt { condition, body, else_branch } => {
            let b = transformed_all(body, scopes, inside);
            match else_branch {
                Some(e) => {
                    let f = transformed_spanned(*e, scopes, inside);
                    (StmtModel::IfStmt { condition, body: b.0, else_branch: Some(Box::new(f.0)) }, b.1 && f.1)
                },
                None => (StmtModel::IfStmt { condition, body: b.0, else_branch: None }, b.1),
            }
        },
        StmtModel::WhileStmt { condition, body } => {
            let b = transformed_all(body, scopes, inside);
            (StmtModel::WhileStmt { condition, body: b.0 }, b.1)
        },
        StmtModel::StructStmt { name, fields, body } => {
            let owner = recorded_type(scopes, name);
            let b = transformed_all(body, scopes, owner);
            (StmtModel::StructStmt { name, fields, body: b.0 }, owner is Some && b.1)
        },
        StmtModel::FunctionStmt { name, params, return_type, body } => {
            let ps = match inside {
                Some(t) => seq![(this_name(), t)] + params,
                None => params,
            };
            (StmtModel::FunctionStmt { name, params: ps, return_type, body }, true)
        },
        _ => (s, true),
    }
}

/// `transformed` of a statement with its span, which it keeps.
pub open spec fn transformed_spanned(s: SpannedStmtModel<TypeEntry>, scopes: Seq<Map<Seq<char>, (TypeEntry, Option<bool>)>>, inside: Option<TypeEntry>) -> (SpannedStmtModel<TypeEntry>, bool)
    decreases s, 1nat,
{
    let r = transformed(s.node, scopes, inside);
    (SpannedStmtModel { node: r.0, span: s.span }, r.1)
}

/// `transformed_spanned` of each statement of a list.
pub open spec fn transformed_all(s: Seq<SpannedStmtModel<TypeEntry>>, scopes: Seq<Map<Seq<char>, (TypeEntry, Option<bool>)>>, inside: Option<TypeEntry>) -> (Seq<SpannedStmtModel<TypeEntry>>, bool)
    decreases s, 0nat,
{
    if s.len() == 0 {
        (Seq::empty(), true)
    } else {
        proof {
            vstd::seq::axiom_seq_index_decreases(s, s.len() - 1);
        }
        let a = transformed_all(s.drop_last(), scopes, inside);
        let b = transformed_spanned(s.last(), scopes, inside);
        (a.0.push(b.0), a.1 && b.1)
    }
}

impl Spanned<Statement<TypeEntry>> {
    /// Gives the methods of the structs of this program their receiver (see
    /// `transformed`); every struct must have its type recorded in `symbol_table`.
    pub fn transform_methods(self, symbol_table: &TypeSymTable) -> (r: Spanned<Statement<TypeEntry>>)
        requires
            transformed_spanned(self@, symbol_table.scopes(), None).1,
        ensures
            r@ == transformed_spanned(self@, symbol_table.scopes(), None).0,
    {
        self._transform_methods(symbol_table, &None)
    }

    /// `transformed_spanned` of this statement, inside the struct of type
    /// `inside_struct` if any.
    fn _transform_methods(&self, symbol_table: &TypeSymTable, inside_struct: &Option<TypeEntry>) -> (r: Spanned<Statement<TypeEntry>>)
        requires
            transformed_spanned(self@, symbol_table.scopes(), *inside_struct).1,
        ensures
            r@ == transformed_spanned(self@, symbol_table.scopes(), *inside_struct).0,
        decreases *self,
    {
        proof {
            assert(decreases_to!(*self => self.node));
        }
        let node = match &self.node {
            Statement::BlockStmt { body } => {
                proof {
                    assert(decreases_to!(self.node => self.node->BlockStmt_body));
                }
                Statement::BlockStmt { body: transform_block(body, symbol_table, inside_struct) }
            },
            Statement::IfStmt { condition, body, else_branch } => {
                proof {
                    assert(decreases_to!(self.node => self.node->IfStmt_body));
                }
                let b = transform_block(body, symbol_table, inside_struct);
                let e = match else_branch {
                    Some(v) => Some(Box::new(v._transform_methods(symbol_table, inside_struct))),
                    None => None,
                };
                Statement::IfStmt { condition: duplicate_spanned(condition), body: b, else_branch: e }
            },
            Statement::WhileStmt { condition, body } => {
                proof {
                    assert(decreases_to!(self.node => self.node->WhileStmt_body));
                }
                Statement::WhileStmt { condition: duplicate_spanned(condition), body: transform_block(body, symbol_table, inside_struct) }
            },
            Statement::StructStmt { name, fields, body } => {
                proof {
                    assert(decreases_to!(self.node => self.node->StructStmt_body));
                }
                let owner = symbol_table.get(name.clone());
                let owner_type = match owner {
                    Some(t) => t,
                    None => TypeEntry { key: 0 },
                };
                let inside = Some(owner_type);
                Statement::StructStmt {
                    name: name.clone(),
                    fields: duplicate_params(fields),
                    body: transform_block(body, symbol_table, &inside),
                }
            },
            Statement::FunctionStmt { name, params, return_type, body } => {
                let mut mutated = duplicate_params(params);
                if let Some(t) = inside_struct {
                    let ghost before = mutated@;
                    let this = Parameter { name: to_owned_string("this"), param_type: *t };
                    proof {
                        reveal_strlit("this");
                    }
                    mutated.insert(0, this);
                    proof {
                        assert(mutated@ == seq![this] + before);
                        assert(this.name@ == this_name());
                        let a = param_models(mutated@);
                        let b = seq![(this_name(), *t)] + param_models(before);
                        assert(a.len() == b.len());
                        assert forall|j: int| 0 <= j < a.len() implies #[trigger] a[j] == b[j] by {
                            if j > 0 {
                                assert(mutated@[j] == before[j - 1]);
                            } else {
                                assert(mutated@[0] == this);
                            }
                        }
                        assert(a =~= b);
                    }
                }
                Statement::FunctionStmt {
                    name: name.clone(),
                    params: mutated,
                    return_type: *return_type,
                    body: crate::ast::statement::duplicate_block(body),
                }
            },
            _ => self.node.duplicate(),
        };
        Spanned { node, span: self.span }
    }
}

/// `transformed_all` of a list of statements.
fn transform_block(v: &Vec<Spanned<Statement<TypeEntry>>>, symbol_table: &TypeSymTable, inside_struct: &Option<TypeEntry>) -> (r: Vec<Spanned<Statement<TypeEntry>>>)
    requires
        transformed_all(spanned_stmt_views(v@), symbol_table.scopes(), *inside_struct).1,
    ensures
        spanned_stmt_views(r@) == transformed_all(spanned_stmt_views(v@), symbol_table.scopes(), *inside_struct).0,
    decreases *v,
{
    let ghost sc = symbol_table.scopes();
    let mut out: Vec<Spanned<Statement<TypeEntry>>> = Vec::new();
    let mut i: usize = 0;
    while i < v.len()
        invariant
            i <= v@.len(),
            sc == symbol_table.scopes(),
            transformed_all(spanned_stmt_views(v@), sc, *inside_struct).1,
            spanned_stmt_views(out@) == transformed_all(spanned_stmt_views(v@.take(i as int)), sc, *inside_struct).0,
        decreases v@.len() - i,
    {
        proof {
            vstd::std_specs::vec::axiom_vec_index_decreases(*v, i as int);
            lemma_transformed_prefix(v@, i as int + 1, sc, *inside_struct);
        }
        let ghost t = v@.take(i + 1);
        proof {
            assert(t.drop_last() == v@.take(i as int));
            assert(t.last() == v@[i as int]);
            let st = spanned_stmt_views(t);
            assert(st.drop_last() == spanned_stmt_views(t.drop_last()));
            assert(transformed_all(st, sc, *inside_struct).1 == (transformed_all(st.drop_last(), sc, *inside_struct).1
                && transformed_spanned(st.last(), sc, *inside_struct).1));
        }
        let c = v[i]._transform_methods(symbol_table, inside_struct);
        let ghost o = out@;
        out.push(c);
        proof {
            assert(out@.drop_last() == o);
            assert(out@.last() == c);
            let st = spanned_stmt_views(t);
            assert(spanned_stmt_views(out@) == spanned_stmt_views(o).push(spanned_stmt_views(out@).last()));
            assert(transformed_all(st, sc, *inside_struct).0 == transformed_all(st.drop_last(), sc, *inside_struct).0.push(
                transformed_spanned(st.last(), sc, *inside_struct).0,
            ));
        }
        i += 1;
    }
    assert(v@.take(v@.len() as int) == v@);
    out
}

/// Transforming a list succeeds on each of its prefixes where it succeeds on the whole.
proof fn lemma_transformed_prefix(v: Seq<Spanned<Statement<TypeEntry>>>, i: int, sc: Seq<Map<Seq<char>, (TypeEntry, Option<bool>)>>, inside: Option<TypeEntry>)
    requires
        0 <= i <= v.len(),
        transformed_all(spanned_stmt_views(v), sc, inside).1,
    ensures
        transformed_all(spanned_stmt_views(v.take(i)), sc, inside).1,
    decreases v.len(),
{
    if i < v.len() {
        assert(v.take(i) == v.drop_last().take(i));
        let sv = spanned_stmt_views(v);
        assert(sv.drop_last() == spanned_stmt_views(v.drop_last()));
        assert(transformed_all(sv, sc, inside).1 == (transformed_all(sv.drop_last(), sc, inside).1 && transformed_spanned(
            sv.last(),
            sc,
            inside,
        ).1));
        lemma_transformed_prefix(v.drop_last(), i, sc, inside);
    } else {
        assert(v.take(i) == v);
    }
}

} // verus!
