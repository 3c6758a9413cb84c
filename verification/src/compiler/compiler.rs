use vstd::prelude::*;
use std::collections::HashMap;
use crate::analysis::type_registry::{entry_type, TypeEntry, TypeRegistry};
use crate::ast::ast_type::AstTypeModel;
use crate::ast::statement::{Parameter, Statement};
use crate::compiler::bytecode::ByteCode;
use crate::compiler::codegen::{BytecodeGen, FunctionInfo};
use crate::util::spanned::Spanned;

verus! {

/// A compiled program: its instructions, the source line of each instruction, and
/// its functions by mangled name.
#[derive(Debug)]
pub struct CompilationResult {
    pub instructions: Vec<ByteCode>,
    pub lines: Vec<usize>,
    pub functions: HashMap<String, FunctionInfo>,
}

/// The words that the parameters `params` take: one for each whose type is not void.
pub open spec fn params_words(params: Seq<Parameter>, reg: Map<u64, AstTypeModel>) -> nat
    decreases params.len(),
{
    if params.len() == 0 {
        0
    } else {
        params_words(params.drop_last(), reg) + if entry_type(reg, params.last().param_type.key) is Void {
            0nat
        } else {
            1nat
        }
    }
}

/// The functions known, and their count, after registering those that `s` declares
/// at its top level or in the bodies of its blocks, `if`s (not their else branches),
/// `while`s and structs, in order; a function's own body is not searched.
pub open spec fn collect_stmt(
    s: Statement<TypeEntry>,
    reg: Map<u64, AstTypeModel>,
    funcs: Map<Seq<char>, FunctionInfo>,
    count: nat,
) -> (Map<Seq<char>, FunctionInfo>, nat)
    decreases s, 2nat,
{
    match s {
        Statement::BlockStmt { body } => {
            proof {
                vstd::std_specs::vec::axiom_vec_decreases_to_view(body);
            }
            collect_all(body@, reg, funcs, count)
        },
        Statement::IfStmt { body, .. } => {
            proof {
                vstd::std_specs::vec::axiom_vec_decreases_to_view(body);
            }
            collect_all(body@, reg, funcs, count)
        },
        Statement::WhileStmt { body, .. } => {
            proof {
                vstd::std_specs::vec::axiom_vec_decreases_to_view(body);
            }
            collect_all(body@, reg, funcs, count)
        },
        Statement::StructStmt { body, .. } => {
            proof {
                vstd::std_specs::vec::axiom_vec_decreases_to_view(body);
            }
            collect_all(body@, reg, funcs, count)
        },
        Statement::FunctionStmt { name, params, .. } => (
            funcs.insert(
                name@,
                FunctionInfo { index: count as u16, params_len: params_words(params@, reg) as u32, start: 0, end: 0 },
            ),
            count + 1,
        ),
        _ => (funcs, count),
    }
}

/// `collect_stmt` of a statement with its span.
pub open spec fn collect_spanned(
    s: Spanned<Statement<TypeEntry>>,
    reg: Map<u64, AstTypeModel>,
    funcs: Map<Seq<char>, FunctionInfo>,
    count: nat,
) -> (Map<Seq<char>, FunctionInfo>, nat)
    decreases s, 1nat,
{
    collect_stmt(s.node, reg, funcs, count)
}

/// `collect_stmt` of each statement of `s` in turn.
pub open spec fn collect_all(
    s: Seq<Spanned<Statement<TypeEntry>>>,
    reg: Map<u64, AstTypeModel>,
    funcs: Map<Seq<char>, FunctionInfo>,
    count: nat,
) -> (Map<Seq<char>, FunctionInfo>, nat)
    decreases s, 0nat,
{
    if s.len() == 0 {
        (funcs, count)
    } else {
        proof {
            vstd::seq::axiom_seq_index_decreases(s, s.len() - 1);
        }
        let p = collect_all(s.drop_last(), reg, funcs, count);
        collect_spanned(s.last(), reg, p.0, p.1)
    }
}

/// Collecting never lowers the count.
proof fn lemma_collect_grows(s: Statement<TypeEntry>, reg: Map<u64, AstTypeModel>, funcs: Map<Seq<char>, FunctionInfo>, count: nat)
    ensures
        collect_stmt(s, reg, funcs, count).1 >= count,
    decreases s, 2nat,
{
    match s {
        Statement::BlockStmt { body } => {
            vstd::std_specs::vec::axiom_vec_decreases_to_view(body);
            lemma_collect_all_grows(body@, reg, funcs, count);
        },
        Statement::IfStmt { body, .. } => {
            vstd::std_specs::vec::axiom_vec_decreases_to_view(body);
            lemma_collect_all_grows(body@, reg, funcs, count);
        },
        Statement::WhileStmt { body, .. } => {
            vstd::std_specs::vec::axiom_vec_decreases_to_view(body);
            lemma_collect_all_grows(body@, reg, funcs, count);
        },
        Statement::StructStmt { body, .. } => {
            vstd::std_specs::vec::axiom_vec_decreases_to_view(body);
            lemma_collect_all_grows(body@, reg, funcs, count);
        },
        _ => {},
    }
}

/// Collecting a list never lowers the count.
proof fn lemma_collect_all_grows(
    s: Seq<Spanned<Statement<TypeEntry>>>,
    reg: Map<u64, AstTypeModel>,
    funcs: Map<Seq<char>, FunctionInfo>,
    count: nat,
)
    ensures
        collect_all(s, reg, funcs, count).1 >= count,
    decreases s, 0nat,
{
    if s.len() > 0 {
        vstd::seq::axiom_seq_index_decreases(s, s.len() - 1);
        lemma_collect_all_grows(s.drop_last(), reg, funcs, count);
        let p = collect_all(s.drop_last(), reg, funcs, count);
        lemma_collect_grows(s.last().node, reg, p.0, p.1);
        assert(collect_all(s, reg, funcs, count) == collect_spanned(s.last(), reg, p.0, p.1));
        assert(collect_spanned(s.last(), reg, p.0, p.1) == collect_stmt(s.last().node, reg, p.0, p.1));
    }
}

/// Collecting a prefix of a list counts no more than collecting the whole list.
proof fn lemma_collect_prefix(
    s: Seq<Spanned<Statement<TypeEntry>>>,
    i: int,
    reg: Map<u64, AstTypeModel>,
    funcs: Map<Seq<char>, FunctionInfo>,
    count: nat,
)
    requires
        0 <= i <= s.len(),
    ensures
        collect_all(s.take(i), reg, funcs, count).1 <= collect_all(s, reg, funcs, count).1,
    decreases s.len(),
{
    if i < s.len() {
        assert(s.take(i) == s.drop_last().take(i));
        lemma_collect_prefix(s.drop_last(), i, reg, funcs, count);
        let p = collect_all(s.drop_last(), reg, funcs, count);
        lemma_collect_grows(s.last().node, reg, p.0, p.1);
        assert(collect_all(s, reg, funcs, count) == collect_spanned(s.last(), reg, p.0, p.1));
        assert(collect_spanned(s.last(), reg, p.0, p.1) == collect_stmt(s.last().node, reg, p.0, p.1));
    } else {
        assert(s.take(i) == s);
    }
}

/// A program to compile: its root statement and the generator that compiles it.
pub struct Compiler {
    root: Spanned<Statement<TypeEntry>>,
    pub generator: BytecodeGen,
}

impl Compiler {
    /// The root statement.
    pub closed spec fn root(&self) -> Spanned<Statement<TypeEntry>> {
        self.root
    }

    /// The generator's state.
    pub closed spec fn codegen(&self) -> BytecodeGen {
        self.generator
    }

    /// A compiler for `root`, whose spans refer to `text`.
    pub fn new(root: Spanned<Statement<TypeEntry>>, text: Vec<char>) -> (c: Self)
        ensures
            c.root() == root,
            c.codegen().wf(),
            c.codegen().insns().len() == 0,
            c.codegen().scopes().len() == 0,
            c.codegen().funcs() == Map::<Seq<char>, FunctionInfo>::empty(),
            c.codegen().func_count() == 0,
            c.codegen().text() == text@,
    {
        Compiler { root, generator: BytecodeGen::new(text) }
    }

    /// Registers the functions that `stmt` declares (see `collect_stmt`), each with the
    /// words its parameters take, wrapping at `u32::MAX`.
    pub fn collect_functions(&mut self, registry: &TypeRegistry, stmt: &Spanned<Statement<TypeEntry>>)
        requires
            collect_stmt(stmt.node, registry.types(), old(self).codegen().funcs(), old(self).codegen().func_count() as nat).1
                <= u16::MAX,
        ensures
            final(self).root() == old(self).root(),
            (final(self).codegen().funcs(), final(self).codegen().func_count() as nat) == collect_stmt(
                stmt.node,
                registry.types(),
                old(self).codegen().funcs(),
                old(self).codegen().func_count() as nat,
            ),
        decreases *stmt, 1nat,
    {
        proof {
            assert(decreases_to!(*stmt => stmt.node));
        }
        match &stmt.node {
            Statement::BlockStmt { body } => self.collect_body(registry, body),
            Statement::IfStmt { body, .. } => self.collect_body(registry, body),
            Statement::WhileStmt { body, .. } => self.collect_body(registry, body),
            Statement::StructStmt { body, .. } => self.collect_body(registry, body),
            Statement::FunctionStmt { name, params, .. } => {
                let mut size: u64 = 0;
                let mut i: usize = 0;
                while i < params.len()
                    invariant
                        i <= params@.len(),
                        size == params_words(params@.take(i as int), registry.types()),
                        size <= i,
                    decreases params@.len() - i,
                {
                    assert(params@.take(i + 1).drop_last() == params@.take(i as int));
                    let words = params[i].param_type.get(registry).word_size(registry);
                    size = size + words as u64;
                    i += 1;
                }
                assert(params@.take(params@.len() as int) == params@);
                self.generator.register_func(name.clone(), size as u32);
            },
            _ => {},
        }
    }

    /// Registers the functions that the statements of `body` declare, in order.
    fn collect_body(&mut self, registry: &TypeRegistry, body: &Vec<Spanned<Statement<TypeEntry>>>)
        requires
            collect_all(body@, registry.types(), old(self).codegen().funcs(), old(self).codegen().func_count() as nat).1
                <= u16::MAX,
        ensures
            final(self).root() == old(self).root(),
            (final(self).codegen().funcs(), final(self).codegen().func_count() as nat) == collect_all(
                body@,
                registry.types(),
                old(self).codegen().funcs(),
                old(self).codegen().func_count() as nat,
            ),
        decreases *body, 0nat,
    {
        let ghost f0 = self.codegen().funcs();
        let ghost c0 = self.codegen().func_count() as nat;
        let mut i: usize = 0;
        while i < body.len()
            invariant
                i <= body@.len(),
                self.root() == old(self).root(),
                collect_all(body@, registry.types(), f0, c0).1 <= u16::MAX,
                (self.codegen().funcs(), self.codegen().func_count() as nat) == collect_all(
                    body@.take(i as int),
                    registry.types(),
                    f0,
                    c0,
                ),
            decreases body@.len() - i,
        {
            proof {
                vstd::std_specs::vec::axiom_vec_index_decreases(*body, i as int);
                let pre = body@.take(i + 1);
                assert(pre.drop_last() == body@.take(i as int));
                assert(pre.last() == body@[i as int]);
                let p = collect_all(body@.take(i as int), registry.types(), f0, c0);
                assert(collect_all(pre, registry.types(), f0, c0) == collect_spanned(pre.last(), registry.types(), p.0, p.1));
                assert(collect_spanned(pre.last(), registry.types(), p.0, p.1) == collect_stmt(body@[i as int].node, registry.types(), p.0, p.1));
                lemma_collect_prefix(body@, i + 1, registry.types(), f0, c0);
            }
            self.collect_functions(registry, &body[i]);
            i += 1;
        }
        assert(body@.take(body@.len() as int) == body@);
    }
}

} // verus!
