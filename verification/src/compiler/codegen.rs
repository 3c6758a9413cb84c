use vstd::prelude::*;
use vstd::hash_map::StringHashMap;
use crate::analysis::symbol_table::{lookup_scopes, SymbolTable};
use crate::analysis::type_registry::{entry_type, TypeEntry, TypeRegistry};
use crate::ast::ast_type::{AstType, AstTypeModel};
use crate::compiler::bytecode::ByteCode;
use crate::error::compilation_error::{CompilationError, EmptyRes};
use crate::error::context::{count_newlines, count_newlines_upto, Span};
use crate::interpreter::value::ValueType;
use crate::text::to_owned_string;

verus! {

/// Where a compiled function lives: its number, the words its parameters take, and
/// the first and last instruction of its body.
#[derive(Debug, Copy, Clone, PartialEq, Eq, Structural)]
pub struct FunctionInfo {
    pub index: u16,
    pub params_len: u32,
    pub start: u32,
    pub end: u32,
}

/// A scope being generated: the instruction it starts at, whether it can be skipped
/// (it then starts with a conditional jump), the jumps that leave it, and the number
/// of locals when it was opened.
#[derive(Debug)]
pub struct ScopeInfo {
    pub start_index: i32,
    pub skippable: bool,
    pub exit_points: Vec<i32>,
    pub local_count: u16,
}

/// The model of a `ScopeInfo`.
pub struct ScopeModel {
    pub start_index: i32,
    pub skippable: bool,
    pub exit_points: Seq<i32>,
    pub local_count: u16,
}

impl View for ScopeInfo {
    type V = ScopeModel;

    open spec fn view(&self) -> ScopeModel {
        ScopeModel {
            start_index: self.start_index,
            skippable: self.skippable,
            exit_points: self.exit_points@,
            local_count: self.local_count,
        }
    }
}

/// The state of bytecode generation: the instructions and their source lines so
/// far, the open scopes, the lines of the spans being generated, the local counts,
/// the values to be boxed at the end of the function, the locals by name, and the
/// functions by mangled name.
pub struct BytecodeGen {
    pub instructions: Vec<ByteCode>,
    pub lines: Vec<usize>,
    scopes: Vec<ScopeInfo>,
    line_stack: Vec<usize>,
    local_count: u16,
    scope_local_count: u16,
    to_box: Vec<(usize, TypeEntry)>,
    symbol_table: SymbolTable<u16, ()>,
    pub functions: StringHashMap<FunctionInfo>,
    func_count: u16,
    text: Vec<char>,
}

/// The kind of word a value of type `t` takes: `Int` for booleans and integers,
/// `Float` for floats, `Address` for nullable, array and struct values; `None` for
/// types that code cannot be generated for.
pub open spec fn word_kind(t: AstTypeModel) -> Option<ValueType> {
    match t {
        AstTypeModel::Bool | AstTypeModel::Int => Some(ValueType::Int),
        AstTypeModel::Float => Some(ValueType::Float),
        AstTypeModel::NullableType { .. } | AstTypeModel::ArrayType { .. } | AstTypeModel::StructType { .. } => Some(ValueType::Address),
        _ => None,
    }
}

/// The instruction that stores a word of kind `k` in local `i`.
pub open spec fn store_of(k: ValueType, i: u16) -> ByteCode {
    match k {
        ValueType::Float => ByteCode::FStore(i),
        ValueType::Address => ByteCode::AStore(i),
        _ => ByteCode::IStore(i),
    }
}

/// The instructions `ins` with every jump at one of the positions `exits` made to
/// land at position `n`.
pub open spec fn exits_patched(ins: Seq<ByteCode>, exits: Seq<i32>, n: int) -> Seq<ByteCode> {
    Seq::new(ins.len(), |k: int| if exits.contains(k as i32) { ByteCode::Goto((n - k - 1) as i32) } else { ins[k] })
}

/// Whether `insn`, at position `at`, jumps to position `target`.
pub open spec fn jumps_to(insn: ByteCode, at: int, target: int) -> bool {
    match insn {
        ByteCode::Goto(o) => jump_target(at, o) == target,
        _ => false,
    }
}

/// Whether `insn`, at position `at`, is a comparison that skips to position `target`.
pub open spec fn skips_to(insn: ByteCode, at: int, target: int) -> bool {
    match insn {
        ByteCode::IfEq(o) => jump_target(at, o) == target,
        ByteCode::IfNe(o) => jump_target(at, o) == target,
        _ => false,
    }
}

/// Where the jump at position `at` with offset `offset` lands.
pub open spec fn jump_target(at: int, offset: i32) -> int {
    at + 1 + offset
}

impl BytecodeGen {
    /// The instructions generated so far.
    pub closed spec fn insns(&self) -> Seq<ByteCode> {
        self.instructions@
    }

    /// The source line of each instruction.
    pub closed spec fn insn_lines(&self) -> Seq<usize> {
        self.lines@
    }

    /// The functions by mangled name.
    pub closed spec fn funcs(&self) -> Map<Seq<char>, FunctionInfo> {
        self.functions@
    }

    /// The open scopes, outermost first.
    pub closed spec fn scopes(&self) -> Seq<ScopeModel> {
        self.scopes@.map_values(|s: ScopeInfo| s@)
    }

    /// The lines of the spans being generated, innermost last.
    pub closed spec fn line_stack(&self) -> Seq<usize> {
        self.line_stack@
    }

    /// The number of locals of the function being generated.
    pub closed spec fn locals(&self) -> u16 {
        self.local_count
    }

    /// The slot the next local of the current scope takes.
    pub closed spec fn scope_locals(&self) -> u16 {
        self.scope_local_count
    }

    /// The values to be boxed when the function ends: where their store was
    /// reserved, and their type.
    pub closed spec fn boxed(&self) -> Seq<(usize, TypeEntry)> {
        self.to_box@
    }

    /// The locals by name, per scope.
    pub closed spec fn symbols(&self) -> Seq<Map<Seq<char>, (u16, Option<()>)>> {
        self.symbol_table.scopes()
    }

    /// The number of functions registered.
    pub closed spec fn func_count(&self) -> u16 {
        self.func_count
    }

    /// The source text that spans refer to.
    pub closed spec fn text(&self) -> Seq<char> {
        self.text@
    }

    /// The line that a new instruction gets: that of the innermost span, or 0.
    pub open spec fn current_line(&self) -> usize {
        if self.line_stack().len() > 0 {
            self.line_stack().last()
        } else {
            0
        }
    }

    /// Every instruction has a line, there is a scope of locals for each open scope
    /// and one more, and the positions are within `i32`.
    pub open spec fn wf(&self) -> bool {
        &&& self.insn_lines().len() == self.insns().len()
        &&& self.symbols().len() == self.scopes().len() + 1
        &&& self.insns().len() < i32::MAX
    }

    /// `code` was added after the instructions of `before`, each with the current line.
    pub open spec fn code_added(&self, before: &BytecodeGen, code: Seq<ByteCode>) -> bool {
        &&& self.insns() == before.insns() + code
        &&& self.insn_lines() == before.insn_lines() + Seq::new(code.len(), |i: int| before.current_line())
        &&& self.line_stack() == before.line_stack()
        &&& self.text() == before.text()
    }

    /// The scopes, locals, boxed values, functions and text are those of `before`.
    pub open spec fn same_state(&self, before: &BytecodeGen) -> bool {
        &&& self.scopes() == before.scopes()
        &&& self.locals() == before.locals()
        &&& self.scope_locals() == before.scope_locals()
        &&& self.boxed() == before.boxed()
        &&& self.symbols() == before.symbols()
        &&& self.funcs() == before.funcs()
        &&& self.func_count() == before.func_count()
    }

    /// What pushing the instruction `insn` does: it is added last, with the current
    /// line, and nothing else changes.
    pub open spec fn pushed(&self, before: &BytecodeGen, insn: ByteCode) -> bool {
        &&& self.code_added(before, seq![insn])
        &&& self.same_state(before)
    }

    /// A generator for the source `text`, with nothing generated.
    pub fn new(text: Vec<char>) -> (g: Self)
        ensures
            g.wf(),
            g.insns().len() == 0,
            g.scopes().len() == 0,
            g.line_stack().len() == 0,
            g.locals() == 0,
            g.scope_locals() == 0,
            g.boxed().len() == 0,
            g.symbols() == seq![Map::<Seq<char>, (u16, Option<()>)>::empty()],
            g.funcs() == Map::<Seq<char>, FunctionInfo>::empty(),
            g.func_count() == 0,
            g.text() == text@,
    {
        let g = BytecodeGen {
            instructions: Vec::new(),
            lines: Vec::new(),
            scopes: Vec::new(),
            line_stack: Vec::new(),
            local_count: 0,
            scope_local_count: 0,
            to_box: Vec::new(),
            symbol_table: SymbolTable::new(),
            functions: StringHashMap::new(),
            func_count: 0,
            text,
        };
        assert(g.scopes() =~= Seq::<ScopeModel>::empty());
        g
    }

    /// Enters a span: instructions get the line on which the span starts.
    pub fn push_span(&mut self, span: Span)
        requires
            span.from <= old(self).text().len(),
            span.from < usize::MAX,
        ensures
            final(self).line_stack() == old(self).line_stack().push(
                (count_newlines(old(self).text().subrange(0, span.from as int)) + 1) as usize,
            ),
            final(self).insns() == old(self).insns(),
            final(self).insn_lines() == old(self).insn_lines(),
            final(self).scopes() == old(self).scopes(),
            final(self).locals() == old(self).locals(),
            final(self).scope_locals() == old(self).scope_locals(),
            final(self).boxed() == old(self).boxed(),
            final(self).symbols() == old(self).symbols(),
            final(self).funcs() == old(self).funcs(),
            final(self).func_count() == old(self).func_count(),
            final(self).text() == old(self).text(),
    {
        let line = count_newlines_upto(&self.text, span.from) + 1;
        self.line_stack.push(line);
    }

    /// Leaves the innermost span.
    pub fn pop_span(&mut self)
        ensures
            final(self).line_stack() == if old(self).line_stack().len() == 0 {
                old(self).line_stack()
            } else {
                old(self).line_stack().drop_last()
            },
            final(self).insns() == old(self).insns(),
            final(self).insn_lines() == old(self).insn_lines(),
            final(self).scopes() == old(self).scopes(),
            final(self).locals() == old(self).locals(),
            final(self).scope_locals() == old(self).scope_locals(),
            final(self).boxed() == old(self).boxed(),
            final(self).symbols() == old(self).symbols(),
            final(self).funcs() == old(self).funcs(),
            final(self).func_count() == old(self).func_count(),
            final(self).text() == old(self).text(),
    {
        let _ = self.line_stack.pop();
    }

    /// Removes the last instruction.
    pub fn pop_insn(&mut self)
        ensures
            final(self).insns() == if old(self).insns().len() == 0 {
                old(self).insns()
            } else {
                old(self).insns().drop_last()
            },
            final(self).insn_lines() == if old(self).insn_lines().len() == 0 {
                old(self).insn_lines()
            } else {
                old(self).insn_lines().drop_last()
            },
            final(self).scopes() == old(self).scopes(),
            final(self).line_stack() == old(self).line_stack(),
            final(self).locals() == old(self).locals(),
            final(self).scope_locals() == old(self).scope_locals(),
            final(self).boxed() == old(self).boxed(),
            final(self).symbols() == old(self).symbols(),
            final(self).funcs() == old(self).funcs(),
            final(self).func_count() == old(self).func_count(),
            final(self).text() == old(self).text(),
    {
        let _ = self.instructions.pop();
        let _ = self.lines.pop();
    }

    fn push_insn(&mut self, insn: ByteCode)
        ensures
            final(self).pushed(old(self), insn),
    {
        let line = self.get_line();
        self.instructions.push(insn);
        self.lines.push(line);
        assert(self.insns() =~= old(self).insns() + seq![insn]);
        assert(self.insn_lines() =~= old(self).insn_lines() + Seq::new(1, |i: int| old(self).current_line()));
    }

    fn get_line(&self) -> (l: usize)
        ensures
            l == self.current_line(),
    {
        match self.line_stack.last() {
            Some(l) => *l,
            None => 0,
        }
    }

    fn index(&self) -> (i: i32)
        requires
            self.insns().len() < i32::MAX,
        ensures
            i == self.insns().len(),
    {
        self.instructions.len() as i32
    }
}


/// The instructions.
impl BytecodeGen {
    /// Adds a comment.
    pub fn comment(&mut self, str: String)
        ensures
            final(self).pushed(old(self), ByteCode::Comment(str)),
    {
        self.push_insn(ByteCode::Comment(str));
    }

    /// Adds an instruction that does nothing.
    pub fn nop(&mut self)
        ensures
            final(self).pushed(old(self), ByteCode::Nop),
    {
        self.push_insn(ByteCode::Nop);
    }

    /// Pushes the null reference.
    pub fn null_ptr(&mut self)
        ensures
            final(self).pushed(old(self), ByteCode::NullPtr),
    {
        self.push_insn(ByteCode::NullPtr);
    }

    /// Swaps the two top words.
    pub fn swap(&mut self)
        ensures
            final(self).pushed(old(self), ByteCode::Swap),
    {
        self.push_insn(ByteCode::Swap);
    }

    /// Pushes the integer `c`.
    pub fn i_const(&mut self, c: i32)
        ensures
            final(self).pushed(old(self), ByteCode::IConst(c)),
    {
        self.push_insn(ByteCode::IConst(c));
    }

    /// Pushes the float whose bit pattern is `c`.
    pub fn f_const(&mut self, c: u32)
        ensures
            final(self).pushed(old(self), ByteCode::FConst(c)),
    {
        self.push_insn(ByteCode::FConst(c));
    }

    /// Drops the top word.
    pub fn pop(&mut self)
        ensures
            final(self).pushed(old(self), ByteCode::Pop),
    {
        self.push_insn(ByteCode::Pop);
    }

    /// Duplicates the top word.
    pub fn dup(&mut self)
        ensures
            final(self).pushed(old(self), ByteCode::Dup),
    {
        self.push_insn(ByteCode::Dup);
    }

    /// Negates the boolean on top.
    pub fn bool_not(&mut self)
        ensures
            final(self).pushed(old(self), ByteCode::BoolNot),
    {
        self.push_insn(ByteCode::BoolNot);
    }

    /// Inverts the bits of the top word.
    pub fn bit_not(&mut self)
        ensures
            final(self).pushed(old(self), ByteCode::BitNot),
    {
        self.push_insn(ByteCode::BitNot);
    }

    /// Bitwise or of the two top words.
    pub fn or(&mut self)
        ensures
            final(self).pushed(old(self), ByteCode::Or),
    {
        self.push_insn(ByteCode::Or);
    }

    /// Bitwise and of the two top words.
    pub fn and(&mut self)
        ensures
            final(self).pushed(old(self), ByteCode::And),
    {
        self.push_insn(ByteCode::And);
    }

    /// Bitwise exclusive or of the two top words.
    pub fn xor(&mut self)
        ensures
            final(self).pushed(old(self), ByteCode::Xor),
    {
        self.push_insn(ByteCode::Xor);
    }

    /// Shifts left.
    pub fn shl(&mut self)
        ensures
            final(self).pushed(old(self), ByteCode::Shl),
    {
        self.push_insn(ByteCode::Shl);
    }

    /// Shifts right.
    pub fn shr(&mut self)
        ensures
            final(self).pushed(old(self), ByteCode::Shr),
    {
        self.push_insn(ByteCode::Shr);
    }

    /// Adds the two top words.
    pub fn add(&mut self)
        ensures
            final(self).pushed(old(self), ByteCode::Add),
    {
        self.push_insn(ByteCode::Add);
    }

    /// Subtracts the top word from the one below.
    pub fn sub(&mut self)
        ensures
            final(self).pushed(old(self), ByteCode::Sub),
    {
        self.push_insn(ByteCode::Sub);
    }

    /// Multiplies the two top words.
    pub fn mul(&mut self)
        ensures
            final(self).pushed(old(self), ByteCode::Mul),
    {
        self.push_insn(ByteCode::Mul);
    }

    /// Divides the word below the top by the top.
    pub fn div(&mut self)
        ensures
            final(self).pushed(old(self), ByteCode::Div),
    {
        self.push_insn(ByteCode::Div);
    }

    /// The remainder of dividing the word below the top by the top.
    pub fn modulo(&mut self)
        ensures
            final(self).pushed(old(self), ByteCode::Mod),
    {
        self.push_insn(ByteCode::Mod);
    }

    /// Compares the two top words for equality.
    pub fn cmp_eq(&mut self)
        ensures
            final(self).pushed(old(self), ByteCode::CmpEq),
    {
        self.push_insn(ByteCode::CmpEq);
    }

    /// Compares the two top words for inequality.
    pub fn cmp_ne(&mut self)
        ensures
            final(self).pushed(old(self), ByteCode::CmpNotEq),
    {
        self.push_insn(ByteCode::CmpNotEq);
    }

    /// Whether the word below the top is greater.
    pub fn cmp_gt(&mut self)
        ensures
            final(self).pushed(old(self), ByteCode::CmpGreater),
    {
        self.push_insn(ByteCode::CmpGreater);
    }

    /// Whether the word below the top is greater or equal.
    pub fn cmp_ge(&mut self)
        ensures
            final(self).pushed(old(self), ByteCode::CmpEqGreater),
    {
        self.push_insn(ByteCode::CmpEqGreater);
    }

    /// Whether the word below the top is less.
    pub fn cmp_lt(&mut self)
        ensures
            final(self).pushed(old(self), ByteCode::CmpLess),
    {
        self.push_insn(ByteCode::CmpLess);
    }

    /// Whether the word below the top is less or equal.
    pub fn cmp_le(&mut self)
        ensures
            final(self).pushed(old(self), ByteCode::CmpEqLess),
    {
        self.push_insn(ByteCode::CmpEqLess);
    }

    /// Allocates `size` words on the heap.
    pub fn heap_alloc(&mut self, size: u32)
        ensures
            final(self).pushed(old(self), ByteCode::HeapAlloc(size)),
    {
        self.push_insn(ByteCode::HeapAlloc(size));
    }

    /// Returns from a function with `amount` words of result.
    pub fn ret(&mut self, amount: u32)
        ensures
            final(self).pushed(old(self), if amount < u16::MAX {
                ByteCode::Ret(amount as u16)
            } else {
                ByteCode::RetLong(amount)
            }),
    {
        if amount < u16::MAX as u32 {
            self.push_insn(ByteCode::Ret(amount as u16));
        } else {
            self.push_insn(ByteCode::RetLong(amount));
        }
    }
}

/// What closing the scope `sc` does to the instructions `ins`: every jump out of the
/// scope is made to land at the end, and a skippable scope's opening comparison is
/// made to skip to the end; it must be one.
pub open spec fn scope_closed(ins: Seq<ByteCode>, sc: ScopeModel) -> (Seq<ByteCode>, Result<(), CompilationError>) {
    let n = ins.len() as int;
    let p = exits_patched(ins, sc.exit_points, n);
    if !sc.skippable {
        (p, Ok(()))
    } else {
        let k = sc.start_index as int;
        match p[k] {
            ByteCode::IfEq(_) => (p.update(k, ByteCode::IfEq((n - k - 1) as i32)), Ok(())),
            ByteCode::IfNe(_) => (p.update(k, ByteCode::IfNe((n - k - 1) as i32)), Ok(())),
            other => (p, Err(CompilationError::ExpectedComparison(other))),
        }
    }
}

/// The positions that closing the scope `sc` rewrites lie within `n` instructions.
pub open spec fn closable(sc: ScopeModel, n: int) -> bool {
    &&& forall|i: int| 0 <= i < sc.exit_points.len() ==> 0 <= #[trigger] sc.exit_points[i] < n
    &&& sc.skippable ==> 0 <= sc.start_index < n
}

impl ScopeInfo {
    /// A scope that starts at the next instruction of `bg`.
    pub fn scope(bg: &BytecodeGen) -> (s: Self)
        requires
            bg.wf(),
        ensures
            s@ == (ScopeModel { start_index: bg.insns().len() as i32, skippable: false, exit_points: Seq::empty(), local_count: bg.locals() }),
    {
        let s = ScopeInfo { start_index: bg.index(), skippable: false, exit_points: Vec::new(), local_count: bg.local_count };
        assert(s@.exit_points =~= Seq::<i32>::empty());
        s
    }

    /// A skippable scope that starts at the next instruction of `bg`.
    pub fn skippable(bg: &BytecodeGen) -> (s: Self)
        requires
            bg.wf(),
        ensures
            s@ == (ScopeModel { start_index: bg.insns().len() as i32, skippable: true, exit_points: Seq::empty(), local_count: bg.locals() }),
    {
        let s = ScopeInfo { start_index: bg.index(), skippable: true, exit_points: Vec::new(), local_count: bg.local_count };
        assert(s@.exit_points =~= Seq::<i32>::empty());
        s
    }
}

/// Scopes.
impl BytecodeGen {
    /// Opens a scope that starts at the next instruction.
    pub fn new_scope(&mut self)
        requires
            old(self).wf(),
        ensures
            final(self).wf(),
            final(self).scopes() == old(self).scopes().push(
                ScopeModel { start_index: old(self).insns().len() as i32, skippable: false, exit_points: Seq::empty(), local_count: old(self).locals() },
            ),
            final(self).symbols() == old(self).symbols().push(Map::empty()),
            final(self).code_added(old(self), Seq::empty()),
            final(self).locals() == old(self).locals(),
            final(self).scope_locals() == old(self).scope_locals(),
            final(self).boxed() == old(self).boxed(),
            final(self).funcs() == old(self).funcs(),
            final(self).func_count() == old(self).func_count(),
    {
        let sc = ScopeInfo::scope(self);
        self.scopes.push(sc);
        self.symbol_table.push();
        assert(self.scopes() =~= old(self).scopes().push(sc@));
        assert(self.insns() =~= old(self).insns() + Seq::<ByteCode>::empty());
        assert(self.insn_lines() =~= old(self).insn_lines() + Seq::new(0, |i: int| old(self).current_line()));
    }

    /// Opens a scope that is skipped when the top word is zero (`IfEq` jumps to its end).
    pub fn new_skippable_scope_eq(&mut self)
        requires
            old(self).wf(),
            old(self).insns().len() + 1 < i32::MAX,
        ensures
            final(self).wf(),
            final(self).scopes() == old(self).scopes().push(
                ScopeModel { start_index: old(self).insns().len() as i32, skippable: true, exit_points: Seq::empty(), local_count: old(self).locals() },
            ),
            final(self).symbols() == old(self).symbols().push(Map::empty()),
            final(self).code_added(old(self), seq![ByteCode::IfEq(0)]),
            final(self).locals() == old(self).locals(),
            final(self).scope_locals() == old(self).scope_locals(),
            final(self).boxed() == old(self).boxed(),
            final(self).funcs() == old(self).funcs(),
            final(self).func_count() == old(self).func_count(),
    {
        let sc = ScopeInfo::skippable(self);
        self.scopes.push(sc);
        self.symbol_table.push();
        assert(self.scopes() =~= old(self).scopes().push(sc@));
        self.push_insn(ByteCode::IfEq(0));
    }

    /// Opens a scope that is skipped when the top word is not zero (`IfNe` jumps to its end).
    pub fn new_skippable_scope_ne(&mut self)
        requires
            old(self).wf(),
            old(self).insns().len() + 1 < i32::MAX,
        ensures
            final(self).wf(),
            final(self).scopes() == old(self).scopes().push(
                ScopeModel { start_index: old(self).insns().len() as i32, skippable: true, exit_points: Seq::empty(), local_count: old(self).locals() },
            ),
            final(self).symbols() == old(self).symbols().push(Map::empty()),
            final(self).code_added(old(self), seq![ByteCode::IfNe(0)]),
            final(self).locals() == old(self).locals(),
            final(self).scope_locals() == old(self).scope_locals(),
            final(self).boxed() == old(self).boxed(),
            final(self).funcs() == old(self).funcs(),
            final(self).func_count() == old(self).func_count(),
    {
        let sc = ScopeInfo::skippable(self);
        self.scopes.push(sc);
        self.symbol_table.push();
        assert(self.scopes() =~= old(self).scopes().push(sc@));
        self.push_insn(ByteCode::IfNe(0));
    }

    /// Adds a jump out of the innermost scope; it lands at the scope's end once the
    /// scope is closed.
    pub fn push_scope_exit_insn(&mut self)
        requires
            old(self).wf(),
            old(self).scopes().len() > 0,
            old(self).insns().len() + 1 < i32::MAX,
        ensures
            final(self).wf(),
            final(self).scopes() == old(self).scopes().update(
                old(self).scopes().len() - 1,
                ScopeModel {
                    exit_points: old(self).scopes().last().exit_points.push(old(self).insns().len() as i32),
                    ..old(self).scopes().last()
                },
            ),
            final(self).code_added(old(self), seq![ByteCode::Goto(0)]),
            final(self).symbols() == old(self).symbols(),
            final(self).locals() == old(self).locals(),
            final(self).scope_locals() == old(self).scope_locals(),
            final(self).boxed() == old(self).boxed(),
            final(self).funcs() == old(self).funcs(),
            final(self).func_count() == old(self).func_count(),
    {
        let ind = self.index();
        let mut sc = self.scopes.pop().unwrap();
        sc.exit_points.push(ind);
        self.scopes.push(sc);
        assert(self.scopes() =~= old(self).scopes().update(
            old(self).scopes().len() - 1,
            ScopeModel {
                exit_points: old(self).scopes().last().exit_points.push(old(self).insns().len() as i32),
                ..old(self).scopes().last()
            },
        ));
        self.push_insn(ByteCode::Goto(0));
    }

    /// Adds a jump back to the start of the innermost scope.
    pub fn push_goto_scope_start_insn(&mut self)
        requires
            old(self).wf(),
            old(self).scopes().len() > 0,
            0 <= old(self).scopes().last().start_index,
        ensures
            ({
                let offset = old(self).scopes().last().start_index - old(self).insns().len() - 1;
                &&& final(self).pushed(old(self), ByteCode::Goto(offset as i32))
                &&& jump_target(old(self).insns().len() as int, offset as i32) == old(self).scopes().last().start_index
            }),
    {
        let last = self.scopes.len() - 1;
        let offset = self.scopes[last].start_index - self.index() - 1;
        self.push_insn(ByteCode::Goto(offset));
    }

    /// How far back the start of the innermost scope lies from the next instruction,
    /// as a jump offset.
    pub fn get_scope_start_offset(&self) -> (r: Result<i32, CompilationError>)
        requires
            self.wf(),
            self.scopes().len() > 0 ==> 0 <= self.scopes().last().start_index,
        ensures
            self.scopes().len() == 0 ==> r == Err::<i32, CompilationError>(CompilationError::MissingScope),
            self.scopes().len() > 0 ==> r == Ok::<i32, CompilationError>(
                (self.scopes().last().start_index - self.insns().len() - 1) as i32,
            ),
    {
        if self.scopes.len() == 0 {
            return Err(CompilationError::MissingScope);
        }
        let last = self.scopes.len() - 1;
        Ok(self.scopes[last].start_index - self.index() - 1)
    }

    /// Closes the innermost scope: its jumps out land at the end, a skippable scope's
    /// opening comparison skips to the end, and its locals are forgotten.
    pub fn end_scope(&mut self) -> (r: EmptyRes)
        requires
            old(self).wf(),
            old(self).scopes().len() > 0,
            closable(old(self).scopes().last(), old(self).insns().len() as int),
        ensures
            final(self).wf(),
            ({
                let sc = old(self).scopes().last();
                let (ins, res) = scope_closed(old(self).insns(), sc);
                &&& final(self).insns() == ins
                &&& r == res
                &&& final(self).scopes() == old(self).scopes().drop_last()
                &&& final(self).symbols() == old(self).symbols().drop_last()
                &&& final(self).scope_locals() == sc.local_count
                &&& forall|i: int| 0 <= i < sc.exit_points.len() && !(sc.skippable && sc.exit_points[i] == sc.start_index)
                    ==> jumps_to(#[trigger] final(self).insns()[sc.exit_points[i] as int], sc.exit_points[i] as int, old(self).insns().len() as int)
                &&& (sc.skippable && r is Ok) ==> skips_to(final(self).insns()[sc.start_index as int], sc.start_index as int, old(self).insns().len() as int)
            }),
            final(self).insn_lines() == old(self).insn_lines(),
            final(self).line_stack() == old(self).line_stack(),
            final(self).text() == old(self).text(),
            final(self).locals() == old(self).locals(),
            final(self).boxed() == old(self).boxed(),
            final(self).funcs() == old(self).funcs(),
            final(self).func_count() == old(self).func_count(),
    {
        let ghost ins0 = self.insns();
        let sc = self.scopes.pop().unwrap();
        let ghost exits = sc.exit_points@;
        let n = self.index();
        let mut j: usize = 0;
        while j < sc.exit_points.len()
            invariant
                n == ins0.len(),
                ins0.len() < i32::MAX,
                self.insns().len() == ins0.len(),
                self.insn_lines().len() == ins0.len(),
                self.insn_lines() == old(self).insn_lines(),
                exits == sc.exit_points@,
                j <= exits.len(),
                forall|i: int| 0 <= i < exits.len() ==> 0 <= #[trigger] exits[i] < n,
                self.insns() == exits_patched(ins0, exits.take(j as int), n as int),
                self.scopes() == old(self).scopes().drop_last(),
                self.symbols() == old(self).symbols(),
                self.line_stack() == old(self).line_stack(),
                self.text() == old(self).text(),
                self.locals() == old(self).locals(),
                self.scope_locals() == old(self).scope_locals(),
                self.boxed() == old(self).boxed(),
                self.funcs() == old(self).funcs(),
                self.func_count() == old(self).func_count(),
            decreases exits.len() - j,
        {
            let i = sc.exit_points[j];
            self.instructions.set(i as usize, ByteCode::Goto(n - i - 1));
            proof {
                assert forall|k: int| 0 <= k < ins0.len() implies #[trigger] self.insns()[k] == exits_patched(ins0, exits.take(j + 1), n as int)[k] by {
                    assert(exits.take(j + 1) == exits.take(j as int).push(i));
                    if k == i {
                        assert(exits.take(j + 1)[j as int] == i);
                    }
                }
                assert(self.insns() =~= exits_patched(ins0, exits.take(j + 1), n as int));
            }
            j += 1;
        }
        assert(exits.take(exits.len() as int) == exits);
        self.scope_local_count = sc.local_count;
        self.symbol_table.pop();
        proof {
            assert(self.scopes() =~= old(self).scopes().drop_last());
        }
        if !sc.skippable {
            return Ok(());
        }
        let end_offset = n - sc.start_index - 1;
        let ind = sc.start_index as usize;
        match self.instructions[ind] {
            ByteCode::IfEq(_) => {
                self.instructions.set(ind, ByteCode::IfEq(end_offset));
            },
            ByteCode::IfNe(_) => {
                self.instructions.set(ind, ByteCode::IfNe(end_offset));
            },
            _ => {
                return Err(CompilationError::ExpectedComparison(self.instructions[ind].duplicate()));
            },
        }
        Ok(())
    }
}

/// The stores of a tuple's elements into fresh locals from slot `s` on: the last
/// element first, each element `i` into slot `s + i`.
pub open spec fn tuple_stores(reg: Map<u64, AstTypeModel>, arr: Seq<u64>, s: int) -> Seq<ByteCode> {
    Seq::new(arr.len(), |m: int| store_of(word_kind(entry_type(reg, arr[arr.len() - 1 - m]))->0, (s + arr.len() - 1 - m) as u16))
}

/// The local slot that the variable `name` has in the innermost scope that has it.
pub open spec fn slot_of(symbols: Seq<Map<Seq<char>, (u16, Option<()>)>>, name: Seq<char>) -> u16 {
    match lookup_scopes(symbols, name) {
        Some(e) => e.0,
        None => 0,
    }
}

/// Whether code can be generated to store a new variable of type `t`: a type that
/// takes a word, or a non-empty tuple of such types.
pub open spec fn storable(t: AstTypeModel, reg: Map<u64, AstTypeModel>) -> bool {
    word_kind(t) is Some || (t matches AstTypeModel::TupleType(arr) && arr.len() > 0 && forall|i: int| 0 <= i < arr.len() ==> (#[trigger] word_kind(entry_type(reg, arr[i]))) is Some)
}

/// The number of elements a new variable of type `t` stores besides itself.
pub open spec fn tuple_len(t: AstTypeModel) -> int {
    match t {
        AstTypeModel::TupleType(arr) => arr.len() as int,
        _ => 0,
    }
}

/// The kind of word a store of a value of type `t` writes.
fn store_insn(k: ValueType, i: u16) -> (b: ByteCode)
    ensures
        b == store_of(k, i),
{
    match k {
        ValueType::Float => ByteCode::FStore(i),
        ValueType::Address => ByteCode::AStore(i),
        _ => ByteCode::IStore(i),
    }
}

/// Storing and loading values.
impl BytecodeGen {
    /// Nothing changed.
    pub open spec fn unchanged(&self, before: &BytecodeGen) -> bool {
        &&& self.code_added(before, Seq::empty())
        &&& self.same_state(before)
    }

    /// The kind of word a value of the type under `t` takes; code can only be
    /// generated for types that take a word.
    fn typed_expr(t: TypeEntry, registry: &TypeRegistry) -> (k: ValueType)
        requires
            word_kind(entry_type(registry.types(), t.key)) is Some,
        ensures
            word_kind(entry_type(registry.types(), t.key)) == Some(k),
    {
        let t = t.get(registry);
        match t {
            AstType::Bool | AstType::Int => ValueType::Int,
            AstType::Float => ValueType::Float,
            AstType::NullableType { .. } | AstType::ArrayType { .. } | AstType::StructType { .. } => ValueType::Address,
            _ => ValueType::Int,
        }
    }

    /// Stores the top word in the variable `name`, which must exist.
    fn store(&mut self, name: String, kind: ValueType) -> (r: EmptyRes)
        ensures
            match lookup_scopes(old(self).symbols(), name@) {
                Some(e) => r == Ok::<(), CompilationError>(()) && final(self).pushed(old(self), store_of(kind, e.0)),
                None => r == Err::<(), CompilationError>(CompilationError::MissingVariable(name)) && final(self).unchanged(old(self)),
            },
    {
        proof {
            crate::analysis::symbol_table::lemma_lookup_found(self.symbols(), name@);
        }
        if self.symbol_table.contains(&name) {
            let ind = self.symbol_table.get(name).unwrap();
            self.push_insn(store_insn(kind, ind));
            return Ok(());
        }
        proof {
            assert(self.insns() =~= old(self).insns() + Seq::<ByteCode>::empty());
            assert(self.insn_lines() =~= old(self).insn_lines() + Seq::new(0, |i: int| old(self).current_line()));
        }
        Err(CompilationError::MissingVariable(name))
    }

    /// Stores the top word, a value of the type under `value`, in the variable `name`.
    pub fn store_value(&mut self, registry: &TypeRegistry, name: &String, value: TypeEntry) -> (r: EmptyRes)
        requires
            word_kind(entry_type(registry.types(), value.key)) is Some,
        ensures
            ({
                let k = word_kind(entry_type(registry.types(), value.key))->0;
                match lookup_scopes(old(self).symbols(), name@) {
                    Some(e) => r == Ok::<(), CompilationError>(()) && final(self).pushed(old(self), store_of(k, e.0)),
                    None => r == Err::<(), CompilationError>(CompilationError::MissingVariable(*name)) && final(self).unchanged(old(self)),
                }
            }),
    {
        let k = Self::typed_expr(value, registry);
        self.store(name.clone(), k)
    }

    /// Stores the top word, a value of the type under `value`, at `offset` from the
    /// address below it.
    pub fn store_offset_value(&mut self, registry: &TypeRegistry, offset: u32, value: TypeEntry) -> (r: EmptyRes)
        requires
            word_kind(entry_type(registry.types(), value.key)) is Some,
        ensures
            r is Ok,
            final(self).pushed(old(self), match word_kind(entry_type(registry.types(), value.key))->0 {
                ValueType::Float => ByteCode::FStoreOffset(offset),
                ValueType::Address => ByteCode::AStoreOffset(offset),
                _ => ByteCode::IStoreOffset(offset),
            }),
    {
        match Self::typed_expr(value, registry) {
            ValueType::Float => self.push_insn(ByteCode::FStoreOffset(offset)),
            ValueType::Address => self.push_insn(ByteCode::AStoreOffset(offset)),
            _ => self.push_insn(ByteCode::IStoreOffset(offset)),
        }
        Ok(())
    }

    /// Stores the top word, a value of the type under `value`, in a fresh local of
    /// the current scope.
    pub fn store_internal_value(&mut self, registry: &TypeRegistry, value: TypeEntry) -> (r: EmptyRes)
        requires
            word_kind(entry_type(registry.types(), value.key)) is Some,
            old(self).locals() < u16::MAX,
            old(self).scope_locals() < u16::MAX,
        ensures
            r is Ok,
            final(self).code_added(old(self), seq![store_of(word_kind(entry_type(registry.types(), value.key))->0, old(self).scope_locals())]),
            final(self).locals() == old(self).locals() + 1,
            final(self).scope_locals() == old(self).scope_locals() + 1,
            final(self).scopes() == old(self).scopes(),
            final(self).boxed() == old(self).boxed(),
            final(self).symbols() == old(self).symbols(),
            final(self).funcs() == old(self).funcs(),
            final(self).func_count() == old(self).func_count(),
    {
        let k = Self::typed_expr(value, registry);
        self.store_internal(k);
        Ok(())
    }

    /// Reserves the store of a value of the type under `value` that is boxed when
    /// the function ends: two placeholder instructions that `fn_end` replaces.
    pub fn store_boxed_value(&mut self, registry: &TypeRegistry, value: TypeEntry) -> (r: EmptyRes)
        ensures
            r is Ok,
            final(self).code_added(old(self), seq![ByteCode::Nop, ByteCode::Nop]),
            final(self).boxed() == old(self).boxed().push((old(self).insns().len() as usize, value)),
            final(self).scopes() == old(self).scopes(),
            final(self).locals() == old(self).locals(),
            final(self).scope_locals() == old(self).scope_locals(),
            final(self).symbols() == old(self).symbols(),
            final(self).funcs() == old(self).funcs(),
            final(self).func_count() == old(self).func_count(),
    {
        self.to_box.push((self.instructions.len(), value));
        self.nop();
        self.nop();
        assert(self.insns() =~= old(self).insns() + seq![ByteCode::Nop, ByteCode::Nop]);
        assert(self.insn_lines() =~= old(self).insn_lines() + Seq::new(2, |i: int| old(self).current_line()));
        Ok(())
    }

    /// Stores the top word, a value of the type under `value`, at the offset on top
    /// of the stack from the address below it.
    pub fn store_var_offset(&mut self, registry: &TypeRegistry, value: TypeEntry) -> (r: EmptyRes)
        requires
            word_kind(entry_type(registry.types(), value.key)) is Some,
        ensures
            r is Ok,
            final(self).pushed(old(self), match word_kind(entry_type(registry.types(), value.key))->0 {
                ValueType::Float => ByteCode::FStoreVarOffset,
                ValueType::Address => ByteCode::AStoreVarOffset,
                _ => ByteCode::IStoreVarOffset,
            }),
    {
        match Self::typed_expr(value, registry) {
            ValueType::Float => self.push_insn(ByteCode::FStoreVarOffset),
            ValueType::Address => self.push_insn(ByteCode::AStoreVarOffset),
            _ => self.push_insn(ByteCode::IStoreVarOffset),
        }
        Ok(())
    }

    /// Loads a value of the type under `value` from `offset` past the address on top.
    pub fn load_offset_value(&mut self, registry: &TypeRegistry, offset: u32, value: TypeEntry) -> (r: EmptyRes)
        requires
            word_kind(entry_type(registry.types(), value.key)) is Some,
        ensures
            r is Ok,
            final(self).pushed(old(self), match word_kind(entry_type(registry.types(), value.key))->0 {
                ValueType::Float => ByteCode::FLoadOffset(offset),
                ValueType::Address => ByteCode::ALoadOffset(offset),
                _ => ByteCode::ILoadOffset(offset),
            }),
    {
        match Self::typed_expr(value, registry) {
            ValueType::Float => self.push_insn(ByteCode::FLoadOffset(offset)),
            ValueType::Address => self.push_insn(ByteCode::ALoadOffset(offset)),
            _ => self.push_insn(ByteCode::ILoadOffset(offset)),
        }
        Ok(())
    }

    /// Loads a value of the type under `value` from the offset on top of the stack
    /// past the address below it.
    pub fn load_var_offset(&mut self, registry: &TypeRegistry, value: TypeEntry) -> (r: EmptyRes)
        requires
            word_kind(entry_type(registry.types(), value.key)) is Some,
        ensures
            r is Ok,
            final(self).pushed(old(self), match word_kind(entry_type(registry.types(), value.key))->0 {
                ValueType::Float => ByteCode::FLoadVarOffset,
                ValueType::Address => ByteCode::ALoadVarOffset,
                _ => ByteCode::ILoadVarOffset,
            }),
    {
        match Self::typed_expr(value, registry) {
            ValueType::Float => self.push_insn(ByteCode::FLoadVarOffset),
            ValueType::Address => self.push_insn(ByteCode::ALoadVarOffset),
            _ => self.push_insn(ByteCode::ILoadVarOffset),
        }
        Ok(())
    }

    /// Stores the top word in a fresh local of the current scope.
    fn store_internal(&mut self, kind: ValueType)
        requires
            old(self).locals() < u16::MAX,
            old(self).scope_locals() < u16::MAX,
        ensures
            final(self).code_added(old(self), seq![store_of(kind, old(self).scope_locals())]),
            final(self).locals() == old(self).locals() + 1,
            final(self).scope_locals() == old(self).scope_locals() + 1,
            final(self).scopes() == old(self).scopes(),
            final(self).boxed() == old(self).boxed(),
            final(self).symbols() == old(self).symbols(),
            final(self).funcs() == old(self).funcs(),
            final(self).func_count() == old(self).func_count(),
    {
        self.push_insn(store_insn(kind, self.scope_local_count));
        self.local_count += 1;
        self.scope_local_count += 1;
    }

    /// Stores the top word in the variable `name` of the current scope, making it a
    /// fresh local when the scope has no such variable.
    fn store_new(&mut self, name: String, kind: ValueType)
        requires
            old(self).wf(),
            old(self).insns().len() + 1 < i32::MAX,
            old(self).locals() < u16::MAX,
            old(self).scope_locals() < u16::MAX,
        ensures
            final(self).wf(),
            final(self).scopes() == old(self).scopes(),
            final(self).boxed() == old(self).boxed(),
            final(self).funcs() == old(self).funcs(),
            final(self).func_count() == old(self).func_count(),
            ({
                let last = old(self).symbols().last();
                if last.contains_key(name@) {
                    &&& final(self).code_added(old(self), seq![store_of(kind, last[name@].0)])
                    &&& final(self).locals() == old(self).locals()
                    &&& final(self).scope_locals() == old(self).scope_locals()
                    &&& final(self).symbols() == old(self).symbols()
                } else {
                    &&& final(self).code_added(old(self), seq![store_of(kind, old(self).scope_locals())])
                    &&& final(self).locals() == old(self).locals() + 1
                    &&& final(self).scope_locals() == old(self).scope_locals() + 1
                    &&& final(self).symbols() == old(self).symbols().update(
                        old(self).symbols().len() - 1,
                        last.insert(name@, (old(self).scope_locals(), None)),
                    )
                }
            }),
    {
        if self.symbol_table.contains_in_current(&name) {
            let ind = self.symbol_table.get(name).unwrap();
            self.push_insn(store_insn(kind, ind));
            return;
        }
        self.push_insn(store_insn(kind, self.scope_local_count));
        let ind = self.scope_local_count;
        self.local_count += 1;
        self.scope_local_count += 1;
        self.symbol_table.record(name, ind);
    }

    /// Pushes a reference to the last `consume_words` locals of the current scope.
    pub fn create_stack_ptr(&mut self, consume_words: u16)
        requires
            old(self).scope_locals() >= consume_words,
        ensures
            final(self).pushed(old(self), ByteCode::CreateStackPtr {
                offset: (old(self).scope_locals() - consume_words) as u16,
                consume_words,
            }),
    {
        let offset = self.scope_local_count - consume_words;
        self.push_insn(ByteCode::CreateStackPtr { offset, consume_words });
    }

    /// Loads the integer variable `name`, which must exist.
    pub fn i_load(&mut self, name: String)
        requires
            lookup_scopes(old(self).symbols(), name@) is Some,
        ensures
            final(self).pushed(old(self), ByteCode::ILoad(slot_of(old(self).symbols(), name@))),
    {
        let ind = self.symbol_table.get(name).unwrap();
        self.push_insn(ByteCode::ILoad(ind));
    }

    /// Loads the float variable `name`, which must exist.
    pub fn f_load(&mut self, name: String)
        requires
            lookup_scopes(old(self).symbols(), name@) is Some,
        ensures
            final(self).pushed(old(self), ByteCode::FLoad(slot_of(old(self).symbols(), name@))),
    {
        let ind = self.symbol_table.get(name).unwrap();
        self.push_insn(ByteCode::FLoad(ind));
    }

    /// Loads the reference variable `name`, which must exist.
    pub fn a_load(&mut self, name: String)
        requires
            lookup_scopes(old(self).symbols(), name@) is Some,
        ensures
            final(self).pushed(old(self), ByteCode::ALoad(slot_of(old(self).symbols(), name@))),
    {
        let ind = self.symbol_table.get(name).unwrap();
        self.push_insn(ByteCode::ALoad(ind));
    }

    /// Calls the registered function `name`.
    pub fn call(&mut self, name: &String)
        requires
            old(self).funcs().contains_key(name@),
        ensures
            final(self).pushed(old(self), ByteCode::Call(old(self).funcs()[name@].index)),
    {
        let info = *self.functions.get(name.as_str()).unwrap();
        self.push_insn(ByteCode::Call(info.index));
    }
}

/// The instructions `ins` once the boxed values `boxes` are stored: each box `j`, at
/// position `p` with type `t`, stores into local `base + j` at `p` and pushes a
/// reference to that local at `p + 1`.
pub open spec fn boxes_applied(ins: Seq<ByteCode>, boxes: Seq<(usize, TypeEntry)>, reg: Map<u64, AstTypeModel>, base: int) -> Seq<ByteCode>
    decreases boxes.len(),
{
    if boxes.len() == 0 {
        ins
    } else {
        let prev = boxes_applied(ins, boxes.drop_last(), reg, base);
        let j = boxes.len() - 1;
        let pos = boxes.last().0 as int;
        let addr = (base + j) as u16;
        prev.update(pos + 1, ByteCode::CreateStackPtr { offset: addr, consume_words: 1 }).update(
            pos,
            store_of(word_kind(entry_type(reg, boxes.last().1.key))->0, addr),
        )
    }
}

/// Functions.
impl BytecodeGen {
    /// Registers the function `name`, whose parameters take `params_len` words,
    /// under the next function number.
    pub fn register_func(&mut self, name: String, params_len: u32)
        requires
            old(self).func_count() < u16::MAX,
        ensures
            final(self).funcs() == old(self).funcs().insert(
                name@,
                FunctionInfo { index: old(self).func_count(), params_len, start: 0, end: 0 },
            ),
            final(self).func_count() == old(self).func_count() + 1,
            final(self).code_added(old(self), Seq::empty()),
            final(self).scopes() == old(self).scopes(),
            final(self).locals() == old(self).locals(),
            final(self).scope_locals() == old(self).scope_locals(),
            final(self).boxed() == old(self).boxed(),
            final(self).symbols() == old(self).symbols(),
    {
        self.functions.insert(name, FunctionInfo { index: self.func_count, params_len, start: 0, end: 0 });
        self.func_count += 1;
        assert(self.insns() =~= old(self).insns() + Seq::<ByteCode>::empty());
        assert(self.insn_lines() =~= old(self).insn_lines() + Seq::new(0, |i: int| old(self).current_line()));
    }

    /// Starts the body of the registered function `name` at the next instruction:
    /// records where it starts, opens its scope, and adds its stack frame, whose size
    /// `fn_end` fills in.
    pub fn fn_start(&mut self, name: String)
        requires
            old(self).wf(),
            old(self).insns().len() + 1 < i32::MAX,
            old(self).boxed().len() == 0,
            old(self).funcs().contains_key(name@),
        ensures
            final(self).wf(),
            final(self).funcs() == old(self).funcs().insert(
                name@,
                FunctionInfo { start: old(self).insns().len() as u32, end: 0, ..old(self).funcs()[name@] },
            ),
            final(self).scopes() == old(self).scopes().push(
                ScopeModel { start_index: old(self).insns().len() as i32, skippable: false, exit_points: Seq::empty(), local_count: old(self).locals() },
            ),
            final(self).symbols() == old(self).symbols().push(Map::empty()),
            final(self).code_added(old(self), seq![ByteCode::StackFrame(0)]),
            final(self).locals() == old(self).locals(),
            final(self).scope_locals() == old(self).scope_locals(),
            final(self).boxed() == old(self).boxed(),
            final(self).func_count() == old(self).func_count(),
    {
        let fun = *self.functions.get(name.as_str()).unwrap();
        let start = self.instructions.len() as u32;
        self.functions.insert(name, FunctionInfo { index: fun.index, params_len: fun.params_len, start, end: 0 });
        self.new_scope();
        self.push_insn(ByteCode::StackFrame(0));
        assert(self.insns() =~= old(self).insns() + seq![ByteCode::StackFrame(0)]);
        assert(self.insn_lines() =~= old(self).insn_lines() + Seq::new(1, |i: int| old(self).current_line()));
    }

    /// Ends the body of the registered function `name`: records where it ends, stores
    /// the boxed values in locals after the others, sizes the stack frame for all the
    /// locals, and closes the function's scope.
    pub fn fn_end(&mut self, name: String, registry: &TypeRegistry) -> (r: EmptyRes)
        requires
            old(self).wf(),
            old(self).funcs().contains_key(name@),
            old(self).scopes().len() > 0,
            old(self).locals() >= old(self).scopes().last().local_count,
            old(self).locals() - old(self).scopes().last().local_count + old(self).boxed().len() <= u16::MAX,
            0 <= old(self).scopes().last().start_index < old(self).insns().len(),
            closable(old(self).scopes().last(), old(self).insns().len() as int),
            forall|j: int| 0 <= j < old(self).boxed().len() ==> #[trigger] old(self).boxed()[j].0 + 1 < old(self).insns().len()
                && word_kind(entry_type(registry.types(), old(self).boxed()[j].1.key)) is Some,
        ensures
            final(self).wf(),
            ({
                let sc = old(self).scopes().last();
                let base = old(self).locals() - sc.local_count;
                let n = old(self).insns().len();
                let boxed = boxes_applied(old(self).insns(), old(self).boxed(), registry.types(), base);
                let framed = boxed.update(sc.start_index as int, ByteCode::StackFrame((base + old(self).boxed().len()) as u16));
                let (ins, res) = scope_closed(framed, sc);
                &&& final(self).insns() == ins
                &&& r == res
                &&& final(self).funcs() == old(self).funcs().insert(name@, FunctionInfo { end: n as u32, ..old(self).funcs()[name@] })
                &&& final(self).scopes() == old(self).scopes().drop_last()
                &&& final(self).symbols() == old(self).symbols().drop_last()
                &&& final(self).scope_locals() == sc.local_count
                &&& final(self).locals() == if r is Ok { sc.local_count } else { old(self).locals() }
            }),
            final(self).boxed().len() == 0,
            final(self).insn_lines() == old(self).insn_lines(),
            final(self).line_stack() == old(self).line_stack(),
            final(self).text() == old(self).text(),
            final(self).func_count() == old(self).func_count(),
    {
        let ghost reg = registry.types();
        let ghost ins0 = self.insns();
        let ghost boxes = self.boxed();
        let fun = *self.functions.get(name.as_str()).unwrap();
        let end = self.instructions.len() as u32;
        self.functions.insert(name, FunctionInfo { index: fun.index, params_len: fun.params_len, start: fun.start, end });
        let last = self.scopes.len() - 1;
        let frame_ind = self.scopes[last].start_index;
        let local_count = self.local_count - self.scopes[last].local_count;
        let mut to_box: Vec<(usize, TypeEntry)> = Vec::new();
        std::mem::swap(&mut to_box, &mut self.to_box);
        let tmp_count = to_box.len();
        let mut i: usize = 0;
        while i < to_box.len()
            invariant
                to_box@ == boxes,
                i <= boxes.len(),
                tmp_count == boxes.len(),
                local_count + boxes.len() <= u16::MAX,
                self.insns().len() == ins0.len(),
                ins0.len() < i32::MAX,
                self.insns() == boxes_applied(ins0, boxes.take(i as int), reg, local_count as int),
                forall|j: int| 0 <= j < boxes.len() ==> #[trigger] boxes[j].0 + 1 < ins0.len()
                    && word_kind(entry_type(reg, boxes[j].1.key)) is Some,
                reg == registry.types(),
                self.insn_lines() == old(self).insn_lines(),
                self.scopes() == old(self).scopes(),
                self.symbols() == old(self).symbols(),
                self.locals() == old(self).locals(),
                self.scope_locals() == old(self).scope_locals(),
                self.boxed().len() == 0,
                self.line_stack() == old(self).line_stack(),
                self.text() == old(self).text(),
                self.func_count() == old(self).func_count(),
                self.funcs() == old(self).funcs().insert(name@, FunctionInfo { end: ins0.len() as u32, ..old(self).funcs()[name@] }),
            decreases boxes.len() - i,
        {
            let entry = to_box[i];
            let pos = entry.0;
            let value = entry.1;
            assert(entry == boxes[i as int]);
            assert(boxes[i as int].0 + 1 < ins0.len());
            let kind = Self::typed_expr(value, registry);
            let addr = local_count + (i as u16);
            self.instructions.set(pos + 1, ByteCode::CreateStackPtr { offset: addr, consume_words: 1 });
            self.instructions.set(pos, store_insn(kind, addr));
            proof {
                assert(boxes.take(i + 1).drop_last() == boxes.take(i as int));
                assert(boxes.take(i + 1).last() == boxes[i as int]);
            }
            i += 1;
        }
        assert(boxes.take(boxes.len() as int) == boxes);
        self.instructions.set(frame_ind as usize, ByteCode::StackFrame(local_count + (tmp_count as u16)));
        self.end_scope()?;
        self.local_count = self.scope_local_count;
        Ok(())
    }

    /// Stores the top of the stack, a value of the type under `value`, in the new
    /// variable `name` of the current scope (or in the variable of that name the
    /// scope has). A tuple's elements are stored in fresh locals first, the last one
    /// first, and the variable gets a reference to them.
    pub fn store_new_var(&mut self, name: String, registry: &TypeRegistry, value: TypeEntry) -> (r: EmptyRes)
        requires
            old(self).wf(),
            old(self).insns().len() + tuple_len(entry_type(registry.types(), value.key)) + 2 < i32::MAX,
            storable(entry_type(registry.types(), value.key), registry.types()),
            old(self).locals() + tuple_len(entry_type(registry.types(), value.key)) + 1 <= u16::MAX,
            old(self).scope_locals() + tuple_len(entry_type(registry.types(), value.key)) + 1 <= u16::MAX,
        ensures
            r is Ok,
            final(self).wf(),
            final(self).scopes() == old(self).scopes(),
            final(self).boxed() == old(self).boxed(),
            final(self).funcs() == old(self).funcs(),
            final(self).func_count() == old(self).func_count(),
            ({
                let t = entry_type(registry.types(), value.key);
                let n = tuple_len(t);
                let s = old(self).scope_locals() as int;
                let last = old(self).symbols().last();
                let fresh = !last.contains_key(name@);
                let slot = if fresh { (s + n) as u16 } else { last[name@].0 };
                let code = match t {
                    AstTypeModel::TupleType(arr) => tuple_stores(registry.types(), arr, s) + seq![
                        ByteCode::CreateStackPtr { offset: s as u16, consume_words: n as u16 },
                        ByteCode::AStore(slot),
                    ],
                    _ => seq![store_of(word_kind(t)->0, slot)],
                };
                &&& final(self).code_added(old(self), code)
                &&& final(self).locals() == old(self).locals() + n + if fresh { 1int } else { 0int }
                &&& final(self).scope_locals() == s + n + if fresh { 1int } else { 0int }
                &&& final(self).symbols() == if fresh {
                    old(self).symbols().update(old(self).symbols().len() - 1, last.insert(name@, ((s + n) as u16, None)))
                } else {
                    old(self).symbols()
                }
            }),
    {
        let ghost reg = registry.types();
        match value.get(registry) {
            AstType::Bool | AstType::Int => self.store_new(name, ValueType::Int),
            AstType::Float => self.store_new(name, ValueType::Float),
            AstType::NullableType { .. } | AstType::StructType { .. } | AstType::ArrayType { .. } => {
                self.store_new(name, ValueType::Address)
            },
            AstType::TupleType(arr) => {
                let ghost keys = arr@.map_values(|e: TypeEntry| e.key);
                let ghost s = self.scope_local_count as int;
                let ghost l = self.local_count as int;
                let ghost before = *self;
                let n = arr.len() as u16;
                self.scope_local_count = self.scope_local_count + n + 1;
                let mut k: usize = arr.len();
                while k > 0
                    invariant
                        keys == arr@.map_values(|e: TypeEntry| e.key),
                        n == arr@.len(),
                        k <= arr@.len(),
                        arr@.len() > 0,
                        forall|i: int| 0 <= i < keys.len() ==> (#[trigger] word_kind(entry_type(reg, keys[i]))) is Some,
                        reg == registry.types(),
                        0 <= s,
                        0 <= l,
                        s + n + 1 <= u16::MAX,
                        l + n + 1 <= u16::MAX,
                        self.scope_local_count == s + k + 1,
                        self.local_count == l + (n - k),
                        self.code_added(&before, tuple_stores(reg, keys, s).take(n - k)),
                        self.scopes() == before.scopes(),
                        self.boxed() == before.boxed(),
                        self.symbols() == before.symbols(),
                        self.funcs() == before.funcs(),
                        self.func_count() == before.func_count(),
                        before.insns().len() + n + 2 < i32::MAX,
                        before.wf(),
                    decreases k,
                {
                    k -= 1;
                    self.scope_local_count = self.scope_local_count - 2;
                    let ghost mid = *self;
                    assert(arr@[k as int].key == keys[k as int]);
                    self.store_internal_value(registry, arr[k])?;
                    proof {
                        let ts = tuple_stores(reg, keys, s);
                        assert(ts.take(n - k) == ts.take(n - k - 1).push(ts[n - k - 1]));
                        assert(self.insns() =~= before.insns() + ts.take(n - k));
                        assert(self.insn_lines() =~= before.insn_lines() + Seq::new((n - k) as nat, |i: int| before.current_line()));
                    }
                }
                self.scope_local_count = self.scope_local_count + n - 1;
                self.create_stack_ptr(n);
                self.store_new(name, ValueType::Address);
                proof {
                    let ts = tuple_stores(reg, keys, s);
                    assert(ts.take(n as int) == ts);
                    assert(self.insns() =~= before.insns() + (ts + seq![
                        ByteCode::CreateStackPtr { offset: s as u16, consume_words: n },
                        store_of(ValueType::Address, if before.symbols().last().contains_key(name@) { before.symbols().last()[name@].0 } else { (s + n) as u16 }),
                    ]));
                    assert(self.insn_lines() =~= before.insn_lines() + Seq::new((n + 2) as nat, |i: int| before.current_line()));
                }
            },
            _ => {},
        }
        Ok(())
    }
}


/// Adding one instruction adds it last, with the line it was added on.
pub broadcast proof fn lemma_code_added_one(g1: BytecodeGen, g0: BytecodeGen, c: Seq<ByteCode>)
    requires
        #[trigger] g1.code_added(&g0, c),
        c.len() == 1,
    ensures
        g1.insns() == g0.insns().push(c[0]),
        g1.insn_lines() == g0.insn_lines().push(g0.current_line()),
{
    assert(g1.insns() =~= g0.insns().push(c[0]));
    assert(g1.insn_lines() =~= g0.insn_lines().push(g0.current_line()));
}

} // verus!
