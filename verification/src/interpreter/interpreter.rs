use vstd::prelude::*;
use std::collections::{HashMap, HashSet};
use crate::compiler::bytecode::ByteCode;
use crate::compiler::codegen::FunctionInfo;
use crate::compiler::compiler::CompilationResult;
use crate::error::runtime_error::{RuntimeError, ValueTypeVariant};
use crate::interpreter::heap::{count_le, heap_word, heap_written, last_end, lemma_placement_bounds, ordered, placement, AllocInfo, Heap};
use crate::interpreter::interpreter_builder::DEFAULT_HEAP_SIZE;
use crate::interpreter::value::Value;
use crate::util::float_bits::{f32_bits_of, f32_bits_of_int, i32_of_f32, i32_of_f32_bits, lemma_int_float_round_trip};

verus! {

broadcast use vstd::std_specs::hash::group_hash_axioms;

/// The number of words of the stack. Addresses below it are stack slots; the heap
/// starts there.
pub const STACK_SIZE: usize = 1_000_000;

/// A call's frame: its first stack slot and its number of slots.
#[derive(Debug, Copy, Clone, PartialEq, Eq, Structural)]
pub struct StackFrame {
    pub start: usize,
    pub len: usize,
}

/// The virtual machine that runs compiled programs.
pub struct Interpreter {
    instructions: Vec<ByteCode>,
    line_maps: Vec<usize>,
    functions: Vec<FunctionInfo>,
    insn_addr: usize,
    pointer: usize,
    stack: Vec<Value>,
    stack_frames: Vec<StackFrame>,
    call_stack: Vec<usize>,
    heap: Heap,
}

/// The state of the machine: its program, the current instruction, the stack and
/// its pointer (the first free slot), the frames, the return addresses, and the heap.
pub struct VmModel {
    pub instructions: Seq<ByteCode>,
    pub lines: Seq<usize>,
    pub functions: Seq<FunctionInfo>,
    pub insn_addr: usize,
    pub pointer: usize,
    pub stack: Seq<Value>,
    pub frames: Seq<StackFrame>,
    pub call_stack: Seq<usize>,
    pub heap: HeapModel,
}

/// The state of the heap: its size, its words, where its addresses start, its free
/// words, and the blocks handed out.
pub struct HeapModel {
    pub heap_size: usize,
    pub mem: Seq<Value>,
    pub ptr_offset: usize,
    pub free_space: usize,
    pub allocated: Seq<AllocInfo>,
}

impl HeapModel {
    /// Where a block of `size` words goes (see `Heap::allocate`), as an absolute
    /// address, or `OutOfMemory`.
    pub open spec fn alloc_result(self, size: u32) -> Result<u32, RuntimeError> {
        let p = placement(self.allocated, size as int);
        if p + size >= self.heap_size {
            Err(RuntimeError::OutOfMemory)
        } else {
            Ok((self.ptr_offset + p) as u32)
        }
    }

    /// The heap after handing out a block of `size` words.
    pub open spec fn alloc_heap(self, size: u32) -> HeapModel {
        let a = self.allocated;
        let p = placement(a, size as int);
        let info = AllocInfo { ptr: p as usize, len: size as usize };
        HeapModel {
            free_space: (self.free_space - size) as usize,
            allocated: if p + size >= self.heap_size { a.push(info) } else { a.insert(count_le(a, p) as int, info) },
            ..self
        }
    }

    /// Handing out a block of `size` words is possible without a panic.
    pub open spec fn alloc_ok(self, size: u32) -> bool {
        &&& ordered(self.allocated)
        &&& last_end(self.allocated) <= usize::MAX
        &&& self.free_space >= size
        &&& self.ptr_offset + last_end(self.allocated) + size <= usize::MAX
    }

    /// The words after writing `vals` one after the other from the relative address `rel`.
    pub open spec fn stored(self, rel: int, vals: Seq<Value>) -> HeapModel
        decreases vals.len(),
    {
        if vals.len() == 0 {
            self
        } else {
            let h = self.stored(rel, vals.drop_last());
            HeapModel { mem: heap_written(h.mem, rel + vals.len() - 1, vals.last()), ..h }
        }
    }
}

/// Writing words changes only the heap's words.
pub proof fn lemma_stored_keeps(h: HeapModel, rel: int, vals: Seq<Value>)
    ensures
        h.stored(rel, vals) == (HeapModel { mem: h.stored(rel, vals).mem, ..h }),
    decreases vals.len(),
{
    if vals.len() > 0 {
        lemma_stored_keeps(h, rel, vals.drop_last());
    }
}

/// The model of a heap.
pub open spec fn heap_model(h: Heap) -> HeapModel {
    HeapModel { heap_size: h.heap_size, mem: h.mem@, ptr_offset: h.ptr_offset, free_space: h.free_space, allocated: h.allocated@ }
}

impl VmModel {
    /// The stack has `STACK_SIZE` words, its pointer and the frames start within
    /// it, and the heap starts where the stack ends.
    pub open spec fn wf(self) -> bool {
        &&& self.stack.len() == STACK_SIZE
        &&& self.pointer <= self.stack.len()
        &&& forall|i: int| 0 <= i < self.frames.len() ==> (#[trigger] self.frames[i]).start <= self.stack.len()
        &&& self.heap.ptr_offset == STACK_SIZE
    }

    /// The state after writing `v` at the pointer and moving the pointer up.
    pub open spec fn pushed(self, v: Value) -> VmModel {
        VmModel { pointer: (self.pointer + 1) as usize, stack: self.stack.update(self.pointer as int, v), ..self }
    }

    /// What pushing `v` returns: the stack is full when the pointer reaches its end.
    pub open spec fn push_result(self, v: Value) -> Result<(), RuntimeError> {
        if self.pointer + 1 >= self.stack.len() {
            Err(RuntimeError::StackOverflow)
        } else {
            Ok(())
        }
    }

    /// The state after moving the pointer down.
    pub open spec fn popped(self) -> VmModel {
        VmModel { pointer: (self.pointer - 1) as usize, ..self }
    }

    /// The word under the pointer.
    pub open spec fn top(self) -> Value {
        self.stack[self.pointer - 1]
    }

    /// The state with the stack changed.
    pub open spec fn with_stack(self, stack: Seq<Value>) -> VmModel {
        VmModel { stack, ..self }
    }

    /// The state at instruction `a`.
    pub open spec fn at(self, a: usize) -> VmModel {
        VmModel { insn_addr: a, ..self }
    }

    /// What jumping by `offset` makes of the state, and returns (see `goto`).
    pub open spec fn jumped(self, offset: i32) -> (VmModel, Result<(), RuntimeError>) {
        if offset < 0 && offset > self.insn_addr {
            (self, Err(RuntimeError::InstructionPtrUnderflow))
        } else if offset >= 0 && offset + self.insn_addr >= self.instructions.len() {
            (self, Err(RuntimeError::InstructionPtrOverflow))
        } else {
            (self.at((self.insn_addr + offset) as i64 as usize), Ok(()))
        }
    }

    /// The word at the absolute address `a`: a stack slot below `STACK_SIZE`, a heap
    /// word from there on.
    pub open spec fn word_at(self, a: int) -> Value {
        if a < STACK_SIZE {
            self.stack[a]
        } else {
            heap_word(self.heap.mem, a - self.heap.ptr_offset)
        }
    }

    /// The state after writing `v` at the absolute address `a`.
    pub open spec fn written(self, a: int, v: Value) -> VmModel {
        if a < STACK_SIZE {
            self.with_stack(self.stack.update(a, v))
        } else {
            VmModel { heap: HeapModel { mem: heap_written(self.heap.mem, a - self.heap.ptr_offset, v), ..self.heap }, ..self }
        }
    }

    /// Where a block of `size` words goes (see `Heap::allocate`), and what the
    /// allocation returns.
    pub open spec fn alloc_result(self, size: u32) -> Result<u32, RuntimeError> {
        self.heap.alloc_result(size)
    }

    /// The heap after handing out a block of `size` words.
    pub open spec fn alloc_heap(self, size: u32) -> HeapModel {
        self.heap.alloc_heap(size)
    }

    /// Handing out a block of `size` words is possible without a panic.
    pub open spec fn alloc_ok(self, size: u32) -> bool {
        self.heap.alloc_ok(size)
    }

    /// What allocating `size` words and pushing a reference to them makes of the
    /// state, and returns.
    pub open spec fn heap_alloc_outcome(self, size: u32) -> (VmModel, Result<(), RuntimeError>) {
        let m = VmModel { heap: self.alloc_heap(size), ..self };
        match self.alloc_result(size) {
            Ok(p) => {
                let v = Value::RefValue { ptr: p, len: size };
                (m.pushed(v), m.push_result(v))
            },
            Err(e) => (m, Err(e)),
        }
    }

    /// What pushing the word at `offset` past the reference on top makes of the
    /// state, and returns (see `load_offset_local`).
    pub open spec fn load_offset_outcome(self, offset: u32) -> (VmModel, Result<(), RuntimeError>) {
        if self.pointer == 0 {
            (self, Err(RuntimeError::StackUnderflow("Attempting to pop")))
        } else {
            let m = self.popped();
            match self.top() {
                Value::RefValue { ptr, len } => if len < offset {
                    (m, Err(RuntimeError::OffsetOutOfBounds { len, offset }))
                } else {
                    let v = m.word_at(ptr + offset);
                    (m.pushed(v), m.push_result(v))
                },
                other => (m, Err(RuntimeError::TypeMismatch { expected: ValueTypeVariant::Address, got: other })),
            }
        }
    }

    /// `load_offset_local` can run without a panic: an address it reads is a stack
    /// slot or fits in 32 bits.
    pub open spec fn load_offset_ok(self, offset: u32) -> bool {
        self.pointer > 0 ==> match self.top() {
            Value::RefValue { ptr, len } => len >= offset ==> ptr + offset < STACK_SIZE || ptr + offset <= u32::MAX,
            _ => true,
        }
    }

    /// What writing the second word at `offset` past the reference on top makes of
    /// the state, and returns (see `store_offset_local`).
    pub open spec fn store_offset_outcome(self, offset: u32) -> (VmModel, Result<(), RuntimeError>) {
        if self.pointer == 0 {
            (self, Err(RuntimeError::StackUnderflow("Attempting to pop")))
        } else {
            let m = self.popped();
            match self.top() {
                Value::RefValue { ptr, len } => if ptr == 0 {
                    (m, Err(RuntimeError::NullPtrDeref))
                } else if len < offset {
                    (m, Err(RuntimeError::OffsetOutOfBounds { len, offset }))
                } else if m.pointer == 0 {
                    (m, Err(RuntimeError::StackUnderflow("Attempting to pop")))
                } else {
                    (m.popped().written(ptr + offset, m.top()), Ok(()))
                },
                other => (m, Err(RuntimeError::TypeMismatch { expected: ValueTypeVariant::Address, got: other })),
            }
        }
    }

    /// What pushing the words `vals` in order makes of the state, and returns: the
    /// pushes stop at the first that fills the stack.
    pub open spec fn push_all(self, vals: Seq<Value>) -> (VmModel, Result<(), RuntimeError>)
        decreases vals.len(),
    {
        if vals.len() == 0 {
            (self, Ok(()))
        } else if self.push_result(vals[0]) is Err {
            (self.pushed(vals[0]), Err(RuntimeError::StackOverflow))
        } else {
            self.pushed(vals[0]).push_all(vals.drop_first())
        }
    }

    /// What calling function `fn_index` makes of the state, and returns: the return
    /// address is recorded, the arguments are popped, the function's first
    /// instruction must open its frame, and the arguments are pushed into the frame.
    pub open spec fn call_outcome(self, fn_index: u16) -> (VmModel, Result<(), RuntimeError>) {
        let info = self.functions[fn_index as int];
        let n = info.params_len as int;
        let m1 = VmModel { call_stack: self.call_stack.push(self.insn_addr), ..self };
        if m1.pointer < n {
            (VmModel { pointer: 0, ..m1 }, Err(RuntimeError::StackUnderflow("Attempting to pop")))
        } else {
            let vals = m1.stack.subrange(m1.pointer - n, m1.pointer as int);
            let m2 = VmModel { pointer: (m1.pointer - n) as usize, insn_addr: info.start as usize, ..m1 };
            match m2.instructions[info.start as int] {
                ByteCode::StackFrame(size) => {
                    let m3 = VmModel {
                        frames: m2.frames.push(StackFrame { start: m2.pointer, len: size as usize }),
                        pointer: (m2.pointer + size) as usize,
                        ..m2
                    };
                    m3.push_all(vals)
                },
                other => (m2, Err(RuntimeError::StackFrameExpected(other))),
            }
        }
    }

    /// What popping two words and pushing whether they compare equal (1) or not (0)
    /// makes of the state, and returns; with `negate`, whether they differ.
    pub open spec fn compare_outcome(self, negate: bool) -> (VmModel, Result<(), RuntimeError>) {
        if self.pointer == 0 {
            (self, Err(RuntimeError::StackUnderflow("Attempting to pop")))
        } else if self.pointer == 1 {
            (self.popped(), Err(RuntimeError::StackUnderflow("Attempting to pop")))
        } else {
            let b = self.top();
            let a = self.popped().top();
            let m = self.popped().popped();
            let same = values_eq(m, a, b, Set::empty()).0;
            let v = Value::IntValue(if same != negate { 1 } else { 0 });
            (m.pushed(v), m.push_result(v))
        }
    }

    /// What returning `size` words from the current call makes of the state, and
    /// returns; `None` where it would panic. The returned words, with references
    /// into the returning frame moved to the heap, replace the frame, and execution
    /// goes back to the recorded return address.
    pub open spec fn ret_outcome(self, size: u32) -> Option<(VmModel, Result<(), RuntimeError>)> {
        if self.frames.len() == 0 {
            Some((self, Err(RuntimeError::StackFrameMissing)))
        } else if self.pointer < size {
            None
        } else {
            let new_ptr = self.frames.last().start as u32;
            match ret_values(self.stack, self.heap, self.pointer - size, self.pointer as int, new_ptr, Map::empty(), Seq::empty()) {
                None => None,
                Some(r) => {
                    let m1 = VmModel { heap: r.1, ..self };
                    match r.0 {
                        Err(e) => Some((m1, Err(e))),
                        Ok(vals) => {
                            let m2 = VmModel { frames: m1.frames.drop_last(), pointer: m1.frames.last().start, ..m1 };
                            if vals.len() > 0 && m2.pointer >= m2.stack.len() {
                                None
                            } else {
                                let pushed = m2.push_all(vals);
                                if pushed.1 is Err {
                                    Some(pushed)
                                } else if pushed.0.call_stack.len() == 0 {
                                    Some((pushed.0, Err(RuntimeError::EmptyCallstack)))
                                } else {
                                    Some((
                                        VmModel {
                                            call_stack: pushed.0.call_stack.drop_last(),
                                            insn_addr: pushed.0.call_stack.last(),
                                            ..pushed.0
                                        },
                                        Ok(()),
                                    ))
                                }
                            }
                        },
                    }
                },
            }
        }
    }

    /// `call` can run without a panic: the function exists, its first instruction
    /// exists where the arguments are there, and the frame leaves room for them.
    pub open spec fn call_ok(self, fn_index: u16) -> bool {
        let info = self.functions[fn_index as int];
        let n = info.params_len as int;
        &&& fn_index < self.functions.len()
        &&& self.pointer <= self.stack.len()
        &&& n <= self.pointer ==> info.start < self.instructions.len() && match self.instructions[info.start as int] {
            ByteCode::StackFrame(size) => n > 0 ==> self.pointer - n + size < self.stack.len(),
            _ => true,
        }
    }

    /// `store_offset_local` can run without a panic: an address it writes is a stack
    /// slot or fits in 32 bits.
    pub open spec fn store_offset_ok(self, offset: u32) -> bool {
        self.pointer > 0 ==> match self.top() {
            Value::RefValue { ptr, len } => ptr != 0 && len >= offset ==> ptr + offset < STACK_SIZE || ptr + offset <= u32::MAX,
            _ => true,
        }
    }
}

/// One more than the largest number of pairs a visited set can hold.
pub open spec fn visit_bound() -> int {
    0x1_0000_0000_0000_0000
}

/// Whether two floats, given by their bit patterns, are equal: neither is NaN, and
/// they are the same float, the two zeros counting as one.
pub open spec fn floats_equal(b1: u32, b2: u32) -> bool {
    let m1 = b1 % 0x8000_0000;
    let m2 = b2 % 0x8000_0000;
    m1 <= 0x7f80_0000 && m2 <= 0x7f80_0000 && (b1 == b2 || (m1 == 0 && m2 == 0))
}

/// The key under which the pair of addresses `(p1, p2)` is recorded as visited.
pub open spec fn pair_key(p1: u32, p2: u32) -> u64 {
    (p1 * 0x1_0000_0000 + p2) as u64
}

/// Whether `v` is a reference to a single word.
pub open spec fn single_ref(v: Value) -> bool {
    v matches Value::RefValue { len, .. } && len == 1
}

/// How many of `a`, `b` are references to a single word.
pub open spec fn single_refs(a: Value, b: Value) -> nat {
    (if single_ref(a) { 1nat } else { 0nat }) + (if single_ref(b) { 1nat } else { 0nat })
}

/// A reference fits in 32-bit addresses: every word of it has an address below 2^32.
pub open spec fn ref_fits(v: Value) -> bool {
    v matches Value::RefValue { ptr, len } ==> ptr + len <= 0x1_0000_0000
}

/// What following references to single words from `v` leads to: the first value
/// that is no such reference, or `None` when an address comes back (a cycle).
pub open spec fn deref_chain(m: VmModel, v: Value, seen: Set<u32>) -> Option<Value>
    decreases visit_bound() - seen.len(),
{
    match v {
        Value::RefValue { ptr, len } => if len != 1 {
            Some(v)
        } else if seen.contains(ptr) || !(seen.finite() && seen.len() + 1 < visit_bound()) {
            None
        } else {
            deref_chain(m, m.word_at(ptr as int), seen.insert(ptr))
        },
        _ => Some(v),
    }
}

/// What comparing `a` with `b` gives, and the visited pairs after it: equal nulls,
/// integers, and floats (as floats compare); references of the same length that
/// are the same address, were visited already, or whose words compare equal pair by
/// pair (the pair is recorded as visited first); failing that, a reference to a
/// single word is compared by what it leads to.
pub open spec fn values_eq(m: VmModel, a: Value, b: Value, vis: Set<u64>) -> (bool, Set<u64>)
    decreases visit_bound() - vis.len(), single_refs(a, b), 1nat,
{
    if !(vis.finite() && vis.len() < visit_bound()) {
        (false, vis)
    } else {
        let first = direct_eq(m, a, b, vis);
        if first.0 {
            first
        } else if !(vis.subset_of(first.1) && first.1.finite() && first.1.len() < visit_bound()) {
            (false, first.1)
        } else if single_ref(a) {
            match deref_chain(m, a, Set::empty()) {
                Some(d) => {
                    proof {
                        lemma_deref_chain_ends(m, a, Set::empty());
                        vstd::set_lib::lemma_len_subset(vis, first.1);
                    }
                    values_eq(m, d, b, first.1)
                },
                None => (false, first.1),
            }
        } else if single_ref(b) {
            match deref_chain(m, b, Set::empty()) {
                Some(d) => {
                    proof {
                        lemma_deref_chain_ends(m, b, Set::empty());
                        vstd::set_lib::lemma_len_subset(vis, first.1);
                    }
                    values_eq(m, a, d, first.1)
                },
                None => (false, first.1),
            }
        } else {
            (false, first.1)
        }
    }
}

/// The comparison of `a` with `b` before references to single words are followed
/// (see `values_eq`), and the visited pairs after it.
pub open spec fn direct_eq(m: VmModel, a: Value, b: Value, vis: Set<u64>) -> (bool, Set<u64>)
    decreases visit_bound() - vis.len(), single_refs(a, b), 0nat,
{
    if !(vis.finite() && vis.len() < visit_bound()) {
        (false, vis)
    } else {
        match (a, b) {
            (Value::Null, Value::Null) => (true, vis),
            (Value::IntValue(i1), Value::IntValue(i2)) => (i1 == i2, vis),
            (Value::FloatValue(f1), Value::FloatValue(f2)) => (floats_equal(f1, f2), vis),
            (Value::RefValue { ptr: p1, len: l1 }, Value::RefValue { ptr: p2, len: l2 }) => if l1 != l2 {
                (false, vis)
            } else if vis.contains(pair_key(p1, p2)) {
                (true, vis)
            } else if p1 == p2 {
                (true, vis)
            } else {
                let floor = vis.insert(pair_key(p1, p2));
                elems_eq(m, p1, p2, l1, 0, floor, floor)
            },
            _ => (false, vis),
        }
    }
}

/// Comparing the words `i..len` past `p1` with those past `p2`, pair by pair, from
/// the visited set `cur`; it stops at the first pair that differs.
pub open spec fn elems_eq(m: VmModel, p1: u32, p2: u32, len: u32, i: u32, cur: Set<u64>, floor: Set<u64>) -> (bool, Set<u64>)
    decreases visit_bound() - floor.len(), 3nat, len - i,
{
    if !(floor.finite() && floor.len() <= visit_bound()) {
        (false, cur)
    } else if i >= len {
        (true, cur)
    } else if !(floor.subset_of(cur) && cur.finite() && cur.len() < visit_bound()) {
        (false, cur)
    } else {
        proof {
            vstd::set_lib::lemma_len_subset(floor, cur);
        }
        let r = values_eq(m, m.word_at(i + p1), m.word_at(i + p2), cur);
        if !r.0 {
            (false, r.1)
        } else {
            elems_eq(m, p1, p2, len, (i + 1) as u32, r.1, floor)
        }
    }
}

/// Following references never ends at a reference to a single word.
pub proof fn lemma_deref_chain_ends(m: VmModel, v: Value, seen: Set<u32>)
    requires
        seen.finite(),
        seen.len() < visit_bound(),
    ensures
        deref_chain(m, v, seen) matches Some(d) ==> !single_ref(d),
    decreases visit_bound() - seen.len(),
{
    if let Value::RefValue { ptr, len } = v {
        if len == 1 && !seen.contains(ptr) && seen.len() + 1 < visit_bound() {
            lemma_deref_chain_ends(m, m.word_at(ptr as int), seen.insert(ptr));
        }
    }
}

/// What moving the stack block of `len` words at `ptr` to the heap gives (see
/// `Interpreter::promote_ref`): the reference to use in its place, the heap and the
/// blocks moved so far (by stack address) after it; `None` where it would panic.
/// A block outside the stack stays; a block already moved is referred to where it
/// went; otherwise a heap block is allocated, recorded, filled with the block's
/// words (each reference into the returning frame moved in turn), and referred to.
pub open spec fn promote(
    stack: Seq<Value>,
    h: HeapModel,
    ptr: u32,
    len: u32,
    new_ptr: u32,
    promoted: Map<u32, u32>,
) -> Option<(Result<Value, RuntimeError>, HeapModel, Map<u32, u32>)>
    decreases visit_bound() - promoted.dom().len(), 1nat, 0nat,
{
    if ptr >= STACK_SIZE {
        Some((Ok(Value::RefValue { ptr, len }), h, promoted))
    } else if promoted.contains_key(ptr) {
        Some((Ok(Value::RefValue { ptr: promoted[ptr], len }), h, promoted))
    } else if !(promoted.dom().finite() && promoted.dom().len() + 1 < visit_bound() && h.alloc_ok(len) && ptr + len
        <= stack.len() && ptr + len <= u32::MAX && h.ptr_offset + placement(h.allocated, len as int) + len <= u32::MAX) {
        None
    } else {
        match h.alloc_result(len) {
            Err(e) => Some((Err(e), h.alloc_heap(len), promoted)),
            Ok(pp) => {
                let p1 = promoted.insert(ptr, pp);
                match promote_elems(stack, h.alloc_heap(len), ptr, len, 0, new_ptr, p1, p1, Seq::empty()) {
                    None => None,
                    Some(r) => match r.0 {
                        Err(e) => Some((Err(e), r.1, r.2)),
                        Ok(vals) => Some((Ok(Value::RefValue { ptr: pp, len }), r.1.stored(pp - r.1.ptr_offset, vals), r.2)),
                    },
                }
            },
        }
    }
}

/// The words `i..len` of the stack block at `ptr` after `acc`, each reference into
/// the returning frame moved (see `promote`), with the heap and the moved blocks
/// after them; `None` where it would panic.
pub open spec fn promote_elems(
    stack: Seq<Value>,
    h: HeapModel,
    ptr: u32,
    len: u32,
    i: u32,
    new_ptr: u32,
    cur: Map<u32, u32>,
    floor: Map<u32, u32>,
    acc: Seq<Value>,
) -> Option<(Result<Seq<Value>, RuntimeError>, HeapModel, Map<u32, u32>)>
    decreases visit_bound() - floor.dom().len(), 2nat, len - i,
{
    if !(floor.dom().finite() && floor.dom().len() <= visit_bound()) {
        None
    } else if i >= len {
        Some((Ok(acc), h, cur))
    } else if !(floor.dom().subset_of(cur.dom()) && cur.dom().finite() && cur.dom().len() < visit_bound()) {
        None
    } else {
        proof {
            vstd::set_lib::lemma_len_subset(floor.dom(), cur.dom());
        }
        let v = stack[ptr + i];
        if v is RefValue && v->RefValue_ptr >= new_ptr {
            match promote(stack, h, v->RefValue_ptr, v->RefValue_len, new_ptr, cur) {
                None => None,
                Some(r) => match r.0 {
                    Err(e) => Some((Err(e), r.1, r.2)),
                    Ok(w) => promote_elems(stack, r.1, ptr, len, (i + 1) as u32, new_ptr, r.2, floor, acc.push(w)),
                },
            }
        } else {
            promote_elems(stack, h, ptr, len, (i + 1) as u32, new_ptr, cur, floor, acc.push(v))
        }
    }
}

/// The returned words `k..end` of the stack after `acc`, each reference into the
/// returning frame (from `new_ptr` on) moved to the heap (see `promote`), with the
/// heap and the moved blocks after them; `None` where it would panic.
pub open spec fn ret_values(
    stack: Seq<Value>,
    h: HeapModel,
    k: int,
    end: int,
    new_ptr: u32,
    promoted: Map<u32, u32>,
    acc: Seq<Value>,
) -> Option<(Result<Seq<Value>, RuntimeError>, HeapModel, Map<u32, u32>)>
    decreases end - k,
{
    if k >= end {
        Some((Ok(acc), h, promoted))
    } else if k < 0 || end > stack.len() {
        None
    } else {
        let v = stack[k];
        if v is RefValue && v->RefValue_ptr >= new_ptr {
            let ptr = v->RefValue_ptr;
            let len = v->RefValue_len;
            if promoted.contains_key(ptr) {
                ret_values(stack, h, k + 1, end, new_ptr, promoted, acc.push(Value::RefValue { ptr: promoted[ptr], len }))
            } else {
                match promote(stack, h, ptr, len, new_ptr, promoted) {
                    None => None,
                    Some(r) => match r.0 {
                        Err(e) => Some((Err(e), r.1, r.2)),
                        Ok(w) => ret_values(stack, r.1, k + 1, end, new_ptr, r.2, acc.push(w)),
                    },
                }
            }
        } else {
            ret_values(stack, h, k + 1, end, new_ptr, promoted, acc.push(v))
        }
    }
}

/// Every reference on the stack and on the heap fits in 32-bit addresses.
pub open spec fn refs_fit(m: VmModel) -> bool {
    &&& forall|i: int| 0 <= i < m.stack.len() ==> ref_fits(#[trigger] m.stack[i])
    &&& forall|i: int| 0 <= i < m.heap.mem.len() ==> ref_fits(#[trigger] m.heap.mem[i])
}

/// Where every reference fits, so does every word read, and what a chain of
/// references leads to.
pub proof fn lemma_deref_chain_fits(m: VmModel, v: Value, seen: Set<u32>)
    requires
        m.wf(),
        refs_fit(m),
        ref_fits(v),
    ensures
        deref_chain(m, v, seen) matches Some(d) ==> ref_fits(d),
    decreases visit_bound() - seen.len(),
{
    if let Value::RefValue { ptr, len } = v {
        if len == 1 && !seen.contains(ptr) && seen.finite() && seen.len() + 1 < visit_bound() {
            lemma_word_fits(m, ptr as int);
            lemma_deref_chain_fits(m, m.word_at(ptr as int), seen.insert(ptr));
        }
    }
}

/// Where every reference fits, so does every word read.
pub proof fn lemma_word_fits(m: VmModel, a: int)
    requires
        m.wf(),
        refs_fit(m),
        0 <= a,
    ensures
        ref_fits(m.word_at(a)),
{
    if a < STACK_SIZE {
        assert(ref_fits(m.stack[a]));
    } else {
        let p = a - m.heap.ptr_offset;
        if 0 <= p < m.heap.mem.len() {
            assert(ref_fits(m.heap.mem[p]));
        }
    }
}

impl View for Interpreter {
    type V = VmModel;

    closed spec fn view(&self) -> VmModel {
        VmModel {
            instructions: self.instructions@,
            lines: self.line_maps@,
            functions: self.functions@,
            insn_addr: self.insn_addr,
            pointer: self.pointer,
            stack: self.stack@,
            frames: self.stack_frames@,
            call_stack: self.call_stack@,
            heap: heap_model(self.heap),
        }
    }
}

/// The function with number `k` in a function table built from `infos`: one of
/// those numbered `k`, or an empty entry if there is none.
pub open spec fn table_entry_ok(infos: Set<FunctionInfo>, k: int, f: FunctionInfo) -> bool {
    if exists|x: FunctionInfo| infos.contains(x) && x.index == k {
        infos.contains(f) && f.index == k
    } else {
        f == (FunctionInfo { index: 0, start: 0, end: 0, params_len: 0 })
    }
}

/// std's `HashMap::values`, each value copied out, in the map's order, which std
/// leaves unspecified. The contract states that the copies are the map's values, one
/// for each key.
#[verifier::external_body]
fn function_infos(m: &HashMap<String, FunctionInfo>) -> (v: Vec<FunctionInfo>)
    ensures
        v@.len() == m@.len(),
        forall|i: int| 0 <= i < v@.len() ==> m@.values().contains(#[trigger] v@[i]),
        forall|x: FunctionInfo| m@.values().contains(x) ==> v@.contains(x),
{
    m.values().copied().collect()
}

/// An empty function-table entry.
fn no_function() -> (f: FunctionInfo)
    ensures
        f == (FunctionInfo { index: 0, start: 0, end: 0, params_len: 0 }),
{
    FunctionInfo { index: 0, start: 0, end: 0, params_len: 0 }
}

impl Interpreter {
    /// The machine is ready: the stack has `STACK_SIZE` words, its pointer and the
    /// frames start within it, and the heap starts where the stack ends.
    pub open spec fn wf(&self) -> bool {
        self@.wf()
    }

    /// A machine for `compilation_result`, before any call: instruction 0, an empty
    /// stack of `STACK_SIZE` null words whose pointer is 1 (address 0 stands for
    /// null), no frames, and a heap from `STACK_SIZE` on. Each function is placed in
    /// the table at its number; every number must be below the number of functions.
    pub fn new(compilation_result: CompilationResult) -> (r: Self)
        requires
            forall|x: FunctionInfo| compilation_result.functions@.values().contains(x) ==> x.index < compilation_result.functions@.len(),
        ensures
            r.wf(),
            r@.instructions == compilation_result.instructions@,
            r@.lines == compilation_result.lines@,
            r@.functions.len() == compilation_result.functions@.len(),
            forall|k: int| 0 <= k < r@.functions.len() ==> table_entry_ok(compilation_result.functions@.values(), k, #[trigger] r@.functions[k]),
            r@.insn_addr == 0,
            r@.pointer == 1,
            r@.stack == Seq::new(STACK_SIZE as nat, |i: int| Value::Null),
            r@.frames.len() == 0,
            r@.call_stack.len() == 0,
            r@.heap == (HeapModel {
                heap_size: DEFAULT_HEAP_SIZE,
                mem: Seq::empty(),
                ptr_offset: STACK_SIZE,
                free_space: DEFAULT_HEAP_SIZE,
                allocated: Seq::empty(),
            }),
    {
        let ghost infos = compilation_result.functions@.values();
        let list = function_infos(&compilation_result.functions);
        let n = list.len();
        let mut functions: Vec<FunctionInfo> = Vec::new();
        let mut i: usize = 0;
        while i < n
            invariant
                i <= n,
                functions@.len() == i,
                forall|k: int| 0 <= k < i ==> functions@[k] == (FunctionInfo { index: 0, start: 0, end: 0, params_len: 0 }),
            decreases n - i,
        {
            functions.push(no_function());
            i += 1;
        }
        let mut j: usize = 0;
        while j < n
            invariant
                j <= n,
                n == list@.len(),
                n == compilation_result.functions@.len(),
                functions@.len() == n,
                infos == compilation_result.functions@.values(),
                forall|x: FunctionInfo| infos.contains(x) ==> x.index < n,
                forall|i: int| 0 <= i < list@.len() ==> infos.contains(#[trigger] list@[i]),
                forall|x: FunctionInfo| infos.contains(x) ==> list@.contains(x),
                forall|k: int|
                    0 <= k < n ==> {
                        let f = #[trigger] functions@[k];
                        if exists|l: int| 0 <= l < j && list@[l].index == k {
                            infos.contains(f) && f.index == k
                        } else {
                            f == (FunctionInfo { index: 0, start: 0, end: 0, params_len: 0 })
                        }
                    },
            decreases n - j,
        {
            let f = list[j];
            assert(infos.contains(list@[j as int]));
            let ghost before = functions@;
            functions.set(f.index as usize, f);
            proof {
                assert forall|k: int| 0 <= k < n implies {
                    let g = #[trigger] functions@[k];
                    if exists|l: int| 0 <= l < j + 1 && list@[l].index == k {
                        infos.contains(g) && g.index == k
                    } else {
                        g == (FunctionInfo { index: 0, start: 0, end: 0, params_len: 0 })
                    }
                } by {
                    if k == f.index {
                        assert(list@[j as int].index == k);
                    } else {
                        assert(functions@[k] == before[k]);
                        if exists|l: int| 0 <= l < j + 1 && list@[l].index == k {
                            let l = choose|l: int| 0 <= l < j + 1 && list@[l].index == k;
                            assert(l < j);
                        }
                    }
                }
            }
            j += 1;
        }
        proof {
            assert forall|k: int| 0 <= k < functions@.len() implies table_entry_ok(infos, k, #[trigger] functions@[k]) by {
                if exists|x: FunctionInfo| infos.contains(x) && x.index == k {
                    let x = choose|x: FunctionInfo| infos.contains(x) && x.index == k;
                    let l = choose|l: int| 0 <= l < list@.len() && list@[l] == x;
                    assert(list@[l].index == k);
                } else {
                    if exists|l: int| 0 <= l < n && list@[l].index == k {
                        let l = choose|l: int| 0 <= l < n && list@[l].index == k;
                        assert(infos.contains(list@[l]));
                    }
                }
            }
        }
        let mut stack: Vec<Value> = Vec::new();
        let mut s: usize = 0;
        while s < STACK_SIZE
            invariant
                s <= STACK_SIZE,
                stack@.len() == s,
                forall|k: int| 0 <= k < s ==> stack@[k] == Value::Null,
            decreases STACK_SIZE - s,
        {
            stack.push(Value::Null);
            s += 1;
        }
        assert(stack@ == Seq::new(STACK_SIZE as nat, |i: int| Value::Null));
        let heap = Heap::new(STACK_SIZE, DEFAULT_HEAP_SIZE);
        assert(heap.mem@ =~= Seq::<Value>::empty());
        assert(heap.allocated@ =~= Seq::<AllocInfo>::empty());
        Interpreter {
            instructions: compilation_result.instructions,
            line_maps: compilation_result.lines,
            functions,
            insn_addr: 0,
            pointer: 1,
            stack,
            stack_frames: Vec::new(),
            call_stack: Vec::new(),
            heap,
        }
    }

    /// The number of the first free stack slot.
    pub fn stack_top(&self) -> (r: u32)
        ensures
            r == self@.pointer as u32,
    {
        self.pointer as u32
    }

    /// Writes `value` at the pointer and moves the pointer up; the stack is full
    /// (`StackOverflow`) when the pointer then reaches its end.
    pub fn push(&mut self, value: Value) -> (r: Result<(), RuntimeError>)
        requires
            old(self)@.pointer < old(self)@.stack.len(),
        ensures
            final(self)@ == old(self)@.pushed(value),
            r == old(self)@.push_result(value),
    {
        let n = self.stack.len();
        self.stack.set(self.pointer, value);
        self.pointer += 1;
        if self.pointer >= self.stack.len() {
            return Err(RuntimeError::StackOverflow);
        }
        Ok(())
    }

    /// Moves the pointer down and gives the word it passed; `StackUnderflow` on an
    /// empty stack, which stays as it is.
    pub fn pop(&mut self) -> (r: Result<Value, RuntimeError>)
        requires
            old(self)@.pointer <= old(self)@.stack.len(),
        ensures
            old(self)@.pointer == 0 ==> r == Err::<Value, RuntimeError>(RuntimeError::StackUnderflow("Attempting to pop"))
                && final(self)@ == old(self)@,
            old(self)@.pointer > 0 ==> r == Ok::<Value, RuntimeError>(old(self)@.top()) && final(self)@ == old(self)@.popped(),
    {
        if self.pointer == 0 {
            return Err(RuntimeError::StackUnderflow("Attempting to pop"));
        }
        self.pointer -= 1;
        Ok(self.stack[self.pointer])
    }

    /// The word under the pointer; `StackUnderflow` on an empty stack.
    pub fn peek(&mut self) -> (r: Result<Value, RuntimeError>)
        requires
            old(self)@.pointer <= old(self)@.stack.len(),
        ensures
            final(self)@ == old(self)@,
            old(self)@.pointer == 0 ==> r == Err::<Value, RuntimeError>(RuntimeError::StackUnderflow("Attempting to pop")),
            old(self)@.pointer > 0 ==> r == Ok::<Value, RuntimeError>(old(self)@.top()),
    {
        if self.pointer == 0 {
            return Err(RuntimeError::StackUnderflow("Attempting to pop"));
        }
        Ok(self.stack[self.pointer - 1])
    }

    /// Pushes the integer `value`.
    pub fn push_int(&mut self, value: i32) -> (r: Result<(), RuntimeError>)
        requires
            old(self)@.pointer < old(self)@.stack.len(),
        ensures
            final(self)@ == old(self)@.pushed(Value::IntValue(value)),
            r == old(self)@.push_result(Value::IntValue(value)),
    {
        self.push(Value::IntValue(value))?;
        Ok(())
    }

    /// Pushes the float whose bit pattern is `value`.
    pub fn push_float(&mut self, value: u32) -> (r: Result<(), RuntimeError>)
        requires
            old(self)@.pointer < old(self)@.stack.len(),
        ensures
            final(self)@ == old(self)@.pushed(Value::FloatValue(value)),
            r == old(self)@.push_result(Value::FloatValue(value)),
    {
        self.push(Value::FloatValue(value))?;
        Ok(())
    }

    /// Opens a frame of `size` slots at the pointer, and moves the pointer past it.
    pub fn push_stack_frame(&mut self, size: u16)
        requires
            old(self)@.pointer + size <= usize::MAX,
        ensures
            final(self)@ == (VmModel {
                frames: old(self)@.frames.push(StackFrame { start: old(self)@.pointer, len: size as usize }),
                pointer: (old(self)@.pointer + size) as usize,
                ..old(self)@
            }),
    {
        self.stack_frames.push(StackFrame { start: self.pointer, len: size as usize });
        self.pointer += size as usize;
    }

    /// Closes the last frame and moves the pointer back to its start;
    /// `StackFrameMissing` when there is none.
    pub fn pop_stack_frame(&mut self) -> (r: Result<(), RuntimeError>)
        ensures
            old(self)@.frames.len() == 0 ==> r == Err::<(), RuntimeError>(RuntimeError::StackFrameMissing)
                && final(self)@ == old(self)@,
            old(self)@.frames.len() > 0 ==> r == Ok::<(), RuntimeError>(()) && final(self)@ == (VmModel {
                frames: old(self)@.frames.drop_last(),
                pointer: old(self)@.frames.last().start,
                ..old(self)@
            }),
    {
        let frame = self.stack_frames.pop();
        match frame {
            Some(value) => {
                self.pointer = value.start;
                Ok(())
            },
            None => Err(RuntimeError::StackFrameMissing),
        }
    }

    /// The first slot of the last frame; `StackFrameMissing` when there is none.
    pub fn get_stack_frame_start(&self) -> (r: Result<usize, RuntimeError>)
        ensures
            r == if self@.frames.len() == 0 {
                Err::<usize, RuntimeError>(RuntimeError::StackFrameMissing)
            } else {
                Ok(self@.frames.last().start)
            },
    {
        match self.stack_frames.last() {
            Some(ind) => Ok(ind.start),
            None => Err(RuntimeError::StackFrameMissing),
        }
    }

    /// The number of slots of the last frame; `StackFrameMissing` when there is none.
    pub fn get_stack_frame_size(&self) -> (r: Result<usize, RuntimeError>)
        ensures
            r == if self@.frames.len() == 0 {
                Err::<usize, RuntimeError>(RuntimeError::StackFrameMissing)
            } else {
                Ok(self@.frames.last().len)
            },
    {
        match self.stack_frames.last() {
            Some(ind) => Ok(ind.len),
            None => Err(RuntimeError::StackFrameMissing),
        }
    }


    /// Pops the top word into slot `index` of the last frame.
    pub fn store_local(&mut self, index: u16) -> (r: Result<(), RuntimeError>)
        requires
            old(self)@.pointer <= old(self)@.stack.len(),
            old(self)@.pointer > 0 && old(self)@.frames.len() > 0 ==> old(self)@.frames.last().start + index
                < old(self)@.stack.len(),
        ensures
            ({
                let m = old(self)@;
                if m.pointer == 0 {
                    r == Err::<(), RuntimeError>(RuntimeError::StackUnderflow("Attempting to pop")) && final(self)@ == m
                } else if m.frames.len() == 0 {
                    r == Err::<(), RuntimeError>(RuntimeError::StackFrameMissing) && final(self)@ == m.popped()
                } else {
                    r == Ok::<(), RuntimeError>(()) && final(self)@ == m.popped().with_stack(
                        m.stack.update(m.frames.last().start + index, m.top()),
                    )
                }
            }),
    {
        let n = self.stack.len();
        let top = self.pop()?;
        let absolute_index = self.get_stack_frame_start()? + (index as usize);
        self.stack.set(absolute_index, top);
        Ok(())
    }

    /// Pushes the word in slot `index` of the last frame.
    pub fn load_local(&mut self, index: u16) -> (r: Result<(), RuntimeError>)
        requires
            old(self)@.pointer < old(self)@.stack.len(),
            old(self)@.frames.len() > 0 ==> old(self)@.frames.last().start + index < old(self)@.stack.len(),
        ensures
            ({
                let m = old(self)@;
                if m.frames.len() == 0 {
                    r == Err::<(), RuntimeError>(RuntimeError::StackFrameMissing) && final(self)@ == m
                } else {
                    let v = m.stack[m.frames.last().start + index];
                    r == m.push_result(v) && final(self)@ == m.pushed(v)
                }
            }),
    {
        let n = self.stack.len();
        let absolute_index = self.get_stack_frame_start()? + (index as usize);
        let value = self.stack[absolute_index];
        self.push(value)?;
        Ok(())
    }

    /// Pushes a reference to `size` words from slot `offset` of the last frame; the
    /// address is kept in 32 bits.
    pub fn create_stack_ptr(&mut self, offset: u16, size: u16) -> (r: Result<(), RuntimeError>)
        requires
            old(self)@.pointer < old(self)@.stack.len(),
            old(self)@.frames.len() > 0 ==> old(self)@.frames.last().start + offset <= usize::MAX,
        ensures
            ({
                let m = old(self)@;
                if m.frames.len() == 0 {
                    r == Err::<(), RuntimeError>(RuntimeError::StackFrameMissing) && final(self)@ == m
                } else {
                    let v = Value::RefValue { ptr: (m.frames.last().start + offset) as u32, len: size as u32 };
                    r == m.push_result(v) && final(self)@ == m.pushed(v)
                }
            }),
    {
        let ptr = self.get_stack_frame_start()? + (offset as usize);
        self.push(Value::RefValue { ptr: ptr as u32, len: size as u32 })?;
        Ok(())
    }

    /// Pushes a copy of the top word.
    pub fn dup(&mut self) -> (r: Result<(), RuntimeError>)
        requires
            old(self)@.pointer < old(self)@.stack.len(),
        ensures
            ({
                let m = old(self)@;
                if m.pointer == 0 {
                    r == Err::<(), RuntimeError>(RuntimeError::StackUnderflow("Attempting to pop")) && final(self)@ == m
                } else {
                    r == m.push_result(m.top()) && final(self)@ == m.pushed(m.top())
                }
            }),
    {
        let last = self.peek()?;
        self.push(last)
    }

    /// Exchanges the two top words; `StackUnderflow` when the stack itself has fewer
    /// than two words.
    pub fn swap(&mut self) -> (r: Result<(), RuntimeError>)
        requires
            old(self)@.pointer <= old(self)@.stack.len(),
            old(self)@.stack.len() >= 2 ==> old(self)@.pointer >= 2,
        ensures
            ({
                let m = old(self)@;
                if m.stack.len() < 2 {
                    r == Err::<(), RuntimeError>(RuntimeError::StackUnderflow("Attempted to swap with small stack"))
                        && final(self)@ == m
                } else {
                    let p = m.pointer as int;
                    r == Ok::<(), RuntimeError>(()) && final(self)@ == m.with_stack(
                        m.stack.update(p - 2, m.stack[p - 1]).update(p - 1, m.stack[p - 2]),
                    )
                }
            }),
    {
        if self.stack.len() < 2 {
            return Err(RuntimeError::StackUnderflow("Attempted to swap with small stack"));
        }
        let a = self.stack[self.pointer - 2];
        let b = self.stack[self.pointer - 1];
        self.stack.set(self.pointer - 2, b);
        self.stack.set(self.pointer - 1, a);
        Ok(())
    }

    /// Replaces the integer on top by 1 if it is 0, and by 0 otherwise.
    pub fn bool_not(&mut self) -> (r: Result<(), RuntimeError>)
        requires
            old(self)@.pointer <= old(self)@.stack.len(),
        ensures
            ({
                let m = old(self)@;
                if m.pointer == 0 {
                    r == Err::<(), RuntimeError>(RuntimeError::StackUnderflow("Attempting to pop")) && final(self)@ == m
                } else {
                    match m.top() {
                        Value::IntValue(i) => {
                            let v = Value::IntValue(if i == 0 { 1 } else { 0 });
                            r == m.popped().push_result(v) && final(self)@ == m.popped().pushed(v)
                        },
                        other => r == Err::<(), RuntimeError>(RuntimeError::TypeMismatch { expected: ValueTypeVariant::Int, got: other })
                            && final(self)@ == m.popped(),
                    }
                }
            }),
    {
        let top = self.pop()?;
        if let Value::IntValue(i) = top {
            if i == 0 {
                self.push(Value::IntValue(1))?;
            } else {
                self.push(Value::IntValue(0))?;
            }
        } else {
            return Err(RuntimeError::TypeMismatch { expected: ValueTypeVariant::Int, got: top });
        }
        Ok(())
    }

    /// Replaces the integer on top by the float nearest to it.
    pub fn i2f(&mut self) -> (r: Result<(), RuntimeError>)
        requires
            old(self)@.pointer <= old(self)@.stack.len(),
        ensures
            ({
                let m = old(self)@;
                if m.pointer == 0 {
                    r == Err::<(), RuntimeError>(RuntimeError::StackUnderflow("Attempting to pop")) && final(self)@ == m
                } else {
                    match m.top() {
                        Value::IntValue(i) => {
                            let v = Value::FloatValue(f32_bits_of(i as int));
                            r == m.popped().push_result(v) && final(self)@ == m.popped().pushed(v)
                        },
                        other => r == Err::<(), RuntimeError>(RuntimeError::TypeMismatch { expected: ValueTypeVariant::Int, got: other })
                            && final(self)@ == m.popped(),
                    }
                }
            }),
    {
        let top = self.pop()?;
        if let Value::IntValue(i) = top {
            self.push(Value::FloatValue(f32_bits_of_int(i as i64)))?;
        } else {
            return Err(RuntimeError::TypeMismatch { expected: ValueTypeVariant::Int, got: top });
        }
        Ok(())
    }

    /// Moves the current instruction by `offset`. A forward jump must stay before
    /// the end of the program (`InstructionPtrOverflow`); a backward jump is refused
    /// (`InstructionPtrUnderflow`) only when the offset, compared as it is with the
    /// current instruction, exceeds it, which a negative offset never does.
    pub fn goto(&mut self, offset: i32) -> (r: Result<(), RuntimeError>)
        requires
            old(self)@.insn_addr <= i64::MAX - i32::MAX,
        ensures
            (final(self)@, r) == old(self)@.jumped(offset),
    {
        if offset < 0 {
            if (offset as i64) > (self.insn_addr as i64) {
                return Err(RuntimeError::InstructionPtrUnderflow);
            }
        } else {
            if (offset as usize) >= self.instructions.len() || self.insn_addr >= self.instructions.len() - (offset as usize) {
                return Err(RuntimeError::InstructionPtrOverflow);
            }
        }
        self.insn_addr = ((self.insn_addr as i64) + (offset as i64)) as usize;
        Ok(())
    }


    /// Whether the float with bit pattern `bits` equals zero (either sign).
    fn float_is_zero(bits: u32) -> (b: bool)
        ensures
            b == (bits == 0 || bits == 0x8000_0000),
    {
        bits == 0 || bits == 0x8000_0000
    }

    /// Pops a number and jumps by `offset` if it is zero.
    pub fn if_eq(&mut self, offset: i32) -> (r: Result<(), RuntimeError>)
        requires
            old(self)@.pointer <= old(self)@.stack.len(),
            old(self)@.insn_addr <= i64::MAX - i32::MAX,
        ensures
            ({
                let m = old(self)@;
                if m.pointer == 0 {
                    r == Err::<(), RuntimeError>(RuntimeError::StackUnderflow("Attempting to pop")) && final(self)@ == m
                } else {
                    match m.top() {
                        Value::IntValue(v) => if v == 0 {
                            (final(self)@, r) == m.popped().jumped(offset)
                        } else {
                            r == Ok::<(), RuntimeError>(()) && final(self)@ == m.popped()
                        },
                        Value::FloatValue(b) => if b == 0 || b == 0x8000_0000 {
                            (final(self)@, r) == m.popped().jumped(offset)
                        } else {
                            r == Ok::<(), RuntimeError>(()) && final(self)@ == m.popped()
                        },
                        other => r == Err::<(), RuntimeError>(RuntimeError::TypeMismatch { expected: ValueTypeVariant::Number, got: other })
                            && final(self)@ == m.popped(),
                    }
                }
            }),
    {
        let value = self.pop()?;
        let res = match value {
            Value::IntValue(v) => v == 0,
            Value::FloatValue(v) => Self::float_is_zero(v),
            _ => return Err(RuntimeError::TypeMismatch { expected: ValueTypeVariant::Number, got: value }),
        };
        if res {
            self.goto(offset)?;
        }
        Ok(())
    }

    /// Pops a number and jumps by `offset` if it is not zero.
    pub fn if_ne(&mut self, offset: i32) -> (r: Result<(), RuntimeError>)
        requires
            old(self)@.pointer <= old(self)@.stack.len(),
            old(self)@.insn_addr <= i64::MAX - i32::MAX,
        ensures
            ({
                let m = old(self)@;
                if m.pointer == 0 {
                    r == Err::<(), RuntimeError>(RuntimeError::StackUnderflow("Attempting to pop")) && final(self)@ == m
                } else {
                    match m.top() {
                        Value::IntValue(v) => if v != 0 {
                            (final(self)@, r) == m.popped().jumped(offset)
                        } else {
                            r == Ok::<(), RuntimeError>(()) && final(self)@ == m.popped()
                        },
                        Value::FloatValue(b) => if !(b == 0 || b == 0x8000_0000) {
                            (final(self)@, r) == m.popped().jumped(offset)
                        } else {
                            r == Ok::<(), RuntimeError>(()) && final(self)@ == m.popped()
                        },
                        other => r == Err::<(), RuntimeError>(RuntimeError::TypeMismatch { expected: ValueTypeVariant::Number, got: other })
                            && final(self)@ == m.popped(),
                    }
                }
            }),
    {
        let value = self.pop()?;
        let res = match value {
            Value::IntValue(v) => v == 0,
            Value::FloatValue(v) => Self::float_is_zero(v),
            _ => return Err(RuntimeError::TypeMismatch { expected: ValueTypeVariant::Number, got: value }),
        };
        if !res {
            self.goto(offset)?;
        }
        Ok(())
    }

    /// Hands out a heap block of `size` words and pushes a reference to it; the
    /// heap's `OutOfMemory` is returned as it is.
    pub fn heap_alloc(&mut self, size: u32) -> (r: Result<(), RuntimeError>)
        requires
            old(self)@.pointer < old(self)@.stack.len(),
            old(self)@.alloc_ok(size),
        ensures
            (final(self)@, r) == old(self)@.heap_alloc_outcome(size),
    {
        let ghost m = self@;
        let res = self.heap.allocate(size);
        proof {
            assert(heap_model(self.heap) == m.alloc_heap(size));
        }
        let ptr = res?;
        self.push(Value::RefValue { ptr, len: size })?;
        Ok(())
    }

    /// Pops a size and allocates that many words as `heap_alloc` does;
    /// `IllegalAllocSize` for a negative size.
    pub fn dyn_heap_alloc(&mut self) -> (r: Result<(), RuntimeError>)
        requires
            old(self)@.pointer <= old(self)@.stack.len(),
            old(self)@.pointer > 0 ==> match old(self)@.top() {
                Value::IntValue(v) => v >= 0 ==> old(self)@.alloc_ok(v as u32),
                _ => true,
            },
        ensures
            ({
                let m = old(self)@;
                if m.pointer == 0 {
                    r == Err::<(), RuntimeError>(RuntimeError::StackUnderflow("Attempting to pop")) && final(self)@ == m
                } else {
                    match m.top() {
                        Value::IntValue(v) => if v < 0 {
                            r == Err::<(), RuntimeError>(RuntimeError::IllegalAllocSize(v)) && final(self)@ == m.popped()
                        } else {
                            (final(self)@, r) == m.popped().heap_alloc_outcome(v as u32)
                        },
                        other => r == Err::<(), RuntimeError>(RuntimeError::TypeMismatch { expected: ValueTypeVariant::Int, got: other })
                            && final(self)@ == m.popped(),
                    }
                }
            }),
    {
        let top = self.pop()?;
        if let Value::IntValue(v) = top {
            if v < 0 {
                return Err(RuntimeError::IllegalAllocSize(v));
            }
            self.heap_alloc(v as u32)
        } else {
            Err(RuntimeError::TypeMismatch { expected: ValueTypeVariant::Int, got: top })
        }
    }

    /// The word at the absolute address `ptr`: a stack slot below `STACK_SIZE`, a
    /// heap word from there on.
    pub fn load_at_ptr(&self, ptr: usize) -> (v: Value)
        requires
            self.wf(),
            ptr < STACK_SIZE || ptr <= u32::MAX,
        ensures
            v == self@.word_at(ptr as int),
    {
        self._load_at_ptr(ptr)
    }

    /// The word at the absolute address `ptr` (see `load_at_ptr`).
    fn _load_at_ptr(&self, ptr: usize) -> (v: Value)
        requires
            self.wf(),
            ptr < STACK_SIZE || ptr <= u32::MAX,
        ensures
            v == self@.word_at(ptr as int),
    {
        if ptr < STACK_SIZE {
            self.stack[ptr]
        } else {
            self.heap.load(ptr as u32, 0)
        }
    }

    /// Writes `value` at the absolute address `ptr`.
    fn store_at_ptr(&mut self, ptr: usize, value: Value)
        requires
            old(self).wf(),
            ptr < STACK_SIZE || ptr <= u32::MAX,
        ensures
            final(self)@ == old(self)@.written(ptr as int, value),
    {
        if ptr < STACK_SIZE {
            self.stack.set(ptr, value);
        } else {
            self.heap.store(ptr as u32, 0, value);
        }
    }

    /// Pops a reference and pushes the word `offset` words past it;
    /// `OffsetOutOfBounds` past its length.
    pub fn load_offset_local(&mut self, offset: u32) -> (r: Result<(), RuntimeError>)
        requires
            old(self).wf(),
            old(self)@.load_offset_ok(offset),
        ensures
            (final(self)@, r) == old(self)@.load_offset_outcome(offset),
    {
        let top = self.pop()?;
        if let Value::RefValue { ptr, len } = top {
            if len < offset {
                return Err(RuntimeError::OffsetOutOfBounds { len, offset });
            }
            let absolute_index = (ptr as usize) + (offset as usize);
            let value = self._load_at_ptr(absolute_index);
            self.push(value)?;
        } else {
            return Err(RuntimeError::TypeMismatch { expected: ValueTypeVariant::Address, got: top });
        }
        Ok(())
    }

    /// Pops a reference, then a word, and writes the word `offset` words past the
    /// reference; `NullPtrDeref` for the null reference, `OffsetOutOfBounds` past
    /// its length.
    pub fn store_offset_local(&mut self, offset: u32) -> (r: Result<(), RuntimeError>)
        requires
            old(self).wf(),
            old(self)@.store_offset_ok(offset),
        ensures
            (final(self)@, r) == old(self)@.store_offset_outcome(offset),
    {
        let top = self.pop()?;
        if let Value::RefValue { ptr, len } = top {
            if ptr == 0 {
                return Err(RuntimeError::NullPtrDeref);
            }
            if len < offset {
                return Err(RuntimeError::OffsetOutOfBounds { len, offset });
            }
            let absolute_index = (ptr as usize) + (offset as usize);
            let new = self.pop()?;
            self.store_at_ptr(absolute_index, new);
        } else {
            return Err(RuntimeError::TypeMismatch { expected: ValueTypeVariant::Address, got: top });
        }
        Ok(())
    }

    /// Pops an integer offset, then loads as `load_offset_local` does.
    pub fn load_var_offset_local(&mut self, typ: crate::interpreter::value::ValueType) -> (r: Result<(), RuntimeError>)
        requires
            old(self).wf(),
            old(self)@.pointer > 0 ==> match old(self)@.top() {
                Value::IntValue(o) => old(self)@.popped().load_offset_ok(o as u32),
                _ => true,
            },
        ensures
            ({
                let m = old(self)@;
                if m.pointer == 0 {
                    r == Err::<(), RuntimeError>(RuntimeError::StackUnderflow("Attempting to pop")) && final(self)@ == m
                } else {
                    match m.top() {
                        Value::IntValue(o) => (final(self)@, r) == m.popped().load_offset_outcome(o as u32),
                        other => r == Err::<(), RuntimeError>(RuntimeError::TypeMismatch { expected: ValueTypeVariant::Int, got: other })
                            && final(self)@ == m.popped(),
                    }
                }
            }),
    {
        let top = self.pop()?;
        if let Value::IntValue(o) = top {
            self.load_offset_local(o as u32)?;
        } else {
            return Err(RuntimeError::TypeMismatch { expected: ValueTypeVariant::Int, got: top });
        }
        Ok(())
    }

    /// Pops an integer offset, then stores as `store_offset_local` does.
    pub fn store_var_offset_local(&mut self, typ: crate::interpreter::value::ValueType) -> (r: Result<(), RuntimeError>)
        requires
            old(self).wf(),
            old(self)@.pointer > 0 ==> match old(self)@.top() {
                Value::IntValue(o) => old(self)@.popped().store_offset_ok(o as u32),
                _ => true,
            },
        ensures
            ({
                let m = old(self)@;
                if m.pointer == 0 {
                    r == Err::<(), RuntimeError>(RuntimeError::StackUnderflow("Attempting to pop")) && final(self)@ == m
                } else {
                    match m.top() {
                        Value::IntValue(o) => (final(self)@, r) == m.popped().store_offset_outcome(o as u32),
                        other => r == Err::<(), RuntimeError>(RuntimeError::TypeMismatch { expected: ValueTypeVariant::Int, got: other })
                            && final(self)@ == m.popped(),
                    }
                }
            }),
    {
        let top = self.pop()?;
        if let Value::IntValue(o) = top {
            self.store_offset_local(o as u32)?;
        } else {
            return Err(RuntimeError::TypeMismatch { expected: ValueTypeVariant::Int, got: top });
        }
        Ok(())
    }


    /// Calls function `fn_index` (see `VmModel::call_outcome`).
    pub fn call(&mut self, fn_index: u16) -> (r: Result<(), RuntimeError>)
        requires
            old(self).wf(),
            old(self)@.call_ok(fn_index),
        ensures
            (final(self)@, r) == old(self)@.call_outcome(fn_index),
    {
        let ghost m = self@;
        let info = self.functions[fn_index as usize];
        self.call_stack.push(self.insn_addr);
        let ghost m1 = self@;
        assert(m1 == (VmModel { call_stack: m.call_stack.push(m.insn_addr), ..m }));
        let size = info.params_len as usize;
        let mut popped: Vec<Value> = Vec::new();
        let mut i: usize = 0;
        while i < size
            invariant
                m == old(self)@,
                fn_index < m.functions.len(),
                info == m.functions[fn_index as int],
                m1 == (VmModel { call_stack: m.call_stack.push(m.insn_addr), ..m }),
                i <= size,
                size == info.params_len,
                m1.pointer >= i,
                self@ == (VmModel { pointer: (m1.pointer - i) as usize, ..m1 }),
                m1.pointer <= m1.stack.len(),
                popped@.len() == i,
                forall|k: int| 0 <= k < i ==> popped@[k] == m1.stack[m1.pointer - 1 - k],
            decreases size - i,
        {
            if self.pointer == 0 {
                assert(m1.pointer < size);
                assert(self@ == (VmModel { pointer: 0, ..m1 }));
            }
            let v = self.pop()?;
            popped.push(v);
            i += 1;
        }
        let ghost vals = m1.stack.subrange(m1.pointer - size, m1.pointer as int);
        let mut values: Vec<Value> = Vec::new();
        let mut j: usize = size;
        while j > 0
            invariant
                m == old(self)@,
                fn_index < m.functions.len(),
                info == m.functions[fn_index as int],
                m1 == (VmModel { call_stack: m.call_stack.push(m.insn_addr), ..m }),
                self@ == (VmModel { pointer: (m1.pointer - size) as usize, ..m1 }),
                m1.pointer <= m1.stack.len(),
                j <= size,
                popped@.len() == size,
                values@.len() == size - j,
                m1.pointer >= size,
                forall|k: int| 0 <= k < size ==> popped@[k] == m1.stack[m1.pointer - 1 - k],
                forall|k: int| 0 <= k < size - j ==> values@[k] == vals[k],
                vals == m1.stack.subrange(m1.pointer - size, m1.pointer as int),
            decreases j,
        {
            j -= 1;
            values.push(popped[j]);
        }
        assert(values@ == vals);
        self.insn_addr = info.start as usize;
        let ghost m2 = self@;
        let next_insn = &self.instructions[self.insn_addr];
        if let ByteCode::StackFrame(frame) = next_insn {
            let frame = *frame;
            self.push_stack_frame(frame);
        } else {
            return Err(RuntimeError::StackFrameExpected(next_insn.duplicate()));
        }
        let ghost target = m.call_outcome(fn_index);
        assert(vals.skip(0) == vals);
        let mut k: usize = 0;
        while k < values.len()
            invariant
                k <= values@.len(),
                values@ == vals,
                target == old(self)@.call_outcome(fn_index),
                target == self@.push_all(vals.skip(k as int)),
                k < values@.len() ==> self@.pointer < self@.stack.len(),
            decreases values@.len() - k,
        {
            let v = values[k];
            let ghost before = self@;
            proof {
                assert(vals.skip(k as int).len() > 0);
                assert(vals.skip(k as int)[0] == v);
                assert(vals.skip(k as int).drop_first() == vals.skip(k + 1));
                assert(before.push_all(vals.skip(k as int)) == if before.push_result(v) is Err {
                    (before.pushed(v), Err::<(), RuntimeError>(RuntimeError::StackOverflow))
                } else {
                    before.pushed(v).push_all(vals.skip(k + 1))
                });
            }
            let res = self.push(v);
            if res.is_err() {
                return res;
            }
            k += 1;
        }
        proof {
            assert(vals.skip(k as int).len() == 0);
        }
        Ok(())
    }


    /// Replaces the float on top by its integer part, as `f32 as i32` converts.
    pub fn f2i(&mut self) -> (r: Result<(), RuntimeError>)
        requires
            old(self)@.pointer <= old(self)@.stack.len(),
        ensures
            ({
                let m = old(self)@;
                if m.pointer == 0 {
                    r == Err::<(), RuntimeError>(RuntimeError::StackUnderflow("Attempting to pop")) && final(self)@ == m
                } else {
                    match m.top() {
                        Value::FloatValue(b) => {
                            let v = Value::IntValue(i32_of_f32(b));
                            r == m.popped().push_result(v) && final(self)@ == m.popped().pushed(v)
                        },
                        other => r == Err::<(), RuntimeError>(RuntimeError::TypeMismatch { expected: ValueTypeVariant::Float, got: other })
                            && final(self)@ == m.popped(),
                    }
                }
            }),
    {
        let top = self.pop()?;
        if let Value::FloatValue(f) = top {
            self.push(Value::IntValue(i32_of_f32_bits(f)))?;
        } else {
            return Err(RuntimeError::TypeMismatch { expected: ValueTypeVariant::Float, got: top });
        }
        Ok(())
    }


    /// Whether two floats, given by their bit patterns, are equal (see `floats_equal`).
    fn floats_eq(b1: u32, b2: u32) -> (r: bool)
        ensures
            r == floats_equal(b1, b2),
    {
        let m1 = b1 % 0x8000_0000;
        let m2 = b2 % 0x8000_0000;
        m1 <= 0x7f80_0000 && m2 <= 0x7f80_0000 && (b1 == b2 || (m1 == 0 && m2 == 0))
    }

    /// What following references to single words from `value` leads to (see
    /// `deref_chain`); `visited` holds the addresses already passed.
    pub fn try_deref(&self, value: Value, visited: &mut HashSet<u32>) -> (r: Option<Value>)
        requires
            self.wf(),
            old(visited)@.finite(),
        ensures
            r == deref_chain(self@, value, old(visited)@),
    {
        let mut v = value;
        loop
            invariant
                self.wf(),
                visited@.finite(),
                deref_chain(self@, v, visited@) == deref_chain(self@, value, old(visited)@),
            decreases visit_bound() - visited@.len(),
        {
            if let Value::RefValue { ptr, len } = v {
                if len != 1 {
                    return Some(v);
                }
                if visited.contains(&ptr) {
                    return None;
                }
                let ghost before = visited@;
                visited.insert(ptr);
                let n = visited.len();
                assert(before.len() + 1 < visit_bound());
                v = self._load_at_ptr(ptr as usize);
            } else {
                return Some(v);
            }
        }
    }

    /// Whether `a` and `b` compare equal (see `values_eq`); `visited` holds the
    /// pairs of references taken as equal while their words are compared.
    pub fn values_equal(&self, a: &Value, b: &Value, visited: &mut HashSet<u64>) -> (r: bool)
        requires
            self.wf(),
            refs_fit(self@),
            ref_fits(*a),
            ref_fits(*b),
            old(visited)@.finite(),
        ensures
            (r, final(visited)@) == values_eq(self@, *a, *b, old(visited)@),
            old(visited)@.subset_of(final(visited)@),
            final(visited)@.finite(),
        decreases visit_bound() - old(visited)@.len(), single_refs(*a, *b), 1nat,
    {
        let ghost m = self@;
        let ghost vis0 = visited@;
        let n0 = visited.len();
        let value = match (a, b) {
            (Value::Null, Value::Null) => true,
            (Value::IntValue(i1), Value::IntValue(i2)) => *i1 == *i2,
            (Value::FloatValue(f1), Value::FloatValue(f2)) => Self::floats_eq(*f1, *f2),
            (Value::RefValue { ptr: p1, len: l1 }, Value::RefValue { ptr: p2, len: l2 }) => {
                if *l1 != *l2 {
                    false
                } else {
                    let key: u64 = (*p1 as u64) * 0x1_0000_0000 + (*p2 as u64);
                    assert(key == pair_key(*p1, *p2));
                    if visited.contains(&key) {
                        true
                    } else if *p1 == *p2 {
                        true
                    } else {
                        visited.insert(key);
                        let n1 = visited.len();
                        let ghost floor = visited@;
                        assert(floor.len() == vis0.len() + 1);
                        let ghost target = elems_eq(m, *p1, *p2, *l1, 0, floor, floor);
                        let mut i: u32 = 0;
                        let mut all = true;
                        while i < *l1 && all
                            invariant
                                self.wf(),
                                refs_fit(self@),
                                m == self@,
                                i <= *l1,
                                *p1 + *l1 <= 0x1_0000_0000,
                                *p2 + *l1 <= 0x1_0000_0000,
                                floor == vis0.insert(pair_key(*p1, *p2)),
                                !vis0.contains(pair_key(*p1, *p2)),
                                vis0.finite(),
                                vis0.len() < visit_bound(),
                                floor.subset_of(visited@),
                                visited@.finite(),
                                target == elems_eq(m, *p1, *p2, *l1, 0, floor, floor),
                                all ==> target == elems_eq(m, *p1, *p2, *l1, i, visited@, floor),
                                !all ==> target == (false, visited@),
                                floor.len() == vis0.len() + 1,
                                vis0 == old(visited)@,
                            decreases *l1 - i, if all { 1int } else { 0int },
                        {
                            let n2 = visited.len();
                            proof {
                                assert(visited@.len() < visit_bound());
                                lemma_word_fits(m, (i + *p1) as int);
                                lemma_word_fits(m, (i + *p2) as int);
                                vstd::set_lib::lemma_len_subset(floor, visited@);
                            }
                            let v1 = self._load_at_ptr((i + *p1) as usize);
                            let v2 = self._load_at_ptr((i + *p2) as usize);
                            let ghost cur = visited@;
                            let same = self.values_equal(&v1, &v2, visited);
                            if !same {
                                all = false;
                            } else {
                                i += 1;
                            }
                        }
                        proof {
                            if all {
                                assert(i == *l1);
                            }
                            assert(vis0.subset_of(visited@));
                        }
                        all
                    }
                }
            },
            _ => false,
        };
        assert((value, visited@) == direct_eq(m, *a, *b, vis0));
        assert(vis0.subset_of(visited@));
        if value {
            return true;
        }
        let n3 = visited.len();
        let ghost vis1 = visited@;
        assert(values_eq(m, *a, *b, vis0) == (if single_ref(*a) {
            match deref_chain(m, *a, Set::empty()) {
                Some(d) => values_eq(m, d, *b, vis1),
                None => (false, vis1),
            }
        } else if single_ref(*b) {
            match deref_chain(m, *b, Set::empty()) {
                Some(d) => values_eq(m, *a, d, vis1),
                None => (false, vis1),
            }
        } else {
            (false, vis1)
        }));
        let a_single = matches!(a, Value::RefValue { len: 1, .. });
        let b_single = matches!(b, Value::RefValue { len: 1, .. });
        let result = if a_single {
            let mut seen: HashSet<u32> = HashSet::new();
            match self.try_deref(*a, &mut seen) {
                Some(d) => {
                    proof {
                        lemma_deref_chain_ends(m, *a, Set::empty());
                        lemma_deref_chain_fits(m, *a, Set::empty());
                        vstd::set_lib::lemma_len_subset(vis0, visited@);
                    }
                    self.values_equal(&d, b, visited)
                },
                None => false,
            }
        } else if b_single {
            let mut seen: HashSet<u32> = HashSet::new();
            match self.try_deref(*b, &mut seen) {
                Some(d) => {
                    proof {
                        lemma_deref_chain_ends(m, *b, Set::empty());
                        lemma_deref_chain_fits(m, *b, Set::empty());
                        vstd::set_lib::lemma_len_subset(vis0, visited@);
                    }
                    self.values_equal(a, &d, visited)
                },
                None => false,
            }
        } else {
            false
        };
        assert((result, visited@) == values_eq(m, *a, *b, vis0));
        assert(vis0.subset_of(visited@));
        result
    }


    /// Pops two words and pushes 1 if they compare equal (see `values_eq`), 0 if not.
    pub fn eq(&mut self) -> (r: Result<(), RuntimeError>)
        requires
            old(self).wf(),
            refs_fit(old(self)@),
        ensures
            (final(self)@, r) == old(self)@.compare_outcome(false),
    {
        let b = self.pop()?;
        let a = self.pop()?;
        proof {
            assert(ref_fits(a) && ref_fits(b));
        }
        let mut visited: HashSet<u64> = HashSet::new();
        if self.values_equal(&a, &b, &mut visited) {
            self.push(Value::IntValue(1))?;
        } else {
            self.push(Value::IntValue(0))?;
        }
        Ok(())
    }

    /// Pops two words and pushes 1 if they do not compare equal, 0 if they do.
    pub fn ne(&mut self) -> (r: Result<(), RuntimeError>)
        requires
            old(self).wf(),
            refs_fit(old(self)@),
        ensures
            (final(self)@, r) == old(self)@.compare_outcome(true),
    {
        let b = self.pop()?;
        let a = self.pop()?;
        proof {
            assert(ref_fits(a) && ref_fits(b));
        }
        let mut visited: HashSet<u64> = HashSet::new();
        if !self.values_equal(&a, &b, &mut visited) {
            self.push(Value::IntValue(1))?;
        } else {
            self.push(Value::IntValue(0))?;
        }
        Ok(())
    }


    /// Moves the stack block of `len` words at `ptr` to the heap (see `promote`);
    /// the heap's `OutOfMemory` is returned as it is.
    fn promote_ref(ptr: u32, len: u32, new_ptr: u32, heap: &mut Heap, stack: &Vec<Value>, promoted: &mut HashMap<u32, u32>) -> (r: Result<Value, RuntimeError>)
        requires
            promote(stack@, heap_model(*old(heap)), ptr, len, new_ptr, old(promoted)@) is Some,
        ensures
            ({
                let out = promote(stack@, heap_model(*old(heap)), ptr, len, new_ptr, old(promoted)@)->0;
                &&& r == out.0
                &&& heap_model(*final(heap)) == out.1
                &&& final(promoted)@ == out.2
            }),
            final(heap).ptr_offset == old(heap).ptr_offset,
        decreases visit_bound() - old(promoted)@.dom().len(), 1nat, 0nat,
    {
        if (ptr as usize) >= STACK_SIZE {
            return Ok(Value::RefValue { ptr, len });
        }
        let mut values: Vec<Value> = Vec::new();
        if let Some(p) = promoted.get(&ptr) {
            return Ok(Value::RefValue { ptr: *p, len });
        }
        let ghost h0 = heap_model(*heap);
        let ghost p0 = promoted@;
        let ghost outer = promote(stack@, h0, ptr, len, new_ptr, p0);
        assert(!p0.contains_key(ptr));
        assert(h0.ptr_offset + placement(h0.allocated, len as int) + len <= u32::MAX);
        proof {
            lemma_placement_bounds(h0.allocated, len as int);
        }
        let promoted_ptr = heap.allocate(len)?;
        assert(h0.alloc_result(len) == Ok::<u32, RuntimeError>(promoted_ptr));
        assert(promoted_ptr == h0.ptr_offset + placement(h0.allocated, len as int));
        promoted.insert(ptr, promoted_ptr);
        let ghost floor = promoted@;
        let n1 = promoted.len();
        let ghost target = promote_elems(stack@, h0.alloc_heap(len), ptr, len, 0, new_ptr, floor, floor, Seq::empty());
        assert(heap_model(*heap) == h0.alloc_heap(len));
        assert(floor.dom().len() == p0.dom().len() + 1);
        assert(floor == p0.insert(ptr, promoted_ptr));
        assert(outer == match target {
            None => None,
            Some(r) => match r.0 {
                Err(e) => Some((Err(e), r.1, r.2)),
                Ok(vals) => Some((Ok(Value::RefValue { ptr: promoted_ptr, len }), r.1.stored(promoted_ptr - r.1.ptr_offset, vals), r.2)),
            },
        });
        let mut i: u32 = 0;
        while i < len
            invariant
                target == promote_elems(stack@, heap_model(*heap), ptr, len, i, new_ptr, promoted@, floor, values@),
                target is Some,
                outer == match target {
                    None => None,
                    Some(r) => match r.0 {
                        Err(e) => Some((Err(e), r.1, r.2)),
                        Ok(vals) => Some((Ok(Value::RefValue { ptr: promoted_ptr, len }), r.1.stored(promoted_ptr - r.1.ptr_offset, vals), r.2)),
                    },
                },
                outer == promote(stack@, heap_model(*old(heap)), ptr, len, new_ptr, old(promoted)@),
                h0 == heap_model(*old(heap)),
                floor.dom().len() == p0.dom().len() + 1,
                p0 == old(promoted)@,
                ptr + len <= stack@.len(),
                ptr + len <= u32::MAX,
                i <= len,
                values@.len() == i,
                heap.ptr_offset == h0.ptr_offset,
                h0.ptr_offset <= promoted_ptr,
                floor.dom().finite(),
                floor.dom().len() <= visit_bound(),
            decreases len - i,
        {
            let n2 = promoted.len();
            let mut v = stack[(ptr + i) as usize];
            if let Value::RefValue { ptr: p2, len: l2 } = v {
                if p2 >= new_ptr {
                    proof {
                        vstd::set_lib::lemma_len_subset(floor.dom(), promoted@.dom());
                    }
                    let w = Self::promote_ref(p2, l2, new_ptr, heap, stack, promoted);
                    match w {
                        Ok(x) => {
                            v = x;
                        },
                        Err(e) => {
                            return Err(e);
                        },
                    }
                }
            }
            values.push(v);
            i += 1;
        }
        let ghost hv = heap_model(*heap);
        assert(target == Some((Ok::<Seq<Value>, RuntimeError>(values@), hv, promoted@)));
        let mut j: u32 = 0;
        while j < len
            invariant
                j <= len,
                values@.len() == len,
                heap_model(*heap) == hv.stored(promoted_ptr - hv.ptr_offset, values@.take(j as int)),
                hv.ptr_offset <= promoted_ptr,
                heap.ptr_offset == hv.ptr_offset,
                hv.ptr_offset == old(heap).ptr_offset,
                promoted_ptr + len <= u32::MAX,
            decreases len - j,
        {
            let ghost before = heap_model(*heap);
            heap.store(promoted_ptr, j, values[j as usize]);
            proof {
                let rel = promoted_ptr - hv.ptr_offset;
                let t = values@.take(j + 1);
                assert(t.drop_last() == values@.take(j as int));
                assert(t.last() == values@[j as int]);
                assert(t.len() == j + 1);
                assert(hv.stored(rel, t) == (HeapModel {
                    mem: heap_written(hv.stored(rel, values@.take(j as int)).mem, rel + j, values@[j as int]),
                    ..hv.stored(rel, values@.take(j as int))
                }));
                lemma_stored_keeps(hv, rel, t);
                lemma_stored_keeps(hv, rel, values@.take(j as int));
            }
            j += 1;
        }
        assert(values@.take(len as int) == values@);
        Ok(Value::RefValue { ptr: promoted_ptr, len })
    }


    /// Returns `size` words from the current call (see `VmModel::ret_outcome`).
    pub fn ret(&mut self, size: u32) -> (r: Result<(), RuntimeError>)
        requires
            old(self).wf(),
            old(self)@.ret_outcome(size) is Some,
        ensures
            (final(self)@, r) == old(self)@.ret_outcome(size)->0,
    {
        let ghost m = self@;
        let new_ptr = self.get_stack_frame_start()? as u32;
        let count = size as usize;
        let mut values: Vec<Value> = Vec::new();
        let mut promoted: HashMap<u32, u32> = HashMap::new();
        let end = self.pointer;
        let mut k = self.pointer - count;
        let ghost target = ret_values(m.stack, m.heap, k as int, end as int, new_ptr, Map::empty(), Seq::empty());
        assert(promoted@ == Map::<u32, u32>::empty());
        assert(values@ == Seq::<Value>::empty());
        while k < end
            invariant
                m == old(self)@,
                m.frames.len() > 0,
                new_ptr == m.frames.last().start as u32,
                end == m.pointer,
                k <= end,
                self@ == (VmModel { heap: heap_model(self.heap), ..m }),
                target == ret_values(m.stack, heap_model(self.heap), k as int, end as int, new_ptr, promoted@, values@),
                target is Some,
                target == ret_values(m.stack, m.heap, m.pointer - size, m.pointer as int, new_ptr, Map::empty(), Seq::empty()),
                m.stack.len() == STACK_SIZE,
            decreases end - k,
        {
            let mut v = self.stack[k];
            if let Value::RefValue { ptr, len } = v {
                if ptr >= new_ptr {
                    match promoted.get(&ptr) {
                        Some(pp) => {
                            v = Value::RefValue { ptr: *pp, len };
                        },
                        None => {
                            let res = Self::promote_ref(ptr, len, new_ptr, &mut self.heap, &self.stack, &mut promoted);
                            match res {
                                Ok(x) => {
                                    v = x;
                                },
                                Err(e) => {
                                    return Err(e);
                                },
                            }
                        },
                    }
                }
            }
            values.push(v);
            k += 1;
        }
        let ghost m1 = self@;
        assert(target == Some((Ok::<Seq<Value>, RuntimeError>(values@), m1.heap, promoted@)));
        self.pop_stack_frame()?;
        let ghost vals = values@;
        let ghost pushed = self@.push_all(vals);
        let ghost expected = old(self)@.ret_outcome(size)->0;
        assert(expected == (if pushed.1 is Err {
            pushed
        } else if pushed.0.call_stack.len() == 0 {
            (pushed.0, Err::<(), RuntimeError>(RuntimeError::EmptyCallstack))
        } else {
            (
                VmModel { call_stack: pushed.0.call_stack.drop_last(), insn_addr: pushed.0.call_stack.last(), ..pushed.0 },
                Ok::<(), RuntimeError>(()),
            )
        }));
        assert(vals.skip(0) == vals);
        let mut i: usize = 0;
        while i < values.len()
            invariant
                i <= values@.len(),
                values@ == vals,
                pushed == self@.push_all(vals.skip(i as int)),
                pushed == (VmModel { frames: m1.frames.drop_last(), pointer: m1.frames.last().start, ..m1 }).push_all(vals),
                old(self)@.ret_outcome(size) is Some,
                expected == old(self)@.ret_outcome(size)->0,
                expected == (if pushed.1 is Err {
                    pushed
                } else if pushed.0.call_stack.len() == 0 {
                    (pushed.0, Err::<(), RuntimeError>(RuntimeError::EmptyCallstack))
                } else {
                    (
                        VmModel { call_stack: pushed.0.call_stack.drop_last(), insn_addr: pushed.0.call_stack.last(), ..pushed.0 },
                        Ok::<(), RuntimeError>(()),
                    )
                }),
                m1 == (VmModel { heap: m1.heap, ..old(self)@ }),
                i < values@.len() ==> self@.pointer < self@.stack.len(),
            decreases values@.len() - i,
        {
            let v = values[i];
            let ghost before = self@;
            proof {
                assert(vals.skip(i as int).len() > 0);
                assert(vals.skip(i as int)[0] == v);
                assert(vals.skip(i as int).drop_first() == vals.skip(i + 1));
                assert(before.push_all(vals.skip(i as int)) == if before.push_result(v) is Err {
                    (before.pushed(v), Err::<(), RuntimeError>(RuntimeError::StackOverflow))
                } else {
                    before.pushed(v).push_all(vals.skip(i + 1))
                });
            }
            let res = self.push(v);
            if res.is_err() {
                return res;
            }
            i += 1;
        }
        proof {
            assert(vals.skip(i as int).len() == 0);
        }
        match self.call_stack.pop() {
            Some(addr) => {
                self.insn_addr = addr;
            },
            None => {
                return Err(RuntimeError::EmptyCallstack);
            },
        }
        Ok(())
    }

}

/// Popping right after a push gives back the pushed word and the pointer as it was.
pub proof fn lemma_pop_after_push(m: VmModel, v: Value)
    requires
        m.wf(),
        m.pointer < m.stack.len(),
    ensures
        m.pushed(v).pointer > 0,
        m.pushed(v).top() == v,
        m.pushed(v).popped() == m.with_stack(m.stack.update(m.pointer as int, v)),
{
}

/// Closing a frame right after opening it restores the pointer and the frames.
pub proof fn lemma_frame_round_trip(m: VmModel, size: u16)
    requires
        m.pointer + size <= usize::MAX,
    ensures
        ({
            let opened = VmModel {
                frames: m.frames.push(StackFrame { start: m.pointer, len: size as usize }),
                pointer: (m.pointer + size) as usize,
                ..m
            };
            &&& opened.frames.len() > 0
            &&& (VmModel { frames: opened.frames.drop_last(), pointer: opened.frames.last().start, ..opened }) == m
        }),
{
    let opened = VmModel {
        frames: m.frames.push(StackFrame { start: m.pointer, len: size as usize }),
        pointer: (m.pointer + size) as usize,
        ..m
    };
    assert(opened.frames.drop_last() == m.frames);
}

/// Reading a frame slot gives back what was last stored there: after `store_local`
/// pops a word into a slot, `load_local` of that slot pushes the same word.
pub proof fn lemma_load_after_store_local(m: VmModel, index: u16)
    requires
        0 < m.pointer <= m.stack.len(),
        m.frames.len() > 0,
        m.frames.last().start + index < m.stack.len(),
    ensures
        ({
            let stored = m.popped().with_stack(m.stack.update(m.frames.last().start + index, m.top()));
            stored.stack[stored.frames.last().start + index] == m.top()
        }),
{
}

/// Converting an integer of magnitude at most 2^24 to a float (`i2f`) and the
/// float back (`f2i`) restores the machine: the word on top and the pointer are
/// what they were before the two conversions.
pub proof fn lemma_i2f_f2i_restores(m: VmModel, i: i32)
    requires
        0 < m.pointer <= m.stack.len(),
        m.top() == Value::IntValue(i),
        -0x100_0000 <= i <= 0x100_0000,
    ensures
        ({
            let f = Value::FloatValue(f32_bits_of(i as int));
            let converted = m.popped().pushed(f);
            &&& converted.pointer > 0
            &&& converted.top() == f
            &&& converted.popped().pushed(Value::IntValue(i32_of_f32(f32_bits_of(i as int)))) == m
        }),
{
    lemma_int_float_round_trip(i as int);
    let f = Value::FloatValue(f32_bits_of(i as int));
    let converted = m.popped().pushed(f);
    let back = converted.popped().pushed(Value::IntValue(i));
    assert(back.stack =~= m.stack);
}

proof fn lemma_push_all_keeps(m: VmModel, vals: Seq<Value>)
    ensures
        m.push_all(vals).0 == (VmModel { stack: m.push_all(vals).0.stack, pointer: m.push_all(vals).0.pointer, ..m }),
    decreases vals.len(),
{
    if vals.len() > 0 && m.push_result(vals[0]) is Ok {
        lemma_push_all_keeps(m.pushed(vals[0]), vals.drop_first());
    }
}

/// Returning no words right after a call hands control back to the caller: its
/// frames, call stack, instruction and heap are as before the call, and the
/// pointer stands where the call took its arguments from.
pub proof fn lemma_ret_undoes_call(m: VmModel, fn_index: u16)
    requires
        m.call_outcome(fn_index).1 is Ok,
    ensures
        ({
            let c = m.call_outcome(fn_index).0;
            let n = m.functions[fn_index as int].params_len as int;
            c.ret_outcome(0) == Some((VmModel { pointer: (m.pointer - n) as usize, stack: c.stack, ..m }, Ok::<(), RuntimeError>(())))
        }),
{
    let info = m.functions[fn_index as int];
    let n = info.params_len as int;
    let m1 = VmModel { call_stack: m.call_stack.push(m.insn_addr), ..m };
    let vals = m1.stack.subrange(m1.pointer - n, m1.pointer as int);
    let m2 = VmModel { pointer: (m1.pointer - n) as usize, insn_addr: info.start as usize, ..m1 };
    if let ByteCode::StackFrame(size) = m2.instructions[info.start as int] {
        let m3 = VmModel {
            frames: m2.frames.push(StackFrame { start: m2.pointer, len: size as usize }),
            pointer: (m2.pointer + size) as usize,
            ..m2
        };
        lemma_push_all_keeps(m3, vals);
        let c = m.call_outcome(fn_index).0;
        assert(c == m3.push_all(vals).0);
        assert(c.frames.drop_last() == m.frames);
        assert(c.call_stack.drop_last() == m.call_stack);
    }
}

/// A word written at an address reads back from it.
pub proof fn lemma_word_at_written(m: VmModel, a: int, v: Value)
    requires
        0 <= a,
        a < STACK_SIZE ==> a < m.stack.len(),
        a >= STACK_SIZE ==> a >= m.heap.ptr_offset,
    ensures
        m.written(a, v).word_at(a) == v,
{
}

} // verus!
