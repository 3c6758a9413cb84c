use vstd::prelude::*;
use crate::compiler::bytecode::ByteCode;
use crate::error::runtime_error::{RuntimeError, ValueTypeVariant};
use crate::interpreter::interpreter::{refs_fit, Interpreter, VmModel};
use crate::interpreter::value::{Value, ValueType};
use crate::util::float_bits::{f32_bits_of, i32_of_f32};

verus! {

/// `a / b` rounded toward zero, as Rust divides integers.
pub open spec fn trunc_div(a: int, b: int) -> int {
    if a >= 0 {
        a / b
    } else {
        -((-a) / b)
    }
}

/// The remainder of `trunc_div`, with the sign of `a`, as Rust's `%` gives.
pub open spec fn trunc_rem(a: int, b: int) -> int {
    if a >= 0 {
        a % b
    } else {
        -((-a) % b)
    }
}

/// The integer that the arithmetic instruction `op` computes of `a` and `b`; `None`
/// where the operation overflows or divides by zero, on which Rust panics.
pub open spec fn int_arith(op: ByteCode, a: i32, b: i32) -> Option<i32> {
    let v: int = match op {
        ByteCode::Add => a + b,
        ByteCode::Sub => a - b,
        ByteCode::Mul => a * b,
        ByteCode::Div => trunc_div(a as int, b as int),
        _ => trunc_rem(a as int, b as int),
    };
    if (op is Div || op is Mod) && (b == 0 || (a == i32::MIN && b == -1)) {
        None
    } else if i32::MIN <= v <= i32::MAX {
        Some(v as i32)
    } else {
        None
    }
}

/// An error that leaves the state `m`.
pub open spec fn failed(m: VmModel, e: RuntimeError) -> (VmModel, Result<(), RuntimeError>) {
    (m, Err(e))
}

/// What pushing `v` makes of `m`, and returns.
pub open spec fn push_outcome(m: VmModel, v: Value) -> (VmModel, Result<(), RuntimeError>) {
    (m.pushed(v), m.push_result(v))
}

/// The error of popping an empty stack.
pub open spec fn underflow() -> RuntimeError {
    RuntimeError::StackUnderflow("Attempting to pop")
}

/// Popping the top word and pushing `f` of it, where `f` accepts it; otherwise a
/// type mismatch against `expected`.
pub open spec fn convert_outcome(m: VmModel, op: ByteCode) -> (VmModel, Result<(), RuntimeError>) {
    if m.pointer == 0 {
        failed(m, underflow())
    } else {
        match (op, m.top()) {
            (ByteCode::I2F, Value::IntValue(i)) => push_outcome(m.popped(), Value::FloatValue(f32_bits_of(i as int))),
            (ByteCode::F2I, Value::FloatValue(b)) => push_outcome(m.popped(), Value::IntValue(i32_of_f32(b))),
            (ByteCode::BoolNot, Value::IntValue(i)) => push_outcome(m.popped(), Value::IntValue(if i == 0 { 1 } else { 0 })),
            (ByteCode::F2I, other) => failed(m.popped(), RuntimeError::TypeMismatch { expected: ValueTypeVariant::Float, got: other }),
            (_, other) => failed(m.popped(), RuntimeError::TypeMismatch { expected: ValueTypeVariant::Int, got: other }),
        }
    }
}

/// Popping two integers and pushing what `op` computes of them.
pub open spec fn arith_outcome(m: VmModel, op: ByteCode) -> (VmModel, Result<(), RuntimeError>) {
    if m.pointer == 0 {
        failed(m, underflow())
    } else if m.pointer == 1 {
        failed(m.popped(), underflow())
    } else {
        let b = m.top();
        let a = m.popped().top();
        let m2 = m.popped().popped();
        match (a, b) {
            (Value::IntValue(x), Value::IntValue(y)) => push_outcome(m2, Value::IntValue(int_arith(op, x, y)->0)),
            _ => failed(m2, underflow()),
        }
    }
}

/// Whether `arith_outcome` runs without a panic: two integers whose result fits.
pub open spec fn arith_ok(m: VmModel, op: ByteCode) -> bool {
    m.pointer >= 2 ==> match (m.popped().top(), m.top()) {
        (Value::IntValue(x), Value::IntValue(y)) => int_arith(op, x, y) is Some,
        _ => false,
    }
}

/// Popping the offset on top and loading (`load`) or storing at it.
pub open spec fn var_offset_outcome(m: VmModel, load: bool) -> (VmModel, Result<(), RuntimeError>) {
    if m.pointer == 0 {
        failed(m, underflow())
    } else {
        match m.top() {
            Value::IntValue(o) => if load {
                m.popped().load_offset_outcome(o as u32)
            } else {
                m.popped().store_offset_outcome(o as u32)
            },
            other => failed(m.popped(), RuntimeError::TypeMismatch { expected: ValueTypeVariant::Int, got: other }),
        }
    }
}

/// Popping a number and jumping by `offset` where it is zero (`on_zero`) or not.
pub open spec fn branch_outcome(m: VmModel, offset: i32, on_zero: bool) -> (VmModel, Result<(), RuntimeError>) {
    if m.pointer == 0 {
        failed(m, underflow())
    } else {
        match m.top() {
            Value::IntValue(v) => if (v == 0) == on_zero {
                m.popped().jumped(offset)
            } else {
                (m.popped(), Ok(()))
            },
            Value::FloatValue(b) => if (b == 0 || b == 0x8000_0000) == on_zero {
                m.popped().jumped(offset)
            } else {
                (m.popped(), Ok(()))
            },
            other => failed(m.popped(), RuntimeError::TypeMismatch { expected: ValueTypeVariant::Number, got: other }),
        }
    }
}

/// What running the instruction `insn` makes of the machine `m`, and returns.
pub open spec fn step(m: VmModel, insn: ByteCode) -> (VmModel, Result<(), RuntimeError>) {
    match insn {
        ByteCode::NullPtr => push_outcome(m, Value::RefValue { ptr: 0, len: 1 }),
        ByteCode::IConst(i) => push_outcome(m, Value::IntValue(i)),
        ByteCode::FConst(f) => push_outcome(m, Value::FloatValue(f)),
        ByteCode::Pop => if m.pointer == 0 {
            failed(m, underflow())
        } else {
            (m.popped(), Ok(()))
        },
        ByteCode::Dup => if m.pointer == 0 {
            failed(m, underflow())
        } else {
            push_outcome(m, m.top())
        },
        ByteCode::Swap => if m.stack.len() < 2 {
            failed(m, RuntimeError::StackUnderflow("Attempted to swap with small stack"))
        } else {
            let p = m.pointer as int;
            (m.with_stack(m.stack.update(p - 2, m.stack[p - 1]).update(p - 1, m.stack[p - 2])), Ok(()))
        },
        ByteCode::I2F | ByteCode::F2I | ByteCode::BoolNot => convert_outcome(m, insn),
        ByteCode::Add | ByteCode::Sub | ByteCode::Mul | ByteCode::Div | ByteCode::Mod => arith_outcome(m, insn),
        ByteCode::CmpEq => m.compare_outcome(false),
        ByteCode::CmpNotEq => m.compare_outcome(true),
        ByteCode::Store(i) => if m.pointer == 0 {
            failed(m, underflow())
        } else if m.frames.len() == 0 {
            failed(m.popped(), RuntimeError::StackFrameMissing)
        } else {
            (m.popped().with_stack(m.stack.update(m.frames.last().start + i, m.top())), Ok(()))
        },
        ByteCode::Load(i) => if m.frames.len() == 0 {
            failed(m, RuntimeError::StackFrameMissing)
        } else {
            push_outcome(m, m.stack[m.frames.last().start + i])
        },
        ByteCode::CreateStackPtr { offset, consume_words } => if m.frames.len() == 0 {
            failed(m, RuntimeError::StackFrameMissing)
        } else {
            push_outcome(m, Value::RefValue { ptr: (m.frames.last().start + offset) as u32, len: consume_words as u32 })
        },
        ByteCode::ILoadOffset(o) | ByteCode::FLoadOffset(o) | ByteCode::ALoadOffset(o) => m.load_offset_outcome(o),
        ByteCode::IStoreOffset(o) | ByteCode::FStoreOffset(o) | ByteCode::AStoreOffset(o) => m.store_offset_outcome(o),
        ByteCode::LoadVarOffset => var_offset_outcome(m, true),
        ByteCode::StoreVarOffset => var_offset_outcome(m, false),
        ByteCode::Goto(o) => m.jumped(o),
        ByteCode::IfEq(o) => branch_outcome(m, o, true),
        ByteCode::IfNe(o) => branch_outcome(m, o, false),
        ByteCode::Call(i) => m.call_outcome(i),
        ByteCode::Ret(size) => m.ret_outcome(size as u32).unwrap(),
        ByteCode::RetLong(size) => m.ret_outcome(size).unwrap(),
        ByteCode::HeapAlloc(size) => m.heap_alloc_outcome(size),
        ByteCode::DynHeapAlloc => if m.pointer == 0 {
            failed(m, underflow())
        } else {
            match m.top() {
                Value::IntValue(v) => if v < 0 {
                    failed(m.popped(), RuntimeError::IllegalAllocSize(v))
                } else {
                    m.popped().heap_alloc_outcome(v as u32)
                },
                other => failed(m.popped(), RuntimeError::TypeMismatch { expected: ValueTypeVariant::Int, got: other }),
            }
        },
        ByteCode::StackFrame(_) => failed(m, RuntimeError::UnexpectedStackFrame),
        _ => (m, Ok(())),
    }
}

/// Whether `insn` can run on `m` without a panic, and has a meaning: the bitwise
/// and ordering instructions, float arithmetic, and the instructions that the
/// machine does not dispatch on have none.
pub open spec fn step_ok(m: VmModel, insn: ByteCode) -> bool {
    match insn {
        ByteCode::Comment(_) | ByteCode::Nop | ByteCode::StackFrame(_) => true,
        ByteCode::NullPtr | ByteCode::IConst(_) | ByteCode::FConst(_) | ByteCode::Dup => m.pointer < m.stack.len(),
        ByteCode::Pop | ByteCode::I2F | ByteCode::F2I | ByteCode::BoolNot => true,
        ByteCode::Swap => m.stack.len() >= 2 ==> m.pointer >= 2,
        ByteCode::Add | ByteCode::Sub | ByteCode::Mul | ByteCode::Div | ByteCode::Mod => arith_ok(m, insn),
        ByteCode::CmpEq | ByteCode::CmpNotEq => refs_fit(m),
        ByteCode::Store(i) => m.pointer > 0 && m.frames.len() > 0 ==> m.frames.last().start + i < m.stack.len(),
        ByteCode::Load(i) => m.pointer < m.stack.len() && (m.frames.len() > 0 ==> m.frames.last().start + i < m.stack.len()),
        ByteCode::CreateStackPtr { offset, .. } => m.pointer < m.stack.len() && (m.frames.len() > 0 ==> m.frames.last().start + offset
            <= usize::MAX),
        ByteCode::ILoadOffset(o) | ByteCode::FLoadOffset(o) | ByteCode::ALoadOffset(o) => m.load_offset_ok(o),
        ByteCode::IStoreOffset(o) | ByteCode::FStoreOffset(o) | ByteCode::AStoreOffset(o) => m.store_offset_ok(o),
        ByteCode::LoadVarOffset => m.pointer > 0 ==> match m.top() {
            Value::IntValue(o) => m.popped().load_offset_ok(o as u32),
            _ => true,
        },
        ByteCode::StoreVarOffset => m.pointer > 0 ==> match m.top() {
            Value::IntValue(o) => m.popped().store_offset_ok(o as u32),
            _ => true,
        },
        ByteCode::Goto(_) | ByteCode::IfEq(_) | ByteCode::IfNe(_) => m.insn_addr <= i64::MAX - i32::MAX,
        ByteCode::Call(i) => m.call_ok(i),
        ByteCode::Ret(size) => m.ret_outcome(size as u32) is Some,
        ByteCode::RetLong(size) => m.ret_outcome(size) is Some,
        ByteCode::HeapAlloc(size) => m.pointer < m.stack.len() && m.alloc_ok(size),
        ByteCode::DynHeapAlloc => m.pointer > 0 ==> match m.top() {
            Value::IntValue(v) => v >= 0 ==> m.alloc_ok(v as u32),
            _ => true,
        },
        _ => false,
    }
}

impl Interpreter {
    /// Runs the instruction `insn` (see `step`).
    pub fn execute(&mut self, insn: ByteCode) -> (r: Result<(), RuntimeError>)
        requires
            old(self).wf(),
            step_ok(old(self)@, insn),
        ensures
            (final(self)@, r) == step(old(self)@, insn),
    {
        match insn {
            ByteCode::Comment(_) => Ok(()),
            ByteCode::Nop => Ok(()),
            ByteCode::NullPtr => self.push(Value::RefValue { ptr: 0, len: 1 }),
            ByteCode::IConst(i) => self.push_int(i),
            ByteCode::FConst(f) => self.push_float(f),
            ByteCode::Pop => {
                match self.pop() {
                    Ok(_) => Ok(()),
                    Err(e) => Err(e),
                }
            },
            ByteCode::Dup => self.dup(),
            ByteCode::Swap => self.swap(),
            ByteCode::I2F => self.i2f(),
            ByteCode::F2I => self.f2i(),
            ByteCode::BoolNot => self.bool_not(),
            ByteCode::Add => self.add(),
            ByteCode::Sub => self.sub(),
            ByteCode::Mul => self.mul(),
            ByteCode::Div => self.div(),
            ByteCode::Mod => self.rem(),
            ByteCode::CmpEq => self.eq(),
            ByteCode::CmpNotEq => self.ne(),
            ByteCode::Store(i) => self.store_local(i),
            ByteCode::Load(i) => self.load_local(i),
            ByteCode::CreateStackPtr { offset, consume_words } => self.create_stack_ptr(offset, consume_words),
            ByteCode::ILoadOffset(o) => self.load_offset_local(o),
            ByteCode::FLoadOffset(o) => self.load_offset_local(o),
            ByteCode::ALoadOffset(o) => self.load_offset_local(o),
            ByteCode::IStoreOffset(o) => self.store_offset_local(o),
            ByteCode::FStoreOffset(o) => self.store_offset_local(o),
            ByteCode::AStoreOffset(o) => self.store_offset_local(o),
            ByteCode::LoadVarOffset => self.load_var_offset_local(ValueType::Int),
            ByteCode::StoreVarOffset => self.store_var_offset_local(ValueType::Int),
            ByteCode::Goto(i) => self.goto(i),
            ByteCode::IfEq(o) => self.if_eq(o),
            ByteCode::IfNe(o) => self.if_ne(o),
            ByteCode::Call(ind) => self.call(ind),
            ByteCode::Ret(size) => self.ret(size as u32),
            ByteCode::RetLong(size) => self.ret(size),
            ByteCode::HeapAlloc(size) => self.heap_alloc(size),
            ByteCode::DynHeapAlloc => self.dyn_heap_alloc(),
            ByteCode::StackFrame(_) => Err(RuntimeError::UnexpectedStackFrame),
            _ => Ok(()),
        }
    }

    fn add(&mut self) -> (r: Result<(), RuntimeError>)
        requires
            old(self).wf(),
            arith_ok(old(self)@, ByteCode::Add),
        ensures
            (final(self)@, r) == arith_outcome(old(self)@, ByteCode::Add),
    {
        self.int_arith(ByteCode::Add)
    }

    fn sub(&mut self) -> (r: Result<(), RuntimeError>)
        requires
            old(self).wf(),
            arith_ok(old(self)@, ByteCode::Sub),
        ensures
            (final(self)@, r) == arith_outcome(old(self)@, ByteCode::Sub),
    {
        self.int_arith(ByteCode::Sub)
    }

    fn mul(&mut self) -> (r: Result<(), RuntimeError>)
        requires
            old(self).wf(),
            arith_ok(old(self)@, ByteCode::Mul),
        ensures
            (final(self)@, r) == arith_outcome(old(self)@, ByteCode::Mul),
    {
        self.int_arith(ByteCode::Mul)
    }

    fn div(&mut self) -> (r: Result<(), RuntimeError>)
        requires
            old(self).wf(),
            arith_ok(old(self)@, ByteCode::Div),
        ensures
            (final(self)@, r) == arith_outcome(old(self)@, ByteCode::Div),
    {
        self.int_arith(ByteCode::Div)
    }

    fn rem(&mut self) -> (r: Result<(), RuntimeError>)
        requires
            old(self).wf(),
            arith_ok(old(self)@, ByteCode::Mod),
        ensures
            (final(self)@, r) == arith_outcome(old(self)@, ByteCode::Mod),
    {
        self.int_arith(ByteCode::Mod)
    }

    /// Pops two integers and pushes what `op` computes of them.
    fn int_arith(&mut self, op: ByteCode) -> (r: Result<(), RuntimeError>)
        requires
            old(self).wf(),
            op is Add || op is Sub || op is Mul || op is Div || op is Mod,
            arith_ok(old(self)@, op),
        ensures
            (final(self)@, r) == arith_outcome(old(self)@, op),
    {
        let b = match self.pop() {
            Ok(v) => v,
            Err(e) => return Err(e),
        };
        let a = match self.pop() {
            Ok(v) => v,
            Err(e) => return Err(e),
        };
        match (a, b) {
            (Value::IntValue(x), Value::IntValue(y)) => {
                let v = match op {
                    ByteCode::Add => x + y,
                    ByteCode::Sub => x - y,
                    ByteCode::Mul => x * y,
                    ByteCode::Div => x / y,
                    _ => x % y,
                };
                proof {
                    if op is Div {
                        assert(v == trunc_div(x as int, y as int));
                    } else if op is Mod {
                        assert(v == trunc_rem(x as int, y as int));
                    }
                }
                assert(int_arith(op, x, y) == Some(v));
                self.push(Value::IntValue(v))
            },
            _ => Err(RuntimeError::StackUnderflow("Attempting to pop")),
        }
    }
}

} // verus!
