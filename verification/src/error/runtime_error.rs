use vstd::prelude::*;
use crate::compiler::bytecode::ByteCode;
use crate::interpreter::value::{Value, ValueType};

verus! {

/// The kinds of values that a run-time check can expect.
#[derive(Debug, PartialEq, Eq, Structural, Copy, Clone)]
pub enum ValueTypeVariant {
    Null,
    Int,
    Float,
    Address,
    Bool,
    Number,
    Nullable,
    Array,
    Function,
    Struct,
}

impl ValueTypeVariant {
    /// The variant that names the slot type `typ`.
    pub fn of(typ: ValueType) -> (v: Self)
        ensures
            v == match typ {
                ValueType::Null => ValueTypeVariant::Null,
                ValueType::Int => ValueTypeVariant::Int,
                ValueType::Float => ValueTypeVariant::Float,
                ValueType::Address => ValueTypeVariant::Address,
            },
    {
        match typ {
            ValueType::Null => ValueTypeVariant::Null,
            ValueType::Int => ValueTypeVariant::Int,
            ValueType::Float => ValueTypeVariant::Float,
            ValueType::Address => ValueTypeVariant::Address,
        }
    }
}

/// Errors raised while running compiled code.
#[derive(Debug, PartialEq, Eq, Clone)]
pub enum RuntimeError {
    StackUnderflow(&'static str),
    StackOverflow,
    StackFrameMissing,
    UnexpectedStackFrame,
    StackFrameExpected(ByteCode),
    TypeMismatch { expected: ValueTypeVariant, got: Value },
    IllegalAssignment { expected: ValueType, got: Value, previous: Value },
    EmptyCallstack,
    InstructionPtrUnderflow,
    InstructionPtrOverflow,
    NullPtrDeref,
    OffsetOutOfBounds { len: u32, offset: u32 },
    FunctionNotFound(String),
    IllegalAllocSize(i32),
    OutOfMemory,
    DanglingValue,
}

} // verus!
