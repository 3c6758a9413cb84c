use vstd::prelude::*;

verus! {

/// The instructions of the virtual machine.
#[derive(Debug, PartialEq, Eq, Clone)]
pub enum ByteCode {
    Comment(String),
    Nop,

    NullPtr,
    
    IConst(i32),
    /// A float constant, by its bit pattern.
    FConst(u32),

    Pop,
    Dup,
    Swap,

    Or,
    And,
    Xor,
    BitNot,
    BoolNot,

    Shl,
    Shr,

    Add,
    Sub,
    Mul,
    Div,
    Mod,

    CmpEq,
    CmpNotEq,
    CmpGreater,
    CmpEqGreater,
    CmpLess,
    CmpEqLess,

    IStore(u16),
    FStore(u16),
    AStore(u16),

    ILoad(u16),
    FLoad(u16),
    ALoad(u16),

    CreateStackPtr{
        offset: u16,
        consume_words: u16
    },

    // loads from address on top of the stack + offset
    ILoadOffset(u32),
    FLoadOffset(u32),
    ALoadOffset(u32),

    IStoreOffset(u32),
    FStoreOffset(u32),
    AStoreOffset(u32),

    ILoadVarOffset,
    FLoadVarOffset,
    ALoadVarOffset,

    IStoreVarOffset,
    FStoreVarOffset,
    AStoreVarOffset,


    Goto(i32),
    IfEq(i32),
    IfNe(i32),

    StackFrame(u16),
    Call(u16),
    Ret(u16),
    RetLong(u32),
    
    HeapAlloc(u32),

    // instructions that the interpreter and the built-in functions use
    Panic,
    I2F,
    F2I,
    StrConst(String),
    I2Str,
    F2Str,
    StrConcat,
    Print,
    Store(u16),
    Load(u16),
    LoadVarOffset,
    StoreVarOffset,
    DynHeapAlloc,
}

impl ByteCode {
    /// A copy of this instruction.
    pub fn duplicate(&self) -> (b: ByteCode)
        ensures
            b == *self,
    {
        match self {
            ByteCode::Comment(c) => ByteCode::Comment(c.clone()),
            ByteCode::StrConst(c) => ByteCode::StrConst(c.clone()),
            ByteCode::Nop => ByteCode::Nop,
            ByteCode::NullPtr => ByteCode::NullPtr,
            ByteCode::Pop => ByteCode::Pop,
            ByteCode::Dup => ByteCode::Dup,
            ByteCode::Swap => ByteCode::Swap,
            ByteCode::Or => ByteCode::Or,
            ByteCode::And => ByteCode::And,
            ByteCode::Xor => ByteCode::Xor,
            ByteCode::BitNot => ByteCode::BitNot,
            ByteCode::BoolNot => ByteCode::BoolNot,
            ByteCode::Shl => ByteCode::Shl,
            ByteCode::Shr => ByteCode::Shr,
            ByteCode::Add => ByteCode::Add,
            ByteCode::Sub => ByteCode::Sub,
            ByteCode::Mul => ByteCode::Mul,
            ByteCode::Div => ByteCode::Div,
            ByteCode::Mod => ByteCode::Mod,
            ByteCode::CmpEq => ByteCode::CmpEq,
            ByteCode::CmpNotEq => ByteCode::CmpNotEq,
            ByteCode::CmpGreater => ByteCode::CmpGreater,
            ByteCode::CmpEqGreater => ByteCode::CmpEqGreater,
            ByteCode::CmpLess => ByteCode::CmpLess,
            ByteCode::CmpEqLess => ByteCode::CmpEqLess,
            ByteCode::ILoadVarOffset => ByteCode::ILoadVarOffset,
            ByteCode::FLoadVarOffset => ByteCode::FLoadVarOffset,
            ByteCode::ALoadVarOffset => ByteCode::ALoadVarOffset,
            ByteCode::IStoreVarOffset => ByteCode::IStoreVarOffset,
            ByteCode::FStoreVarOffset => ByteCode::FStoreVarOffset,
            ByteCode::AStoreVarOffset => ByteCode::AStoreVarOffset,
            ByteCode::Panic => ByteCode::Panic,
            ByteCode::I2F => ByteCode::I2F,
            ByteCode::F2I => ByteCode::F2I,
            ByteCode::I2Str => ByteCode::I2Str,
            ByteCode::F2Str => ByteCode::F2Str,
            ByteCode::StrConcat => ByteCode::StrConcat,
            ByteCode::Print => ByteCode::Print,
            ByteCode::LoadVarOffset => ByteCode::LoadVarOffset,
            ByteCode::StoreVarOffset => ByteCode::StoreVarOffset,
            ByteCode::DynHeapAlloc => ByteCode::DynHeapAlloc,
            ByteCode::IConst(v) => ByteCode::IConst(*v),
            ByteCode::FConst(v) => ByteCode::FConst(*v),
            ByteCode::IStore(v) => ByteCode::IStore(*v),
            ByteCode::FStore(v) => ByteCode::FStore(*v),
            ByteCode::AStore(v) => ByteCode::AStore(*v),
            ByteCode::ILoad(v) => ByteCode::ILoad(*v),
            ByteCode::FLoad(v) => ByteCode::FLoad(*v),
            ByteCode::ALoad(v) => ByteCode::ALoad(*v),
            ByteCode::ILoadOffset(v) => ByteCode::ILoadOffset(*v),
            ByteCode::FLoadOffset(v) => ByteCode::FLoadOffset(*v),
            ByteCode::ALoadOffset(v) => ByteCode::ALoadOffset(*v),
            ByteCode::IStoreOffset(v) => ByteCode::IStoreOffset(*v),
            ByteCode::FStoreOffset(v) => ByteCode::FStoreOffset(*v),
            ByteCode::AStoreOffset(v) => ByteCode::AStoreOffset(*v),
            ByteCode::Goto(v) => ByteCode::Goto(*v),
            ByteCode::IfEq(v) => ByteCode::IfEq(*v),
            ByteCode::IfNe(v) => ByteCode::IfNe(*v),
            ByteCode::StackFrame(v) => ByteCode::StackFrame(*v),
            ByteCode::Call(v) => ByteCode::Call(*v),
            ByteCode::Ret(v) => ByteCode::Ret(*v),
            ByteCode::RetLong(v) => ByteCode::RetLong(*v),
            ByteCode::HeapAlloc(v) => ByteCode::HeapAlloc(*v),
            ByteCode::Store(v) => ByteCode::Store(*v),
            ByteCode::Load(v) => ByteCode::Load(*v),
            ByteCode::CreateStackPtr { offset, consume_words } => ByteCode::CreateStackPtr { offset: *offset, consume_words: *consume_words },
        }
    }
}

} // verus!
