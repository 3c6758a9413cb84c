use vstd::prelude::*;
use crate::analysis::type_registry::TypeRegistry;
use crate::ast::ast_type::{type_text, AstType};
use crate::compiler::bytecode::ByteCode;
use crate::error::runtime_error::ValueTypeVariant;
use crate::lexer::token::SimpleToken;

verus! {

/// Errors found while generating bytecode.
#[derive(Debug, PartialEq, Clone)]
pub enum CompilationError {
    ExpectedComparison(ByteCode),
    MissingScope,
    UnsupportedType(String),
    MissingVariable(String),
    InvalidOperator(SimpleToken),
    TypeMismatch { expected: ValueTypeVariant, got: String },
    IllegalBinOperator(SimpleToken),
    StructTooLarge(u32),
    IllegalCall(String),
    IllegalMemberAccess(String),
    MemberNotFound(String),
    IllegalIndexing(String),
    IntOutOfBounds(i64),
}

/// The result of a generation step that produces nothing.
pub type EmptyRes = Result<(), CompilationError>;

impl CompilationError {
    /// A value of type `typ` where a value of kind `expected` was wanted.
    pub fn type_mismatch(expected: ValueTypeVariant, typ: AstType, registry: &TypeRegistry) -> (e: CompilationError)
        requires
            registry.acyclic(),
        ensures
            e matches CompilationError::TypeMismatch { expected: x, got: g }
                && x == expected && g@ == type_text(typ@, registry.types()),
    {
        CompilationError::TypeMismatch { expected, got: typ.format(registry) }
    }

    /// A call of a value of type `typ`, which cannot be called.
    pub fn illegal_call(typ: AstType, registry: &TypeRegistry) -> (e: CompilationError)
        requires
            registry.acyclic(),
        ensures
            e matches CompilationError::IllegalCall(g) && g@ == type_text(typ@, registry.types()),
    {
        CompilationError::IllegalCall(typ.format(registry))
    }

    /// Indexing of a value of type `typ`, which cannot be indexed.
    pub fn illegal_indexing(typ: AstType, registry: &TypeRegistry) -> (e: CompilationError)
        requires
            registry.acyclic(),
        ensures
            e matches CompilationError::IllegalIndexing(g) && g@ == type_text(typ@, registry.types()),
    {
        CompilationError::IllegalIndexing(typ.format(registry))
    }
}

} // verus!
