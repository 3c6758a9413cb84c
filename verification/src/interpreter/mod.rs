pub mod bytecode_counter;
pub mod heap;
pub mod interpreter_builder;
pub mod profiling;
pub mod runtime_error_context;
pub mod value;
pub mod interpreter;
pub mod execution;
