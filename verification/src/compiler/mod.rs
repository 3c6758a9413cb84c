pub mod bytecode;
pub mod codegen;
pub mod compiler;
pub mod expr_gen;
pub mod expr_laws;
