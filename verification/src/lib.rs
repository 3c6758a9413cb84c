pub mod error;
pub mod text;
pub mod lexer;
pub mod compiler;
pub mod interpreter;
pub mod memory_blob;
pub mod ast;
pub mod analysis;
pub mod completion;
pub mod parser;
pub mod intrinsics;
pub mod util;
