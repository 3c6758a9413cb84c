pub mod code_completion;
pub mod completion_type;
