pub mod ast_type;
pub mod expression;
pub mod modifier;
pub mod statement;
