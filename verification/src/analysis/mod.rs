pub mod constant_folding;
pub mod generic_helper;
pub mod mangling;
pub mod method_transform;
pub mod operator_table;
pub mod symbol_table;
pub mod type_registry;
