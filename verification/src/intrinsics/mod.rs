pub mod builtin_injector;
pub mod type_injector;
