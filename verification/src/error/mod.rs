use vstd::prelude::*;

pub mod analysis_error;
pub mod compilation_error;
pub mod context;
pub mod error_type;
pub mod lexer_error;
pub mod parser_error;
pub mod runtime_error;
pub mod state_error;

verus! {

/// The successful unit result, for any error type.
pub fn ok<T>() -> (r: Result<(), T>)
    ensures
        r == Ok::<(), T>(()),
{
    Ok(())
}

} // verus!
