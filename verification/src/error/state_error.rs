use vstd::prelude::*;

verus! {

/// Errors of an inconsistent internal state.
#[derive(Debug, PartialEq, Eq, Structural, Copy, Clone)]
pub enum StateError {
    InternalError,
}

} // verus!
