use vstd::prelude::*;

verus! {

/// An error found either before running (`C`) or while running (`R`).
#[allow(non_camel_case_types)]
#[derive(Debug)]
pub enum ErrorType<C, R> {
    COMPILETIME(C),
    RUNTIME(R),
}

} // verus!
