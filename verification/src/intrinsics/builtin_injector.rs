use vstd::prelude::*;
use crate::text::push_str;

verus! {

/// Appends the source of the default `panic()` function, which panics with the
/// message "Explicit panic!".
pub fn inject_default_panic(src: &mut String)
    ensures
        final(src)@ == old(src)@ + r#"
        fn panic() {
            panic("Explicit panic!"); 
        }
    "#@,
{
    push_str(src, r#"
        fn panic() {
            panic("Explicit panic!"); 
        }
    "#);
}

} // verus!
