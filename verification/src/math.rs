//! Small arithmetic.

use vstd::prelude::*;

verus! {

/// The lesser of two numbers.
pub open spec fn lesser(a: int, b: int) -> int {
    if a < b {
        a
    } else {
        b
    }
}

} // verus!
