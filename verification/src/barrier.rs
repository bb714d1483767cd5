//! The comparison by which characters are sorted: it orders two
//! characters.

use vstd::prelude::*;

verus! {

/// Three-way comparison of two characters: 0 when equal, -1 when the first
/// is smaller, 1 when it is greater.
pub fn cmp(val1: i8, val2: i8) -> (r: i32)
    ensures
        val1 == val2 ==> r == 0,
        val1 < val2 ==> r == -1,
        val1 > val2 ==> r == 1,
{
    if val1 == val2 {
        0
    } else if val1 < val2 {
        -1
    } else {
        1
    }
}

} // verus!
