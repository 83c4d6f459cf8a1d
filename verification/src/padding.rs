//! Length padding for 4-byte alignment.

use vstd::prelude::*;

verus! {

/// Returns the padding required to make `len` a multiple of 4.
pub fn get_padding(len: usize) -> (r: usize)
    ensures
        r < 4,
        (len + r) % 4 == 0,
        r == if len % 4 == 0 { 0int } else { 4 - len % 4 },
{
    if len % 4 == 0 {
        0
    } else {
        4 - (len % 4)
    }
}

} // verus!
