//! The preprocessed traces: the verifier-known lookup tables of the four
//! provider components.

pub mod chi_8_8_8;
pub mod rc_7_7_7;
pub mod xor_8_8;
pub mod xor_8_8_8;

use vstd::prelude::*;

verus! {

/// The log-sizes of all preprocessed columns, in commitment order:
/// xor_8_8, xor_8_8_8, chi_8_8_8, rc_7_7_7.
pub fn preprocessed_log_sizes() -> (r: Vec<u32>)
    ensures
        r@.len() == 14,
        forall|k: int| 0 <= k < 3 ==> #[trigger] r@[k] == 16u32,
        forall|k: int| 3 <= k < 11 ==> #[trigger] r@[k] == 24u32,
        forall|k: int| 11 <= k < 14 ==> #[trigger] r@[k] == 21u32,
{
    let mut r: Vec<u32> = Vec::new();
    let mut i: usize = 0;
    while i < 3
        invariant
            i <= 3,
            r@.len() == i,
            forall|k: int| 0 <= k < i ==> #[trigger] r@[k] == 16u32,
        decreases 3 - i,
    {
        r.push(16u32);
        i = i + 1;
    }
    let mut j: usize = 0;
    while j < 8
        invariant
            j <= 8,
            r@.len() == 3 + j,
            forall|k: int| 0 <= k < 3 ==> #[trigger] r@[k] == 16u32,
            forall|k: int| 3 <= k < 3 + j ==> #[trigger] r@[k] == 24u32,
        decreases 8 - j,
    {
        r.push(24u32);
        j = j + 1;
    }
    let mut l: usize = 0;
    while l < 3
        invariant
            l <= 3,
            r@.len() == 11 + l,
            forall|k: int| 0 <= k < 3 ==> #[trigger] r@[k] == 16u32,
            forall|k: int| 3 <= k < 11 ==> #[trigger] r@[k] == 24u32,
            forall|k: int| 11 <= k < 11 + l ==> #[trigger] r@[k] == 21u32,
        decreases 3 - l,
    {
        r.push(21u32);
        l = l + 1;
    }
    r
}

} // verus!
