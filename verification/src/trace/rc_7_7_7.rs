//! The rc_7_7_7 provider's multiplicity trace: one column that counts, for
//! every address of the preprocessed table, how many times the consumers
//! requested that row.  The address packs the three 7-bit coordinates.

use vstd::prelude::*;

use crate::trace::{count_addr, count_multiplicities};

verus! {

/// Total address bits of the table.
pub const LOG_SIZE: u32 = 21;

pub const N_COLUMNS: usize = 1;

pub const N_INTERACTION_COLUMNS: usize = 4;

/// The table address a request asks for.
pub open spec fn spec_addr(t: (u8, u8, u8)) -> usize {
    ((t.0 as usize) + 128 * (t.1 as usize) + 16384 * (t.2 as usize)) as usize
}

/// The addresses of a request log.
pub open spec fn spec_addrs(reqs: Seq<(u8, u8, u8)>) -> Seq<usize> {
    reqs.map_values(|t: (u8, u8, u8)| spec_addr(t))
}

/// What the claim says about this component: the log2 of its trace
/// length, which is fixed by the table.
pub struct Claim {
    pub log_size: u32,
}

impl Claim {
    /// Column log-sizes per commitment tree.
    pub fn log_sizes(&self) -> (r: Vec<Vec<u32>>)
        ensures
            r@.len() == 3,
            r@[0]@.len() == 0,
            r@[1]@.len() == N_COLUMNS,
            forall|k: int| 0 <= k < N_COLUMNS ==> r@[1]@[k] == self.log_size,
            r@[2]@.len() == N_INTERACTION_COLUMNS,
            forall|k: int| 0 <= k < N_INTERACTION_COLUMNS ==> r@[2]@[k] == self.log_size,
    {
        let mut r: Vec<Vec<u32>> = Vec::new();
        r.push(Vec::new());
        r.push(crate::utils::repeat_u32(self.log_size, N_COLUMNS));
        r.push(crate::utils::repeat_u32(self.log_size, N_INTERACTION_COLUMNS));
        r
    }

    /// Build the multiplicity column from the consumers' request log.
    pub fn generate_trace(requests: &Vec<(u8, u8, u8)>) -> (r: (Claim, Vec<u32>))
        requires
            requests@.len() <= 0xFFFF_FFFF,
            forall|k: int|
                0 <= k < requests@.len() ==> crate::trace::rc_ok(#[trigger] requests@[k]),
        ensures
            r.0.log_size == LOG_SIZE,
            r.1@.len() == (1usize << LOG_SIZE),
            forall|a: int|
                0 <= a < r.1@.len() ==> (#[trigger] r.1@[a]) as int == count_addr(
                    spec_addrs(requests@),
                    a as usize,
                ),
    {
        let mut addrs: Vec<usize> = Vec::new();
        for k in 0..requests.len()
            invariant
                addrs@.len() == k,
                k <= requests@.len(),
                forall|j: int|
                    0 <= j < requests@.len() ==> crate::trace::rc_ok(#[trigger] requests@[j]),
                forall|j: int| 0 <= j < k ==> addrs@[j] == spec_addr(#[trigger] requests@[j]),
                forall|j: int| 0 <= j < k ==> #[trigger] addrs@[j] < (1usize << LOG_SIZE),
        {
            let t = requests[k];
            let a: usize = (t.0 as usize) + 128 * (t.1 as usize) + 16384 * (t.2 as usize);
            proof {
                assert((1usize << 21u32) == 2097152usize) by (bit_vector);
            }
            addrs.push(a);
        }
        proof {
            assert(addrs@ =~= spec_addrs(requests@));
        }
        let size: usize = 1usize << LOG_SIZE;
        let mult = count_multiplicities(&addrs, size);
        (Claim { log_size: LOG_SIZE }, mult)
    }
}

} // verus!
