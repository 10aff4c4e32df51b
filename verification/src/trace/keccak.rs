//! The keccak component: one row proves a complete 24-round Keccak-f[1600]
//! permutation by chaining 24 requests on the round bus.  The row stores
//! the input state and every post-round state; the chain consumes the
//! permutation bus tuple of the input and emits the one of the output.

use vstd::prelude::*;

use crate::keccak::{
    spec_iota_rc, spec_keccak_f1600, spec_keccak_round, spec_keccak_rounds, spec_rc_bytes,
    spec_state_of_words, spec_words_of_state,
};
use crate::trace::keccak_round::concat_bytes;

verus! {

pub const N_KECCAK_LOOKUPS: usize = 2;

pub const N_KECCAK_ROUND_LOOKUPS: usize = 2 * 24;

pub const N_COLUMNS: usize = 1 + (24 + 1) * 200;

pub const N_INTERACTION_COLUMNS: usize = 4 * ((N_KECCAK_LOOKUPS + N_KECCAK_ROUND_LOOKUPS + 1) / 2);

/// Position cursor into one row: how many cells have been laid down.
/// Trace filling and constraint evaluation must walk the row in the same
/// order; this counter is that shared schedule's summary.
pub struct Indexes {
    pub col_index: usize,
}

impl Indexes {
    /// The cursor position after a complete row.
    pub fn of_row(row: &KeccakRow) -> (r: Indexes)
        ensures
            r.col_index == row.cells@.len(),
    {
        Indexes { col_index: row.cells.len() }
    }
}

/// The state bytes after the first `r` rounds on `s`.
pub open spec fn spec_round_state(s: Seq<u8>, r: int) -> Seq<u8> {
    spec_state_of_words(spec_keccak_rounds(spec_words_of_state(s), r))
}

/// The witness of one keccak invocation.
pub struct KeccakRow {
    /// The row's cells: the enabler, the input state, and the 24
    /// post-round states.
    pub cells: Vec<u32>,
    /// The two permutation-bus tuples: the consumed input state and the
    /// emitted output state.
    pub keccak: Vec<Vec<u8>>,
    /// The 48 round-bus tuples: for every round, the emitted
    /// `(RC_r, state_r)` and the consumed `(RC_r+1, state_r+1)`.
    pub keccak_round: Vec<Vec<u8>>,
}

impl KeccakRow {
    /// The row is the honest witness for the permutation of `state`.
    pub open spec fn valid(self, state: Seq<u8>, e: u32) -> bool {
        &&& self.cells@.len() == N_COLUMNS
        &&& forall|k: int| 0 <= k < self.cells@.len() ==> #[trigger] self.cells@[k] < 256
        &&& self.cells@[0] == e
        &&& forall|r: int, i: int|
            0 <= r <= 24 && 0 <= i < 200 ==> self.cells@[1 + 200 * r + i] == (
            #[trigger] spec_round_state(state, r)[i]) as u32
        &&& self.keccak@.len() == N_KECCAK_LOOKUPS
        &&& self.keccak@[0]@ == state
        &&& self.keccak@[1]@ == spec_state_of_words(spec_keccak_f1600(spec_words_of_state(state)))
        &&& self.keccak_round@.len() == N_KECCAK_ROUND_LOOKUPS
        &&& forall|r: int|
            0 <= r < 24 ==> (#[trigger] self.keccak_round@[2 * r])@ == spec_rc_bytes(r)
                + spec_round_state(state, r)
        &&& forall|r: int|
            0 <= r < 24 ==> (#[trigger] self.keccak_round@[2 * r + 1])@ == spec_rc_bytes(r + 1)
                + spec_round_state(state, r + 1)
    }
}

/// Build the witness row for one complete permutation of `state`.
#[verifier::rlimit(100)]
#[verifier::spinoff_prover]
pub fn generate_row(state: &Vec<u8>, e: u32) -> (row: KeccakRow)
    requires
        state@.len() == 200,
        e <= 1,
    ensures
        row.valid(state@, e),
{
    let ghost sw = spec_words_of_state(state@);

    let mut cells: Vec<u32> = Vec::new();
    let mut keccak_log: Vec<Vec<u8>> = Vec::new();
    let mut round_log: Vec<Vec<u8>> = Vec::new();

    cells.push(e);
    for i in 0..200usize
        invariant
            state@.len() == 200,
            e <= 1,
            cells@.len() == 1 + i,
            cells@[0] == e,
            forall|k: int| 0 <= k < i ==> cells@[1 + k] == (#[trigger] state@[k]) as u32,
            forall|k: int| 0 <= k < cells@.len() ==> #[trigger] cells@[k] < 256,
    {
        cells.push(state[i] as u32);
    }
    keccak_log.push(crate::utils::copy_bytes(state));

    let mut words = crate::keccak::words_of_state(state);
    let mut cur = crate::utils::copy_bytes(state);
    proof {
        crate::keccak::lemma_state_words_roundtrip(state@);
        assert(cur@ == spec_round_state(state@, 0));
    }
    for r in 0..24usize
        invariant
            state@.len() == 200,
            e <= 1,
            sw == spec_words_of_state(state@),
            words@ == spec_keccak_rounds(sw, r as int),
            cur@ == spec_round_state(state@, r as int),
            cur@.len() == 200,
            words@.len() == 25,
            cells@.len() == 201 + 200 * r,
            cells@[0] == e,
            forall|k: int| 0 <= k < cells@.len() ==> #[trigger] cells@[k] < 256,
            forall|rr: int, i: int|
                0 <= rr <= r && 0 <= i < 200 ==> cells@[1 + 200 * rr + i] == (
                #[trigger] spec_round_state(state@, rr)[i]) as u32,
            round_log@.len() == 2 * r,
            forall|rr: int|
                0 <= rr < r ==> (#[trigger] round_log@[2 * rr])@ == spec_rc_bytes(rr)
                    + spec_round_state(state@, rr),
            forall|rr: int|
                0 <= rr < r ==> (#[trigger] round_log@[2 * rr + 1])@ == spec_rc_bytes(rr + 1)
                    + spec_round_state(state@, rr + 1),
            keccak_log@.len() == 1,
            keccak_log@[0]@ == state@,
    {
        let rc_b = crate::keccak::bytes_of_word(crate::keccak::iota_rc(r));
        let rc_nb = crate::keccak::bytes_of_word(crate::keccak::iota_rc(r + 1));
        proof {
            assert(rc_b@ =~= spec_rc_bytes(r as int));
            assert(rc_nb@ =~= spec_rc_bytes(r as int + 1));
        }
        round_log.push(concat_bytes(&rc_b, &cur));
        crate::keccak::keccak_f1600_round_words(&mut words, r);
        cur = crate::keccak::state_of_words(&words);
        let ghost r1 = r as int + 1;
        proof {
            assert(spec_keccak_rounds(sw, r1) == spec_keccak_round(
                spec_keccak_rounds(sw, r1 - 1),
                spec_iota_rc(r1 - 1),
            ));
            assert(words@ == spec_keccak_rounds(sw, r1));
            assert(cur@ == spec_round_state(state@, r1));
        }
        for i in 0..200usize
            invariant
                r < 24,
                state@.len() == 200,
                cur@.len() == 200,
                cur@ == spec_round_state(state@, r as int + 1),
                cells@.len() == 201 + 200 * r + i,
                cells@[0] == e,
                e <= 1,
                forall|k: int| 0 <= k < cells@.len() ==> #[trigger] cells@[k] < 256,
                forall|rr: int, ii: int|
                    0 <= rr <= r && 0 <= ii < 200 ==> cells@[1 + 200 * rr + ii] == (
                    #[trigger] spec_round_state(state@, rr)[ii]) as u32,
                forall|ii: int|
                    0 <= ii < i ==> cells@[201 + 200 * r + ii] == (#[trigger] cur@[ii]) as u32,
        {
            cells.push(cur[i] as u32);
        }
        proof {
            assert forall|rr: int, ii: int|
                0 <= rr <= r + 1 && 0 <= ii < 200 implies cells@[1 + 200 * rr + ii] == (
            #[trigger] spec_round_state(state@, rr)[ii]) as u32 by {
                if rr == r + 1 {
                    assert(cells@[201 + 200 * (r as int) + ii] == (cur@[ii]) as u32);
                }
            }
        }
        round_log.push(concat_bytes(&rc_nb, &cur));
    }
    keccak_log.push(cur);
    KeccakRow { cells, keccak: keccak_log, keccak_round: round_log }
}

/// What the claim says about this component: the log2 of its trace length.
pub struct Claim {
    pub log_size: u32,
}

impl Claim {
    /// Column log-sizes per commitment tree.
    pub fn log_sizes(&self) -> (r: Vec<Vec<u32>>)
        ensures
            r@.len() == 3,
            r@[0]@.len() == 0,
            r@[1]@.len() == N_COLUMNS,
            forall|k: int| 0 <= k < N_COLUMNS ==> r@[1]@[k] == self.log_size,
            r@[2]@.len() == N_INTERACTION_COLUMNS,
            forall|k: int| 0 <= k < N_INTERACTION_COLUMNS ==> r@[2]@[k] == self.log_size,
    {
        let mut r: Vec<Vec<u32>> = Vec::new();
        r.push(Vec::new());
        r.push(crate::utils::repeat_u32(self.log_size, N_COLUMNS));
        r.push(crate::utils::repeat_u32(self.log_size, N_INTERACTION_COLUMNS));
        r
    }

    /// Build the component's trace.  The trace length is fixed by the
    /// number of real invocations; the input list is truncated or padded
    /// with all-zero states to that length, and rows past `invocations`
    /// are disabled.
    #[verifier::rlimit(100)]
    pub fn generate_trace(inputs: Vec<Vec<u8>>, invocations: usize) -> (r: (Claim, Vec<KeccakRow>))
        requires
            invocations <= 0x100_0000,
            invocations <= inputs@.len(),
            forall|i: int| 0 <= i < inputs@.len() ==> (#[trigger] inputs@[i])@.len() == 200,
        ensures
            4 <= r.0.log_size <= 24,
            invocations <= (1usize << r.0.log_size),
            r.0.log_size > 4 ==> invocations > (1usize << (r.0.log_size - 1) as u32),
            r.1@.len() == (1usize << r.0.log_size),
            forall|i: int|
                0 <= i < r.1@.len() && i < inputs@.len() ==> (#[trigger] r.1@[i]).valid(
                    inputs@[i]@,
                    if i < invocations {
                        1u32
                    } else {
                        0u32
                    },
                ),
            forall|i: int|
                inputs@.len() <= i < r.1@.len() ==> (#[trigger] r.1@[i]).valid(
                    crate::trace::zero_state_seq(),
                    0,
                ),
    {
        let log_size = crate::utils::trace_log_size(invocations);
        let n_rows: usize = 1usize << log_size;

        let mut zero_state: Vec<u8> = Vec::new();
        for i in 0..200usize
            invariant
                zero_state@.len() == i,
                forall|k: int| 0 <= k < i ==> zero_state@[k] == 0u8,
        {
            zero_state.push(0u8);
        }
        proof {
            assert(zero_state@ =~= crate::trace::zero_state_seq());
        }

        let mut rows: Vec<KeccakRow> = Vec::new();
        for i in 0..n_rows
            invariant
                n_rows == (1usize << log_size),
                invocations <= inputs@.len(),
                forall|k: int| 0 <= k < inputs@.len() ==> (#[trigger] inputs@[k])@.len() == 200,
                zero_state@ == crate::trace::zero_state_seq(),
                zero_state@.len() == 200,
                rows@.len() == i,
                forall|k: int|
                    0 <= k < i && k < inputs@.len() ==> (#[trigger] rows@[k]).valid(
                        inputs@[k]@,
                        if k < invocations {
                            1u32
                        } else {
                            0u32
                        },
                    ),
                forall|k: int|
                    inputs@.len() <= k < i ==> (#[trigger] rows@[k]).valid(
                        crate::trace::zero_state_seq(),
                        0,
                    ),
        {
            let e: u32 = if i < invocations {
                1
            } else {
                0
            };
            if i < inputs.len() {
                rows.push(generate_row(&inputs[i], e));
            } else {
                rows.push(generate_row(&zero_state, 0));
            }
        }
        (Claim { log_size }, rows)
    }
}

} // verus!
