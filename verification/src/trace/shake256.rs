//! The shake256 component: one row proves one SHAKE-256 session on a
//! 72-byte message.  The row absorbs the padded message, runs ten
//! permutations through the permutation bus, and emits the 1360-byte
//! output on the session bus.

use vstd::prelude::*;

use crate::keccak::{spec_keccak_f1600, spec_state_of_words, spec_words_of_state};

verus! {

pub const N_SHAKE256_LOOKUPS: usize = 2;

/// One pre- and one post-state per squeezing permutation.
pub const N_KECCAK_LOOKUPS: usize = 2 * 10;

pub const N_COLUMNS: usize = 1 + 72 + 200 * 10;

pub const N_INTERACTION_COLUMNS: usize = 4 * ((N_SHAKE256_LOOKUPS + N_KECCAK_LOOKUPS) / 2);

/// Session-bus tuples are padded to the width of the larger side.
pub const RELATION_SIZE_SHAKE256: usize = 1360;

/// Position cursors into one row: how many cells and how many
/// permutation-bus requests have been laid down.  Trace filling and
/// constraint evaluation must walk the row in the same order; these
/// counters are that shared schedule's summary.
pub struct Indexes {
    pub col_index: usize,
    pub keccak_index: usize,
}

impl Indexes {
    /// The cursor positions after a complete row.
    pub fn of_row(row: &ShakeRow) -> (r: Indexes)
        ensures
            r.col_index == row.cells@.len(),
            r.keccak_index == row.keccak@.len(),
    {
        Indexes { col_index: row.cells.len(), keccak_index: row.keccak.len() }
    }
}

/// The sponge state holding the padded message: the message bytes, the
/// domain separator 0x1F, the final bit 0x80 at the last rate byte, and
/// zeroes elsewhere.
pub open spec fn spec_padded_state(m: Seq<u8>) -> Seq<u8> {
    Seq::new(
        200,
        |i: int|
            if i < 72 {
                m[i]
            } else if i == 72 {
                0x1Fu8
            } else if i == 135 {
                0x80u8
            } else {
                0u8
            },
    )
}

/// The sponge state after `k` permutations of the padded message.
pub open spec fn spec_shake_state(m: Seq<u8>, k: int) -> Seq<u8>
    decreases k,
{
    if k <= 0 {
        spec_padded_state(m)
    } else {
        spec_state_of_words(spec_keccak_f1600(spec_words_of_state(spec_shake_state(m, k - 1))))
    }
}

/// The 1360-byte SHAKE-256 output of a 72-byte message: ten rate blocks,
/// block `k` being the first 136 bytes of the state after `k + 1`
/// permutations.
pub open spec fn spec_shake256_output(m: Seq<u8>) -> Seq<u8> {
    Seq::new(1360, |i: int| spec_shake_state(m, i / 136 + 1)[i % 136])
}

/// The consumed session-bus tuple: the message, zero-padded to the width
/// of the output.
pub open spec fn spec_shake_input_tuple(m: Seq<u8>) -> Seq<u8> {
    Seq::new(
        1360,
        |i: int|
            if i < 72 {
                m[i]
            } else {
                0u8
            },
    )
}

/// The all-zero message that fills padding rows.
pub open spec fn zero_message_seq() -> Seq<u8> {
    Seq::new(72, |i: int| 0u8)
}

/// The witness of one SHAKE-256 session.
pub struct ShakeRow {
    /// The row's cells: the enabler, the 72 message bytes, and the ten
    /// post-permutation states.
    pub cells: Vec<u32>,
    /// The two session-bus tuples: the consumed padded message and the
    /// emitted output.
    pub shake256: Vec<Vec<u8>>,
    /// The twenty permutation-bus tuples: the emitted pre-state and the
    /// consumed post-state of each permutation.
    pub keccak: Vec<Vec<u8>>,
}

impl ShakeRow {
    /// The row is the honest witness for one session on `m`.
    pub open spec fn valid(self, m: Seq<u8>, e: u32) -> bool {
        &&& self.cells@.len() == N_COLUMNS
        &&& forall|k: int| 0 <= k < self.cells@.len() ==> #[trigger] self.cells@[k] < 256
        &&& self.cells@[0] == e
        &&& forall|i: int| 0 <= i < 72 ==> self.cells@[1 + i] == (#[trigger] m[i]) as u32
        &&& forall|k: int, i: int|
            0 <= k < 10 && 0 <= i < 200 ==> self.cells@[73 + 200 * k + i] == (
            #[trigger] spec_shake_state(m, k + 1)[i]) as u32
        &&& self.shake256@.len() == N_SHAKE256_LOOKUPS
        &&& self.shake256@[0]@ == spec_shake_input_tuple(m)
        &&& self.shake256@[1]@ == spec_shake256_output(m)
        &&& self.keccak@.len() == N_KECCAK_LOOKUPS
        &&& forall|k: int|
            0 <= k < 10 ==> (#[trigger] self.keccak@[2 * k])@ == spec_shake_state(m, k)
        &&& forall|k: int|
            0 <= k < 10 ==> (#[trigger] self.keccak@[2 * k + 1])@ == spec_shake_state(m, k + 1)
    }
}

/// Build the witness row for one SHAKE-256 session on `msg`.
#[verifier::rlimit(100)]
#[verifier::spinoff_prover]
pub fn generate_row(msg: &Vec<u8>, e: u32) -> (row: ShakeRow)
    requires
        msg@.len() == 72,
        e <= 1,
    ensures
        row.valid(msg@, e),
{
    let mut cells: Vec<u32> = Vec::new();
    let mut shake_log: Vec<Vec<u8>> = Vec::new();
    let mut keccak_log: Vec<Vec<u8>> = Vec::new();

    cells.push(e);
    for i in 0..72usize
        invariant
            msg@.len() == 72,
            e <= 1,
            cells@.len() == 1 + i,
            cells@[0] == e,
            forall|k: int| 0 <= k < i ==> cells@[1 + k] == (#[trigger] msg@[k]) as u32,
            forall|k: int| 0 <= k < cells@.len() ==> #[trigger] cells@[k] < 256,
    {
        cells.push(msg[i] as u32);
    }

    // The consumed session tuple: the message, zero-padded.
    let mut shake_in: Vec<u8> = Vec::new();
    for i in 0..72usize
        invariant
            msg@.len() == 72,
            shake_in@.len() == i,
            forall|k: int| 0 <= k < i ==> shake_in@[k] == msg@[k],
    {
        shake_in.push(msg[i]);
    }
    for i in 72..1360usize
        invariant
            msg@.len() == 72,
            shake_in@.len() == i,
            forall|k: int| 0 <= k < 72 ==> shake_in@[k] == msg@[k],
            forall|k: int| 72 <= k < i ==> shake_in@[k] == 0u8,
    {
        shake_in.push(0u8);
    }
    proof {
        assert(shake_in@ =~= spec_shake_input_tuple(msg@));
    }
    shake_log.push(shake_in);

    // The padded sponge state.
    let mut cur: Vec<u8> = Vec::new();
    for i in 0..200usize
        invariant
            msg@.len() == 72,
            cur@.len() == i,
            forall|k: int| 0 <= k < i ==> cur@[k] == spec_padded_state(msg@)[k],
    {
        if i < 72 {
            cur.push(msg[i]);
        } else if i == 72 {
            cur.push(0x1Fu8);
        } else if i == 135 {
            cur.push(0x80u8);
        } else {
            cur.push(0u8);
        }
    }
    proof {
        assert(cur@ =~= spec_padded_state(msg@));
    }

    // Ten permutations; the rate part of each result is an output block.
    let mut z: Vec<u8> = Vec::new();
    for k in 0..10usize
        invariant
            msg@.len() == 72,
            e <= 1,
            cur@.len() == 200,
            cur@ == spec_shake_state(msg@, k as int),
            cells@.len() == 73 + 200 * k,
            cells@[0] == e,
            forall|i: int| 0 <= i < 72 ==> cells@[1 + i] == (#[trigger] msg@[i]) as u32,
            forall|kk: int, i: int|
                0 <= kk < k && 0 <= i < 200 ==> cells@[73 + 200 * kk + i] == (
                #[trigger] spec_shake_state(msg@, kk + 1)[i]) as u32,
            forall|kc: int| 0 <= kc < cells@.len() ==> #[trigger] cells@[kc] < 256,
            keccak_log@.len() == 2 * k,
            forall|kk: int|
                0 <= kk < k ==> (#[trigger] keccak_log@[2 * kk])@ == spec_shake_state(msg@, kk),
            forall|kk: int|
                0 <= kk < k ==> (#[trigger] keccak_log@[2 * kk + 1])@ == spec_shake_state(
                    msg@,
                    kk + 1,
                ),
            z@.len() == 136 * k,
            forall|i: int| 0 <= i < 136 * k ==> z@[i] == spec_shake256_output(msg@)[i],
            shake_log@.len() == 1,
            shake_log@[0]@ == spec_shake_input_tuple(msg@),
    {
        keccak_log.push(crate::utils::copy_bytes(&cur));
        let mut words = crate::keccak::words_of_state(&cur);
        crate::keccak::keccak_f1600(&mut words);
        let next = crate::keccak::state_of_words(&words);
        proof {
            assert(next@ == spec_shake_state(msg@, k as int + 1));
        }
        cur = next;
        keccak_log.push(crate::utils::copy_bytes(&cur));
        for i in 0..200usize
            invariant
                msg@.len() == 72,
                k < 10,
                e <= 1,
                cur@.len() == 200,
                cur@ == spec_shake_state(msg@, k as int + 1),
                cells@.len() == 73 + 200 * k + i,
                cells@[0] == e,
                forall|ii: int| 0 <= ii < 72 ==> cells@[1 + ii] == (#[trigger] msg@[ii]) as u32,
                forall|kk: int, ii: int|
                    0 <= kk < k && 0 <= ii < 200 ==> cells@[73 + 200 * kk + ii] == (
                    #[trigger] spec_shake_state(msg@, kk + 1)[ii]) as u32,
                forall|ii: int|
                    0 <= ii < i ==> cells@[73 + 200 * (k as int) + ii] == (#[trigger] cur@[ii]) as u32,
                forall|kc: int| 0 <= kc < cells@.len() ==> #[trigger] cells@[kc] < 256,
        {
            cells.push(cur[i] as u32);
        }
        proof {
            assert forall|kk: int, ii: int|
                0 <= kk < k + 1 && 0 <= ii < 200 implies cells@[73 + 200 * kk + ii] == (
            #[trigger] spec_shake_state(msg@, kk + 1)[ii]) as u32 by {
                if kk == k {
                    assert(cells@[73 + 200 * (k as int) + ii] == (cur@[ii]) as u32);
                }
            }
        }
        for i in 0..136usize
            invariant
                msg@.len() == 72,
                k < 10,
                cur@.len() == 200,
                cur@ == spec_shake_state(msg@, k as int + 1),
                z@.len() == 136 * k + i,
                forall|ii: int| 0 <= ii < 136 * k + i ==> z@[ii] == spec_shake256_output(msg@)[ii],
        {
            z.push(cur[i]);
            proof {
                let idx = 136 * (k as int) + i;
                assert(idx / 136 == k && idx % 136 == i) by (nonlinear_arith)
                    requires
                        idx == 136 * (k as int) + i && 0 <= i < 136 && 0 <= k,
                ;
                assert(z@[idx] == spec_shake256_output(msg@)[idx]);
            }
        }
    }
    proof {
        assert(z@ =~= spec_shake256_output(msg@));
    }
    shake_log.push(z);

    ShakeRow { cells, shake256: shake_log, keccak: keccak_log }
}

/// What the claim says about this component: the log2 of its trace length.
pub struct Claim {
    pub log_size: u32,
}

impl Claim {
    /// Column log-sizes per commitment tree.
    pub fn log_sizes(&self) -> (r: Vec<Vec<u32>>)
        ensures
            r@.len() == 3,
            r@[0]@.len() == 0,
            r@[1]@.len() == N_COLUMNS,
            forall|k: int| 0 <= k < N_COLUMNS ==> r@[1]@[k] == self.log_size,
            r@[2]@.len() == N_INTERACTION_COLUMNS,
            forall|k: int| 0 <= k < N_INTERACTION_COLUMNS ==> r@[2]@[k] == self.log_size,
    {
        let mut r: Vec<Vec<u32>> = Vec::new();
        r.push(Vec::new());
        r.push(crate::utils::repeat_u32(self.log_size, N_COLUMNS));
        r.push(crate::utils::repeat_u32(self.log_size, N_INTERACTION_COLUMNS));
        r
    }

    /// Build the component's trace: one row per message, padded with
    /// disabled all-zero-message rows up to a power of two.
    #[verifier::rlimit(100)]
    pub fn generate_trace(messages: &Vec<Vec<u8>>) -> (r: (Claim, Vec<ShakeRow>))
        requires
            messages@.len() <= 0x100_0000,
            forall|i: int| 0 <= i < messages@.len() ==> (#[trigger] messages@[i])@.len() == 72,
        ensures
            4 <= r.0.log_size <= 24,
            messages@.len() <= (1usize << r.0.log_size),
            r.0.log_size > 4 ==> messages@.len() > (1usize << (r.0.log_size - 1) as u32),
            r.1@.len() == (1usize << r.0.log_size),
            forall|i: int|
                0 <= i < messages@.len() ==> (#[trigger] r.1@[i]).valid(messages@[i]@, 1),
            forall|i: int|
                messages@.len() <= i < r.1@.len() ==> (#[trigger] r.1@[i]).valid(
                    zero_message_seq(),
                    0,
                ),
    {
        let n_messages = messages.len();
        let log_size = crate::utils::trace_log_size(n_messages);
        let n_rows: usize = 1usize << log_size;

        let mut zero_msg: Vec<u8> = Vec::new();
        for i in 0..72usize
            invariant
                zero_msg@.len() == i,
                forall|k: int| 0 <= k < i ==> zero_msg@[k] == 0u8,
        {
            zero_msg.push(0u8);
        }
        proof {
            assert(zero_msg@ =~= zero_message_seq());
        }

        let mut rows: Vec<ShakeRow> = Vec::new();
        for i in 0..n_rows
            invariant
                n_rows == (1usize << log_size),
                n_messages == messages@.len(),
                forall|k: int| 0 <= k < messages@.len() ==> (#[trigger] messages@[k])@.len() == 72,
                zero_msg@ == zero_message_seq(),
                zero_msg@.len() == 72,
                rows@.len() == i,
                forall|k: int|
                    0 <= k < i && k < messages@.len() ==> (#[trigger] rows@[k]).valid(
                        messages@[k]@,
                        1,
                    ),
                forall|k: int|
                    messages@.len() <= k < i ==> (#[trigger] rows@[k]).valid(zero_message_seq(), 0),
        {
            if i < n_messages {
                rows.push(generate_row(&messages[i], 1));
            } else {
                rows.push(generate_row(&zero_msg, 0));
            }
        }
        (Claim { log_size }, rows)
    }
}

} // verus!
