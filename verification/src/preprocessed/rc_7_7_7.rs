//! The preprocessed rc_7_7_7 table: verifier-known columns enumerating every triple of
//! 7-bit values, serving the range checks.

use vstd::prelude::*;

verus! {

pub const LOG_SIZE: u32 = 21;

pub const N_TRACE_COLUMNS: usize = 3;

/// The three coordinate columns at address `i`.
pub open spec fn spec_col_a(i: int) -> u32 {
    (i % 128) as u32
}

pub open spec fn spec_col_b(i: int) -> u32 {
    (i / 128 % 128) as u32
}

pub open spec fn spec_col_c(i: int) -> u32 {
    (i / 16384 % 128) as u32
}

/// The table row at address `idx`.
pub fn table_cell(idx: usize) -> (r: (u32, u32, u32))
    requires
        idx < 2097152,
    ensures
        r.0 == spec_col_a(idx as int),
        r.1 == spec_col_b(idx as int),
        r.2 == spec_col_c(idx as int),
{
    ((idx % 128) as u32, (idx / 128 % 128) as u32, (idx / 16384 % 128) as u32)
}

/// A sound range-check request matches the table row it addresses.
pub proof fn lemma_request_matches_table(t: (u8, u8, u8))
    requires
        crate::trace::rc_ok(t),
    ensures
        spec_col_a(crate::trace::rc_7_7_7::spec_addr(t) as int) == t.0 as u32,
        spec_col_b(crate::trace::rc_7_7_7::spec_addr(t) as int) == t.1 as u32,
        spec_col_c(crate::trace::rc_7_7_7::spec_addr(t) as int) == t.2 as u32,
{
    let a = crate::trace::rc_7_7_7::spec_addr(t) as int;
    assert(a == t.0 + 128 * t.1 + 16384 * t.2);
    assert(a % 128 == t.0 && a / 128 % 128 == t.1 && a / 16384 % 128 == t.2) by (nonlinear_arith)
        requires
            a == t.0 + 128 * t.1 + 16384 * t.2 && t.0 < 128 && t.1 < 128 && t.2 < 128,
    ;
}

/// The full preprocessed columns.
#[verifier::rlimit(100)]
pub fn generate_preprocessed_trace() -> (cols: Vec<Vec<u32>>)
    ensures
        cols@.len() == N_TRACE_COLUMNS,
        forall|c: int| 0 <= c < N_TRACE_COLUMNS ==> (#[trigger] cols@[c])@.len() == (1usize
            << LOG_SIZE),
        forall|i: int| 0 <= i < (1usize << LOG_SIZE) ==> #[trigger] cols@[0]@[i] == spec_col_a(i),
        forall|i: int| 0 <= i < (1usize << LOG_SIZE) ==> #[trigger] cols@[1]@[i] == spec_col_b(i),
        forall|i: int| 0 <= i < (1usize << LOG_SIZE) ==> #[trigger] cols@[2]@[i] == spec_col_c(i),
{
    proof {
        assert((1usize << 21u32) == 2097152usize) by (bit_vector);
    }
    let n: usize = 1usize << LOG_SIZE;
    let mut ca: Vec<u32> = Vec::new();
    let mut cb: Vec<u32> = Vec::new();
    let mut cc: Vec<u32> = Vec::new();
    for i in 0..n
        invariant
            n == 2097152,
            ca@.len() == i,
            cb@.len() == i,
            cc@.len() == i,
            forall|k: int| 0 <= k < i ==> #[trigger] ca@[k] == spec_col_a(k),
            forall|k: int| 0 <= k < i ==> #[trigger] cb@[k] == spec_col_b(k),
            forall|k: int| 0 <= k < i ==> #[trigger] cc@[k] == spec_col_c(k),
    {
        let (a, b, c) = table_cell(i);
        ca.push(a);
        cb.push(b);
        cc.push(c);
    }
    let mut cols: Vec<Vec<u32>> = Vec::new();
    cols.push(ca);
    cols.push(cb);
    cols.push(cc);
    cols
}

} // verus!
