//! The preprocessed chi_8_8_8 table: verifier-known columns enumerating every triple of
//! 8-bit operands together with their chi combination.

use vstd::prelude::*;

verus! {

pub const LOG_SIZE: u32 = 24;

pub const N_TRACE_COLUMNS: usize = 4;

/// Operand columns and the derived output at address `i`.
pub open spec fn spec_col_a(i: int) -> u32 {
    (i % 256) as u32
}

pub open spec fn spec_col_b(i: int) -> u32 {
    (i / 256 % 256) as u32
}

pub open spec fn spec_col_c(i: int) -> u32 {
    (i / 65536 % 256) as u32
}

pub open spec fn spec_col_res(i: int) -> u32 {
    (((i % 256) as u8) ^ ((!((i / 256 % 256) as u8)) & ((i / 65536 % 256) as u8))) as u32
}

/// The table row at address `idx`.
pub fn table_cell(idx: usize) -> (r: (u32, u32, u32, u32))
    requires
        idx < 16777216,
    ensures
        r.0 == spec_col_a(idx as int),
        r.1 == spec_col_b(idx as int),
        r.2 == spec_col_c(idx as int),
        r.3 == spec_col_res(idx as int),
{
    let a = (idx % 256) as u8;
    let b = (idx / 256 % 256) as u8;
    let c = (idx / 65536 % 256) as u8;
    let res = a ^ ((!b) & c);
    (a as u32, b as u32, c as u32, res as u32)
}

/// A sound request matches the table row it addresses.
pub proof fn lemma_request_matches_table(t: (u8, u8, u8, u8))
    requires
        crate::trace::chi_ok(t),
    ensures
        spec_col_a(crate::trace::chi_8_8_8::spec_addr(t) as int) == t.0 as u32,
        spec_col_b(crate::trace::chi_8_8_8::spec_addr(t) as int) == t.1 as u32,
        spec_col_c(crate::trace::chi_8_8_8::spec_addr(t) as int) == t.2 as u32,
        spec_col_res(crate::trace::chi_8_8_8::spec_addr(t) as int) == t.3 as u32,
{
    let a = crate::trace::chi_8_8_8::spec_addr(t) as int;
    assert(a == t.0 + 256 * t.1 + 65536 * t.2);
    assert(a % 256 == t.0 && a / 256 % 256 == t.1 && a / 65536 % 256 == t.2) by (nonlinear_arith)
        requires
            a == t.0 + 256 * t.1 + 65536 * t.2 && t.0 < 256 && t.1 < 256 && t.2 < 256,
    ;
    
}

/// The full preprocessed columns: operands and derived output.
#[verifier::rlimit(100)]
pub fn generate_preprocessed_trace() -> (cols: Vec<Vec<u32>>)
    ensures
        cols@.len() == N_TRACE_COLUMNS,
        forall|c: int| 0 <= c < N_TRACE_COLUMNS ==> (#[trigger] cols@[c])@.len() == (1usize
            << LOG_SIZE),
        forall|i: int| 0 <= i < (1usize << LOG_SIZE) ==> #[trigger] cols@[0]@[i] == spec_col_a(i),
        forall|i: int| 0 <= i < (1usize << LOG_SIZE) ==> #[trigger] cols@[1]@[i] == spec_col_b(i),
        forall|i: int| 0 <= i < (1usize << LOG_SIZE) ==> #[trigger] cols@[2]@[i] == spec_col_c(i),
        forall|i: int| 0 <= i < (1usize << LOG_SIZE) ==> #[trigger] cols@[3]@[i] == spec_col_res(i),
{
    proof {
        assert((1usize << 24u32) == 16777216usize) by (bit_vector);
    }
    let n: usize = 1usize << LOG_SIZE;
    let mut ca: Vec<u32> = Vec::new();
    let mut cb: Vec<u32> = Vec::new();
    let mut cc: Vec<u32> = Vec::new();
    let mut cr: Vec<u32> = Vec::new();
    for i in 0..n
        invariant
            n == 16777216,
            ca@.len() == i,
            cb@.len() == i,
            cc@.len() == i,
            cr@.len() == i,
            forall|k: int| 0 <= k < i ==> #[trigger] ca@[k] == spec_col_a(k),
            forall|k: int| 0 <= k < i ==> #[trigger] cb@[k] == spec_col_b(k),
            forall|k: int| 0 <= k < i ==> #[trigger] cc@[k] == spec_col_c(k),
            forall|k: int| 0 <= k < i ==> #[trigger] cr@[k] == spec_col_res(k),
    {
        let (a, b, c, r) = table_cell(i);
        ca.push(a);
        cb.push(b);
        cc.push(c);
        cr.push(r);
    }
    let mut cols: Vec<Vec<u32>> = Vec::new();
    cols.push(ca);
    cols.push(cb);
    cols.push(cc);
    cols.push(cr);
    cols
}

} // verus!
