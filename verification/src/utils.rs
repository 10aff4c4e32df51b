//! Small helpers shared by all components: the enabler column that switches
//! padding rows off.

use vstd::prelude::*;

verus! {

/// The enabler column of a component trace: rows below `padding_offset`
/// are real invocations and carry the value 1, all later rows are padding
/// and carry the value 0.
pub struct Enabler {
    /// Number of active (non-padded) rows in the trace.
    pub padding_offset: usize,
}

impl Enabler {
    /// The enabler cell at `row`, as a spec-level value.
    pub open spec fn spec_at(self, row: int) -> u32 {
        if row < self.padding_offset {
            1u32
        } else {
            0u32
        }
    }

    pub fn new(padding_offset: usize) -> (r: Self)
        ensures
            r.padding_offset == padding_offset,
    {
        Self { padding_offset }
    }

    /// The enabler cell at `row`: 1 on real rows, 0 on padding rows.
    pub fn at(&self, row: usize) -> (r: u32)
        ensures
            r == self.spec_at(row as int),
            r == 0 || r == 1,
    {
        if row < self.padding_offset {
            1
        } else {
            0
        }
    }
}

/// The log2 of a component's padded trace length: the smallest power of
/// two that holds `n` rows, and never less than one SIMD pack of rows.
pub fn trace_log_size(n: usize) -> (r: u32)
    requires
        n <= 0x100_0000,
    ensures
        4 <= r <= 24,
        n <= (1usize << r),
        r > 4 ==> n > (1usize << (r - 1) as u32),
{
    let mut r: u32 = 4;
    let mut p: usize = 16;
    proof {
        assert(16usize == (1usize << 4u32)) by (bit_vector);
    }
    while p < n
        invariant
            n <= 0x100_0000,
            4 <= r <= 24,
            p >= 16,
            p == (1usize << r),
            r > 4 ==> n > (1usize << (r - 1) as u32),
        decreases 24 - r,
    {
        proof {
            assert((1usize << r) < 0x100_0000usize && r <= 24 ==> r < 24) by (bit_vector);
            assert((1usize << r) < n <= 0x100_0000);
            assert((1usize << (r + 1)) == 2 * (1usize << r)) by (bit_vector)
                requires
                    r < 24,
            ;
        }
        p = p * 2;
        r = r + 1;
    }
    r
}

/// A fresh copy of a byte vector.
pub fn copy_bytes(a: &Vec<u8>) -> (r: Vec<u8>)
    ensures
        r@ == a@,
{
    let mut r: Vec<u8> = Vec::new();
    for i in 0..a.len()
        invariant
            i <= a@.len(),
            r@.len() == i,
            forall|k: int| 0 <= k < i ==> r@[k] == a@[k],
    {
        r.push(a[i]);
    }
    assert(r@ =~= a@);
    r
}

/// The bytes `start .. start + len` of a byte vector.
pub fn bytes_range(a: &Vec<u8>, start: usize, len: usize) -> (r: Vec<u8>)
    requires
        start + len <= a@.len(),
    ensures
        r@ == a@.subrange(start as int, start as int + len as int),
{
    let end = a.len();
    let mut r: Vec<u8> = Vec::new();
    for i in 0..len
        invariant
            end == a@.len(),
            start + len <= a@.len(),
            r@.len() == i,
            forall|k: int| 0 <= k < i ==> r@[k] == a@[start + k],
    {
        r.push(a[start + i]);
    }
    assert(r@ =~= a@.subrange(start as int, start as int + len as int));
    r
}

/// Byte-vector equality.
pub fn bytes_eq(a: &Vec<u8>, b: &Vec<u8>) -> (r: bool)
    ensures
        r <==> a@ == b@,
{
    if a.len() != b.len() {
        return false;
    }
    for i in 0..a.len()
        invariant
            a@.len() == b@.len(),
            i <= a@.len(),
            forall|k: int| 0 <= k < i ==> a@[k] == b@[k],
    {
        if a[i] != b[i] {
            return false;
        }
    }
    proof {
        assert(a@ =~= b@);
    }
    true
}

/// A vector holding `n` copies of `v`.
pub fn repeat_u32(v: u32, n: usize) -> (r: Vec<u32>)
    ensures
        r@.len() == n,
        forall|k: int| 0 <= k < n ==> r@[k] == v,
{
    let mut r: Vec<u32> = Vec::new();
    for i in 0..n
        invariant
            r@.len() == i,
            forall|k: int| 0 <= k < i ==> r@[k] == v,
    {
        r.push(v);
    }
    r
}

} // verus!
