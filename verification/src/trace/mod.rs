//! Trace generation: for every component, the concrete witness columns and
//! the lookup-request logs that the interaction argument consumes.

pub mod chi_8_8_8;
pub mod keccak;
pub mod keccak_round;
pub mod rc_7_7_7;
pub mod shake256;
pub mod xor_8_8;
pub mod xor_8_8_8;

use vstd::prelude::*;

verus! {

// ────────────────────────────────────────────────────────────────────────
//  Lookup-tuple well-formedness
// ────────────────────────────────────────────────────────────────────────
// A lookup request is sound exactly when it matches the row of the
// provider table at its address: the first coordinates are the address,
// the last the table's derived output (none for the pure range check).

/// The all-zero 200-byte state that fills padding rows.
pub open spec fn zero_state_seq() -> Seq<u8> {
    Seq::new(200, |i: int| 0u8)
}

/// A two-operand xor request `(a, b, a ^ b)`.
pub open spec fn xor2_ok(t: (u8, u8, u8)) -> bool {
    t.2 == t.0 ^ t.1
}

/// A three-operand xor request `(a, b, c, a ^ b ^ c)`.
pub open spec fn xor3_ok(t: (u8, u8, u8, u8)) -> bool {
    t.3 == t.0 ^ t.1 ^ t.2
}

/// A chi request `(a, b, c, a ^ ((!b) & c))`.
pub open spec fn chi_ok(t: (u8, u8, u8, u8)) -> bool {
    t.3 == t.0 ^ ((!t.1) & t.2)
}

/// A range-check request: every coordinate fits in 7 bits.
pub open spec fn rc_ok(t: (u8, u8, u8)) -> bool {
    t.0 < 128 && t.1 < 128 && t.2 < 128
}

// ────────────────────────────────────────────────────────────────────────
//  Multiplicity counting
// ────────────────────────────────────────────────────────────────────────
// Each provider's multiplicity column counts, address by address, how
// often the consumers requested the table row at that address.

/// How many of the addresses equal `a`.
pub open spec fn count_addr(addrs: Seq<usize>, a: usize) -> int
    decreases addrs.len(),
{
    if addrs.len() == 0 {
        0
    } else {
        count_addr(addrs.drop_last(), a) + if addrs.last() == a {
            1int
        } else {
            0int
        }
    }
}

pub proof fn lemma_count_addr_le_len(addrs: Seq<usize>, a: usize)
    ensures
        0 <= count_addr(addrs, a) <= addrs.len(),
    decreases addrs.len(),
{
    if addrs.len() > 0 {
        lemma_count_addr_le_len(addrs.drop_last(), a);
    }
}

/// The multiplicity column: entry `a` counts the requests at address `a`.
#[verifier::rlimit(100)]
pub fn count_multiplicities(addrs: &Vec<usize>, size: usize) -> (mult: Vec<u32>)
    requires
        addrs@.len() <= 0xFFFF_FFFF,
        forall|k: int| 0 <= k < addrs@.len() ==> #[trigger] addrs@[k] < size,
    ensures
        mult@.len() == size,
        forall|a: int|
            0 <= a < size ==> (#[trigger] mult@[a]) as int == count_addr(addrs@, a as usize),
{
    let mut mult: Vec<u32> = Vec::new();
    for i in 0..size
        invariant
            mult@.len() == i,
            forall|a: int| 0 <= a < i ==> #[trigger] mult@[a] == 0,
    {
        mult.push(0u32);
    }
    for k in 0..addrs.len()
        invariant
            addrs@.len() <= 0xFFFF_FFFF,
            forall|j: int| 0 <= j < addrs@.len() ==> #[trigger] addrs@[j] < size,
            mult@.len() == size,
            forall|a: int|
                0 <= a < size ==> (#[trigger] mult@[a]) as int == count_addr(
                    addrs@.take(k as int),
                    a as usize,
                ),
    {
        let a = addrs[k];
        proof {
            lemma_count_addr_le_len(addrs@.take(k as int), a);
            assert(addrs@.take(k as int).len() == k);
            assert(mult@[a as int] < 0xFFFF_FFFFu32);
        }
        let m = mult[a];
        mult.set(a, m + 1);
        proof {
            assert forall|aa: int| 0 <= aa < size implies (#[trigger] mult@[aa]) as int
                == count_addr(addrs@.take(k as int + 1), aa as usize) by {
                let pre = addrs@.take(k as int);
                let post = addrs@.take(k as int + 1);
                assert(post =~= pre.push(addrs@[k as int]));
                assert(post.drop_last() =~= pre);
                assert(post.last() == addrs@[k as int]);
            }
        }
    }
    proof {
        assert(addrs@.take(addrs@.len() as int) =~= addrs@);
    }
    mult
}


// ────────────────────────────────────────────────────────────────────────
//  The full witness
// ────────────────────────────────────────────────────────────────────────

/// The message a row slot proves: a real message for the first slots, the
/// all-zero message for padding slots.
pub open spec fn pipeline_msg(messages: Seq<Vec<u8>>, i: int) -> Seq<u8> {
    if 0 <= i < messages.len() {
        messages[i]@
    } else {
        shake256::zero_message_seq()
    }
}

/// The input state of keccak slot `j`: permutation `j % 10` of the
/// session in message slot `j / 10`, or the all-zero state beyond the
/// last session slot.
pub open spec fn keccak_slot_state(messages: Seq<Vec<u8>>, n_slots: int, j: int) -> Seq<u8> {
    if j < 10 * n_slots {
        shake256::spec_shake_state(pipeline_msg(messages, j / 10), j % 10)
    } else {
        zero_state_seq()
    }
}

/// The input state of keccak_round slot `j`: round `j % 24` of the
/// permutation in keccak slot `j / 24`, or the all-zero state beyond the
/// last permutation slot.
pub open spec fn round_slot_state(
    messages: Seq<Vec<u8>>,
    n_slots: int,
    keccak_len: int,
    j: int,
) -> Seq<u8> {
    if j < 24 * keccak_len {
        crate::trace::keccak::spec_round_state(
            keccak_slot_state(messages, n_slots, j / 24),
            j % 24,
        )
    } else {
        zero_state_seq()
    }
}

/// The round index of keccak_round slot `j`.
pub open spec fn round_slot_round(keccak_len: int, j: int) -> int {
    if j < 24 * keccak_len {
        j % 24
    } else {
        0
    }
}

/// All two-operand xor requests of a keccak_round trace, row by row.
pub open spec fn all_xor2(rows: Seq<keccak_round::KeccakRoundRow>) -> Seq<(u8, u8, u8)>
    decreases rows.len(),
{
    if rows.len() == 0 {
        Seq::empty()
    } else {
        all_xor2(rows.drop_last()) + rows.last().xor_8_8@
    }
}

/// All three-operand xor requests of a keccak_round trace, row by row.
pub open spec fn all_xor3(rows: Seq<keccak_round::KeccakRoundRow>) -> Seq<(u8, u8, u8, u8)>
    decreases rows.len(),
{
    if rows.len() == 0 {
        Seq::empty()
    } else {
        all_xor3(rows.drop_last()) + rows.last().xor_8_8_8@
    }
}

/// All chi requests of a keccak_round trace, row by row.
pub open spec fn all_chi(rows: Seq<keccak_round::KeccakRoundRow>) -> Seq<(u8, u8, u8, u8)>
    decreases rows.len(),
{
    if rows.len() == 0 {
        Seq::empty()
    } else {
        all_chi(rows.drop_last()) + rows.last().chi_8_8_8@
    }
}

/// All range-check requests of a keccak_round trace, row by row.
pub open spec fn all_rc(rows: Seq<keccak_round::KeccakRoundRow>) -> Seq<(u8, u8, u8)>
    decreases rows.len(),
{
    if rows.len() == 0 {
        Seq::empty()
    } else {
        all_rc(rows.drop_last()) + rows.last().rc_7_7_7@
    }
}

/// The concrete witness of the whole proof: every component's rows or
/// multiplicity column, with the lookup logs embedded in the rows.
pub struct Traces {
    pub shake256: Vec<shake256::ShakeRow>,
    pub keccak: Vec<keccak::KeccakRow>,
    pub keccak_round: Vec<keccak_round::KeccakRoundRow>,
    pub xor_8_8_8: Vec<u32>,
    pub chi_8_8_8: Vec<u32>,
    pub xor_8_8: Vec<u32>,
    pub rc_7_7_7: Vec<u32>,
    /// The number of real (non-padding) messages.
    pub n_messages: usize,
}

/// What the claim says about the whole proof: one log-size per component.
pub struct Claim {
    pub shake256: shake256::Claim,
    pub keccak: keccak::Claim,
    pub keccak_round: keccak_round::Claim,
    pub xor_8_8_8: xor_8_8_8::Claim,
    pub chi_8_8_8: chi_8_8_8::Claim,
    pub xor_8_8: xor_8_8::Claim,
    pub rc_7_7_7: rc_7_7_7::Claim,
}

/// `n` copies of `v`.
pub open spec fn seq_repeat(v: u32, n: int) -> Seq<u32> {
    Seq::new(n as nat, |i: int| v)
}

/// Append `n` copies of `v`.
fn extend_repeat(dst: &mut Vec<u32>, v: u32, n: usize)
    ensures
        final(dst)@ == old(dst)@ + seq_repeat(v, n as int),
{
    let ghost d0 = old(dst)@;
    for i in 0..n
        invariant
            dst@.len() == d0.len() + i,
            forall|k: int| 0 <= k < d0.len() ==> dst@[k] == d0[k],
            forall|k: int| d0.len() <= k < d0.len() + i ==> #[trigger] dst@[k] == v,
    {
        dst.push(v);
    }
    assert(dst@ =~= d0 + seq_repeat(v, n as int));
}

impl Claim {
    /// Column log-sizes per commitment tree, all components concatenated
    /// in evaluation order.
    pub fn log_sizes(&self) -> (r: Vec<Vec<u32>>)
        ensures
            r@.len() == 3,
            r@[0]@.len() == 0,
            r@[1]@ == seq_repeat(self.shake256.log_size, shake256::N_COLUMNS as int) + seq_repeat(
                self.keccak.log_size,
                keccak::N_COLUMNS as int,
            ) + seq_repeat(self.keccak_round.log_size, keccak_round::N_COLUMNS as int) + seq_repeat(
                self.xor_8_8_8.log_size,
                1,
            ) + seq_repeat(self.chi_8_8_8.log_size, 1) + seq_repeat(self.xor_8_8.log_size, 1)
                + seq_repeat(self.rc_7_7_7.log_size, 1),
            r@[2]@ == seq_repeat(
                self.shake256.log_size,
                shake256::N_INTERACTION_COLUMNS as int,
            ) + seq_repeat(self.keccak.log_size, keccak::N_INTERACTION_COLUMNS as int) + seq_repeat(
                self.keccak_round.log_size,
                keccak_round::N_INTERACTION_COLUMNS as int,
            ) + seq_repeat(self.xor_8_8_8.log_size, 4) + seq_repeat(self.chi_8_8_8.log_size, 4)
                + seq_repeat(self.xor_8_8.log_size, 4) + seq_repeat(self.rc_7_7_7.log_size, 4),
    {
        let mut base: Vec<u32> = Vec::new();
        extend_repeat(&mut base, self.shake256.log_size, shake256::N_COLUMNS);
        extend_repeat(&mut base, self.keccak.log_size, keccak::N_COLUMNS);
        extend_repeat(&mut base, self.keccak_round.log_size, keccak_round::N_COLUMNS);
        extend_repeat(&mut base, self.xor_8_8_8.log_size, 1);
        extend_repeat(&mut base, self.chi_8_8_8.log_size, 1);
        extend_repeat(&mut base, self.xor_8_8.log_size, 1);
        extend_repeat(&mut base, self.rc_7_7_7.log_size, 1);
        let mut inter: Vec<u32> = Vec::new();
        extend_repeat(&mut inter, self.shake256.log_size, shake256::N_INTERACTION_COLUMNS);
        extend_repeat(&mut inter, self.keccak.log_size, keccak::N_INTERACTION_COLUMNS);
        extend_repeat(&mut inter, self.keccak_round.log_size, keccak_round::N_INTERACTION_COLUMNS);
        extend_repeat(&mut inter, self.xor_8_8_8.log_size, 4);
        extend_repeat(&mut inter, self.chi_8_8_8.log_size, 4);
        extend_repeat(&mut inter, self.xor_8_8.log_size, 4);
        extend_repeat(&mut inter, self.rc_7_7_7.log_size, 4);
        let mut r: Vec<Vec<u32>> = Vec::new();
        r.push(Vec::new());
        r.push(base);
        r.push(inter);
        r
    }
}

/// The input states of the keccak component: the pre-permutation state of
/// every permutation of every session slot, in slot order.
#[verifier::rlimit(100)]
fn collect_keccak_inputs(messages: &Vec<Vec<u8>>, shake_rows: &Vec<shake256::ShakeRow>) -> (r: Vec<
    Vec<u8>,
>)
    requires
        forall|i: int|
            0 <= i < shake_rows@.len() ==> (#[trigger] shake_rows@[i]).valid(
                pipeline_msg(messages@, i),
                if i < messages@.len() {
                    1u32
                } else {
                    0u32
                },
            ),
        shake_rows@.len() <= 0x100_0000,
    ensures
        r@.len() == 10 * shake_rows@.len(),
        forall|j: int|
            0 <= j < r@.len() ==> (#[trigger] r@[j])@ == keccak_slot_state(
                messages@,
                shake_rows@.len() as int,
                j,
            ),
        forall|j: int| 0 <= j < r@.len() ==> (#[trigger] r@[j])@.len() == 200,
{
    let mut r: Vec<Vec<u8>> = Vec::new();
    for m in 0..shake_rows.len()
        invariant
            forall|i: int|
                0 <= i < shake_rows@.len() ==> (#[trigger] shake_rows@[i]).valid(
                    pipeline_msg(messages@, i),
                    if i < messages@.len() {
                        1u32
                    } else {
                        0u32
                    },
                ),
            shake_rows@.len() <= 0x100_0000,
            r@.len() == 10 * m,
            forall|j: int|
                0 <= j < r@.len() ==> (#[trigger] r@[j])@ == keccak_slot_state(
                    messages@,
                    shake_rows@.len() as int,
                    j,
                ),
            forall|j: int| 0 <= j < r@.len() ==> (#[trigger] r@[j])@.len() == 200,
    {
        for k in 0..10usize
            invariant
                forall|i: int|
                    0 <= i < shake_rows@.len() ==> (#[trigger] shake_rows@[i]).valid(
                        pipeline_msg(messages@, i),
                        if i < messages@.len() {
                            1u32
                        } else {
                            0u32
                        },
                    ),
                shake_rows@.len() <= 0x100_0000,
                m < shake_rows@.len(),
                r@.len() == 10 * m + k,
                forall|j: int|
                    0 <= j < r@.len() ==> (#[trigger] r@[j])@ == keccak_slot_state(
                        messages@,
                        shake_rows@.len() as int,
                        j,
                    ),
                forall|j: int| 0 <= j < r@.len() ==> (#[trigger] r@[j])@.len() == 200,
        {
            let row = &shake_rows[m];
            let state = crate::utils::copy_bytes(&row.keccak[2 * k]);
            proof {
                let idx = 10 * (m as int) + k;
                assert(idx / 10 == m && idx % 10 == k) by (nonlinear_arith)
                    requires
                        idx == 10 * (m as int) + k && 0 <= k < 10 && 0 <= m,
                ;
                assert(shake_rows@[m as int].keccak@[2 * (k as int)]@ == shake256::spec_shake_state(
                    pipeline_msg(messages@, m as int),
                    k as int,
                ));
                assert(idx < 10 * shake_rows@.len());
            }
            r.push(state);
        }
    }
    r
}

/// The input states and round indices of the keccak_round component: the
/// pre-round state of every round of every permutation slot, in slot
/// order.
#[verifier::rlimit(100)]
fn collect_round_inputs(
    messages: &Vec<Vec<u8>>,
    n_slots: usize,
    keccak_rows: &Vec<keccak::KeccakRow>,
) -> (r: Vec<keccak_round::KeccakRoundInput>)
    requires
        forall|j: int|
            0 <= j < keccak_rows@.len() ==> (#[trigger] keccak_rows@[j]).valid(
                keccak_slot_state(messages@, n_slots as int, j),
                if j < keccak_rows@.len() {
                    keccak_rows@[j].cells@[0]
                } else {
                    0u32
                },
            ),
        keccak_rows@.len() <= 0x100_0000,
    ensures
        r@.len() == 24 * keccak_rows@.len(),
        forall|j: int|
            0 <= j < r@.len() ==> (#[trigger] r@[j]).state@ == round_slot_state(
                messages@,
                n_slots as int,
                keccak_rows@.len() as int,
                j,
            ),
        forall|j: int|
            0 <= j < r@.len() ==> (#[trigger] r@[j]).round == round_slot_round(
                keccak_rows@.len() as int,
                j,
            ),
        forall|j: int| 0 <= j < r@.len() ==> (#[trigger] r@[j]).wf(),
{
    let mut r: Vec<keccak_round::KeccakRoundInput> = Vec::new();
    for j in 0..keccak_rows.len()
        invariant
            forall|jj: int|
                0 <= jj < keccak_rows@.len() ==> (#[trigger] keccak_rows@[jj]).valid(
                    keccak_slot_state(messages@, n_slots as int, jj),
                    if jj < keccak_rows@.len() {
                        keccak_rows@[jj].cells@[0]
                    } else {
                        0u32
                    },
                ),
            keccak_rows@.len() <= 0x100_0000,
            r@.len() == 24 * j,
            forall|jj: int|
                0 <= jj < r@.len() ==> (#[trigger] r@[jj]).state@ == round_slot_state(
                    messages@,
                    n_slots as int,
                    keccak_rows@.len() as int,
                    jj,
                ),
            forall|jj: int|
                0 <= jj < r@.len() ==> (#[trigger] r@[jj]).round == round_slot_round(
                    keccak_rows@.len() as int,
                    jj,
                ),
            forall|jj: int| 0 <= jj < r@.len() ==> (#[trigger] r@[jj]).wf(),
    {
        for rd in 0..24usize
            invariant
                forall|jj: int|
                    0 <= jj < keccak_rows@.len() ==> (#[trigger] keccak_rows@[jj]).valid(
                        keccak_slot_state(messages@, n_slots as int, jj),
                        if jj < keccak_rows@.len() {
                            keccak_rows@[jj].cells@[0]
                        } else {
                            0u32
                        },
                    ),
                keccak_rows@.len() <= 0x100_0000,
                j < keccak_rows@.len(),
                r@.len() == 24 * j + rd,
                forall|jj: int|
                    0 <= jj < r@.len() ==> (#[trigger] r@[jj]).state@ == round_slot_state(
                        messages@,
                        n_slots as int,
                        keccak_rows@.len() as int,
                        jj,
                    ),
                forall|jj: int|
                    0 <= jj < r@.len() ==> (#[trigger] r@[jj]).round == round_slot_round(
                        keccak_rows@.len() as int,
                        jj,
                    ),
                forall|jj: int| 0 <= jj < r@.len() ==> (#[trigger] r@[jj]).wf(),
        {
            let row = &keccak_rows[j];
            let tuple = &row.keccak_round[2 * rd];
            let state = crate::utils::bytes_range(tuple, 8, 200);
            proof {
                let idx = 24 * (j as int) + rd;
                assert(idx / 24 == j && idx % 24 == rd) by (nonlinear_arith)
                    requires
                        idx == 24 * (j as int) + rd && 0 <= rd < 24 && 0 <= j,
                ;
                let sj = keccak_slot_state(messages@, n_slots as int, j as int);
                assert(keccak_rows@[j as int].keccak_round@[2 * (rd as int)]@
                    == crate::keccak::spec_rc_bytes(rd as int) + crate::trace::keccak::spec_round_state(
                    sj,
                    rd as int,
                ));
                assert(state@ =~= crate::trace::keccak::spec_round_state(sj, rd as int));
                assert(idx < 24 * keccak_rows@.len());
            }
            r.push(keccak_round::KeccakRoundInput { round: rd, state });
        }
    }
    r
}

/// Flatten the two-operand xor requests of a keccak_round trace, row by row.
#[verifier::rlimit(100)]
fn flatten_xor2(rows: &Vec<keccak_round::KeccakRoundRow>) -> (r: Vec<(u8, u8, u8)>)
    requires
        forall|j: int| 0 <= j < rows@.len() ==> (#[trigger] rows@[j]).wf(),
        rows@.len() <= 0x1000_0000,
    ensures
        r@ == all_xor2(rows@),
        r@.len() == 248 * rows@.len(),
        forall|k: int| 0 <= k < r@.len() ==> xor2_ok(#[trigger] r@[k]),
{
    let mut r: Vec<(u8, u8, u8)> = Vec::new();
    for j in 0..rows.len()
        invariant
            forall|jj: int| 0 <= jj < rows@.len() ==> (#[trigger] rows@[jj]).wf(),
            rows@.len() <= 0x1000_0000,
            r@ == all_xor2(rows@.take(j as int)),
            r@.len() == 248 * j,
            forall|k: int| 0 <= k < r@.len() ==> xor2_ok(#[trigger] r@[k]),
    {
        let row = &rows[j];
        let ghost r0 = r@;
        for i in 0..row.xor_8_8.len()
            invariant
                forall|jj: int| 0 <= jj < rows@.len() ==> (#[trigger] rows@[jj]).wf(),
                j < rows@.len(),
                row == &rows@[j as int],
                row.xor_8_8@.len() == 248,
                i <= row.xor_8_8@.len(),
                r@ == r0 + row.xor_8_8@.take(i as int),
                forall|k: int| 0 <= k < r@.len() ==> xor2_ok(#[trigger] r@[k]),
        {
            r.push(row.xor_8_8[i]);
            proof {
                assert(r@ =~= r0 + row.xor_8_8@.take(i as int + 1));
            }
        }
        proof {
            assert(row.xor_8_8@.take(row.xor_8_8@.len() as int) =~= row.xor_8_8@);
            assert(rows@.take(j as int + 1).drop_last() =~= rows@.take(j as int));
            assert(rows@.take(j as int + 1).last() == rows@[j as int]);
            assert(r@ =~= all_xor2(rows@.take(j as int + 1)));
        }
    }
    proof {
        assert(rows@.take(rows@.len() as int) =~= rows@);
    }
    r
}

/// Flatten the three-operand xor requests of a keccak_round trace, row by row.
#[verifier::rlimit(100)]
fn flatten_xor3(rows: &Vec<keccak_round::KeccakRoundRow>) -> (r: Vec<(u8, u8, u8, u8)>)
    requires
        forall|j: int| 0 <= j < rows@.len() ==> (#[trigger] rows@[j]).wf(),
        rows@.len() <= 0x1000_0000,
    ensures
        r@ == all_xor3(rows@),
        r@.len() == 80 * rows@.len(),
        forall|k: int| 0 <= k < r@.len() ==> xor3_ok(#[trigger] r@[k]),
{
    let mut r: Vec<(u8, u8, u8, u8)> = Vec::new();
    for j in 0..rows.len()
        invariant
            forall|jj: int| 0 <= jj < rows@.len() ==> (#[trigger] rows@[jj]).wf(),
            rows@.len() <= 0x1000_0000,
            r@ == all_xor3(rows@.take(j as int)),
            r@.len() == 80 * j,
            forall|k: int| 0 <= k < r@.len() ==> xor3_ok(#[trigger] r@[k]),
    {
        let row = &rows[j];
        let ghost r0 = r@;
        for i in 0..row.xor_8_8_8.len()
            invariant
                forall|jj: int| 0 <= jj < rows@.len() ==> (#[trigger] rows@[jj]).wf(),
                j < rows@.len(),
                row == &rows@[j as int],
                row.xor_8_8_8@.len() == 80,
                i <= row.xor_8_8_8@.len(),
                r@ == r0 + row.xor_8_8_8@.take(i as int),
                forall|k: int| 0 <= k < r@.len() ==> xor3_ok(#[trigger] r@[k]),
        {
            r.push(row.xor_8_8_8[i]);
            proof {
                assert(r@ =~= r0 + row.xor_8_8_8@.take(i as int + 1));
            }
        }
        proof {
            assert(row.xor_8_8_8@.take(row.xor_8_8_8@.len() as int) =~= row.xor_8_8_8@);
            assert(rows@.take(j as int + 1).drop_last() =~= rows@.take(j as int));
            assert(rows@.take(j as int + 1).last() == rows@[j as int]);
            assert(r@ =~= all_xor3(rows@.take(j as int + 1)));
        }
    }
    proof {
        assert(rows@.take(rows@.len() as int) =~= rows@);
    }
    r
}

/// Flatten the chi requests of a keccak_round trace, row by row.
#[verifier::rlimit(100)]
fn flatten_chi(rows: &Vec<keccak_round::KeccakRoundRow>) -> (r: Vec<(u8, u8, u8, u8)>)
    requires
        forall|j: int| 0 <= j < rows@.len() ==> (#[trigger] rows@[j]).wf(),
        rows@.len() <= 0x1000_0000,
    ensures
        r@ == all_chi(rows@),
        r@.len() == 200 * rows@.len(),
        forall|k: int| 0 <= k < r@.len() ==> chi_ok(#[trigger] r@[k]),
{
    let mut r: Vec<(u8, u8, u8, u8)> = Vec::new();
    for j in 0..rows.len()
        invariant
            forall|jj: int| 0 <= jj < rows@.len() ==> (#[trigger] rows@[jj]).wf(),
            rows@.len() <= 0x1000_0000,
            r@ == all_chi(rows@.take(j as int)),
            r@.len() == 200 * j,
            forall|k: int| 0 <= k < r@.len() ==> chi_ok(#[trigger] r@[k]),
    {
        let row = &rows[j];
        let ghost r0 = r@;
        for i in 0..row.chi_8_8_8.len()
            invariant
                forall|jj: int| 0 <= jj < rows@.len() ==> (#[trigger] rows@[jj]).wf(),
                j < rows@.len(),
                row == &rows@[j as int],
                row.chi_8_8_8@.len() == 200,
                i <= row.chi_8_8_8@.len(),
                r@ == r0 + row.chi_8_8_8@.take(i as int),
                forall|k: int| 0 <= k < r@.len() ==> chi_ok(#[trigger] r@[k]),
        {
            r.push(row.chi_8_8_8[i]);
            proof {
                assert(r@ =~= r0 + row.chi_8_8_8@.take(i as int + 1));
            }
        }
        proof {
            assert(row.chi_8_8_8@.take(row.chi_8_8_8@.len() as int) =~= row.chi_8_8_8@);
            assert(rows@.take(j as int + 1).drop_last() =~= rows@.take(j as int));
            assert(rows@.take(j as int + 1).last() == rows@[j as int]);
            assert(r@ =~= all_chi(rows@.take(j as int + 1)));
        }
    }
    proof {
        assert(rows@.take(rows@.len() as int) =~= rows@);
    }
    r
}

/// Flatten the range-check requests of a keccak_round trace, row by row.
#[verifier::rlimit(100)]
fn flatten_rc(rows: &Vec<keccak_round::KeccakRoundRow>) -> (r: Vec<(u8, u8, u8)>)
    requires
        forall|j: int| 0 <= j < rows@.len() ==> (#[trigger] rows@[j]).wf(),
        rows@.len() <= 0x1000_0000,
    ensures
        r@ == all_rc(rows@),
        r@.len() == 81 * rows@.len(),
        forall|k: int| 0 <= k < r@.len() ==> rc_ok(#[trigger] r@[k]),
{
    let mut r: Vec<(u8, u8, u8)> = Vec::new();
    for j in 0..rows.len()
        invariant
            forall|jj: int| 0 <= jj < rows@.len() ==> (#[trigger] rows@[jj]).wf(),
            rows@.len() <= 0x1000_0000,
            r@ == all_rc(rows@.take(j as int)),
            r@.len() == 81 * j,
            forall|k: int| 0 <= k < r@.len() ==> rc_ok(#[trigger] r@[k]),
    {
        let row = &rows[j];
        let ghost r0 = r@;
        for i in 0..row.rc_7_7_7.len()
            invariant
                forall|jj: int| 0 <= jj < rows@.len() ==> (#[trigger] rows@[jj]).wf(),
                j < rows@.len(),
                row == &rows@[j as int],
                row.rc_7_7_7@.len() == 81,
                i <= row.rc_7_7_7@.len(),
                r@ == r0 + row.rc_7_7_7@.take(i as int),
                forall|k: int| 0 <= k < r@.len() ==> rc_ok(#[trigger] r@[k]),
        {
            r.push(row.rc_7_7_7[i]);
            proof {
                assert(r@ =~= r0 + row.rc_7_7_7@.take(i as int + 1));
            }
        }
        proof {
            assert(row.rc_7_7_7@.take(row.rc_7_7_7@.len() as int) =~= row.rc_7_7_7@);
            assert(rows@.take(j as int + 1).drop_last() =~= rows@.take(j as int));
            assert(rows@.take(j as int + 1).last() == rows@[j as int]);
            assert(r@ =~= all_rc(rows@.take(j as int + 1)));
        }
    }
    proof {
        assert(rows@.take(rows@.len() as int) =~= rows@);
    }
    r
}

impl Claim {
    /// Build the whole witness for a batch of 72-byte messages: the
    /// session trace, the permutation trace it requests, the round trace
    /// the permutations request, and the four multiplicity columns that
    /// balance the byte-level requests of the round trace.  The ensures
    /// tie every bus tuple of a consumer to its producer, which is the
    /// multiplicity balance of every relation.
    #[verifier::rlimit(100)]
    #[verifier::spinoff_prover]
    pub fn generate_trace(messages: &Vec<Vec<u8>>) -> (r: (Claim, Traces))
        requires
            messages@.len() <= 0x8000,
            forall|i: int| 0 <= i < messages@.len() ==> (#[trigger] messages@[i])@.len() == 72,
        ensures
            r.1.n_messages == messages@.len(),
            // The session component.
            4 <= r.0.shake256.log_size <= 24,
            messages@.len() <= (1usize << r.0.shake256.log_size),
            r.0.shake256.log_size > 4 ==> messages@.len() > (1usize << (r.0.shake256.log_size
                - 1) as u32),
            r.1.shake256@.len() == (1usize << r.0.shake256.log_size),
            forall|i: int|
                0 <= i < r.1.shake256@.len() ==> (#[trigger] r.1.shake256@[i]).valid(
                    pipeline_msg(messages@, i),
                    if i < messages@.len() {
                        1u32
                    } else {
                        0u32
                    },
                ),
            // The permutation component consumes exactly the session
            // component's permutation requests, slot by slot.
            4 <= r.0.keccak.log_size <= 24,
            r.1.keccak@.len() == (1usize << r.0.keccak.log_size),
            10 * messages@.len() <= r.1.keccak@.len(),
            forall|j: int|
                0 <= j < r.1.keccak@.len() ==> (#[trigger] r.1.keccak@[j]).valid(
                    keccak_slot_state(messages@, r.1.shake256@.len() as int, j),
                    if j < 10 * messages@.len() {
                        1u32
                    } else {
                        0u32
                    },
                ),
            // The round component consumes exactly the permutation
            // component's round requests, slot by slot.
            4 <= r.0.keccak_round.log_size <= 24,
            r.1.keccak_round@.len() == (1usize << r.0.keccak_round.log_size),
            240 * messages@.len() <= r.1.keccak_round@.len(),
            forall|j: int|
                0 <= j < r.1.keccak_round@.len() ==> (#[trigger] r.1.keccak_round@[j]).valid(
                    round_slot_state(
                        messages@,
                        r.1.shake256@.len() as int,
                        r.1.keccak@.len() as int,
                        j,
                    ),
                    round_slot_round(r.1.keccak@.len() as int, j),
                    if j < 240 * messages@.len() {
                        1u32
                    } else {
                        0u32
                    },
                ),
            // The providers count exactly the round trace's requests.
            r.0.xor_8_8.log_size == 16,
            r.1.xor_8_8@.len() == (1usize << 16u32),
            forall|a: int|
                0 <= a < r.1.xor_8_8@.len() ==> (#[trigger] r.1.xor_8_8@[a]) as int == count_addr(
                    xor_8_8::spec_addrs(all_xor2(r.1.keccak_round@)),
                    a as usize,
                ),
            r.0.xor_8_8_8.log_size == 24,
            r.1.xor_8_8_8@.len() == (1usize << 24u32),
            forall|a: int|
                0 <= a < r.1.xor_8_8_8@.len() ==> (#[trigger] r.1.xor_8_8_8@[a]) as int
                    == count_addr(xor_8_8_8::spec_addrs(all_xor3(r.1.keccak_round@)), a as usize),
            r.0.chi_8_8_8.log_size == 24,
            r.1.chi_8_8_8@.len() == (1usize << 24u32),
            forall|a: int|
                0 <= a < r.1.chi_8_8_8@.len() ==> (#[trigger] r.1.chi_8_8_8@[a]) as int
                    == count_addr(chi_8_8_8::spec_addrs(all_chi(r.1.keccak_round@)), a as usize),
            r.0.rc_7_7_7.log_size == 21,
            r.1.rc_7_7_7@.len() == (1usize << 21u32),
            forall|a: int|
                0 <= a < r.1.rc_7_7_7@.len() ==> (#[trigger] r.1.rc_7_7_7@[a]) as int == count_addr(
                    rc_7_7_7::spec_addrs(all_rc(r.1.keccak_round@)),
                    a as usize,
                ),
    {
        let n = messages.len();
        let (shake_claim, shake_rows) = shake256::Claim::generate_trace(messages);

        // The permutation slots requested by the sessions.
        proof {
            let sl = shake_claim.log_size;
            assert((1usize << sl) <= (1usize << 24u32)) by (bit_vector)
                requires
                    sl <= 24,
            ;
            assert((1usize << 24u32) == 0x100_0000usize) by (bit_vector);
        }
        let keccak_inputs = collect_keccak_inputs(messages, &shake_rows);
        let keccak_invocations = 10 * n;
        let ghost n_slots = shake_rows@.len() as int;
        let (keccak_claim, keccak_rows) = keccak::Claim::generate_trace(
            keccak_inputs,
            keccak_invocations,
        );
        proof {
            assert forall|j: int|
                0 <= j < keccak_rows@.len() implies (#[trigger] keccak_rows@[j]).valid(
                keccak_slot_state(messages@, n_slots, j),
                if j < 10 * messages@.len() {
                    1u32
                } else {
                    0u32
                },
            ) by {
                if j >= 10 * n_slots {
                    assert(keccak_slot_state(messages@, n_slots, j) == zero_state_seq());
                }
            }
        }

        // The round slots requested by the permutations.
        proof {
            assert forall|j: int|
                0 <= j < keccak_rows@.len() implies (#[trigger] keccak_rows@[j]).valid(
                keccak_slot_state(messages@, n_slots, j),
                if j < keccak_rows@.len() {
                    keccak_rows@[j].cells@[0]
                } else {
                    0u32
                },
            ) by {
                assert(keccak_rows@[j].valid(
                    keccak_slot_state(messages@, n_slots, j),
                    if j < 10 * messages@.len() {
                        1u32
                    } else {
                        0u32
                    },
                ));
            }
        }
        proof {
            let kl = keccak_claim.log_size;
            assert((1usize << kl) <= (1usize << 24u32)) by (bit_vector)
                requires
                    kl <= 24,
            ;
            assert((1usize << 24u32) == 0x100_0000usize) by (bit_vector);
        }
        let round_inputs = collect_round_inputs(messages, shake_rows.len(), &keccak_rows);
        let round_invocations = 24 * keccak_invocations;
        let ghost keccak_len = keccak_rows@.len() as int;
        let (round_claim, round_rows) = keccak_round::Claim::generate_trace(
            round_inputs,
            round_invocations,
        );
        proof {
            assert forall|j: int|
                0 <= j < round_rows@.len() implies (#[trigger] round_rows@[j]).valid(
                round_slot_state(messages@, n_slots, keccak_len, j),
                round_slot_round(keccak_len, j),
                if j < 240 * messages@.len() {
                    1u32
                } else {
                    0u32
                },
            ) by {
                if j >= 24 * keccak_len {
                    assert(round_slot_state(messages@, n_slots, keccak_len, j)
                        == zero_state_seq());
                }
            }
        }

        // The byte-level requests of the round trace, counted by the
        // providers.
        proof {
            assert forall|j: int| 0 <= j < round_rows@.len() implies (
            #[trigger] round_rows@[j]).wf() by {
                assert(round_rows@[j].valid(
                    round_slot_state(messages@, n_slots, keccak_len, j),
                    round_slot_round(keccak_len, j),
                    if j < 240 * messages@.len() {
                        1u32
                    } else {
                        0u32
                    },
                ));
            }
            assert((1usize << 23u32) == 8388608usize) by (bit_vector);
            if round_claim.log_size == 24 {
                assert(240 * messages@.len() > (1usize << 23u32));
                assert(false);
            }
            assert(round_claim.log_size <= 23);
            let rl = round_claim.log_size;
            assert((1usize << rl) <= (1usize << 23u32)) by (bit_vector)
                requires
                    rl <= 23,
            ;
        }
        let xor2_reqs = flatten_xor2(&round_rows);
        let xor3_reqs = flatten_xor3(&round_rows);
        let chi_reqs = flatten_chi(&round_rows);
        let rc_reqs = flatten_rc(&round_rows);
        let (xor2_claim, xor2_mult) = xor_8_8::Claim::generate_trace(&xor2_reqs);
        let (xor3_claim, xor3_mult) = xor_8_8_8::Claim::generate_trace(&xor3_reqs);
        let (chi_claim, chi_mult) = chi_8_8_8::Claim::generate_trace(&chi_reqs);
        let (rc_claim, rc_mult) = rc_7_7_7::Claim::generate_trace(&rc_reqs);

        let claim = Claim {
            shake256: shake_claim,
            keccak: keccak_claim,
            keccak_round: round_claim,
            xor_8_8_8: xor3_claim,
            chi_8_8_8: chi_claim,
            xor_8_8: xor2_claim,
            rc_7_7_7: rc_claim,
        };
        let traces = Traces {
            shake256: shake_rows,
            keccak: keccak_rows,
            keccak_round: round_rows,
            xor_8_8_8: xor3_mult,
            chi_8_8_8: chi_mult,
            xor_8_8: xor2_mult,
            rc_7_7_7: rc_mult,
            n_messages: n,
        };
        (claim, traces)
    }
}


/// Lookup closure on the internal buses: in an honest witness, every
/// enabled permutation row consumes exactly the tuple some enabled
/// session row emitted and emits exactly the tuple that session row
/// consumes, and likewise between permutation and round rows.  Every
/// enabled bus tuple therefore appears once with `+1` and once with `-1`,
/// so its signed multiplicity cancels; disabled rows contribute nothing.
pub proof fn lemma_bus_balance(t: Traces, messages: Seq<Vec<u8>>)
    requires
        t.n_messages == messages.len(),
        10 * messages.len() <= t.keccak@.len(),
        240 * messages.len() <= t.keccak_round@.len(),
        forall|i: int|
            0 <= i < t.shake256@.len() ==> (#[trigger] t.shake256@[i]).valid(
                pipeline_msg(messages, i),
                if i < messages.len() {
                    1u32
                } else {
                    0u32
                },
            ),
        messages.len() <= t.shake256@.len(),
        forall|j: int|
            0 <= j < t.keccak@.len() ==> (#[trigger] t.keccak@[j]).valid(
                keccak_slot_state(messages, t.shake256@.len() as int, j),
                if j < 10 * messages.len() {
                    1u32
                } else {
                    0u32
                },
            ),
        forall|j: int|
            0 <= j < t.keccak_round@.len() ==> (#[trigger] t.keccak_round@[j]).valid(
                round_slot_state(messages, t.shake256@.len() as int, t.keccak@.len() as int, j),
                round_slot_round(t.keccak@.len() as int, j),
                if j < 240 * messages.len() {
                    1u32
                } else {
                    0u32
                },
            ),
    ensures
        // Permutation bus: enabled permutation rows consume the states
        // the enabled session rows emit, and emit the states they
        // consume.
        forall|j: int|
            0 <= j < 10 * messages.len() ==> (#[trigger] t.keccak@[j]).keccak@[0]@
                == t.shake256@[j / 10].keccak@[2 * (j % 10)]@,
        forall|j: int|
            0 <= j < 10 * messages.len() ==> (#[trigger] t.keccak@[j]).keccak@[1]@
                == t.shake256@[j / 10].keccak@[2 * (j % 10) + 1]@,
        // Round bus: enabled round rows consume the tuples the enabled
        // permutation rows emit, and emit the tuples they consume.
        forall|j: int|
            0 <= j < 240 * messages.len() ==> (#[trigger] t.keccak_round@[j]).round_in@
                == t.keccak@[j / 24].keccak_round@[2 * (j % 24)]@,
        forall|j: int|
            0 <= j < 240 * messages.len() ==> (#[trigger] t.keccak_round@[j]).round_out@
                == t.keccak@[j / 24].keccak_round@[2 * (j % 24) + 1]@,
{
    let n_slots = t.shake256@.len() as int;
    let keccak_len = t.keccak@.len() as int;
    assert forall|j: int| 0 <= j < 10 * messages.len() implies (#[trigger] t.keccak@[j]).keccak@[0]@
        == t.shake256@[j / 10].keccak@[2 * (j % 10)]@ && (t.keccak@[j]).keccak@[1]@
        == t.shake256@[j / 10].keccak@[2 * (j % 10) + 1]@ by {
        let m = j / 10;
        let k = j % 10;
        assert(0 <= m < messages.len() && 0 <= k < 10) by (nonlinear_arith)
            requires
                0 <= j < 10 * messages.len() && m == j / 10 && k == j % 10,
        ;
        assert(j < 10 * n_slots) by (nonlinear_arith)
            requires
                j < 10 * messages.len() && messages.len() <= n_slots,
        ;
        assert(t.shake256@[m].valid(pipeline_msg(messages, m), 1));
        assert(t.keccak@[j].valid(keccak_slot_state(messages, n_slots, j), 1));
        let msg = pipeline_msg(messages, m);
        assert(t.shake256@[m].keccak@[2 * k]@ == shake256::spec_shake_state(msg, k));
        assert(t.shake256@[m].keccak@[2 * k + 1]@ == shake256::spec_shake_state(msg, k + 1));
        assert(keccak_slot_state(messages, n_slots, j) == shake256::spec_shake_state(msg, k));
        assert(t.keccak@[j].keccak@[0]@ == shake256::spec_shake_state(msg, k));
        // The permutation output is the next session state by the
        // definition of the session state chain.
        assert(t.keccak@[j].keccak@[1]@ == crate::keccak::spec_state_of_words(
            crate::keccak::spec_keccak_f1600(
                crate::keccak::spec_words_of_state(shake256::spec_shake_state(msg, k)),
            ),
        ));
        assert(shake256::spec_shake_state(msg, k + 1) == crate::keccak::spec_state_of_words(
            crate::keccak::spec_keccak_f1600(
                crate::keccak::spec_words_of_state(shake256::spec_shake_state(msg, k)),
            ),
        ));
    }
    assert forall|j: int| 0 <= j < 240 * messages.len() implies (
    #[trigger] t.keccak_round@[j]).round_in@ == t.keccak@[j / 24].keccak_round@[2 * (j % 24)]@ && (
    t.keccak_round@[j]).round_out@ == t.keccak@[j / 24].keccak_round@[2 * (j % 24) + 1]@ by {
        let p = j / 24;
        let r = j % 24;
        assert(0 <= p < 10 * messages.len() && 0 <= r < 24) by (nonlinear_arith)
            requires
                0 <= j < 240 * messages.len() && p == j / 24 && r == j % 24,
        ;
        assert(j < 24 * keccak_len) by (nonlinear_arith)
            requires
                j < 24 * (10 * messages.len()) && 10 * messages.len() <= keccak_len && p == j / 24,
        ;
        let sj = keccak_slot_state(messages, n_slots, p);
        assert(t.keccak@[p].valid(sj, 1));
        assert(t.keccak_round@[j].valid(
            round_slot_state(messages, n_slots, keccak_len, j),
            round_slot_round(keccak_len, j),
            1,
        ));
        let rin = keccak::spec_round_state(sj, r);
        assert(round_slot_state(messages, n_slots, keccak_len, j) == rin);
        assert(t.keccak@[p].keccak_round@[2 * r]@ == crate::keccak::spec_rc_bytes(r) + rin);
        assert(t.keccak_round@[j].round_in@ == crate::keccak::spec_rc_bytes(r) + rin);
        // The round row's output is the next round state of the
        // permutation row.
        let rin_words = crate::keccak::spec_words_of_state(rin);
        crate::keccak::lemma_words_state_roundtrip(
            crate::keccak::spec_keccak_rounds(crate::keccak::spec_words_of_state(sj), r),
        );
        assert(rin_words == crate::keccak::spec_keccak_rounds(
            crate::keccak::spec_words_of_state(sj),
            r,
        ));
        assert(t.keccak_round@[j].out_state@ == crate::keccak::spec_state_of_words(
            crate::keccak::spec_keccak_round(rin_words, crate::keccak::spec_iota_rc(r)),
        ));
        assert(keccak::spec_round_state(sj, r + 1) == crate::keccak::spec_state_of_words(
            crate::keccak::spec_keccak_round(rin_words, crate::keccak::spec_iota_rc(r)),
        ));
        assert(t.keccak@[p].keccak_round@[2 * r + 1]@ == crate::keccak::spec_rc_bytes(r + 1)
            + keccak::spec_round_state(sj, r + 1));
        assert(t.keccak_round@[j].round_out@ == crate::keccak::spec_rc_bytes(r + 1)
            + t.keccak_round@[j].out_state@);
    }
}
} // verus!
