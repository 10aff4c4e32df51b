//! The keccak_round component: one row proves one Keccak-f[1600] round.
//! A row holds the round-constant bytes, the 200 input-state bytes, and a
//! hint byte for every intermediate quantity of theta, rho/pi, chi and
//! iota; every hint is justified by one lookup request against a provider
//! table, and the pre-/post-round states are exchanged on the round bus.

use vstd::prelude::*;

use crate::keccak::{
    lemma_bit_rotation, lemma_byte_of_word8, lemma_byte_rotation, lemma_mask_bound,
    lemma_rot_decompose, lemma_word_eq_by_bytes, lemma_word8_chi, lemma_word8_xor, rotr64,
    spec_byte_of_word, word8,
};
use crate::trace::{chi_ok, rc_ok, xor2_ok, xor3_ok};

verus! {

// ────────────────────────────────────────────────────────────────────────
//  Per-row lookup and column counts
// ────────────────────────────────────────────────────────────────────────

pub const N_KECCAK_ROUND_LOOKUPS: usize = 2;

/// Xor requests of theta's `D` and `S ^ D` updates.
pub const N_XOR_8_8_LOOKUPS1: usize = 5 * 8 + 25 * 8;

/// Xor requests of the iota byte.
pub const N_XOR_8_8_LOOKUPS2: usize = 8;

pub const N_XOR_8_8_LOOKUPS: usize = N_XOR_8_8_LOOKUPS1 + N_XOR_8_8_LOOKUPS2;

/// Two xor3 requests per byte of each of theta's five column parities.
pub const N_XOR_8_8_8_LOOKUPS: usize = 5 * 2 * 8;

pub const N_CHI_8_8_8_LOOKUPS: usize = 25 * 8;

/// Range checks of the five single-bit rotations of theta.
pub const N_RC_7_7_7_LOOKUPS_1: usize = 5 * 3;

/// Range checks of the rho rotations; 3 rotations are trivial.
pub const N_RC_7_7_7_LOOKUPS_2: usize = (25 - 3) * 3;

pub const N_RC_7_7_7_LOOKUPS: usize = N_RC_7_7_7_LOOKUPS_1 + N_RC_7_7_7_LOOKUPS_2;

pub const N_COLUMNS: usize = 1 + 2 * 8 + 200 + (2 * 5 * 8 + 5 * 8 + 5 * 8 + 25 * 8 + (25 - 3) * 8
    + 25 * 8 + 8);

pub const N_INTERACTION_COLUMNS: usize = 4 * ((N_KECCAK_ROUND_LOOKUPS + N_XOR_8_8_LOOKUPS
    + N_XOR_8_8_8_LOOKUPS + N_CHI_8_8_8_LOOKUPS + N_RC_7_7_7_LOOKUPS + 1) / 2);

// ────────────────────────────────────────────────────────────────────────
//  The rotation witness
// ────────────────────────────────────────────────────────────────────────
// A right-rotation by `n = 8q + r` bits first rotates the 8 little-endian
// bytes by `q` places, which needs no witness, then rotates each byte by
// the residue `r`.  The residue step splits every byte into its high `r`
// bits (hinted in the trace) and low `8 - r` bits (recovered by the
// constraint), and range checks of `mask - lo` keep the split honest.

/// The hinted high part of byte `i` of the rotation of `a` by `n` bits.
pub open spec fn spec_rot_hi(a: Seq<u8>, n: int, i: int) -> u8 {
    a[(i + n / 8) % 8] >> ((n % 8) as u64)
}

/// The low mask `2^(n % 8) - 1`.
pub open spec fn spec_rot_mask(n: int) -> u8 {
    ((1u8 << ((n % 8) as u64)) - 1) as u8
}

/// The low part of byte `i` of the rotation of `a` by `n` bits.
pub open spec fn spec_rot_lo(a: Seq<u8>, n: int, i: int) -> u8 {
    a[(i + n / 8) % 8] & spec_rot_mask(n)
}

/// One coordinate of the range-check requests: `mask - lo`.
pub open spec fn spec_rc_coord(a: Seq<u8>, n: int, i: int) -> u8 {
    (spec_rot_mask(n) - spec_rot_lo(a, n, i)) as u8
}

/// The 8 hint cells a non-trivial rotation appends to the row.
pub open spec fn spec_rotr_hints(a: Seq<u8>, n: int) -> Seq<u32> {
    Seq::new(8, |i: int| spec_rot_hi(a, n, i) as u32)
}

/// The 3 range-check requests a non-trivial rotation emits.
pub open spec fn spec_rotr_rc_tuples(a: Seq<u8>, n: int) -> Seq<(u8, u8, u8)> {
    seq![
        (spec_rc_coord(a, n, 0), spec_rc_coord(a, n, 1), spec_rc_coord(a, n, 2)),
        (spec_rc_coord(a, n, 3), spec_rc_coord(a, n, 4), spec_rc_coord(a, n, 5)),
        (spec_rc_coord(a, n, 6), spec_rc_coord(a, n, 7), 0u8),
    ]
}

// ────────────────────────────────────────────────────────────────────────
//  Lane helpers
// ────────────────────────────────────────────────────────────────────────

/// Copy lane `j` (8 bytes) out of a 200-byte state.
pub fn lane_of(s: &Vec<u8>, j: usize) -> (r: Vec<u8>)
    requires
        s@.len() == 200,
        j < 25,
    ensures
        r@ == s@.subrange(8 * j as int, 8 * j as int + 8),
        r@.len() == 8,
{
    let mut r: Vec<u8> = Vec::new();
    for i in 0..8usize
        invariant
            s@.len() == 200,
            j < 25,
            r@.len() == i,
            forall|k: int| 0 <= k < i ==> r@[k] == s@[8 * j + k],
    {
        r.push(s[8 * j + i]);
    }
    assert(r@ =~= s@.subrange(8 * j as int, 8 * j as int + 8));
    r
}

/// Xor two lanes byte by byte, hint the result in the trace row and log
/// one two-operand xor request per byte.
pub fn xor2_lane_hint(
    a: &Vec<u8>,
    b: &Vec<u8>,
    cells: &mut Vec<u32>,
    log: &mut Vec<(u8, u8, u8)>,
) -> (r: Vec<u8>)
    requires
        a@.len() == 8,
        b@.len() == 8,
    ensures
        r@.len() == 8,
        forall|i: int| 0 <= i < 8 ==> r@[i] == a@[i] ^ b@[i],
        word8(r@) == word8(a@) ^ word8(b@),
        final(cells)@ == old(cells)@ + r@.map_values(|x: u8| x as u32),
        final(log)@ == old(log)@ + Seq::new(8, |i: int| (a@[i], b@[i], r@[i])),
        forall|k: int| old(log)@.len() <= k < final(log)@.len() ==> xor2_ok(#[trigger] final(log)@[k]),
{
    let mut r: Vec<u8> = Vec::new();
    let ghost cells0 = cells@;
    let ghost log0 = log@;
    for i in 0..8usize
        invariant
            a@.len() == 8,
            b@.len() == 8,
            r@.len() == i,
            forall|k: int| 0 <= k < i ==> r@[k] == a@[k] ^ b@[k],
            cells@.len() == cells0.len() + i,
            forall|k: int| 0 <= k < cells0.len() ==> cells@[k] == cells0[k],
            forall|k: int| 0 <= k < i ==> cells@[cells0.len() + k] == r@[k] as u32,
            log@.len() == log0.len() + i,
            forall|k: int| 0 <= k < log0.len() ==> log@[k] == log0[k],
            forall|k: int| 0 <= k < i ==> log@[log0.len() + k] == (a@[k], b@[k], r@[k]),
    {
        let v = a[i] ^ b[i];
        r.push(v);
        cells.push(v as u32);
        log.push((a[i], b[i], v));
    }
    proof {
        lemma_word8_xor(a@, b@, r@);
        assert(cells@ =~= cells0 + r@.map_values(|x: u8| x as u32));
        assert(log@ =~= log0 + Seq::new(8, |i: int| (a@[i], b@[i], r@[i])));
    }
    r
}

/// Xor three lanes byte by byte, hint the result and log one
/// three-operand xor request per byte.
pub fn xor3_lane_hint(
    a: &Vec<u8>,
    b: &Vec<u8>,
    c: &Vec<u8>,
    cells: &mut Vec<u32>,
    log: &mut Vec<(u8, u8, u8, u8)>,
) -> (r: Vec<u8>)
    requires
        a@.len() == 8,
        b@.len() == 8,
        c@.len() == 8,
    ensures
        r@.len() == 8,
        forall|i: int| 0 <= i < 8 ==> r@[i] == a@[i] ^ b@[i] ^ c@[i],
        word8(r@) == word8(a@) ^ word8(b@) ^ word8(c@),
        final(cells)@ == old(cells)@ + r@.map_values(|x: u8| x as u32),
        final(log)@ == old(log)@ + Seq::new(8, |i: int| (a@[i], b@[i], c@[i], r@[i])),
        forall|k: int| old(log)@.len() <= k < final(log)@.len() ==> xor3_ok(#[trigger] final(log)@[k]),
{
    let mut r: Vec<u8> = Vec::new();
    let ghost cells0 = cells@;
    let ghost log0 = log@;
    for i in 0..8usize
        invariant
            a@.len() == 8,
            b@.len() == 8,
            c@.len() == 8,
            r@.len() == i,
            forall|k: int| 0 <= k < i ==> r@[k] == a@[k] ^ b@[k] ^ c@[k],
            cells@.len() == cells0.len() + i,
            forall|k: int| 0 <= k < cells0.len() ==> cells@[k] == cells0[k],
            forall|k: int| 0 <= k < i ==> cells@[cells0.len() + k] == r@[k] as u32,
            log@.len() == log0.len() + i,
            forall|k: int| 0 <= k < log0.len() ==> log@[k] == log0[k],
            forall|k: int| 0 <= k < i ==> log@[log0.len() + k] == (a@[k], b@[k], c@[k], r@[k]),
    {
        let v = a[i] ^ b[i] ^ c[i];
        r.push(v);
        cells.push(v as u32);
        log.push((a[i], b[i], c[i], v));
    }
    proof {
        let ghost m = Seq::new(8, |i: int| a@[i] ^ b@[i]);
        lemma_word8_xor(a@, b@, m);
        lemma_word8_xor(m, c@, r@);
        assert(cells@ =~= cells0 + r@.map_values(|x: u8| x as u32));
        assert(log@ =~= log0 + Seq::new(8, |i: int| (a@[i], b@[i], c@[i], r@[i])));
    }
    r
}

/// Combine three lanes with the chi formula byte by byte and log one chi
/// request per byte; the result is hinted later, all 25 lanes at once.
pub fn chi_lane_log(a: &Vec<u8>, b: &Vec<u8>, c: &Vec<u8>, log: &mut Vec<(u8, u8, u8, u8)>) -> (r:
    Vec<u8>)
    requires
        a@.len() == 8,
        b@.len() == 8,
        c@.len() == 8,
    ensures
        r@.len() == 8,
        forall|i: int| 0 <= i < 8 ==> r@[i] == a@[i] ^ ((!b@[i]) & c@[i]),
        word8(r@) == word8(a@) ^ ((!word8(b@)) & word8(c@)),
        final(log)@ == old(log)@ + Seq::new(8, |i: int| (a@[i], b@[i], c@[i], r@[i])),
        forall|k: int| old(log)@.len() <= k < final(log)@.len() ==> chi_ok(#[trigger] final(log)@[k]),
{
    let mut r: Vec<u8> = Vec::new();
    let ghost log0 = log@;
    for i in 0..8usize
        invariant
            a@.len() == 8,
            b@.len() == 8,
            c@.len() == 8,
            r@.len() == i,
            forall|k: int| 0 <= k < i ==> r@[k] == a@[k] ^ ((!b@[k]) & c@[k]),
            log@.len() == log0.len() + i,
            forall|k: int| 0 <= k < log0.len() ==> log@[k] == log0[k],
            forall|k: int| 0 <= k < i ==> log@[log0.len() + k] == (a@[k], b@[k], c@[k], r@[k]),
    {
        let v = a[i] ^ ((!b[i]) & c[i]);
        r.push(v);
        log.push((a[i], b[i], c[i], v));
    }
    proof {
        lemma_word8_chi(a@, b@, c@, r@);
        assert(log@ =~= log0 + Seq::new(8, |i: int| (a@[i], b@[i], c@[i], r@[i])));
    }
    r
}

/// Rotate the 64-bit word held by 8 little-endian byte limbs right by `n`
/// bits, appending the high-part hints to the row and the range checks of
/// the low parts to the request log.
#[verifier::rlimit(100)]
#[verifier::spinoff_prover]
pub fn rotr_fu64_8(a: &Vec<u8>, n: usize, row: &mut Vec<u32>, rc_log: &mut Vec<(u8, u8, u8)>) -> (res:
    Vec<u8>)
    requires
        a@.len() == 8,
        n < 64,
    ensures
        res@.len() == 8,
        word8(res@) == rotr64(word8(a@), n as u64),
        n % 8 == 0 ==> final(row)@ == old(row)@ && final(rc_log)@ == old(rc_log)@,
        n % 8 != 0 ==> final(row)@ == old(row)@ + spec_rotr_hints(a@, n as int) && final(rc_log)@
            == old(rc_log)@ + spec_rotr_rc_tuples(a@, n as int),
        forall|k: int|
            old(rc_log)@.len() <= k < final(rc_log)@.len() ==> rc_ok(#[trigger] final(rc_log)@[k]),
        forall|k: int|
            old(row)@.len() <= k < final(row)@.len() ==> #[trigger] final(row)@[k] < 256,
{
    let ghost wa = word8(a@);
    let q = n / 8;

    // Byte rotation: new byte i is old byte (i + q) % 8.
    let mut ap: Vec<u8> = Vec::new();
    for i in 0..8usize
        invariant
            a@.len() == 8,
            q == n / 8,
            n < 64,
            ap@.len() == i,
            forall|j: int| 0 <= j < i ==> ap@[j] == a@[(j + n as int / 8) % 8],
    {
        ap.push(a[(i + q) % 8]);
    }
    proof {
        if q == 0 {
            assert(ap@ =~= a@);
        } else {
            assert forall|j: int| 0 <= j < 8 implies spec_byte_of_word(word8(ap@), j)
                == spec_byte_of_word(rotr64(wa, (8 * (n as int / 8)) as u64), j) by {
                lemma_byte_of_word8(ap@, j);
                lemma_byte_of_word8(a@, (j + n as int / 8) % 8);
                lemma_byte_rotation(wa, (n / 8) as u64, j as u64);
            }
            lemma_word_eq_by_bytes(word8(ap@), rotr64(wa, (8 * (n as int / 8)) as u64));
        }
    }

    if n % 8 == 0 {
        proof {
            assert(n as int == 8 * (n as int / 8));
            if q > 0 {
                assert((8 * (n as int / 8)) as u64 == n as u64);
            }
        }
        return ap;
    }
    let r64: u64 = (n % 8) as u64;
    let ghost wap = word8(ap@);
    proof {
        assert(1u64 <= r64 < 8);
        assert((1u8 << r64) >= 1 && (1u8 << r64) <= 128) by (bit_vector)
            requires
                1u64 <= r64 < 8,
        ;
    }
    let mask: u8 = (1u8 << r64) - 1;

    let mut hi: Vec<u8> = Vec::new();
    let mut lo: Vec<u8> = Vec::new();
    for i in 0..8usize
        invariant
            ap@.len() == 8,
            hi@.len() == i,
            lo@.len() == i,
            1 <= r64 < 8,
            r64 == (n as int % 8) as u64,
            mask == spec_rot_mask(n as int),
            forall|j: int| 0 <= j < i ==> hi@[j] == ap@[j] >> r64,
            forall|j: int| 0 <= j < i ==> lo@[j] == (ap@[j] & mask),
            forall|j: int| 0 <= j < i ==> lo@[j] <= mask,
    {
        hi.push(ap[i] >> r64);
        lo.push(ap[i] & mask);
        proof {
            lemma_mask_bound(ap@[i as int], r64);
        }
    }

    let mut res: Vec<u8> = Vec::new();
    for i in 0..8usize
        invariant
            ap@.len() == 8,
            hi@.len() == 8,
            lo@.len() == 8,
            1 <= r64 < 8,
            forall|j: int| 0 <= j < 8 ==> hi@[j] == ap@[j] >> r64,
            forall|j: int| 0 <= j < 8 ==> lo@[j] == (ap@[j] & mask),
            res@.len() == i,
            forall|j: int|
                0 <= j < i ==> res@[j] == (hi@[j] | (lo@[(j + 1) % 8] << ((8 - r64) as u8))),
    {
        res.push(hi[i] | (lo[(i + 1) % 8] << ((8 - r64) as u8)));
    }
    proof {
        // The residue rotation is sound byte by byte.
        assert forall|j: int| 0 <= j < 8 implies spec_byte_of_word(word8(res@), j)
            == spec_byte_of_word(rotr64(wap, r64), j) by {
            lemma_byte_of_word8(res@, j);
            lemma_byte_of_word8(ap@, j);
            lemma_byte_of_word8(ap@, (j + 1) % 8);
            lemma_bit_rotation(wap, r64, j as u64);
        }
        lemma_word_eq_by_bytes(word8(res@), rotr64(wap, r64));
        // Compose the byte rotation and the residue rotation.
        lemma_rot_decompose(wa, (n / 8) as u64, r64);
        assert(n as u64 == (8 * ((n / 8) as u64) + r64) as u64);
        if q == 0 {
            assert(rotr64(wa, 0) == wa);
        }
    }

    // Hint the high parts; range check the low parts.
    let ghost row0 = row@;
    for i in 0..8usize
        invariant
            hi@.len() == 8,
            row@.len() == row0.len() + i,
            forall|j: int| 0 <= j < i ==> row@[row0.len() + j] == hi@[j] as u32,
            row@.subrange(0, row0.len() as int) == row0,
    {
        row.push(hi[i] as u32);
    }
    let ghost rc0 = rc_log@;
    rc_log.push((mask - lo[0], mask - lo[1], mask - lo[2]));
    rc_log.push((mask - lo[3], mask - lo[4], mask - lo[5]));
    rc_log.push((mask - lo[6], mask - lo[7], 0u8));

    proof {
        assert(row@ =~= row0 + spec_rotr_hints(a@, n as int));
        assert(rc_log@ =~= rc0 + spec_rotr_rc_tuples(a@, n as int));
        assert(forall|k: int|
            rc0.len() <= k < rc_log@.len() ==> rc_ok(#[trigger] rc_log@[k]));
    }
    res
}

/// The words held by a sequence of 8-byte lanes.
pub open spec fn lane_words(ls: Seq<Vec<u8>>) -> Seq<u64> {
    Seq::new(ls.len(), |j: int| word8(ls[j]@))
}

/// The rho-and-pi step of one row: every output lane `j` is a rotation of
/// one theta-output lane, emitted in bus-target order.  The source lane
/// and right-rotation amount of each target are fixed by the pi
/// permutation and the rho offsets; the three rotations by a whole number
/// of bytes leave no hints.  The schedule is written out in five blocks
/// of five targets.

#[verifier::rlimit(100)]
#[verifier::spinoff_prover]
fn rho_pi_targets_0_4(
    s1: &Vec<Vec<u8>>,
    cells: &mut Vec<u32>,
    rc_log: &mut Vec<(u8, u8, u8)>,
    b: &mut Vec<Vec<u8>>,
)
    requires
        s1@.len() == 25,
        forall|j: int| 0 <= j < 25 ==> (#[trigger] s1@[j])@.len() == 8,
        old(b)@.len() == 0,
    ensures
        final(b)@.len() == 5,
        forall|k: int| 0 <= k < 0 ==> final(b)@[k] == old(b)@[k],
        forall|j: int|
            0 <= j < 5 ==> (#[trigger] final(b)@[j])@.len() == 8 && word8(final(b)@[j]@)
                == crate::keccak::spec_rho_pi(lane_words(s1@))[j],
        final(cells)@.len() == old(cells)@.len() + 32,
        forall|k: int| 0 <= k < old(cells)@.len() ==> final(cells)@[k] == old(cells)@[k],
        forall|k: int|
            old(cells)@.len() <= k < final(cells)@.len() ==> #[trigger] final(cells)@[k] < 256,
        final(rc_log)@.len() == old(rc_log)@.len() + 12,
        forall|k: int| 0 <= k < old(rc_log)@.len() ==> final(rc_log)@[k] == old(rc_log)@[k],
        forall|k: int|
            old(rc_log)@.len() <= k < final(rc_log)@.len() ==> rc_ok(#[trigger] final(rc_log)@[k]),
{
    let ghost t = lane_words(s1@);
    let l0 = rotr_fu64_8(&s1[0], 0, cells, rc_log);
    b.push(l0);
    assert(word8(b@[0]@) == crate::keccak::spec_rho_pi(t)[0]);
    let l1 = rotr_fu64_8(&s1[6], 20, cells, rc_log);
    proof {
        crate::keccak::lemma_rotl_is_rotr(t[6], 44);
    }
    b.push(l1);
    assert(word8(b@[1]@) == crate::keccak::spec_rho_pi(t)[1]);
    let l2 = rotr_fu64_8(&s1[12], 21, cells, rc_log);
    proof {
        crate::keccak::lemma_rotl_is_rotr(t[12], 43);
    }
    b.push(l2);
    assert(word8(b@[2]@) == crate::keccak::spec_rho_pi(t)[2]);
    let l3 = rotr_fu64_8(&s1[18], 43, cells, rc_log);
    proof {
        crate::keccak::lemma_rotl_is_rotr(t[18], 21);
    }
    b.push(l3);
    assert(word8(b@[3]@) == crate::keccak::spec_rho_pi(t)[3]);
    let l4 = rotr_fu64_8(&s1[24], 50, cells, rc_log);
    proof {
        crate::keccak::lemma_rotl_is_rotr(t[24], 14);
    }
    b.push(l4);
    assert(word8(b@[4]@) == crate::keccak::spec_rho_pi(t)[4]);
}

#[verifier::rlimit(100)]
#[verifier::spinoff_prover]
fn rho_pi_targets_5_9(
    s1: &Vec<Vec<u8>>,
    cells: &mut Vec<u32>,
    rc_log: &mut Vec<(u8, u8, u8)>,
    b: &mut Vec<Vec<u8>>,
)
    requires
        s1@.len() == 25,
        forall|j: int| 0 <= j < 25 ==> (#[trigger] s1@[j])@.len() == 8,
        old(b)@.len() == 5,
    ensures
        final(b)@.len() == 10,
        forall|k: int| 0 <= k < 5 ==> final(b)@[k] == old(b)@[k],
        forall|j: int|
            5 <= j < 10 ==> (#[trigger] final(b)@[j])@.len() == 8 && word8(final(b)@[j]@)
                == crate::keccak::spec_rho_pi(lane_words(s1@))[j],
        final(cells)@.len() == old(cells)@.len() + 40,
        forall|k: int| 0 <= k < old(cells)@.len() ==> final(cells)@[k] == old(cells)@[k],
        forall|k: int|
            old(cells)@.len() <= k < final(cells)@.len() ==> #[trigger] final(cells)@[k] < 256,
        final(rc_log)@.len() == old(rc_log)@.len() + 15,
        forall|k: int| 0 <= k < old(rc_log)@.len() ==> final(rc_log)@[k] == old(rc_log)@[k],
        forall|k: int|
            old(rc_log)@.len() <= k < final(rc_log)@.len() ==> rc_ok(#[trigger] final(rc_log)@[k]),
{
    let ghost t = lane_words(s1@);
    let l5 = rotr_fu64_8(&s1[3], 36, cells, rc_log);
    proof {
        crate::keccak::lemma_rotl_is_rotr(t[3], 28);
    }
    b.push(l5);
    assert(word8(b@[5]@) == crate::keccak::spec_rho_pi(t)[5]);
    let l6 = rotr_fu64_8(&s1[9], 44, cells, rc_log);
    proof {
        crate::keccak::lemma_rotl_is_rotr(t[9], 20);
    }
    b.push(l6);
    assert(word8(b@[6]@) == crate::keccak::spec_rho_pi(t)[6]);
    let l7 = rotr_fu64_8(&s1[10], 61, cells, rc_log);
    proof {
        crate::keccak::lemma_rotl_is_rotr(t[10], 3);
    }
    b.push(l7);
    assert(word8(b@[7]@) == crate::keccak::spec_rho_pi(t)[7]);
    let l8 = rotr_fu64_8(&s1[16], 19, cells, rc_log);
    proof {
        crate::keccak::lemma_rotl_is_rotr(t[16], 45);
    }
    b.push(l8);
    assert(word8(b@[8]@) == crate::keccak::spec_rho_pi(t)[8]);
    let l9 = rotr_fu64_8(&s1[22], 3, cells, rc_log);
    proof {
        crate::keccak::lemma_rotl_is_rotr(t[22], 61);
    }
    b.push(l9);
    assert(word8(b@[9]@) == crate::keccak::spec_rho_pi(t)[9]);
}

#[verifier::rlimit(100)]
#[verifier::spinoff_prover]
fn rho_pi_targets_10_14(
    s1: &Vec<Vec<u8>>,
    cells: &mut Vec<u32>,
    rc_log: &mut Vec<(u8, u8, u8)>,
    b: &mut Vec<Vec<u8>>,
)
    requires
        s1@.len() == 25,
        forall|j: int| 0 <= j < 25 ==> (#[trigger] s1@[j])@.len() == 8,
        old(b)@.len() == 10,
    ensures
        final(b)@.len() == 15,
        forall|k: int| 0 <= k < 10 ==> final(b)@[k] == old(b)@[k],
        forall|j: int|
            10 <= j < 15 ==> (#[trigger] final(b)@[j])@.len() == 8 && word8(final(b)@[j]@)
                == crate::keccak::spec_rho_pi(lane_words(s1@))[j],
        final(cells)@.len() == old(cells)@.len() + 32,
        forall|k: int| 0 <= k < old(cells)@.len() ==> final(cells)@[k] == old(cells)@[k],
        forall|k: int|
            old(cells)@.len() <= k < final(cells)@.len() ==> #[trigger] final(cells)@[k] < 256,
        final(rc_log)@.len() == old(rc_log)@.len() + 12,
        forall|k: int| 0 <= k < old(rc_log)@.len() ==> final(rc_log)@[k] == old(rc_log)@[k],
        forall|k: int|
            old(rc_log)@.len() <= k < final(rc_log)@.len() ==> rc_ok(#[trigger] final(rc_log)@[k]),
{
    let ghost t = lane_words(s1@);
    let l10 = rotr_fu64_8(&s1[1], 63, cells, rc_log);
    proof {
        crate::keccak::lemma_rotl_is_rotr(t[1], 1);
    }
    b.push(l10);
    assert(word8(b@[10]@) == crate::keccak::spec_rho_pi(t)[10]);
    let l11 = rotr_fu64_8(&s1[7], 58, cells, rc_log);
    proof {
        crate::keccak::lemma_rotl_is_rotr(t[7], 6);
    }
    b.push(l11);
    assert(word8(b@[11]@) == crate::keccak::spec_rho_pi(t)[11]);
    let l12 = rotr_fu64_8(&s1[13], 39, cells, rc_log);
    proof {
        crate::keccak::lemma_rotl_is_rotr(t[13], 25);
    }
    b.push(l12);
    assert(word8(b@[12]@) == crate::keccak::spec_rho_pi(t)[12]);
    let l13 = rotr_fu64_8(&s1[19], 56, cells, rc_log);
    proof {
        crate::keccak::lemma_rotl_is_rotr(t[19], 8);
    }
    b.push(l13);
    assert(word8(b@[13]@) == crate::keccak::spec_rho_pi(t)[13]);
    let l14 = rotr_fu64_8(&s1[20], 46, cells, rc_log);
    proof {
        crate::keccak::lemma_rotl_is_rotr(t[20], 18);
    }
    b.push(l14);
    assert(word8(b@[14]@) == crate::keccak::spec_rho_pi(t)[14]);
}

#[verifier::rlimit(100)]
#[verifier::spinoff_prover]
fn rho_pi_targets_15_19(
    s1: &Vec<Vec<u8>>,
    cells: &mut Vec<u32>,
    rc_log: &mut Vec<(u8, u8, u8)>,
    b: &mut Vec<Vec<u8>>,
)
    requires
        s1@.len() == 25,
        forall|j: int| 0 <= j < 25 ==> (#[trigger] s1@[j])@.len() == 8,
        old(b)@.len() == 15,
    ensures
        final(b)@.len() == 20,
        forall|k: int| 0 <= k < 15 ==> final(b)@[k] == old(b)@[k],
        forall|j: int|
            15 <= j < 20 ==> (#[trigger] final(b)@[j])@.len() == 8 && word8(final(b)@[j]@)
                == crate::keccak::spec_rho_pi(lane_words(s1@))[j],
        final(cells)@.len() == old(cells)@.len() + 32,
        forall|k: int| 0 <= k < old(cells)@.len() ==> final(cells)@[k] == old(cells)@[k],
        forall|k: int|
            old(cells)@.len() <= k < final(cells)@.len() ==> #[trigger] final(cells)@[k] < 256,
        final(rc_log)@.len() == old(rc_log)@.len() + 12,
        forall|k: int| 0 <= k < old(rc_log)@.len() ==> final(rc_log)@[k] == old(rc_log)@[k],
        forall|k: int|
            old(rc_log)@.len() <= k < final(rc_log)@.len() ==> rc_ok(#[trigger] final(rc_log)@[k]),
{
    let ghost t = lane_words(s1@);
    let l15 = rotr_fu64_8(&s1[4], 37, cells, rc_log);
    proof {
        crate::keccak::lemma_rotl_is_rotr(t[4], 27);
    }
    b.push(l15);
    assert(word8(b@[15]@) == crate::keccak::spec_rho_pi(t)[15]);
    let l16 = rotr_fu64_8(&s1[5], 28, cells, rc_log);
    proof {
        crate::keccak::lemma_rotl_is_rotr(t[5], 36);
    }
    b.push(l16);
    assert(word8(b@[16]@) == crate::keccak::spec_rho_pi(t)[16]);
    let l17 = rotr_fu64_8(&s1[11], 54, cells, rc_log);
    proof {
        crate::keccak::lemma_rotl_is_rotr(t[11], 10);
    }
    b.push(l17);
    assert(word8(b@[17]@) == crate::keccak::spec_rho_pi(t)[17]);
    let l18 = rotr_fu64_8(&s1[17], 49, cells, rc_log);
    proof {
        crate::keccak::lemma_rotl_is_rotr(t[17], 15);
    }
    b.push(l18);
    assert(word8(b@[18]@) == crate::keccak::spec_rho_pi(t)[18]);
    let l19 = rotr_fu64_8(&s1[23], 8, cells, rc_log);
    proof {
        crate::keccak::lemma_rotl_is_rotr(t[23], 56);
    }
    b.push(l19);
    assert(word8(b@[19]@) == crate::keccak::spec_rho_pi(t)[19]);
}

#[verifier::rlimit(100)]
#[verifier::spinoff_prover]
fn rho_pi_targets_20_24(
    s1: &Vec<Vec<u8>>,
    cells: &mut Vec<u32>,
    rc_log: &mut Vec<(u8, u8, u8)>,
    b: &mut Vec<Vec<u8>>,
)
    requires
        s1@.len() == 25,
        forall|j: int| 0 <= j < 25 ==> (#[trigger] s1@[j])@.len() == 8,
        old(b)@.len() == 20,
    ensures
        final(b)@.len() == 25,
        forall|k: int| 0 <= k < 20 ==> final(b)@[k] == old(b)@[k],
        forall|j: int|
            20 <= j < 25 ==> (#[trigger] final(b)@[j])@.len() == 8 && word8(final(b)@[j]@)
                == crate::keccak::spec_rho_pi(lane_words(s1@))[j],
        final(cells)@.len() == old(cells)@.len() + 40,
        forall|k: int| 0 <= k < old(cells)@.len() ==> final(cells)@[k] == old(cells)@[k],
        forall|k: int|
            old(cells)@.len() <= k < final(cells)@.len() ==> #[trigger] final(cells)@[k] < 256,
        final(rc_log)@.len() == old(rc_log)@.len() + 15,
        forall|k: int| 0 <= k < old(rc_log)@.len() ==> final(rc_log)@[k] == old(rc_log)@[k],
        forall|k: int|
            old(rc_log)@.len() <= k < final(rc_log)@.len() ==> rc_ok(#[trigger] final(rc_log)@[k]),
{
    let ghost t = lane_words(s1@);
    let l20 = rotr_fu64_8(&s1[2], 2, cells, rc_log);
    proof {
        crate::keccak::lemma_rotl_is_rotr(t[2], 62);
    }
    b.push(l20);
    assert(word8(b@[20]@) == crate::keccak::spec_rho_pi(t)[20]);
    let l21 = rotr_fu64_8(&s1[8], 9, cells, rc_log);
    proof {
        crate::keccak::lemma_rotl_is_rotr(t[8], 55);
    }
    b.push(l21);
    assert(word8(b@[21]@) == crate::keccak::spec_rho_pi(t)[21]);
    let l22 = rotr_fu64_8(&s1[14], 25, cells, rc_log);
    proof {
        crate::keccak::lemma_rotl_is_rotr(t[14], 39);
    }
    b.push(l22);
    assert(word8(b@[22]@) == crate::keccak::spec_rho_pi(t)[22]);
    let l23 = rotr_fu64_8(&s1[15], 23, cells, rc_log);
    proof {
        crate::keccak::lemma_rotl_is_rotr(t[15], 41);
    }
    b.push(l23);
    assert(word8(b@[23]@) == crate::keccak::spec_rho_pi(t)[23]);
    let l24 = rotr_fu64_8(&s1[21], 62, cells, rc_log);
    proof {
        crate::keccak::lemma_rotl_is_rotr(t[21], 2);
    }
    b.push(l24);
    assert(word8(b@[24]@) == crate::keccak::spec_rho_pi(t)[24]);
}

fn rho_pi_phase(s1: &Vec<Vec<u8>>, cells: &mut Vec<u32>, rc_log: &mut Vec<(u8, u8, u8)>) -> (b: Vec<
    Vec<u8>,
>)
    requires
        s1@.len() == 25,
        forall|j: int| 0 <= j < 25 ==> (#[trigger] s1@[j])@.len() == 8,
    ensures
        b@.len() == 25,
        forall|j: int|
            0 <= j < 25 ==> (#[trigger] b@[j])@.len() == 8 && word8(b@[j]@)
                == crate::keccak::spec_rho_pi(lane_words(s1@))[j],
        final(cells)@.len() == old(cells)@.len() + 176,
        forall|k: int| 0 <= k < old(cells)@.len() ==> final(cells)@[k] == old(cells)@[k],
        forall|k: int|
            old(cells)@.len() <= k < final(cells)@.len() ==> #[trigger] final(cells)@[k] < 256,
        final(rc_log)@.len() == old(rc_log)@.len() + 66,
        forall|k: int| 0 <= k < old(rc_log)@.len() ==> final(rc_log)@[k] == old(rc_log)@[k],
        forall|k: int|
            old(rc_log)@.len() <= k < final(rc_log)@.len() ==> rc_ok(#[trigger] final(rc_log)@[k]),
{
    let mut b: Vec<Vec<u8>> = Vec::new();
    rho_pi_targets_0_4(s1, cells, rc_log, &mut b);
    rho_pi_targets_5_9(s1, cells, rc_log, &mut b);
    rho_pi_targets_10_14(s1, cells, rc_log, &mut b);
    rho_pi_targets_15_19(s1, cells, rc_log, &mut b);
    rho_pi_targets_20_24(s1, cells, rc_log, &mut b);
    b
}

// ────────────────────────────────────────────────────────────────────────
//  One trace row
// ────────────────────────────────────────────────────────────────────────

/// The witness of one keccak_round invocation: the trace cells of one row
/// and the lookup requests the row emits, stream by stream.
pub struct KeccakRoundRow {
    /// The row's cells, in the order the evaluator reads them.
    pub cells: Vec<u32>,
    /// The consumed round-bus tuple: current round-constant bytes, then
    /// the input state.
    pub round_in: Vec<u8>,
    /// The emitted round-bus tuple: next round-constant bytes, then the
    /// output state.
    pub round_out: Vec<u8>,
    pub xor_8_8: Vec<(u8, u8, u8)>,
    pub xor_8_8_8: Vec<(u8, u8, u8, u8)>,
    pub chi_8_8_8: Vec<(u8, u8, u8, u8)>,
    pub rc_7_7_7: Vec<(u8, u8, u8)>,
    /// The state after the round, as 200 bytes.
    pub out_state: Vec<u8>,
}

impl KeccakRoundRow {
    /// Shape and soundness of the logged requests: every request matches
    /// the provider table it is addressed to.
    pub open spec fn wf(self) -> bool {
        &&& self.cells@.len() == N_COLUMNS
        &&& forall|k: int| 0 <= k < self.cells@.len() ==> #[trigger] self.cells@[k] < 256
        &&& self.round_in@.len() == 208
        &&& self.round_out@.len() == 208
        &&& self.out_state@.len() == 200
        &&& self.xor_8_8@.len() == N_XOR_8_8_LOOKUPS
        &&& forall|k: int| 0 <= k < self.xor_8_8@.len() ==> xor2_ok(#[trigger] self.xor_8_8@[k])
        &&& self.xor_8_8_8@.len() == N_XOR_8_8_8_LOOKUPS
        &&& forall|k: int| 0 <= k < self.xor_8_8_8@.len() ==> xor3_ok(#[trigger] self.xor_8_8_8@[k])
        &&& self.chi_8_8_8@.len() == N_CHI_8_8_8_LOOKUPS
        &&& forall|k: int| 0 <= k < self.chi_8_8_8@.len() ==> chi_ok(#[trigger] self.chi_8_8_8@[k])
        &&& self.rc_7_7_7@.len() == N_RC_7_7_7_LOOKUPS
        &&& forall|k: int| 0 <= k < self.rc_7_7_7@.len() ==> rc_ok(#[trigger] self.rc_7_7_7@[k])
    }

    /// The row is the honest witness for one round on `state`: the leading
    /// cells hold the enabler, the round constants and the input state,
    /// the round bus consumes `(RC_round, state)` and emits
    /// `(RC_round+1, state')` where `state'` follows the round
    /// specification.
    pub open spec fn valid(self, state: Seq<u8>, round: int, e: u32) -> bool {
        &&& self.wf()
        &&& self.cells@[0] == e
        &&& forall|i: int|
            0 <= i < 8 ==> self.cells@[1 + i] == (#[trigger] crate::keccak::spec_rc_bytes(round)[i]) as u32
        &&& forall|i: int|
            0 <= i < 8 ==> self.cells@[9 + i] == (#[trigger] crate::keccak::spec_rc_bytes(
                round + 1,
            )[i]) as u32
        &&& forall|i: int| 0 <= i < 200 ==> self.cells@[17 + i] == (#[trigger] state[i]) as u32
        &&& self.out_state@ == crate::keccak::spec_state_of_words(
            crate::keccak::spec_keccak_round(
                crate::keccak::spec_words_of_state(state),
                crate::keccak::spec_iota_rc(round),
            ),
        )
        &&& self.round_in@ == crate::keccak::spec_rc_bytes(round) + state
        &&& self.round_out@ == crate::keccak::spec_rc_bytes(round + 1) + self.out_state@
    }
}


// ────────────────────────────────────────────────────────────────────────
//  Building one row
// ────────────────────────────────────────────────────────────────────────

/// The leading cells of a row are fixed data: the enabler, the two round
/// constants and the input state.
spec fn prefix_ok(cells: Seq<u32>, state: Seq<u8>, round: int, e: u32) -> bool {
    &&& cells.len() >= 217
    &&& cells[0] == e
    &&& forall|i: int|
        0 <= i < 8 ==> cells[1 + i] == (#[trigger] crate::keccak::spec_rc_bytes(round)[i]) as u32
    &&& forall|i: int|
        0 <= i < 8 ==> cells[9 + i] == (#[trigger] crate::keccak::spec_rc_bytes(round + 1)[i]) as u32
    &&& forall|i: int| 0 <= i < 200 ==> cells[17 + i] == (#[trigger] state[i]) as u32
}

/// Every cell of a row holds a byte-sized value.
spec fn cells_u8(cells: Seq<u32>) -> bool {
    forall|k: int| 0 <= k < cells.len() ==> #[trigger] cells[k] < 256
}

/// The theta step of one row: hints the column parities (two xor3 steps
/// each), the rotated neighbour parities, the `D` values and the updated
/// state, and logs one request per hinted byte.
#[verifier::rlimit(100)]
#[verifier::spinoff_prover]
fn theta_phase(
    state: &Vec<u8>,
    cells: &mut Vec<u32>,
    xor2_log: &mut Vec<(u8, u8, u8)>,
    xor3_log: &mut Vec<(u8, u8, u8, u8)>,
    rc_log: &mut Vec<(u8, u8, u8)>,
) -> (s1: Vec<Vec<u8>>)
    requires
        state@.len() == 200,
    ensures
        s1@.len() == 25,
        forall|j: int|
            0 <= j < 25 ==> (#[trigger] s1@[j])@.len() == 8 && word8(s1@[j]@)
                == crate::keccak::spec_theta(crate::keccak::spec_words_of_state(state@))[j],
        final(cells)@.len() == old(cells)@.len() + 360,
        forall|k: int| 0 <= k < old(cells)@.len() ==> final(cells)@[k] == old(cells)@[k],
        forall|k: int|
            old(cells)@.len() <= k < final(cells)@.len() ==> #[trigger] final(cells)@[k] < 256,
        final(xor2_log)@.len() == old(xor2_log)@.len() + 240,
        forall|k: int| 0 <= k < old(xor2_log)@.len() ==> final(xor2_log)@[k] == old(xor2_log)@[k],
        forall|k: int|
            old(xor2_log)@.len() <= k < final(xor2_log)@.len() ==> xor2_ok(
                #[trigger] final(xor2_log)@[k],
            ),
        final(xor3_log)@.len() == old(xor3_log)@.len() + 80,
        forall|k: int| 0 <= k < old(xor3_log)@.len() ==> final(xor3_log)@[k] == old(xor3_log)@[k],
        forall|k: int|
            old(xor3_log)@.len() <= k < final(xor3_log)@.len() ==> xor3_ok(
                #[trigger] final(xor3_log)@[k],
            ),
        final(rc_log)@.len() == old(rc_log)@.len() + 15,
        forall|k: int| 0 <= k < old(rc_log)@.len() ==> final(rc_log)@[k] == old(rc_log)@[k],
        forall|k: int|
            old(rc_log)@.len() <= k < final(rc_log)@.len() ==> rc_ok(#[trigger] final(rc_log)@[k]),
{
    let ghost sw = crate::keccak::spec_words_of_state(state@);
    let ghost th = crate::keccak::spec_theta(sw);
    proof {
        assert(sw.len() == 25);
        assert(th.len() == 25);
    }
    let ghost cells0 = old(cells)@;
    let ghost x2l0 = old(xor2_log)@;
    let ghost x3l0 = old(xor3_log)@;
    let ghost rcl0 = old(rc_log)@;

    // The 25 input lanes.
    let mut lanes: Vec<Vec<u8>> = Vec::new();
    for j in 0..25usize
        invariant
            state@.len() == 200,
            lanes@.len() == j,
            forall|k: int|
                0 <= k < j ==> (#[trigger] lanes@[k])@ == state@.subrange(8 * k, 8 * k + 8),
            cells@ == cells0,
            xor2_log@ == x2l0,
            xor3_log@ == x3l0,
            rc_log@ == rcl0,
    {
        lanes.push(lane_of(state, j));
    }
    proof {
        assert forall|k: int| 0 <= k < 25 implies (#[trigger] lanes@[k])@.len() == 8 && word8(
            lanes@[k]@,
        ) == sw[k] by {
            assert(lanes@[k]@ == state@.subrange(8 * k, 8 * k + 8));
        }
    }

    // The five column parities, two xor3 hints per byte column.
    let mut c: Vec<Vec<u8>> = Vec::new();
    for x in 0..5usize
        invariant
            sw.len() == 25,
            lanes@.len() == 25,
            forall|k: int| 0 <= k < 25 ==> (#[trigger] lanes@[k])@.len() == 8,
            forall|k: int| 0 <= k < 25 ==> word8((#[trigger] lanes@[k])@) == sw[k],
            c@.len() == x,
            forall|k: int|
                0 <= k < x ==> (#[trigger] c@[k])@.len() == 8 && word8(c@[k]@)
                    == crate::keccak::spec_theta_c(sw, k),
            cells@.len() == cells0.len() + 16 * x,
            forall|k: int| 0 <= k < cells0.len() ==> cells@[k] == cells0[k],
            forall|k: int| cells0.len() <= k < cells@.len() ==> #[trigger] cells@[k] < 256,
            xor3_log@.len() == x3l0.len() + 16 * x,
            forall|k: int| 0 <= k < x3l0.len() ==> xor3_log@[k] == x3l0[k],
            forall|k: int|
                x3l0.len() <= k < xor3_log@.len() ==> xor3_ok(#[trigger] xor3_log@[k]),
            xor2_log@ == x2l0,
            rc_log@ == rcl0,
    {
        let ci = xor3_lane_hint(&lanes[x], &lanes[x + 5], &lanes[x + 10], cells, xor3_log);
        let cx = xor3_lane_hint(&ci, &lanes[x + 15], &lanes[x + 20], cells, xor3_log);
        proof {
            assert(word8(cx@) == crate::keccak::spec_theta_c(sw, x as int));
        }
        c.push(cx);
    }

    // The rotated neighbour parities.
    let mut c_rot1: Vec<Vec<u8>> = Vec::new();
    for x in 0..5usize
        invariant
            sw.len() == 25,
            c@.len() == 5,
            forall|k: int|
                0 <= k < 5 ==> (#[trigger] c@[k])@.len() == 8 && word8(c@[k]@)
                    == crate::keccak::spec_theta_c(sw, k),
            c_rot1@.len() == x,
            forall|k: int|
                0 <= k < x ==> (#[trigger] c_rot1@[k])@.len() == 8 && word8(c_rot1@[k]@)
                    == crate::keccak::rotl64(crate::keccak::spec_theta_c(sw, (k + 1) % 5), 1),
            cells@.len() == cells0.len() + 80 + 8 * x,
            forall|k: int| 0 <= k < cells0.len() ==> cells@[k] == cells0[k],
            forall|k: int| cells0.len() <= k < cells@.len() ==> #[trigger] cells@[k] < 256,
            rc_log@.len() == rcl0.len() + 3 * x,
            forall|k: int| 0 <= k < rcl0.len() ==> rc_log@[k] == rcl0[k],
            forall|k: int| rcl0.len() <= k < rc_log@.len() ==> rc_ok(#[trigger] rc_log@[k]),
            xor2_log@ == x2l0,
            xor3_log@.len() == x3l0.len() + 80,
            forall|k: int| 0 <= k < x3l0.len() ==> xor3_log@[k] == x3l0[k],
            forall|k: int|
                x3l0.len() <= k < xor3_log@.len() ==> xor3_ok(#[trigger] xor3_log@[k]),
    {
        let r = rotr_fu64_8(&c[(x + 1) % 5], 63, cells, rc_log);
        proof {
            assert((x + 1) % 5 == ((x as int + 1) % 5));
            crate::keccak::lemma_rotl_is_rotr(
                crate::keccak::spec_theta_c(sw, (x as int + 1) % 5),
                1,
            );
        }
        c_rot1.push(r);
    }

    // D, hinted and logged.
    let mut d: Vec<Vec<u8>> = Vec::new();
    for x in 0..5usize
        invariant
            sw.len() == 25,
            c@.len() == 5,
            forall|k: int|
                0 <= k < 5 ==> (#[trigger] c@[k])@.len() == 8 && word8(c@[k]@)
                    == crate::keccak::spec_theta_c(sw, k),
            c_rot1@.len() == 5,
            forall|k: int|
                0 <= k < 5 ==> (#[trigger] c_rot1@[k])@.len() == 8 && word8(c_rot1@[k]@)
                    == crate::keccak::rotl64(crate::keccak::spec_theta_c(sw, (k + 1) % 5), 1),
            d@.len() == x,
            forall|k: int|
                0 <= k < x ==> (#[trigger] d@[k])@.len() == 8 && word8(d@[k]@)
                    == crate::keccak::spec_theta_d(sw, k),
            cells@.len() == cells0.len() + 120 + 8 * x,
            forall|k: int| 0 <= k < cells0.len() ==> cells@[k] == cells0[k],
            forall|k: int| cells0.len() <= k < cells@.len() ==> #[trigger] cells@[k] < 256,
            xor2_log@.len() == x2l0.len() + 8 * x,
            forall|k: int| 0 <= k < x2l0.len() ==> xor2_log@[k] == x2l0[k],
            forall|k: int|
                x2l0.len() <= k < xor2_log@.len() ==> xor2_ok(#[trigger] xor2_log@[k]),
            rc_log@.len() == rcl0.len() + 15,
            forall|k: int| 0 <= k < rcl0.len() ==> rc_log@[k] == rcl0[k],
            forall|k: int| rcl0.len() <= k < rc_log@.len() ==> rc_ok(#[trigger] rc_log@[k]),
            xor3_log@.len() == x3l0.len() + 80,
            forall|k: int| 0 <= k < x3l0.len() ==> xor3_log@[k] == x3l0[k],
            forall|k: int|
                x3l0.len() <= k < xor3_log@.len() ==> xor3_ok(#[trigger] xor3_log@[k]),
    {
        let dx = xor2_lane_hint(&c[(x + 4) % 5], &c_rot1[x], cells, xor2_log);
        proof {
            assert((x + 4) % 5 == ((x as int + 4) % 5));
            assert(word8(dx@) == crate::keccak::spec_theta_d(sw, x as int));
        }
        d.push(dx);
    }

    // The updated state, hinted and logged.
    let mut s1: Vec<Vec<u8>> = Vec::new();
    for j in 0..25usize
        invariant
            sw.len() == 25,
            th.len() == 25,
            th == crate::keccak::spec_theta(sw),
            lanes@.len() == 25,
            forall|k: int| 0 <= k < 25 ==> (#[trigger] lanes@[k])@.len() == 8,
            forall|k: int| 0 <= k < 25 ==> word8((#[trigger] lanes@[k])@) == sw[k],
            d@.len() == 5,
            forall|k: int|
                0 <= k < 5 ==> (#[trigger] d@[k])@.len() == 8 && word8(d@[k]@)
                    == crate::keccak::spec_theta_d(sw, k),
            s1@.len() == j,
            forall|k: int|
                0 <= k < j ==> (#[trigger] s1@[k])@.len() == 8 && word8(s1@[k]@) == th[k],
            cells@.len() == cells0.len() + 160 + 8 * j,
            forall|k: int| 0 <= k < cells0.len() ==> cells@[k] == cells0[k],
            forall|k: int| cells0.len() <= k < cells@.len() ==> #[trigger] cells@[k] < 256,
            xor2_log@.len() == x2l0.len() + 40 + 8 * j,
            forall|k: int| 0 <= k < x2l0.len() ==> xor2_log@[k] == x2l0[k],
            forall|k: int|
                x2l0.len() <= k < xor2_log@.len() ==> xor2_ok(#[trigger] xor2_log@[k]),
            rc_log@.len() == rcl0.len() + 15,
            forall|k: int| 0 <= k < rcl0.len() ==> rc_log@[k] == rcl0[k],
            forall|k: int| rcl0.len() <= k < rc_log@.len() ==> rc_ok(#[trigger] rc_log@[k]),
            xor3_log@.len() == x3l0.len() + 80,
            forall|k: int| 0 <= k < x3l0.len() ==> xor3_log@[k] == x3l0[k],
            forall|k: int|
                x3l0.len() <= k < xor3_log@.len() ==> xor3_ok(#[trigger] xor3_log@[k]),
    {
        let sx = xor2_lane_hint(&lanes[j], &d[j % 5], cells, xor2_log);
        proof {
            assert(j % 5 == ((j as int) % 5));
            assert(word8(lanes@[j as int]@) == sw[j as int]);
            assert(word8(d@[(j as int) % 5]@) == crate::keccak::spec_theta_d(sw, (j as int) % 5));
            crate::keccak::lemma_theta_at(sw, j as int);
        }
        s1.push(sx);
    }
    s1
}

/// The chi step of one row: combines the rho/pi output lanes and logs one
/// chi request per byte; the results are hinted afterwards in one block.
#[verifier::rlimit(100)]
#[verifier::spinoff_prover]
fn chi_phase(b: &Vec<Vec<u8>>, chi_log: &mut Vec<(u8, u8, u8, u8)>) -> (s2: Vec<Vec<u8>>)
    requires
        b@.len() == 25,
        forall|j: int| 0 <= j < 25 ==> (#[trigger] b@[j])@.len() == 8,
    ensures
        s2@.len() == 25,
        forall|j: int|
            0 <= j < 25 ==> (#[trigger] s2@[j])@.len() == 8 && word8(s2@[j]@)
                == crate::keccak::spec_chi(lane_words(b@))[j],
        final(chi_log)@.len() == old(chi_log)@.len() + 200,
        forall|k: int| 0 <= k < old(chi_log)@.len() ==> final(chi_log)@[k] == old(chi_log)@[k],
        forall|k: int|
            old(chi_log)@.len() <= k < final(chi_log)@.len() ==> chi_ok(
                #[trigger] final(chi_log)@[k],
            ),
{
    let ghost p = lane_words(b@);
    let ghost ch = crate::keccak::spec_chi(p);
    let ghost cl0 = old(chi_log)@;
    let mut s2: Vec<Vec<u8>> = Vec::new();
    for j in 0..25usize
        invariant
            b@.len() == 25,
            forall|k: int| 0 <= k < 25 ==> (#[trigger] b@[k])@.len() == 8,
            p == lane_words(b@),
            p.len() == 25,
            ch == crate::keccak::spec_chi(p),
            forall|k: int| 0 <= k < 25 ==> word8((#[trigger] b@[k])@) == p[k],
            s2@.len() == j,
            forall|k: int|
                0 <= k < j ==> (#[trigger] s2@[k])@.len() == 8 && word8(s2@[k]@) == ch[k],
            chi_log@.len() == cl0.len() + 8 * j,
            forall|k: int| 0 <= k < cl0.len() ==> chi_log@[k] == cl0[k],
            forall|k: int| cl0.len() <= k < chi_log@.len() ==> chi_ok(#[trigger] chi_log@[k]),
    {
        let x = j % 5;
        let base = 5 * (j / 5);
        proof {
            assert(x == (j as int) % 5 && base == 5 * ((j as int) / 5));
            assert(base + (x + 1) % 5 < 25 && base + (x + 2) % 5 < 25);
        }
        let cx = chi_lane_log(&b[j], &b[base + (x + 1) % 5], &b[base + (x + 2) % 5], chi_log);
        proof {
            let jj = j as int;
            let xx = jj % 5;
            let bb = 5 * (jj / 5);
            assert(word8(b@[jj]@) == p[jj] && word8(b@[bb + (xx + 1) % 5]@) == p[bb + (xx + 1) % 5]
                && word8(b@[bb + (xx + 2) % 5]@) == p[bb + (xx + 2) % 5]);
            crate::keccak::lemma_chi_at(p, jj);
            assert(word8(cx@) == ch[jj]);
        }
        s2.push(cx);
    }
    s2
}

/// Append 217 cells holding the enabler, the two round constants and the
/// input state.
#[verifier::spinoff_prover]
fn row_prefix_phase(state: &Vec<u8>, round: usize, e: u32, cells: &mut Vec<u32>)
    requires
        state@.len() == 200,
        round < 24,
        e <= 1,
        old(cells)@.len() == 0,
    ensures
        final(cells)@.len() == 217,
        prefix_ok(final(cells)@, state@, round as int, e),
        cells_u8(final(cells)@),
{
    cells.push(e);
    let rc_cur_bytes = crate::keccak::bytes_of_word(crate::keccak::iota_rc(round));
    let rc_next_bytes = crate::keccak::bytes_of_word(crate::keccak::iota_rc(round + 1));
    proof {
        assert(rc_cur_bytes@ =~= crate::keccak::spec_rc_bytes(round as int));
        assert(rc_next_bytes@ =~= crate::keccak::spec_rc_bytes(round as int + 1));
    }
    for i in 0..8usize
        invariant
            cells@.len() == 1 + i,
            cells@[0] == e,
            e <= 1,
            rc_cur_bytes@ == crate::keccak::spec_rc_bytes(round as int),
            forall|k: int|
                0 <= k < i ==> cells@[1 + k] == (#[trigger] crate::keccak::spec_rc_bytes(
                    round as int,
                )[k]) as u32,
            cells_u8(cells@),
    {
        cells.push(rc_cur_bytes[i] as u32);
    }
    for i in 0..8usize
        invariant
            cells@.len() == 9 + i,
            cells@[0] == e,
            e <= 1,
            rc_next_bytes@ == crate::keccak::spec_rc_bytes(round as int + 1),
            forall|k: int|
                0 <= k < 8 ==> cells@[1 + k] == (#[trigger] crate::keccak::spec_rc_bytes(
                    round as int,
                )[k]) as u32,
            forall|k: int|
                0 <= k < i ==> cells@[9 + k] == (#[trigger] crate::keccak::spec_rc_bytes(
                    round as int + 1,
                )[k]) as u32,
            cells_u8(cells@),
    {
        cells.push(rc_next_bytes[i] as u32);
    }
    for i in 0..200usize
        invariant
            state@.len() == 200,
            cells@.len() == 17 + i,
            cells@[0] == e,
            e <= 1,
            forall|k: int|
                0 <= k < 8 ==> cells@[1 + k] == (#[trigger] crate::keccak::spec_rc_bytes(
                    round as int,
                )[k]) as u32,
            forall|k: int|
                0 <= k < 8 ==> cells@[9 + k] == (#[trigger] crate::keccak::spec_rc_bytes(
                    round as int + 1,
                )[k]) as u32,
            forall|k: int| 0 <= k < i ==> cells@[17 + k] == (#[trigger] state@[k]) as u32,
            cells_u8(cells@),
    {
        cells.push(state[i] as u32);
    }
}

/// Concatenate two byte vectors into a fresh one.
pub fn concat_bytes(a: &Vec<u8>, b: &Vec<u8>) -> (r: Vec<u8>)
    ensures
        r@ == a@ + b@,
{
    let mut r: Vec<u8> = Vec::new();
    for i in 0..a.len()
        invariant
            r@.len() == i,
            i <= a@.len(),
            forall|k: int| 0 <= k < i ==> r@[k] == a@[k],
    {
        r.push(a[i]);
    }
    for i in 0..b.len()
        invariant
            r@.len() == a@.len() + i,
            i <= b@.len(),
            forall|k: int| 0 <= k < a@.len() ==> r@[k] == a@[k],
            forall|k: int| 0 <= k < i ==> r@[a@.len() + k] == b@[k],
    {
        r.push(b[i]);
    }
    assert(r@ =~= a@ + b@);
    r
}

/// Hint the 200 bytes of the chi output, lane by lane.
#[verifier::spinoff_prover]
fn chi_hints_phase(s2: &Vec<Vec<u8>>, cells: &mut Vec<u32>)
    requires
        s2@.len() == 25,
        forall|k: int| 0 <= k < 25 ==> (#[trigger] s2@[k])@.len() == 8,
    ensures
        final(cells)@.len() == old(cells)@.len() + 200,
        forall|k: int| 0 <= k < old(cells)@.len() ==> final(cells)@[k] == old(cells)@[k],
        forall|k: int|
            old(cells)@.len() <= k < final(cells)@.len() ==> #[trigger] final(cells)@[k] < 256,
{
    let ghost cells0 = old(cells)@;
    for j in 0..25usize
        invariant
            s2@.len() == 25,
            forall|k: int| 0 <= k < 25 ==> (#[trigger] s2@[k])@.len() == 8,
            cells@.len() == cells0.len() + 8 * j,
            forall|k: int| 0 <= k < cells0.len() ==> cells@[k] == cells0[k],
            forall|k: int| cells0.len() <= k < cells@.len() ==> #[trigger] cells@[k] < 256,
    {
        for i in 0..8usize
            invariant
                j < 25,
                s2@.len() == 25,
                forall|k: int| 0 <= k < 25 ==> (#[trigger] s2@[k])@.len() == 8,
                cells@.len() == cells0.len() + 8 * j + i,
                forall|k: int| 0 <= k < cells0.len() ==> cells@[k] == cells0[k],
                forall|k: int| cells0.len() <= k < cells@.len() ==> #[trigger] cells@[k] < 256,
        {
            cells.push(s2[j][i] as u32);
        }
    }
}

/// The iota step: xor the current round constant into lane 0 of the chi
/// output, hint the 8 bytes and log one xor request per byte.
#[verifier::spinoff_prover]
fn iota_phase(
    s2: &Vec<Vec<u8>>,
    rc_cur_bytes: &Vec<u8>,
    cells: &mut Vec<u32>,
    xor2_log: &mut Vec<(u8, u8, u8)>,
) -> (fl: Vec<u8>)
    requires
        s2@.len() == 25,
        forall|k: int| 0 <= k < 25 ==> (#[trigger] s2@[k])@.len() == 8,
        rc_cur_bytes@.len() == 8,
    ensures
        fl@.len() == 8,
        word8(fl@) == word8(s2@[0]@) ^ word8(rc_cur_bytes@),
        final(cells)@.len() == old(cells)@.len() + 8,
        forall|k: int| 0 <= k < old(cells)@.len() ==> final(cells)@[k] == old(cells)@[k],
        forall|k: int|
            old(cells)@.len() <= k < final(cells)@.len() ==> #[trigger] final(cells)@[k] < 256,
        final(xor2_log)@.len() == old(xor2_log)@.len() + 8,
        forall|k: int| 0 <= k < old(xor2_log)@.len() ==> final(xor2_log)@[k] == old(xor2_log)@[k],
        forall|k: int|
            old(xor2_log)@.len() <= k < final(xor2_log)@.len() ==> xor2_ok(
                #[trigger] final(xor2_log)@[k],
            ),
{
    let ghost cells0 = old(cells)@;
    let ghost x2l0 = old(xor2_log)@;
    let mut fl: Vec<u8> = Vec::new();
    for i in 0..8usize
        invariant
            s2@.len() == 25,
            forall|k: int| 0 <= k < 25 ==> (#[trigger] s2@[k])@.len() == 8,
            rc_cur_bytes@.len() == 8,
            fl@.len() == i,
            forall|k: int| 0 <= k < i ==> fl@[k] == (s2@[0]@[k] ^ rc_cur_bytes@[k]),
            cells@.len() == cells0.len() + i,
            forall|k: int| 0 <= k < cells0.len() ==> cells@[k] == cells0[k],
            forall|k: int| cells0.len() <= k < cells@.len() ==> #[trigger] cells@[k] < 256,
            xor2_log@.len() == x2l0.len() + i,
            forall|k: int| 0 <= k < x2l0.len() ==> xor2_log@[k] == x2l0[k],
            forall|k: int| x2l0.len() <= k < xor2_log@.len() ==> xor2_ok(#[trigger] xor2_log@[k]),
    {
        let a0 = s2[0][i];
        let v = a0 ^ rc_cur_bytes[i];
        xor2_log.push((a0, rc_cur_bytes[i], v));
        cells.push(v as u32);
        fl.push(v);
    }
    proof {
        crate::keccak::lemma_word8_xor(s2@[0]@, rc_cur_bytes@, fl@);
    }
    fl
}

/// Assemble the 200 output-state bytes: lane 0 comes from the iota
/// result, every other lane from the chi output.
#[verifier::spinoff_prover]
fn out_phase(s2: &Vec<Vec<u8>>, fl: &Vec<u8>) -> (out: Vec<u8>)
    requires
        s2@.len() == 25,
        forall|k: int| 0 <= k < 25 ==> (#[trigger] s2@[k])@.len() == 8,
        fl@.len() == 8,
    ensures
        out@.len() == 200,
        out@ == crate::keccak::spec_state_of_words(
            lane_words(s2@).update(0, word8(fl@)),
        ),
{
    let ghost fw = lane_words(s2@).update(0, word8(fl@));
    let mut out: Vec<u8> = Vec::new();
    for j in 0..25usize
        invariant
            s2@.len() == 25,
            forall|k: int| 0 <= k < 25 ==> (#[trigger] s2@[k])@.len() == 8,
            fl@.len() == 8,
            fw == lane_words(s2@).update(0, word8(fl@)),
            out@.len() == 8 * j,
            forall|k: int|
                0 <= k < 8 * j ==> out@[k] == crate::keccak::spec_state_of_words(fw)[k],
    {
        let lane: &Vec<u8> = if j == 0 {
            &fl
        } else {
            &s2[j]
        };
        proof {
            assert(word8(lane@) == fw[j as int]);
        }
        for i in 0..8usize
            invariant
                j < 25,
                lane@.len() == 8,
                word8(lane@) == fw[j as int],
                fw.len() == 25,
                out@.len() == 8 * j + i,
                forall|k: int|
                    0 <= k < 8 * j + i ==> out@[k] == crate::keccak::spec_state_of_words(fw)[k],
        {
            out.push(lane[i]);
            proof {
                let k = 8 * (j as int) + i;
                assert(k / 8 == j && k % 8 == i) by (nonlinear_arith)
                    requires
                        k == 8 * (j as int) + i && 0 <= i < 8 && 0 <= j,
                ;
                lemma_byte_of_word8(lane@, i as int);
                assert(out@[k] == crate::keccak::spec_state_of_words(fw)[k]);
            }
        }
    }
    assert(out@ =~= crate::keccak::spec_state_of_words(fw));
    out
}

/// Build the witness row proving one Keccak-f[1600] round on `state`.
#[verifier::rlimit(100)]
#[verifier::spinoff_prover]
pub fn generate_row(state: &Vec<u8>, round: usize, e: u32) -> (row: KeccakRoundRow)
    requires
        state@.len() == 200,
        round < 24,
        e <= 1,
    ensures
        row.valid(state@, round as int, e),
{
    let ghost sw = crate::keccak::spec_words_of_state(state@);
    let ghost th = crate::keccak::spec_theta(sw);
    let ghost rcw = crate::keccak::spec_iota_rc(round as int);

    let mut cells: Vec<u32> = Vec::new();
    let mut xor2_log: Vec<(u8, u8, u8)> = Vec::new();
    let mut xor3_log: Vec<(u8, u8, u8, u8)> = Vec::new();
    let mut chi_log: Vec<(u8, u8, u8, u8)> = Vec::new();
    let mut rc_log: Vec<(u8, u8, u8)> = Vec::new();

    let rc_cur_bytes = crate::keccak::bytes_of_word(crate::keccak::iota_rc(round));
    let rc_next_bytes = crate::keccak::bytes_of_word(crate::keccak::iota_rc(round + 1));
    proof {
        assert(rc_cur_bytes@ =~= crate::keccak::spec_rc_bytes(round as int));
        assert(rc_next_bytes@ =~= crate::keccak::spec_rc_bytes(round as int + 1));
    }

    row_prefix_phase(state, round, e, &mut cells);
    let round_in = concat_bytes(&rc_cur_bytes, state);

    // Theta, then rho and pi.
    let s1 = theta_phase(state, &mut cells, &mut xor2_log, &mut xor3_log, &mut rc_log);
    let ghost p = crate::keccak::spec_rho_pi(th);
    let b = rho_pi_phase(&s1, &mut cells, &mut rc_log);
    proof {
        assert(lane_words(s1@) =~= th);
    }

    // Chi with its requests, then its hints.
    let ghost ch = crate::keccak::spec_chi(p);
    let s2 = chi_phase(&b, &mut chi_log);
    proof {
        assert(lane_words(b@) =~= p);
    }
    chi_hints_phase(&s2, &mut cells);

    // Iota and the output state.
    let fl = iota_phase(&s2, &rc_cur_bytes, &mut cells, &mut xor2_log);
    let out = out_phase(&s2, &fl);
    proof {
        assert(lane_words(s2@) =~= ch);
        assert(word8(rc_cur_bytes@) == rcw);
        assert(lane_words(s2@).update(0, word8(fl@)) =~= crate::keccak::spec_iota(ch, rcw));
        assert(crate::keccak::spec_iota(ch, rcw) == crate::keccak::spec_keccak_round(sw, rcw));
    }
    let round_out = concat_bytes(&rc_next_bytes, &out);

    KeccakRoundRow {
        cells,
        round_in,
        round_out,
        xor_8_8: xor2_log,
        xor_8_8_8: xor3_log,
        chi_8_8_8: chi_log,
        rc_7_7_7: rc_log,
        out_state: out,
    }
}

// ────────────────────────────────────────────────────────────────────────
//  The component trace
// ────────────────────────────────────────────────────────────────────────

/// Position cursors into one row: how many cells and how many requests of
/// each stream have been laid down.  Trace filling and constraint
/// evaluation must walk the row in the same order; these counters are
/// that shared schedule's summary.
pub struct Indexes {
    pub col_index: usize,
    pub xor_8_8_index: usize,
    pub xor_8_8_8_index: usize,
    pub chi_8_8_8_index: usize,
    pub rc_7_7_7_index: usize,
}

impl Indexes {
    /// The cursor positions after a complete row.
    pub fn of_row(row: &KeccakRoundRow) -> (r: Indexes)
        ensures
            r.col_index == row.cells@.len(),
            r.xor_8_8_index == row.xor_8_8@.len(),
            r.xor_8_8_8_index == row.xor_8_8_8@.len(),
            r.chi_8_8_8_index == row.chi_8_8_8@.len(),
            r.rc_7_7_7_index == row.rc_7_7_7@.len(),
    {
        Indexes {
            col_index: row.cells.len(),
            xor_8_8_index: row.xor_8_8.len(),
            xor_8_8_8_index: row.xor_8_8_8.len(),
            chi_8_8_8_index: row.chi_8_8_8.len(),
            rc_7_7_7_index: row.rc_7_7_7.len(),
        }
    }
}

/// One invocation of the component: which round to prove on which state.
pub struct KeccakRoundInput {
    pub round: usize,
    pub state: Vec<u8>,
}

impl KeccakRoundInput {
    pub open spec fn wf(self) -> bool {
        self.round < 24 && self.state@.len() == 200
    }
}

/// What the claim says about this component: the log2 of its trace length.
pub struct Claim {
    pub log_size: u32,
}

impl Claim {
    /// Column log-sizes per commitment tree: none preprocessed, the base
    /// trace columns, and the interaction columns.
    pub fn log_sizes(&self) -> (r: Vec<Vec<u32>>)
        ensures
            r@.len() == 3,
            r@[0]@.len() == 0,
            r@[1]@.len() == N_COLUMNS,
            forall|k: int| 0 <= k < N_COLUMNS ==> r@[1]@[k] == self.log_size,
            r@[2]@.len() == N_INTERACTION_COLUMNS,
            forall|k: int| 0 <= k < N_INTERACTION_COLUMNS ==> r@[2]@[k] == self.log_size,
    {
        let mut r: Vec<Vec<u32>> = Vec::new();
        r.push(Vec::new());
        r.push(crate::utils::repeat_u32(self.log_size, N_COLUMNS));
        r.push(crate::utils::repeat_u32(self.log_size, N_INTERACTION_COLUMNS));
        r
    }

    /// Build the component's trace.  The trace length is fixed by the
    /// number of real invocations; the input list is truncated or padded
    /// with all-zero states to that length, and rows past `invocations`
    /// are disabled.
    #[verifier::rlimit(100)]
    pub fn generate_trace(inputs: Vec<KeccakRoundInput>, invocations: usize) -> (r: (
        Claim,
        Vec<KeccakRoundRow>,
    ))
        requires
            invocations <= 0x100_0000,
            invocations <= inputs@.len(),
            forall|i: int| 0 <= i < inputs@.len() ==> (#[trigger] inputs@[i]).wf(),
        ensures
            4 <= r.0.log_size <= 24,
            invocations <= (1usize << r.0.log_size),
            r.0.log_size > 4 ==> invocations > (1usize << (r.0.log_size - 1) as u32),
            r.1@.len() == (1usize << r.0.log_size),
            forall|i: int|
                0 <= i < r.1@.len() && i < inputs@.len() ==> (#[trigger] r.1@[i]).valid(
                    inputs@[i].state@,
                    inputs@[i].round as int,
                    if i < invocations {
                        1u32
                    } else {
                        0u32
                    },
                ),
            forall|i: int|
                inputs@.len() <= i < r.1@.len() ==> (#[trigger] r.1@[i]).valid(
                    crate::trace::zero_state_seq(),
                    0,
                    0,
                ),
    {
        let log_size = crate::utils::trace_log_size(invocations);
        let n_rows: usize = 1usize << log_size;

        let mut zero_state: Vec<u8> = Vec::new();
        for i in 0..200usize
            invariant
                zero_state@.len() == i,
                forall|k: int| 0 <= k < i ==> zero_state@[k] == 0u8,
        {
            zero_state.push(0u8);
        }
        proof {
            assert(zero_state@ =~= crate::trace::zero_state_seq());
        }

        let mut rows: Vec<KeccakRoundRow> = Vec::new();
        for i in 0..n_rows
            invariant
                n_rows == (1usize << log_size),
                invocations <= inputs@.len(),
                forall|k: int| 0 <= k < inputs@.len() ==> (#[trigger] inputs@[k]).wf(),
                zero_state@ == crate::trace::zero_state_seq(),
                zero_state@.len() == 200,
                rows@.len() == i,
                forall|k: int|
                    0 <= k < i && k < inputs@.len() ==> (#[trigger] rows@[k]).valid(
                        inputs@[k].state@,
                        inputs@[k].round as int,
                        if k < invocations {
                            1u32
                        } else {
                            0u32
                        },
                    ),
                forall|k: int|
                    inputs@.len() <= k < i ==> (#[trigger] rows@[k]).valid(
                        crate::trace::zero_state_seq(),
                        0,
                        0,
                    ),
        {
            let e: u32 = if i < invocations {
                1
            } else {
                0
            };
            if i < inputs.len() {
                let input = &inputs[i];
                rows.push(generate_row(&input.state, input.round, e));
            } else {
                rows.push(generate_row(&zero_state, 0, 0));
            }
        }
        (Claim { log_size }, rows)
    }
}

/// Round-level equivalence: the output state a keccak_round row emits on
/// the round bus is exactly the reference round function (the word-level
/// `keccak_f1600_round_words`) applied to its input state.
pub proof fn lemma_row_matches_round_function(
    row: KeccakRoundRow,
    state: Seq<u8>,
    round: int,
    e: u32,
)
    requires
        row.valid(state, round, e),
        state.len() == 200,
        0 <= round < 24,
    ensures
        crate::keccak::spec_words_of_state(row.out_state@) == crate::keccak::spec_keccak_round(
            crate::keccak::spec_words_of_state(state),
            crate::keccak::spec_iota_rc(round),
        ),
{
    crate::keccak::lemma_words_state_roundtrip(
        crate::keccak::spec_keccak_round(
            crate::keccak::spec_words_of_state(state),
            crate::keccak::spec_iota_rc(round),
        ),
    );
}

} // verus!
