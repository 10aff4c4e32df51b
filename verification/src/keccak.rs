//! The Keccak-f[1600] permutation: specification-level round function over
//! 25-word states, the executable word-level implementation used to fill
//! traces, and the correspondence between a state of 25 little-endian words
//! and a state of 200 bytes.

use vstd::prelude::*;

verus! {

// ────────────────────────────────────────────────────────────────────────
//  Round constants
// ────────────────────────────────────────────────────────────────────────

/// The FIPS 202 iota round constant for round `r`; rounds past the last
/// one get the dummy constant 0, which closes the round-relation chain.
pub open spec fn spec_iota_rc(r: int) -> u64 {
    if r == 0 {
        0x0000_0000_0000_0001u64
    } else if r == 1 {
        0x0000_0000_0000_8082u64
    } else if r == 2 {
        0x8000_0000_0000_808Au64
    } else if r == 3 {
        0x8000_0000_8000_8000u64
    } else if r == 4 {
        0x0000_0000_0000_808Bu64
    } else if r == 5 {
        0x0000_0000_8000_0001u64
    } else if r == 6 {
        0x8000_0000_8000_8081u64
    } else if r == 7 {
        0x8000_0000_0000_8009u64
    } else if r == 8 {
        0x0000_0000_0000_008Au64
    } else if r == 9 {
        0x0000_0000_0000_0088u64
    } else if r == 10 {
        0x0000_0000_8000_8009u64
    } else if r == 11 {
        0x0000_0000_8000_000Au64
    } else if r == 12 {
        0x0000_0000_8000_808Bu64
    } else if r == 13 {
        0x8000_0000_0000_008Bu64
    } else if r == 14 {
        0x8000_0000_0000_8089u64
    } else if r == 15 {
        0x8000_0000_0000_8003u64
    } else if r == 16 {
        0x8000_0000_0000_8002u64
    } else if r == 17 {
        0x8000_0000_0000_0080u64
    } else if r == 18 {
        0x0000_0000_0000_800Au64
    } else if r == 19 {
        0x8000_0000_8000_000Au64
    } else if r == 20 {
        0x8000_0000_8000_8081u64
    } else if r == 21 {
        0x8000_0000_0000_8080u64
    } else if r == 22 {
        0x0000_0000_8000_0001u64
    } else if r == 23 {
        0x8000_0000_8000_8008u64
    } else {
        0u64
    }
}

/// The iota round constant for round `r`, with the dummy 0 for `r == 24`.
pub fn iota_rc(r: usize) -> (rc: u64)
    requires
        r <= 24,
    ensures
        rc == spec_iota_rc(r as int),
{
    if r == 0 {
        0x0000_0000_0000_0001u64
    } else if r == 1 {
        0x0000_0000_0000_8082u64
    } else if r == 2 {
        0x8000_0000_0000_808Au64
    } else if r == 3 {
        0x8000_0000_8000_8000u64
    } else if r == 4 {
        0x0000_0000_0000_808Bu64
    } else if r == 5 {
        0x0000_0000_8000_0001u64
    } else if r == 6 {
        0x8000_0000_8000_8081u64
    } else if r == 7 {
        0x8000_0000_0000_8009u64
    } else if r == 8 {
        0x0000_0000_0000_008Au64
    } else if r == 9 {
        0x0000_0000_0000_0088u64
    } else if r == 10 {
        0x0000_0000_8000_8009u64
    } else if r == 11 {
        0x0000_0000_8000_000Au64
    } else if r == 12 {
        0x0000_0000_8000_808Bu64
    } else if r == 13 {
        0x8000_0000_0000_008Bu64
    } else if r == 14 {
        0x8000_0000_0000_8089u64
    } else if r == 15 {
        0x8000_0000_0000_8003u64
    } else if r == 16 {
        0x8000_0000_0000_8002u64
    } else if r == 17 {
        0x8000_0000_0000_0080u64
    } else if r == 18 {
        0x0000_0000_0000_800Au64
    } else if r == 19 {
        0x8000_0000_8000_000Au64
    } else if r == 20 {
        0x8000_0000_8000_8081u64
    } else if r == 21 {
        0x8000_0000_0000_8080u64
    } else if r == 22 {
        0x0000_0000_8000_0001u64
    } else if r == 23 {
        0x8000_0000_8000_8008u64
    } else {
        0u64
    }
}

/// The rotation offsets of the rho step, indexed as `RHO_OFFSETS[x][y]` in
/// the canonical 5x5 lane layout.
pub open spec fn spec_rho_offsets() -> Seq<Seq<u64>> {
    seq![
        seq![0u64, 36u64, 3u64, 41u64, 18u64],
        seq![1u64, 44u64, 10u64, 45u64, 2u64],
        seq![62u64, 6u64, 43u64, 15u64, 61u64],
        seq![28u64, 55u64, 25u64, 21u64, 56u64],
        seq![27u64, 20u64, 39u64, 8u64, 14u64],
    ]
}

pub open spec fn spec_rho_off(x: int, y: int) -> u64 {
    spec_rho_offsets()[x][y]
}

/// The rho rotation offset for lane `(x, y)`.
pub fn rho_offset(x: usize, y: usize) -> (r: u64)
    requires
        x < 5,
        y < 5,
    ensures
        r == spec_rho_off(x as int, y as int),
        r < 64,
{
    let row: [u64; 5] = if x == 0 {
        [0u64, 36u64, 3u64, 41u64, 18u64]
    } else if x == 1 {
        [1u64, 44u64, 10u64, 45u64, 2u64]
    } else if x == 2 {
        [62u64, 6u64, 43u64, 15u64, 61u64]
    } else if x == 3 {
        [28u64, 55u64, 25u64, 21u64, 56u64]
    } else {
        [27u64, 20u64, 39u64, 8u64, 14u64]
    };
    let r = row[y];
    assert(r == spec_rho_off(x as int, y as int) && r < 64);
    r
}

// ────────────────────────────────────────────────────────────────────────
//  Word rotation
// ────────────────────────────────────────────────────────────────────────

pub open spec fn rotl64(w: u64, n: u64) -> u64 {
    if n == 0 {
        w
    } else {
        (w << n) | (w >> (64 - n) as u64)
    }
}

pub open spec fn rotr64(w: u64, n: u64) -> u64 {
    if n == 0 {
        w
    } else {
        (w >> n) | (w << (64 - n) as u64)
    }
}

pub fn rotl_u64(w: u64, n: u64) -> (r: u64)
    requires
        n < 64,
    ensures
        r == rotl64(w, n),
{
    if n == 0 {
        w
    } else {
        (w << n) | (w >> (64 - n))
    }
}

/// Rotating left by `n` is rotating right by `64 - n`.
pub proof fn lemma_rotl_is_rotr(w: u64, n: u64)
    requires
        0 < n < 64,
    ensures
        rotl64(w, n) == rotr64(w, (64 - n) as u64),
{
    let m = (64 - n) as u64;
    assert((w << n) | (w >> m) == (w >> m) | (w << (64 - m) as u64)) by (bit_vector)
        requires
            0 < n < 64 && m == (64 - n) as u64,
    ;
}

// ────────────────────────────────────────────────────────────────────────
//  The round function on 25-word states
// ────────────────────────────────────────────────────────────────────────

/// Column parity used by theta.
pub open spec fn spec_theta_c(s: Seq<u64>, x: int) -> u64 {
    s[x] ^ s[x + 5] ^ s[x + 10] ^ s[x + 15] ^ s[x + 20]
}

pub open spec fn spec_theta_d(s: Seq<u64>, x: int) -> u64 {
    spec_theta_c(s, (x + 4) % 5) ^ rotl64(spec_theta_c(s, (x + 1) % 5), 1)
}

pub open spec fn spec_theta(s: Seq<u64>) -> Seq<u64> {
    Seq::new(25, |j: int| s[j] ^ spec_theta_d(s, j % 5))
}

/// The combined rho-and-pi step: the lane at `(x, y)` is rotated by its
/// rho offset and moved to `(y, (2x + 3y) % 5)`; written here from the
/// target's point of view (`x == (3 * (j / 5) + j % 5) % 5` inverts pi).
pub open spec fn spec_rho_pi(s: Seq<u64>) -> Seq<u64> {
    Seq::new(
        25,
        |j: int|
            {
                let u = j % 5;
                let v = j / 5;
                let x = (3 * v + u) % 5;
                rotl64(s[x + 5 * u], spec_rho_off(x, u))
            },
    )
}

pub open spec fn spec_chi(s: Seq<u64>) -> Seq<u64> {
    Seq::new(
        25,
        |j: int|
            {
                let x = j % 5;
                let b = 5 * (j / 5);
                s[j] ^ ((!s[b + (x + 1) % 5]) & s[b + (x + 2) % 5])
            },
    )
}

/// Lane `j` of the theta output, written out.
pub proof fn lemma_theta_at(s: Seq<u64>, j: int)
    requires
        s.len() == 25,
        0 <= j < 25,
    ensures
        spec_theta(s)[j] == s[j] ^ spec_theta_d(s, j % 5),
{
}

/// Lane `j` of the chi output, written out.
pub proof fn lemma_chi_at(s: Seq<u64>, j: int)
    requires
        s.len() == 25,
        0 <= j < 25,
    ensures
        spec_chi(s)[j] == s[j] ^ ((!s[5 * (j / 5) + (j % 5 + 1) % 5]) & s[5 * (j / 5) + (j % 5 + 2)
            % 5]),
{
}

pub open spec fn spec_iota(s: Seq<u64>, rc: u64) -> Seq<u64> {
    s.update(0, s[0] ^ rc)
}

/// One full Keccak-f[1600] round with round constant `rc`.
pub open spec fn spec_keccak_round(s: Seq<u64>, rc: u64) -> Seq<u64> {
    spec_iota(spec_chi(spec_rho_pi(spec_theta(s))), rc)
}

/// The first `n` rounds of the permutation applied to `s`.
pub open spec fn spec_keccak_rounds(s: Seq<u64>, n: int) -> Seq<u64>
    decreases n,
{
    if n <= 0 {
        s
    } else {
        spec_keccak_round(spec_keccak_rounds(s, n - 1), spec_iota_rc(n - 1))
    }
}

/// The complete 24-round Keccak-f[1600] permutation.
pub open spec fn spec_keccak_f1600(s: Seq<u64>) -> Seq<u64> {
    spec_keccak_rounds(s, 24)
}

/// One round of Keccak-f[1600] on a 25-word state, in place.
pub fn keccak_f1600_round_words(state: &mut Vec<u64>, round: usize)
    requires
        old(state)@.len() == 25,
        round < 24,
    ensures
        final(state)@ == spec_keccak_round(old(state)@, spec_iota_rc(round as int)),
{
    let ghost s0 = state@;

    // Theta: column parities, then mix each lane with its column's D.
    let mut c: Vec<u64> = Vec::new();
    for x in 0..5usize
        invariant
            state@ == s0,
            s0.len() == 25,
            c@.len() == x,
            forall|xx: int| 0 <= xx < x ==> c@[xx] == spec_theta_c(s0, xx),
    {
        c.push(state[x] ^ state[x + 5] ^ state[x + 10] ^ state[x + 15] ^ state[x + 20]);
    }

    let mut d: Vec<u64> = Vec::new();
    for x in 0..5usize
        invariant
            state@ == s0,
            s0.len() == 25,
            c@.len() == 5,
            forall|xx: int| 0 <= xx < 5 ==> c@[xx] == spec_theta_c(s0, xx),
            d@.len() == x,
            forall|xx: int| 0 <= xx < x ==> d@[xx] == spec_theta_d(s0, xx),
    {
        d.push(c[(x + 4) % 5] ^ rotl_u64(c[(x + 1) % 5], 1));
    }

    let mut after_theta: Vec<u64> = Vec::new();
    for j in 0..25usize
        invariant
            state@ == s0,
            s0.len() == 25,
            d@.len() == 5,
            forall|xx: int| 0 <= xx < 5 ==> d@[xx] == spec_theta_d(s0, xx),
            after_theta@.len() == j,
            forall|jj: int| 0 <= jj < j ==> after_theta@[jj] == spec_theta(s0)[jj],
    {
        after_theta.push(state[j] ^ d[j % 5]);
    }
    let ghost t = spec_theta(s0);
    assert(after_theta@ =~= t);

    // Rho and pi, built lane by lane from the target's point of view.
    let mut b: Vec<u64> = Vec::new();
    for j in 0..25usize
        invariant
            after_theta@ == t,
            t.len() == 25,
            b@.len() == j,
            forall|jj: int| 0 <= jj < j ==> b@[jj] == spec_rho_pi(t)[jj],
    {
        let u = j % 5;
        let v = j / 5;
        let x = (3 * v + u) % 5;
        b.push(rotl_u64(after_theta[x + 5 * u], rho_offset(x, u)));
    }
    let ghost p = spec_rho_pi(t);
    assert(b@ =~= p);

    // Chi, with the iota constant folded into lane 0.
    let rc = iota_rc(round);
    let mut out: Vec<u64> = Vec::new();
    for j in 0..25usize
        invariant
            b@ == p,
            p.len() == 25,
            out@.len() == j,
            forall|jj: int|
                0 <= jj < j ==> out@[jj] == spec_iota(spec_chi(p), spec_iota_rc(round as int))[jj],
            rc == spec_iota_rc(round as int),
    {
        let x = j % 5;
        let base = 5 * (j / 5);
        let mut v = b[j] ^ ((!b[base + (x + 1) % 5]) & b[base + (x + 2) % 5]);
        if j == 0 {
            v = v ^ rc;
        }
        out.push(v);
    }
    assert(out@ =~= spec_keccak_round(s0, spec_iota_rc(round as int)));
    *state = out;
}

// ────────────────────────────────────────────────────────────────────────
//  Words as little-endian byte limbs
// ────────────────────────────────────────────────────────────────────────

/// The word held by 8 little-endian byte limbs.
pub open spec fn word8(b: Seq<u8>) -> u64
    recommends
        b.len() == 8,
{
    ((b[0] as u64) | ((b[1] as u64) << 8) | ((b[2] as u64) << 16) | ((b[3] as u64) << 24) | ((
    b[4] as u64) << 32) | ((b[5] as u64) << 40) | ((b[6] as u64) << 48) | ((b[7] as u64) << 56))
}

/// Byte `i` of the little-endian encoding of `w`.
pub open spec fn spec_byte_of_word(w: u64, i: int) -> u8 {
    ((w >> ((8 * i) as u64)) & 0xff) as u8
}

/// The 25 words of a 200-byte state.
pub open spec fn spec_words_of_state(b: Seq<u8>) -> Seq<u64> {
    Seq::new(25, |j: int| word8(b.subrange(8 * j, 8 * j + 8)))
}

/// The 200 bytes of a 25-word state.
pub open spec fn spec_state_of_words(ws: Seq<u64>) -> Seq<u8> {
    Seq::new(200, |i: int| spec_byte_of_word(ws[i / 8], i % 8))
}

/// Reading a byte back out of the word held by 8 limbs gives the limb.
pub proof fn lemma_byte_of_word8(b: Seq<u8>, i: int)
    requires
        b.len() == 8,
        0 <= i < 8,
    ensures
        spec_byte_of_word(word8(b), i) == b[i],
{
    let b0 = b[0];
    let b1 = b[1];
    let b2 = b[2];
    let b3 = b[3];
    let b4 = b[4];
    let b5 = b[5];
    let b6 = b[6];
    let b7 = b[7];
    let w = word8(b);
    assert(w == ((b0 as u64) | ((b1 as u64) << 8) | ((b2 as u64) << 16) | ((b3 as u64) << 24) | ((
    b4 as u64) << 32) | ((b5 as u64) << 40) | ((b6 as u64) << 48) | ((b7 as u64) << 56)));
    assert(((w >> 0) & 0xff) == b0 as u64 && ((w >> 8) & 0xff) == b1 as u64 && ((w >> 16) & 0xff)
        == b2 as u64 && ((w >> 24) & 0xff) == b3 as u64 && ((w >> 32) & 0xff) == b4 as u64 && ((w
        >> 40) & 0xff) == b5 as u64 && ((w >> 48) & 0xff) == b6 as u64 && ((w >> 56) & 0xff)
        == b7 as u64) by (bit_vector)
        requires
            w == ((b0 as u64) | ((b1 as u64) << 8) | ((b2 as u64) << 16) | ((b3 as u64) << 24) | ((
            b4 as u64) << 32) | ((b5 as u64) << 40) | ((b6 as u64) << 48) | ((b7 as u64) << 56)),
    ;
    if i == 0 {
    } else if i == 1 {
    } else if i == 2 {
    } else if i == 3 {
    } else if i == 4 {
    } else if i == 5 {
    } else if i == 6 {
    } else {
        assert(i == 7);
    }
}

/// Two words with the same little-endian bytes are the same word.
pub proof fn lemma_word_eq_by_bytes(v1: u64, v2: u64)
    requires
        forall|i: int| 0 <= i < 8 ==> spec_byte_of_word(v1, i) == spec_byte_of_word(v2, i),
    ensures
        v1 == v2,
{
    assert(spec_byte_of_word(v1, 0) == spec_byte_of_word(v2, 0));
    assert(spec_byte_of_word(v1, 1) == spec_byte_of_word(v2, 1));
    assert(spec_byte_of_word(v1, 2) == spec_byte_of_word(v2, 2));
    assert(spec_byte_of_word(v1, 3) == spec_byte_of_word(v2, 3));
    assert(spec_byte_of_word(v1, 4) == spec_byte_of_word(v2, 4));
    assert(spec_byte_of_word(v1, 5) == spec_byte_of_word(v2, 5));
    assert(spec_byte_of_word(v1, 6) == spec_byte_of_word(v2, 6));
    assert(spec_byte_of_word(v1, 7) == spec_byte_of_word(v2, 7));
    assert((((v1 >> 0) & 0xff) as u8 == ((v2 >> 0) & 0xff) as u8 && ((v1 >> 8) & 0xff) as u8 == ((
    v2 >> 8) & 0xff) as u8 && ((v1 >> 16) & 0xff) as u8 == ((v2 >> 16) & 0xff) as u8 && ((v1 >> 24)
        & 0xff) as u8 == ((v2 >> 24) & 0xff) as u8 && ((v1 >> 32) & 0xff) as u8 == ((v2 >> 32)
        & 0xff) as u8 && ((v1 >> 40) & 0xff) as u8 == ((v2 >> 40) & 0xff) as u8 && ((v1 >> 48)
        & 0xff) as u8 == ((v2 >> 48) & 0xff) as u8 && ((v1 >> 56) & 0xff) as u8 == ((v2 >> 56)
        & 0xff) as u8) ==> v1 == v2) by (bit_vector);
}

/// The word of the limb-wise xor is the xor of the words.
pub proof fn lemma_word8_xor(a: Seq<u8>, b: Seq<u8>, r: Seq<u8>)
    requires
        a.len() == 8,
        b.len() == 8,
        r.len() == 8,
        forall|i: int| 0 <= i < 8 ==> r[i] == a[i] ^ b[i],
    ensures
        word8(r) == word8(a) ^ word8(b),
{
    let a0 = a[0];
    let a1 = a[1];
    let a2 = a[2];
    let a3 = a[3];
    let a4 = a[4];
    let a5 = a[5];
    let a6 = a[6];
    let a7 = a[7];
    let b0 = b[0];
    let b1 = b[1];
    let b2 = b[2];
    let b3 = b[3];
    let b4 = b[4];
    let b5 = b[5];
    let b6 = b[6];
    let b7 = b[7];
    assert((((a0 ^ b0) as u64) | (((a1 ^ b1) as u64) << 8) | (((a2 ^ b2) as u64) << 16) | (((a3
        ^ b3) as u64) << 24) | (((a4 ^ b4) as u64) << 32) | (((a5 ^ b5) as u64) << 40) | (((a6
        ^ b6) as u64) << 48) | (((a7 ^ b7) as u64) << 56)) == (((a0 as u64) | ((a1 as u64) << 8) | (
    (a2 as u64) << 16) | ((a3 as u64) << 24) | ((a4 as u64) << 32) | ((a5 as u64) << 40) | ((
    a6 as u64) << 48) | ((a7 as u64) << 56)) ^ ((b0 as u64) | ((b1 as u64) << 8) | ((b2 as u64)
        << 16) | ((b3 as u64) << 24) | ((b4 as u64) << 32) | ((b5 as u64) << 40) | ((b6 as u64)
        << 48) | ((b7 as u64) << 56)))) by (bit_vector);
}

/// The word of the limb-wise chi combination is the word-level chi.
pub proof fn lemma_word8_chi(a: Seq<u8>, b: Seq<u8>, c: Seq<u8>, r: Seq<u8>)
    requires
        a.len() == 8,
        b.len() == 8,
        c.len() == 8,
        r.len() == 8,
        forall|i: int| 0 <= i < 8 ==> r[i] == a[i] ^ ((!b[i]) & c[i]),
    ensures
        word8(r) == word8(a) ^ ((!word8(b)) & word8(c)),
{
    let a0 = a[0];
    let a1 = a[1];
    let a2 = a[2];
    let a3 = a[3];
    let a4 = a[4];
    let a5 = a[5];
    let a6 = a[6];
    let a7 = a[7];
    let b0 = b[0];
    let b1 = b[1];
    let b2 = b[2];
    let b3 = b[3];
    let b4 = b[4];
    let b5 = b[5];
    let b6 = b[6];
    let b7 = b[7];
    let c0 = c[0];
    let c1 = c[1];
    let c2 = c[2];
    let c3 = c[3];
    let c4 = c[4];
    let c5 = c[5];
    let c6 = c[6];
    let c7 = c[7];
    let r0 = r[0];
    let r1 = r[1];
    let r2 = r[2];
    let r3 = r[3];
    let r4 = r[4];
    let r5 = r[5];
    let r6 = r[6];
    let r7 = r[7];
    let wa = word8(a);
    let wb = word8(b);
    let wc = word8(c);
    let wr = word8(r);
    assert(wr == wa ^ ((!wb) & wc)) by (bit_vector)
        requires
            wa == ((a0 as u64) | ((a1 as u64) << 8) | ((a2 as u64) << 16) | ((a3 as u64) << 24) | ((
            a4 as u64) << 32) | ((a5 as u64) << 40) | ((a6 as u64) << 48) | ((a7 as u64) << 56)),
            wb == ((b0 as u64) | ((b1 as u64) << 8) | ((b2 as u64) << 16) | ((b3 as u64) << 24) | ((
            b4 as u64) << 32) | ((b5 as u64) << 40) | ((b6 as u64) << 48) | ((b7 as u64) << 56)),
            wc == ((c0 as u64) | ((c1 as u64) << 8) | ((c2 as u64) << 16) | ((c3 as u64) << 24) | ((
            c4 as u64) << 32) | ((c5 as u64) << 40) | ((c6 as u64) << 48) | ((c7 as u64) << 56)),
            wr == ((r0 as u64) | ((r1 as u64) << 8) | ((r2 as u64) << 16) | ((r3 as u64) << 24) | ((
            r4 as u64) << 32) | ((r5 as u64) << 40) | ((r6 as u64) << 48) | ((r7 as u64) << 56)),
            r0 == a0 ^ ((!b0) & c0),
            r1 == a1 ^ ((!b1) & c1),
            r2 == a2 ^ ((!b2) & c2),
            r3 == a3 ^ ((!b3) & c3),
            r4 == a4 ^ ((!b4) & c4),
            r5 == a5 ^ ((!b5) & c5),
            r6 == a6 ^ ((!b6) & c6),
            r7 == a7 ^ ((!b7) & c7),
    ;
}

/// Rotating right by a whole number of bytes permutes the little-endian
/// bytes cyclically.
pub proof fn lemma_byte_rotation(w: u64, q: u64, j: u64)
    requires
        1 <= q < 8,
        j < 8,
    ensures
        spec_byte_of_word(rotr64(w, (8 * q) as u64), j as int) == spec_byte_of_word(
            w,
            ((j + q) % 8) as int,
        ),
{
    assert(((((w >> (8 * q)) | (w << ((64 - 8 * q) as u64))) >> (8 * j)) & 0xff) == ((w >> ((8 * ((j
        + q) % 8)) as u64)) & 0xff)) by (bit_vector)
        requires
            1 <= q < 8 && j < 8,
    ;
}

/// Rotating right by `r` bits, `0 < r < 8`, splits every byte: the high
/// `8 - r` bits of the result byte come from the same byte of the input,
/// the low `r` bits of the next byte wrap in on top.
pub proof fn lemma_bit_rotation(w: u64, r: u64, j: u64)
    requires
        1 <= r < 8,
        j < 8,
    ensures
        spec_byte_of_word(rotr64(w, r), j as int) == ((spec_byte_of_word(w, j as int) >> r) | ((
        spec_byte_of_word(w, ((j + 1) % 8) as int) & ((1u8 << r) - 1) as u8) << ((8 - r) as u8))),
{
    assert((((((w >> r) | (w << ((64 - r) as u64))) >> ((8 * j) as u64)) & 0xff) as u8) == (((((w
        >> ((8 * j) as u64)) & 0xff) as u8) >> r) | (((((w >> ((8 * ((j + 1) % 8)) as u64)) & 0xff)
        as u8) & (((1u8 << r) - 1) as u8)) << ((8 - r) as u8)))) by (bit_vector)
        requires
            1 <= r < 8 && j < 8,
    ;
    assert(rotr64(w, r) == (w >> r) | (w << ((64 - r) as u64)));
}

/// A right rotation decomposes into a byte rotation followed by a short
/// bit rotation.
pub proof fn lemma_rot_decompose(w: u64, q: u64, r: u64)
    requires
        q < 8,
        1 <= r < 8,
    ensures
        rotr64(w, (8 * q + r) as u64) == rotr64(rotr64(w, (8 * q) as u64), r),
{
    if q == 0 {
    } else {
        assert(((w >> (8 * q + r)) | (w << ((64 - (8 * q + r)) as u64))) == ((((w >> (8 * q)) | (w
            << ((64 - 8 * q) as u64))) >> r) | (((w >> (8 * q)) | (w << ((64 - 8 * q) as u64))) << (
        (64 - r) as u64)))) by (bit_vector)
            requires
                1 <= q < 8 && 1 <= r < 8,
        ;
    }
}

/// The low `r` bits of a masked byte stay below `2^r`.
pub proof fn lemma_mask_bound(x: u8, r: u64)
    requires
        1 <= r < 8,
    ensures
        (x & ((1u8 << r) - 1) as u8) <= ((1u8 << r) - 1) as u8,
        ((1u8 << r) - 1) as u8 <= 127,
{
    assert((x & (((1u8 << r) - 1) as u8)) <= (((1u8 << r) - 1) as u8) && (((1u8 << r) - 1) as u8)
        <= 127) by (bit_vector)
        requires
            1 <= r < 8,
    ;
}

/// The little-endian bytes of the round constant for round `r`.
pub open spec fn spec_rc_bytes(r: int) -> Seq<u8> {
    Seq::new(8, |i: int| spec_byte_of_word(spec_iota_rc(r), i))
}

/// The 8 little-endian bytes of a word.
pub fn bytes_of_word(w: u64) -> (r: Vec<u8>)
    ensures
        r@.len() == 8,
        forall|i: int| 0 <= i < 8 ==> r@[i] == spec_byte_of_word(w, i),
        word8(r@) == w,
{
    let mut r: Vec<u8> = Vec::new();
    for i in 0..8usize
        invariant
            r@.len() == i,
            forall|j: int| 0 <= j < i ==> r@[j] == spec_byte_of_word(w, j),
    {
        r.push(((w >> ((8 * i) as u64)) & 0xff) as u8);
    }
    proof {
        assert forall|j: int| 0 <= j < 8 implies spec_byte_of_word(word8(r@), j)
            == spec_byte_of_word(w, j) by {
            lemma_byte_of_word8(r@, j);
        }
        lemma_word_eq_by_bytes(word8(r@), w);
    }
    r
}

/// The word held by bytes `8 * j .. 8 * j + 8` of a byte state.
pub fn word_of_bytes_at(s: &Vec<u8>, j: usize) -> (w: u64)
    requires
        s@.len() == 200,
        j < 25,
    ensures
        w == word8(s@.subrange(8 * j as int, 8 * j as int + 8)),
{
    let base = 8 * j;
    let w = (s[base] as u64) | ((s[base + 1] as u64) << 8) | ((s[base + 2] as u64) << 16) | ((s[base
        + 3] as u64) << 24) | ((s[base + 4] as u64) << 32) | ((s[base + 5] as u64) << 40) | ((s[base
        + 6] as u64) << 48) | ((s[base + 7] as u64) << 56);
    proof {
        let sub = s@.subrange(8 * j as int, 8 * j as int + 8);
        assert(sub[0] == s@[8 * j as int] && sub[1] == s@[8 * j as int + 1] && sub[2] == s@[8
            * j as int + 2] && sub[3] == s@[8 * j as int + 3] && sub[4] == s@[8 * j as int + 4]
            && sub[5] == s@[8 * j as int + 5] && sub[6] == s@[8 * j as int + 6] && sub[7] == s@[8
            * j as int + 7]);
    }
    w
}

/// The 25 words of a 200-byte state.
pub fn words_of_state(s: &Vec<u8>) -> (ws: Vec<u64>)
    requires
        s@.len() == 200,
    ensures
        ws@ == spec_words_of_state(s@),
{
    let mut ws: Vec<u64> = Vec::new();
    for j in 0..25usize
        invariant
            s@.len() == 200,
            ws@.len() == j,
            forall|k: int| 0 <= k < j ==> ws@[k] == spec_words_of_state(s@)[k],
    {
        ws.push(word_of_bytes_at(s, j));
    }
    assert(ws@ =~= spec_words_of_state(s@));
    ws
}

/// The 200 bytes of a 25-word state.
pub fn state_of_words(ws: &Vec<u64>) -> (s: Vec<u8>)
    requires
        ws@.len() == 25,
    ensures
        s@ == spec_state_of_words(ws@),
{
    let mut s: Vec<u8> = Vec::new();
    for j in 0..25usize
        invariant
            ws@.len() == 25,
            s@.len() == 8 * j,
            forall|k: int| 0 <= k < 8 * j ==> s@[k] == spec_state_of_words(ws@)[k],
    {
        let b = bytes_of_word(ws[j]);
        for i in 0..8usize
            invariant
                ws@.len() == 25,
                j < 25,
                b@.len() == 8,
                forall|k: int| 0 <= k < 8 ==> b@[k] == spec_byte_of_word(ws@[j as int], k),
                s@.len() == 8 * j + i,
                forall|k: int| 0 <= k < 8 * j + i ==> s@[k] == spec_state_of_words(ws@)[k],
        {
            s.push(b[i]);
            proof {
                let k = 8 * (j as int) + i;
                assert(k / 8 == j && k % 8 == i) by (nonlinear_arith)
                    requires
                        k == 8 * (j as int) + i && 0 <= i < 8 && 0 <= j,
                ;
            }
        }
    }
    assert(s@ =~= spec_state_of_words(ws@));
    s
}

/// Splitting a byte state into words and back is the identity.
pub proof fn lemma_state_words_roundtrip(s: Seq<u8>)
    requires
        s.len() == 200,
    ensures
        spec_state_of_words(spec_words_of_state(s)) == s,
{
    let ws = spec_words_of_state(s);
    assert forall|i: int| 0 <= i < 200 implies spec_state_of_words(ws)[i] == s[i] by {
        let j = i / 8;
        let k = i % 8;
        assert(0 <= j < 25 && 0 <= k < 8);
        let sub = s.subrange(8 * j, 8 * j + 8);
        lemma_byte_of_word8(sub, k);
        assert(sub[k] == s[8 * j + k]);
        assert(8 * j + k == i);
    }
    assert(spec_state_of_words(ws) =~= s);
}

/// Packing a 25-word state into bytes and back is the identity.
pub proof fn lemma_words_state_roundtrip(ws: Seq<u64>)
    requires
        ws.len() == 25,
    ensures
        spec_words_of_state(spec_state_of_words(ws)) == ws,
{
    let s = spec_state_of_words(ws);
    assert forall|j: int| 0 <= j < 25 implies spec_words_of_state(s)[j] == ws[j] by {
        let sub = s.subrange(8 * j, 8 * j + 8);
        assert forall|i: int| 0 <= i < 8 implies sub[i] == spec_byte_of_word(ws[j], i) by {
            assert(sub[i] == s[8 * j + i]);
            let k = 8 * j + i;
            assert(k / 8 == j && k % 8 == i) by (nonlinear_arith)
                requires
                    k == 8 * j + i && 0 <= i < 8 && 0 <= j,
            ;
        }
        assert forall|i: int| 0 <= i < 8 implies spec_byte_of_word(word8(sub), i)
            == spec_byte_of_word(ws[j], i) by {
            lemma_byte_of_word8(sub, i);
        }
        lemma_word_eq_by_bytes(word8(sub), ws[j]);
    }
    assert(spec_words_of_state(s) =~= ws);
}

/// Chaining the round function over all 24 round constants is the full
/// permutation.
pub proof fn lemma_rounds_chain_to_permutation(s: Seq<u64>)
    ensures
        spec_keccak_rounds(s, 24) == spec_keccak_f1600(s),
{
}

/// The complete Keccak-f[1600] permutation on a 25-word state, in place.
pub fn keccak_f1600(state: &mut Vec<u64>)
    requires
        old(state)@.len() == 25,
    ensures
        final(state)@ == spec_keccak_f1600(old(state)@),
{
    let ghost s0 = state@;
    for round in 0..24usize
        invariant
            state@.len() == 25,
            state@ == spec_keccak_rounds(s0, round as int),
    {
        keccak_f1600_round_words(state, round);
    }
}

} // verus!
