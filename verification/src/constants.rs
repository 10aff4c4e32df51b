//! Sizes fixed by the SHAKE-256 arithmetization: the sponge geometry of
//! FIPS 202 with rate 1088 bits and capacity 512 bits, and the fixed
//! 72-byte message / 1360-byte output shape proved by this crate.

use vstd::prelude::*;

verus! {

// u64 constants
pub const N_BYTES_IN_U64: usize = 8;

// Keccak permutation constants
pub const N_ROUNDS: usize = 24;
pub const N_LANES_SHAKE256: usize = 25;
pub const SQRT_N_LANES_SHAKE256: usize = 5;
pub const DELIMITED_SUFFIX: u32 = 0x1F;
pub const FINAL_BIT: u32 = 0x80;

// Keccak state constants
pub const N_BYTES_IN_RATE: usize = 136;
pub const N_BYTES_IN_CAPACITY: usize = 64;
pub const N_BYTES_IN_STATE: usize = N_BYTES_IN_RATE + N_BYTES_IN_CAPACITY;

// SHAKE-256 input/output constants
pub const N_BYTES_IN_MESSAGE: usize = 72;
pub const N_BYTES_IN_OUTPUT: usize = N_SQUEEZING * N_BYTES_IN_RATE;

// SHAKE-256 constants
pub const N_SQUEEZING: usize = 10;

// Every trace is SIMD-packed in lanes of 16 rows, so no component trace
// is shorter than 2^LOG_N_LANES rows.
pub const N_LANES: usize = 16;
pub const LOG_N_LANES: u32 = 4;

} // verus!
