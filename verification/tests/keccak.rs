use shake_256::keccak::{keccak_f1600, keccak_f1600_round_words};
use shake_256::trace::keccak::Claim;

fn words_to_state_bytes(words: &[u64; 25]) -> Vec<u8> {
    let mut out = Vec::new();
    for w in 0..25 {
        for i in 0..8 {
            out.push(((words[w] >> (8 * i)) & 0xFF) as u8);
        }
    }
    out
}

fn state_bytes_to_words(state: &[u8]) -> [u64; 25] {
    let mut words = [0u64; 25];
    for w in 0..25 {
        let mut value = 0u64;
        for i in 0..8 {
            value |= (state[8 * w + i] as u64) << (8 * i);
        }
        words[w] = value;
    }
    words
}

/// The word-level permutation matches the reference implementation.
#[test]
fn keccak_f1600_matches_reference() {
    let cases: [[u64; 25]; 3] = [
        [0u64; 25],
        std::array::from_fn(|i| i as u64),
        std::array::from_fn(|i| (i as u64).wrapping_mul(0x9E37_79B9_7F4A_7C15)),
    ];

    for case in cases {
        let mut reference = case;
        let mut state: Vec<u64> = case.to_vec();

        keccak_f1600(&mut state);
        tiny_keccak::keccakf(&mut reference);
        assert_eq!(state.as_slice(), reference.as_slice());

        keccak_f1600(&mut state);
        tiny_keccak::keccakf(&mut reference);
        assert_eq!(state.as_slice(), reference.as_slice());
    }
}

/// The keccak component's output tuple matches the reference permutation.
#[test]
fn keccak_compare_to_reference() {
    // The same 16 input states the packed version would hold in one
    // SIMD row.
    let mut inputs: Vec<Vec<u8>> = Vec::new();
    for lane in 0..16u32 {
        let mut state = Vec::new();
        for i in 0..200u32 {
            let v = (i.wrapping_mul(37)).wrapping_add(lane * 13) & 0xFF;
            state.push(v as u8);
        }
        inputs.push(state);
    }

    let expected: Vec<[u64; 25]> = inputs
        .iter()
        .map(|s| {
            let mut words = state_bytes_to_words(s);
            tiny_keccak::keccakf(&mut words);
            words
        })
        .collect();

    let (_claim, rows) = Claim::generate_trace(inputs, 16);
    for lane in 0..16 {
        let got = &rows[lane].keccak[1];
        let want = words_to_state_bytes(&expected[lane]);
        for i in 0..200 {
            assert_eq!(got[i], want[i], "Mismatch at byte {}", i);
        }
    }
}

/// Chaining the round function 24 times reproduces the permutation.
#[test]
fn keccak_round_chain_is_permutation() {
    let case: [u64; 25] = std::array::from_fn(|i| (i as u64).wrapping_mul(0xA5A5_5A5A_1234_5678));

    let mut chained: Vec<u64> = case.to_vec();
    for round in 0..24 {
        keccak_f1600_round_words(&mut chained, round);
    }

    let mut permuted: Vec<u64> = case.to_vec();
    keccak_f1600(&mut permuted);

    let mut reference = case;
    tiny_keccak::keccakf(&mut reference);

    assert_eq!(chained, permuted);
    assert_eq!(permuted.as_slice(), reference.as_slice());
}

/// One keccak_round witness row emits the reference one-round output.
#[test]
fn keccak_round_row_matches_reference_round() {
    let state: Vec<u8> = (0..200u32).map(|i| (i.wrapping_mul(91) & 0xFF) as u8).collect();

    for round in [0usize, 1, 11, 23] {
        let row = shake_256::trace::keccak_round::generate_row(&state, round, 1);

        let mut words: Vec<u64> = state_bytes_to_words(&state).to_vec();
        keccak_f1600_round_words(&mut words, round);
        let mut arr = [0u64; 25];
        arr.copy_from_slice(&words);
        let want = words_to_state_bytes(&arr);

        assert_eq!(row.out_state, want);
    }
}
