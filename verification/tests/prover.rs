use shake_256::public_data::PublicData;
use shake_256::trace::Claim;
use shake_256::{verify_public_data, VerificationError};

use tiny_keccak::Hasher;

fn shake_reference(msg: &[u8]) -> Vec<u8> {
    let mut out = vec![0u8; 1360];
    let mut shake = tiny_keccak::Shake::v256();
    shake.update(msg);
    shake.finalize(&mut out);
    out
}

/// An honest batch of one zero message is accepted, and its recorded
/// output equals the reference SHAKE-256 of 72 zero bytes.
#[test]
fn zero_message_accepted() {
    let messages = vec![vec![0u8; 72]];
    let (claim, traces) = Claim::generate_trace(&messages);
    let public_data = PublicData::new(&messages);

    assert!(verify_public_data(&traces, &public_data).is_ok());
    assert_eq!(claim.shake256.log_size, 4);
    assert_eq!(traces.shake256[0].shake256[1], shake_reference(&messages[0]));
    assert_eq!(public_data.outputs[0], shake_reference(&messages[0]));
}

/// An honest batch of one constant 0x42 message is accepted.
#[test]
fn constant_42_message_accepted() {
    let messages = vec![vec![0x42u8; 72]];
    let (_claim, traces) = Claim::generate_trace(&messages);
    let public_data = PublicData::new(&messages);

    assert!(verify_public_data(&traces, &public_data).is_ok());
    assert_eq!(traces.shake256[0].shake256[1], shake_reference(&messages[0]));
}

/// Flipping any bit of a claimed output breaks the lookup balance.
#[test]
fn tampered_output_rejected() {
    let messages = vec![vec![0u8; 72]];
    let (_claim, traces) = Claim::generate_trace(&messages);
    let mut public_data = PublicData::new(&messages);

    public_data.outputs[0][517] ^= 0x10;
    let r = verify_public_data(&traces, &public_data);
    assert!(matches!(r, Err(VerificationError::InvalidLogupSum)));
}

/// Verifying a witness against public data for a different message
/// breaks the lookup balance.
#[test]
fn mismatched_input_rejected() {
    let messages_a = vec![vec![0u8; 72]];
    let messages_b = vec![vec![1u8; 72]];
    let (_claim, traces) = Claim::generate_trace(&messages_a);
    let public_data = PublicData::new(&messages_b);

    let r = verify_public_data(&traces, &public_data);
    assert!(matches!(r, Err(VerificationError::InvalidLogupSum)));
}

/// A single message pads the session trace up to 16 rows, all padding
/// rows disabled.
#[test]
fn single_message_pads_to_sixteen_rows() {
    let messages = vec![vec![7u8; 72]];
    let (claim, traces) = Claim::generate_trace(&messages);

    assert_eq!(claim.shake256.log_size, 4);
    assert_eq!(traces.shake256.len(), 16);
    assert_eq!(traces.shake256[0].cells[0], 1);
    for i in 1..16 {
        assert_eq!(traces.shake256[i].cells[0], 0);
    }
    // One session asks for ten permutations; the permutation trace stays
    // at its minimum of 16 rows, ten of them enabled.
    assert_eq!(claim.keccak.log_size, 4);
    assert_eq!(traces.keccak.len(), 16);
    assert_eq!(traces.keccak[9].cells[0], 1);
    assert_eq!(traces.keccak[10].cells[0], 0);
    // Ten permutations ask for 240 rounds, padded up to 256 rows.
    assert_eq!(claim.keccak_round.log_size, 8);
    assert_eq!(traces.keccak_round.len(), 256);
    assert_eq!(traces.keccak_round[239].cells[0], 1);
    assert_eq!(traces.keccak_round[240].cells[0], 0);
}

/// A batch of a power of two works, and so does one less.
#[test]
fn power_of_two_and_one_less() {
    for n in [15usize, 16] {
        let messages: Vec<Vec<u8>> = (0..n).map(|i| vec![i as u8; 72]).collect();
        let (claim, traces) = Claim::generate_trace(&messages);
        let public_data = PublicData::new(&messages);

        assert_eq!(claim.shake256.log_size, 4);
        assert!(verify_public_data(&traces, &public_data).is_ok());
    }
}

/// A batch just above a power of two pads to the next one.
#[test]
fn batch_above_power_of_two() {
    let messages: Vec<Vec<u8>> = (0..17usize).map(|i| vec![(3 * i) as u8; 72]).collect();
    let (claim, traces) = Claim::generate_trace(&messages);
    let public_data = PublicData::new(&messages);

    assert_eq!(claim.shake256.log_size, 5);
    assert_eq!(traces.shake256.len(), 32);
    assert!(verify_public_data(&traces, &public_data).is_ok());
}

/// Two runs on identical inputs produce identical witnesses.
#[test]
fn deterministic_witness() {
    let messages = vec![vec![0x5Au8; 72], vec![0xC3u8; 72]];
    let (_c1, t1) = Claim::generate_trace(&messages);
    let (_c2, t2) = Claim::generate_trace(&messages);

    assert_eq!(t1.shake256.len(), t2.shake256.len());
    for i in 0..t1.shake256.len() {
        assert_eq!(t1.shake256[i].cells, t2.shake256[i].cells);
        assert_eq!(t1.shake256[i].shake256, t2.shake256[i].shake256);
        assert_eq!(t1.shake256[i].keccak, t2.shake256[i].keccak);
    }
    for i in 0..t1.keccak_round.len() {
        assert_eq!(t1.keccak_round[i].cells, t2.keccak_round[i].cells);
    }
    assert_eq!(t1.xor_8_8, t2.xor_8_8);
    assert_eq!(t1.xor_8_8_8, t2.xor_8_8_8);
    assert_eq!(t1.chi_8_8_8, t2.chi_8_8_8);
    assert_eq!(t1.rc_7_7_7, t2.rc_7_7_7);
}

/// The buses wire up: the session's permutation requests are the
/// permutation rows' inputs and outputs, and the permutation's round
/// requests are the round rows' bus tuples.
#[test]
fn buses_wire_up() {
    let messages = vec![vec![9u8; 72]];
    let (_claim, traces) = Claim::generate_trace(&messages);

    for j in 0..10 {
        let shake_row = &traces.shake256[j / 10];
        let keccak_row = &traces.keccak[j];
        assert_eq!(keccak_row.keccak[0], shake_row.keccak[2 * (j % 10)]);
        assert_eq!(keccak_row.keccak[1], shake_row.keccak[2 * (j % 10) + 1]);
    }
    for j in 0..240 {
        let keccak_row = &traces.keccak[j / 24];
        let round_row = &traces.keccak_round[j];
        assert_eq!(round_row.round_in, keccak_row.keccak_round[2 * (j % 24)]);
        assert_eq!(round_row.round_out, keccak_row.keccak_round[2 * (j % 24) + 1]);
    }
    // Within one session row, each permutation's output state is the
    // next permutation's input state.
    let row = &traces.shake256[0];
    for k in 0..9 {
        assert_eq!(row.keccak[2 * k + 1], row.keccak[2 * (k + 1)]);
    }
}
