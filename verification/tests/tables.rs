use shake_256::constants::{
    N_BYTES_IN_MESSAGE, N_BYTES_IN_OUTPUT, N_BYTES_IN_RATE, N_BYTES_IN_STATE, N_ROUNDS,
};
use shake_256::keccak::iota_rc;
use shake_256::trace::Claim;
use shake_256::utils::{trace_log_size, Enabler};

#[test]
fn constants_fix_the_shape() {
    assert_eq!(N_BYTES_IN_MESSAGE, 72);
    assert_eq!(N_BYTES_IN_RATE, 136);
    assert_eq!(N_BYTES_IN_STATE, 200);
    assert_eq!(N_BYTES_IN_OUTPUT, 1360);
    assert_eq!(N_ROUNDS, 24);
}

#[test]
fn iota_round_constants() {
    assert_eq!(iota_rc(0), 0x0000_0000_0000_0001);
    assert_eq!(iota_rc(1), 0x0000_0000_0000_8082);
    assert_eq!(iota_rc(23), 0x8000_0000_8000_8008);
    // The dummy constant past the last round closes the bus chain.
    assert_eq!(iota_rc(24), 0);
}

#[test]
fn trace_log_size_boundaries() {
    assert_eq!(trace_log_size(0), 4);
    assert_eq!(trace_log_size(1), 4);
    assert_eq!(trace_log_size(16), 4);
    assert_eq!(trace_log_size(17), 5);
    assert_eq!(trace_log_size(1024), 10);
    assert_eq!(trace_log_size(1025), 11);
}

#[test]
fn enabler_marks_padding() {
    let enabler = Enabler::new(3);
    assert_eq!(enabler.at(0), 1);
    assert_eq!(enabler.at(2), 1);
    assert_eq!(enabler.at(3), 0);
    assert_eq!(enabler.at(100), 0);
}

#[test]
fn xor_8_8_table_cells() {
    let cols = shake_256::preprocessed::xor_8_8::generate_preprocessed_trace();
    assert_eq!(cols.len(), 3);
    assert_eq!(cols[0].len(), 1 << 16);
    let idx = 0x1234;
    assert_eq!(cols[0][idx], 0x34);
    assert_eq!(cols[1][idx], 0x12);
    assert_eq!(cols[2][idx], 0x26);
    assert_eq!(cols[2][0], 0);
}

#[test]
fn table_cells_spot_checks() {
    let (a, b, c, x) = shake_256::preprocessed::xor_8_8_8::table_cell(0x050301);
    assert_eq!((a, b, c), (0x01, 0x03, 0x05));
    assert_eq!(x, 0x01 ^ 0x03 ^ 0x05);

    let (a, b, c, x) = shake_256::preprocessed::chi_8_8_8::table_cell(0x050301);
    assert_eq!((a, b, c), (0x01, 0x03, 0x05));
    assert_eq!(x, 0x01 ^ ((!0x03u8 as u32) & 0x05));

    let (a, b, c) = shake_256::preprocessed::rc_7_7_7::table_cell(5 + 128 * 9 + 16384 * 100);
    assert_eq!((a, b, c), (5, 9, 100));
}

/// The multiplicity columns count exactly the round trace's requests.
#[test]
fn multiplicities_count_requests() {
    let messages = vec![vec![0u8; 72]];
    let (_claim, traces) = Claim::generate_trace(&messages);

    // Count by hand from the logged requests of every round row.
    let mut expected_xor2 = vec![0u32; 1 << 16];
    let mut expected_rc = vec![0u32; 1 << 21];
    for row in &traces.keccak_round {
        for t in &row.xor_8_8 {
            expected_xor2[t.0 as usize + 256 * t.1 as usize] += 1;
        }
        for t in &row.rc_7_7_7 {
            expected_rc[t.0 as usize + 128 * t.1 as usize + 16384 * t.2 as usize] += 1;
        }
    }
    assert_eq!(traces.xor_8_8, expected_xor2);
    assert_eq!(traces.rc_7_7_7, expected_rc);

    // The totals are the per-row request counts times the row count.
    let total_xor2: u64 = traces.xor_8_8.iter().map(|m| *m as u64).sum();
    assert_eq!(total_xor2, 248 * 256);
    let total_rc: u64 = traces.rc_7_7_7.iter().map(|m| *m as u64).sum();
    assert_eq!(total_rc, 81 * 256);
}

/// Every request logged by the round trace matches its provider table.
#[test]
fn requests_match_tables() {
    let messages = vec![vec![0xA7u8; 72]];
    let (_claim, traces) = Claim::generate_trace(&messages);

    let row = &traces.keccak_round[5];
    for t in &row.xor_8_8 {
        assert_eq!(t.2, t.0 ^ t.1);
    }
    for t in &row.xor_8_8_8 {
        assert_eq!(t.3, t.0 ^ t.1 ^ t.2);
    }
    for t in &row.chi_8_8_8 {
        assert_eq!(t.3, t.0 ^ ((!t.1) & t.2));
    }
    for t in &row.rc_7_7_7 {
        assert!(t.0 < 128 && t.1 < 128 && t.2 < 128);
    }
    assert_eq!(row.xor_8_8.len(), 248);
    assert_eq!(row.xor_8_8_8.len(), 80);
    assert_eq!(row.chi_8_8_8.len(), 200);
    assert_eq!(row.rc_7_7_7.len(), 81);
    assert_eq!(row.cells.len(), 961);
}

/// The claim's column log-sizes follow the component layouts.
#[test]
fn claim_log_sizes() {
    let messages = vec![vec![0u8; 72]];
    let (claim, _traces) = Claim::generate_trace(&messages);

    let trees = claim.log_sizes();
    assert_eq!(trees.len(), 3);
    assert_eq!(trees[0].len(), 0);
    // Base trace: 2073 + 5001 + 961 columns, then one multiplicity
    // column per provider.
    assert_eq!(trees[1].len(), 2073 + 5001 + 961 + 4);
    assert_eq!(trees[1][0], 4);
    assert_eq!(trees[1][2073], 4);
    assert_eq!(trees[1][2073 + 5001], 8);
    assert_eq!(trees[1][2073 + 5001 + 961], 24);
    assert_eq!(trees[1][2073 + 5001 + 961 + 3], 21);
    // Interaction trace widths per component.
    assert_eq!(trees[2].len(), 44 + 100 + 1224 + 16);
}
