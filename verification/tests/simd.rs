use sha3_kernel_hasher::keccak::{keccak_f1600, round_constants, PI, RC, RHO};
use sha3_kernel_hasher::simd_avx512::{
    build_pi_idxs, build_pi_masks, keccak_f1600_avx512, keccak_f1600_dispatch, pi_idx, pi_mask,
    source_lane, source_row, CHI_TERNARY_IMM, ROT_ROW,
};

#[test]
fn ternarylogic_truth_table_is_chi() {
    // Every (a, b, c) bit combination: bit (a << 2 | b << 1 | c) of the
    // immediate must be a ^ (!b & c).
    for a_bit in 0u64..2 {
        for b_bit in 0u64..2 {
            for c_bit in 0u64..2 {
                let expected = (a_bit ^ ((1 - b_bit) & c_bit)) as i32;
                let index = (a_bit << 2) | (b_bit << 1) | c_bit;
                assert_eq!(
                    (CHI_TERNARY_IMM >> index) & 1,
                    expected,
                    "a={a_bit} b={b_bit} c={c_bit}: ternarylogic(0xD2) mismatch"
                );
            }
        }
    }
}

#[test]
fn table_consistency() {
    for y in 0..5 {
        for x in 0..5 {
            assert_eq!(
                ROT_ROW[y][x],
                RHO[5 * y + x] as u64,
                "ROT_ROW[{y}][{x}] must equal RHO[{}]",
                5 * y + x
            );
        }
    }
    let pi_masks = build_pi_masks();
    let pi_idxs = build_pi_idxs();
    for z in 0..5 {
        for x in 0..5 {
            let j = PI[5 * z + x];
            let expected_row = j / 5;
            let expected_lane = (j % 5) as u64;

            let mut rows_claiming_this_lane = 0;
            for y in 0..5 {
                let bit_set = (pi_masks[z][y] >> x) & 1 == 1;
                if bit_set {
                    rows_claiming_this_lane += 1;
                    assert_eq!(
                        y,
                        expected_row,
                        "PI_MASKS[{z}][{y}] claims lane {x}, but PI[{}] says the \
                         source row is {expected_row}",
                        5 * z + x
                    );
                    assert_eq!(
                        pi_idxs[z][y][x],
                        expected_lane,
                        "PI_IDXS[{z}][{y}][{x}] must equal source_lane(PI[{}]) = {expected_lane}",
                        5 * z + x
                    );
                }
            }
            assert_eq!(
                rows_claiming_this_lane, 1,
                "PI_MASKS[{z}][*] must have exactly one row claiming destination lane {x}"
            );
        }
    }
    assert_eq!(round_constants(), RC, "round_constants() must equal keccak::RC");
}

#[test]
fn matches_scalar_on_zero_state() {
    let mut scalar_state = [0u64; 25];
    keccak_f1600(&mut scalar_state);
    let mut vector_state = [0u64; 25];
    keccak_f1600_avx512(&mut vector_state);
    assert_eq!(
        vector_state, scalar_state,
        "AVX-512 permutation of the zero state must match the scalar implementation"
    );
    assert_eq!(vector_state[0], 0xF1258F7940E1DDE7);
    assert_eq!(vector_state[1], 0x84D5CCF933C0478A);
    assert_eq!(vector_state[2], 0xD598261EA65AA9EE);
    assert_eq!(vector_state[3], 0xBD1547306F80494D);
    assert_eq!(vector_state[4], 0x8B284E056253D057);
}

#[test]
fn matches_scalar_on_random_states() {
    let mut seed: u64 = 0x9E3779B97F4A7C15;
    let mut next = || {
        seed ^= seed << 13;
        seed ^= seed >> 7;
        seed ^= seed << 17;
        seed
    };
    for trial in 0..2000 {
        let mut state = [0u64; 25];
        for lane in state.iter_mut() {
            *lane = next();
        }
        let mut scalar_state = state;
        keccak_f1600(&mut scalar_state);
        let mut vector_state = state;
        keccak_f1600_avx512(&mut vector_state);
        assert_eq!(
            vector_state, scalar_state,
            "trial {trial}: AVX-512 and scalar permutations diverged on random input {state:?}"
        );
    }
}

#[test]
fn matches_scalar_after_multiple_permutations() {
    let mut scalar_state = [0u64; 25];
    let mut vector_state = [0u64; 25];
    for iteration in 0..50 {
        keccak_f1600(&mut scalar_state);
        keccak_f1600_avx512(&mut vector_state);
        assert_eq!(vector_state, scalar_state, "diverged after {iteration} chained permutations");
    }
}

#[test]
fn dispatch_respects_use_avx512_flag() {
    let mut direct_scalar = [1u64; 25];
    keccak_f1600(&mut direct_scalar);
    let mut via_dispatch_off = [1u64; 25];
    keccak_f1600_dispatch(&mut via_dispatch_off, false);
    assert_eq!(direct_scalar, via_dispatch_off);
}

#[test]
fn dispatch_avx512_true_matches_scalar_output() {
    let mut expected = [7u64; 25];
    keccak_f1600(&mut expected);
    let mut actual = [7u64; 25];
    keccak_f1600_dispatch(&mut actual, true);
    assert_eq!(expected, actual);
}

#[test]
fn pi_helpers_on_one_row() {
    // Destination row 0 draws lanes 0, 6, 12, 18, 24: one from each row.
    for x in 0..5 {
        assert_eq!(source_row(x), x);
        assert_eq!(source_lane(x), x);
        assert_eq!(pi_mask(0, x), 1u8 << x);
        let idx = pi_idx(0, x);
        assert_eq!(idx[x], x as u64);
    }
    // Row 1 takes its lane 4 from lane 22: row 4, lane 2.
    assert_eq!(pi_idx(1, 4), [0, 0, 0, 0, 2, 0, 0, 0]);
    assert_eq!(pi_mask(1, 4), 1u8 << 4);
}
