use sha3_kernel_hasher::keccak::keccak_f1600;
use sha3_kernel_hasher::simd_parallel::{keccak_f1600_x4_avx2, keccak_f1600_x8_avx512};

fn xorshift(seed: &mut u64) -> u64 {
    *seed ^= *seed << 13;
    *seed ^= *seed >> 7;
    *seed ^= *seed << 17;
    *seed
}

#[test]
fn x8_matches_scalar_on_zero_states() {
    let mut states = [[0u64; 25]; 8];
    keccak_f1600_x8_avx512(&mut states);

    let mut expected = [0u64; 25];
    keccak_f1600(&mut expected);

    for (lane, state) in states.iter().enumerate() {
        assert_eq!(
            *state, expected,
            "lane {lane} diverged from scalar on zero state"
        );
    }
}

#[test]
fn x8_matches_scalar_on_independent_random_states() {
    let mut seed = 0x9E3779B97F4A7C15u64;
    for trial in 0..200 {
        let mut states = [[0u64; 25]; 8];
        for state in states.iter_mut() {
            for lane in state.iter_mut() {
                *lane = xorshift(&mut seed);
            }
        }
        let expected: Vec<[u64; 25]> = states
            .iter()
            .map(|s| {
                let mut s = *s;
                keccak_f1600(&mut s);
                s
            })
            .collect();

        let mut vector_states = states;
        keccak_f1600_x8_avx512(&mut vector_states);

        for (lane, (actual, expect)) in vector_states.iter().zip(expected.iter()).enumerate() {
            assert_eq!(
                actual, expect,
                "trial {trial}, lane {lane}: x8 diverged from independent scalar permutation"
            );
        }
    }
}

#[test]
fn x8_lanes_are_truly_independent() {
    // Changing only lane 3's input must not change any other lane's output.
    let mut states_a = [[0u64; 25]; 8];
    let mut states_b = [[0u64; 25]; 8];
    states_b[3][7] = 0xDEAD_BEEF_0000_0001;

    keccak_f1600_x8_avx512(&mut states_a);
    keccak_f1600_x8_avx512(&mut states_b);

    for lane in 0..8 {
        if lane == 3 {
            assert_ne!(
                states_a[lane], states_b[lane],
                "lane 3 should differ (its input changed)"
            );
        } else {
            assert_eq!(
                states_a[lane], states_b[lane],
                "lane {lane} must be unaffected by lane 3's differing input"
            );
        }
    }
}

#[test]
fn x4_matches_scalar_on_zero_states() {
    let mut states = [[0u64; 25]; 4];
    keccak_f1600_x4_avx2(&mut states);

    let mut expected = [0u64; 25];
    keccak_f1600(&mut expected);

    for (lane, state) in states.iter().enumerate() {
        assert_eq!(
            *state, expected,
            "lane {lane} diverged from scalar on zero state"
        );
    }
}

#[test]
fn x4_matches_scalar_on_independent_random_states() {
    let mut seed = 0xC0FFEE1234567u64;
    for trial in 0..200 {
        let mut states = [[0u64; 25]; 4];
        for state in states.iter_mut() {
            for lane in state.iter_mut() {
                *lane = xorshift(&mut seed);
            }
        }
        let expected: Vec<[u64; 25]> = states
            .iter()
            .map(|s| {
                let mut s = *s;
                keccak_f1600(&mut s);
                s
            })
            .collect();

        let mut vector_states = states;
        keccak_f1600_x4_avx2(&mut vector_states);

        for (lane, (actual, expect)) in vector_states.iter().zip(expected.iter()).enumerate() {
            assert_eq!(
                actual, expect,
                "trial {trial}, lane {lane}: x4 diverged from independent scalar permutation"
            );
        }
    }
}

#[test]
fn x4_lanes_are_truly_independent() {
    let mut states_a = [[0u64; 25]; 4];
    let mut states_b = [[0u64; 25]; 4];
    states_b[2][11] = 0xC0FFEE_0000_0002;

    keccak_f1600_x4_avx2(&mut states_a);
    keccak_f1600_x4_avx2(&mut states_b);

    for lane in 0..4 {
        if lane == 2 {
            assert_ne!(
                states_a[lane], states_b[lane],
                "lane 2 should differ (its input changed)"
            );
        } else {
            assert_eq!(
                states_a[lane], states_b[lane],
                "lane {lane} must be unaffected by lane 2's differing input"
            );
        }
    }
}

#[test]
fn x8_matches_after_chained_permutations() {
    let mut scalar_states = [[0u64; 25]; 8];
    for (lane, state) in scalar_states.iter_mut().enumerate() {
        state[0] = lane as u64 + 1;
    }
    let mut vector_states = scalar_states;

    for iteration in 0..30 {
        for state in scalar_states.iter_mut() {
            keccak_f1600(state);
        }
        keccak_f1600_x8_avx512(&mut vector_states);
        assert_eq!(
            vector_states, scalar_states,
            "diverged after {iteration} chained permutations"
        );
    }
}

#[test]
fn x4_matches_after_chained_permutations() {
    let mut scalar_states = [[0u64; 25]; 4];
    for (lane, state) in scalar_states.iter_mut().enumerate() {
        state[24] = 0x0101_0101_0101_0101u64 * (lane as u64 + 1);
    }
    let mut vector_states = scalar_states;

    for iteration in 0..30 {
        for state in scalar_states.iter_mut() {
            keccak_f1600(state);
        }
        keccak_f1600_x4_avx2(&mut vector_states);
        assert_eq!(
            vector_states, scalar_states,
            "diverged after {iteration} chained permutations"
        );
    }
}
