use sha3_kernel_hasher::keccak::{keccak_f1600, round_constants, rotl, PI, RC, RHO};

#[test]
fn test_keccak_f1600_zero_state() {
    let mut state = [0u64; 25];
    keccak_f1600(&mut state);
    assert_ne!(state[0], 0, "ι step must inject round constants");
    assert_ne!(state, [0u64; 25], "Permutation must modify state");
}

#[test]
fn test_keccak_f1600_deterministic() {
    let mut s1 = [0u64; 25];
    let mut s2 = [0u64; 25];
    for i in 0..25 {
        s1[i] = i as u64 * 0x0123_4567_89AB_CDEF;
        s2[i] = s1[i];
    }
    keccak_f1600(&mut s1);
    keccak_f1600(&mut s2);
    assert_eq!(s1, s2);
}

#[test]
fn test_keccak_f1600_different_inputs() {
    let mut s1 = [0u64; 25];
    let mut s2 = [0u64; 25];
    s2[0] = 1;
    keccak_f1600(&mut s1);
    keccak_f1600(&mut s2);
    assert_ne!(s1, s2, "Single-bit input difference must avalanche");
}

#[test]
fn test_keccak_f1600_known_answer() {
    let mut state = [0u64; 25];
    keccak_f1600(&mut state);
    assert_eq!(state[0], 0xF1258F7940E1DDE7, "Lane 0 must match XKCP reference");
    assert_eq!(state[1], 0x84D5CCF933C0478A, "Lane 1 must match XKCP reference");
    assert_eq!(state[2], 0xD598261EA65AA9EE, "Lane 2 must match XKCP reference");
    assert_eq!(state[3], 0xBD1547306F80494D, "Lane 3 must match XKCP reference");
    assert_eq!(state[4], 0x8B284E056253D057, "Lane 4 must match XKCP reference");
}

#[test]
fn keccak_f1600_second_permutation_known_answer() {
    // Permuting the zero state twice (XKCP KeccakF-1600-IntermediateValues).
    let mut state = [0u64; 25];
    keccak_f1600(&mut state);
    keccak_f1600(&mut state);
    assert_eq!(state[0], 0x2D5C954DF96ECB3C);
    assert_eq!(state[1], 0x6A332CD07057B56D);
}

#[test]
fn rotl_matches_std_rotate_left() {
    let x = 0x8000_0000_0000_0001u64;
    for n in 0..64u32 {
        assert_eq!(rotl(x, n), x.rotate_left(n));
        assert_eq!(rotl(0x0123_4567_89AB_CDEF, n), 0x0123_4567_89AB_CDEFu64.rotate_left(n));
    }
}

#[test]
fn round_constants_are_the_table() {
    assert_eq!(round_constants(), RC);
    assert_eq!(RC[0], 1);
    assert_eq!(RC[23], 0x8000_0000_8000_8008);
}

#[test]
fn pi_table_is_fips_mapping() {
    for d in 0..25usize {
        let (x, y) = (d % 5, d / 5);
        assert_eq!(PI[d], (x + 3 * y) % 5 + 5 * x);
    }
    assert_eq!(RHO[1], 1);
    assert_eq!(RHO[24], 14);
}
