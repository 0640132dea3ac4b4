use sha3_kernel_hasher::{PerformanceConfig, Sha3_512Hash, Sha3_512Kernel};

fn force(use_avx512: bool, use_avx2: bool) -> Sha3_512Kernel {
    Sha3_512Kernel::with_config(PerformanceConfig {
        use_avx512,
        use_avx2,
        ..PerformanceConfig::default()
    })
}

#[test]
fn hash_many_matches_hash_for_every_length_0_to_300() {
    let lengths: Vec<usize> = (0..=300).collect();
    let messages: Vec<Vec<u8>> = lengths
        .iter()
        .map(|&len| (0..len).map(|i| (i & 0xFF) as u8).collect())
        .collect();
    let refs: Vec<&[u8]> = messages.iter().map(|m| m.as_slice()).collect();

    let mut scalar_hasher = Sha3_512Kernel::new();
    let expected: Vec<Sha3_512Hash> = messages.iter().map(|m| scalar_hasher.hash(m)).collect();

    for (label, hasher) in [
        ("avx512", force(true, false)),
        ("avx2", force(false, true)),
        ("scalar", force(false, false)),
    ] {
        let results = hasher.hash_many(&refs);
        assert_eq!(results.len(), messages.len());
        for (i, &len) in lengths.iter().enumerate() {
            assert_eq!(results[i], expected[i], "hash_many({label}) mismatch at message length {len}");
        }
    }
}

#[test]
fn hash_many_handles_mixed_lengths_in_one_batch() {
    let batch: Vec<Vec<u8>> = vec![
        vec![],
        vec![0xAB; 5],
        vec![0xCD; 72],
        vec![0xEF; 72 * 3 + 17],
        b"the quick brown fox".to_vec(),
    ];
    let refs: Vec<&[u8]> = batch.iter().map(|m| m.as_slice()).collect();

    let mut scalar_hasher = Sha3_512Kernel::new();
    let expected: Vec<Sha3_512Hash> = batch.iter().map(|m| scalar_hasher.hash(m)).collect();

    let results = force(true, false).hash_many(&refs);
    assert_eq!(results, expected, "AVX-512x8 mixed-length batch mismatch");
    let results = force(false, true).hash_many(&refs);
    assert_eq!(results, expected, "AVX2x4 mixed-length batch mismatch");
}

#[test]
fn hash_many_handles_batches_larger_than_simd_width() {
    let batch: Vec<Vec<u8>> = (0..37)
        .map(|i| (0..(i * 3 + 1)).map(|b| (b & 0xFF) as u8).collect())
        .collect();
    let refs: Vec<&[u8]> = batch.iter().map(|m| m.as_slice()).collect();

    let mut scalar_hasher = Sha3_512Kernel::new();
    let expected: Vec<Sha3_512Hash> = batch.iter().map(|m| scalar_hasher.hash(m)).collect();

    let results = Sha3_512Kernel::new().hash_many(&refs);
    assert_eq!(results, expected);
}

#[test]
fn hash_many_empty_input_returns_empty() {
    let results = Sha3_512Kernel::new().hash_many(&[]);
    assert!(results.is_empty());
}

#[test]
fn hash_many_long_messages_in_all_widths() {
    let batch: Vec<Vec<u8>> = (0..11)
        .map(|i| vec![(i * 13) as u8; 1000 + 71 * i])
        .collect();
    let refs: Vec<&[u8]> = batch.iter().map(|m| m.as_slice()).collect();
    let mut h = Sha3_512Kernel::new();
    let expected: Vec<Sha3_512Hash> = batch.iter().map(|m| h.hash(m)).collect();
    for (a, b) in [(true, true), (false, true), (false, false)] {
        assert_eq!(force(a, b).hash_many(&refs), expected);
    }
}
