use sha3::{Digest, Sha3_512 as RefSha3_512};
use sha3_kernel_hasher::cpu::features_from_cpuid;
use sha3_kernel_hasher::{
    MemoryRegion, PerformanceConfig, Sha3Digest, Sha3_512Hash, Sha3_512Kernel, Sha3_512State,
    MAX_HASH_SIZE,
};

fn bytes_to_hex(bytes: &[u8]) -> String {
    bytes.iter().map(|b| format!("{:02x}", b)).collect()
}

#[test]
fn test_nist_sha3_512_empty() {
    let expected = "a69f73cca23a9ac5c8b567dc185a756e\
                    97c982164fe25859e0d1dcc1475c80a6\
                    15b2123af1f5f94c11e3e9402c3ac558\
                    f500199d95b6d3e301758586281dcd26";
    let mut hasher = Sha3_512Kernel::new();
    let hash = hasher.hash(b"");
    assert_eq!(bytes_to_hex(&hash), expected, "SHA3-512('') must match NIST CAVP vector");
}

#[test]
fn test_nist_sha3_512_one_byte_cc() {
    let expected = "3939fcc8b57b63612542da31a834e5dc\
                    c36e2ee0f652ac72e02624fa2e5adeec\
                    c7dd6bb3580224b4d6138706fc6e8059\
                    7b528051230b00621cc2b22999eaa205";
    let mut hasher = Sha3_512Kernel::new();
    let hash = hasher.hash(&[0xCC]);
    assert_eq!(bytes_to_hex(&hash), expected, "SHA3-512(0xCC) must match NIST CAVP vector");
}

#[test]
fn test_nist_sha3_512_two_bytes() {
    let expected = "aa092865a40694d91754dbc767b5202c\
                    546e226877147a95cb8b4c8f8709fe8c\
                    d6905256b089da37896ea5ca19d2cd9a\
                    b94c7192fc39f7cd4d598975a3013c69";
    let mut hasher = Sha3_512Kernel::new();
    let hash = hasher.hash(&[0x41, 0xFB]);
    assert_eq!(bytes_to_hex(&hash), expected, "SHA3-512(0x41FB) must match NIST CAVP vector");
}

#[test]
fn test_nist_sha3_512_200_bytes_a3() {
    let expected = "e76dfad22084a8b1467fcf2ffa58361b\
                    ec7628edf5f3fdc0e4805dc48caeeca8\
                    1b7c13c30adf52a3659584739a2df46b\
                    e589c51ca1a4a8416df6545a1ce8ba00";
    let input = vec![0xA3u8; 200];
    let mut hasher = Sha3_512Kernel::new();
    let hash = hasher.hash(&input);
    assert_eq!(bytes_to_hex(&hash), expected, "SHA3-512(0xA3 × 200) must match NIST CAVP vector");
}

#[test]
fn test_incremental_matches_oneshot() {
    let data = b"The quick brown fox jumps over the lazy dog";
    let mut oneshot = Sha3_512Kernel::new();
    let expected = oneshot.hash(data);

    let mut incremental = Sha3_512Kernel::new();
    incremental.reset();
    incremental.update(&data[..10]);
    incremental.update(&data[10..30]);
    incremental.update(&data[30..]);
    let result = incremental.finalize();
    assert_eq!(result, expected, "Incremental must match oneshot");
}

#[test]
fn test_incremental_byte_at_a_time() {
    let data = b"abcdefghijklmnopqrstuvwxyz";
    let mut oneshot = Sha3_512Kernel::new();
    let expected = oneshot.hash(data);

    let mut inc = Sha3_512Kernel::new();
    inc.reset();
    for &b in data.iter() {
        inc.update(&[b]);
    }
    let result = inc.finalize();
    assert_eq!(result, expected, "Byte-at-a-time must match oneshot");
}

#[test]
fn test_deterministic() {
    let mut hasher = Sha3_512Kernel::new();
    let data = b"Bunker SHA3-512 determinism test";
    let h1 = hasher.hash(data);
    let h2 = hasher.hash(data);
    assert_eq!(h1, h2, "Hash must be deterministic");
}

#[test]
fn test_avalanche() {
    let mut hasher = Sha3_512Kernel::new();
    let h1 = hasher.hash(b"input_a");
    let h2 = hasher.hash(b"input_b");
    assert_ne!(h1, h2, "Different inputs must avalanche");
}

#[test]
fn test_empty_not_zero() {
    let mut hasher = Sha3_512Kernel::new();
    let hash = hasher.hash(b"");
    assert_ne!(hash, [0u8; 64], "SHA3-512('') must not be all-zero");
}

#[test]
fn test_exact_rate_block() {
    let data = vec![0x42u8; 72];
    let mut hasher = Sha3_512Kernel::new();
    let h1 = hasher.hash(&data);
    let h2 = hasher.hash(&data);
    assert_eq!(h1, h2);
    assert_ne!(h1, [0u8; 64]);
}

#[test]
fn test_rate_plus_one() {
    let data_72 = vec![0x42u8; 72];
    let data_73 = vec![0x42u8; 73];
    let mut hasher = Sha3_512Kernel::new();
    let h72 = hasher.hash(&data_72);
    let h73 = hasher.hash(&data_73);
    assert_ne!(h72, h73, "72 vs 73 bytes must differ");
}

#[test]
fn test_large_payload() {
    let data = vec![0u8; 1024 * 1024];
    let mut hasher = Sha3_512Kernel::new();
    let h1 = hasher.hash(&data);
    let h2 = hasher.hash(&data);
    assert_eq!(h1, h2);
    assert_ne!(h1, [0u8; 64]);
}

#[test]
fn test_simd_detection() {
    let hasher = Sha3_512Kernel::new();
    let features = hasher.simd_features();
    // On x86_64, at minimum SSE4.2 should be available on any CPU
    // manufactured after 2008.
    assert!(
        features.sse42_available || features.avx2_available || features.avx512_available,
        "At least one SIMD tier must be detected on x86_64"
    );
}

#[test]
fn test_cross_validate_vs_sha3_crate() {
    let test_lengths: &[usize] = &[
        0, 1, 2, 31, 32, 63, 64, 71, 72, 73, 100, 143, 144, 145, 200, 255, 256, 512, 1000, 4096,
    ];
    let mut hasher = Sha3_512Kernel::new();
    for &len in test_lengths {
        let data: Vec<u8> = (0..len).map(|i| (i & 0xFF) as u8).collect();
        let our_hash = hasher.hash(&data);
        let mut ref_hasher = RefSha3_512::new();
        ref_hasher.update(&data);
        let ref_hash = ref_hasher.finalize();
        assert_eq!(&our_hash[..], &ref_hash[..], "Mismatch vs sha3 crate at len={}", len);
    }
}

// ---------------------------------------------------------------------
// Further scenarios
// ---------------------------------------------------------------------

fn reference(data: &[u8]) -> Sha3_512Hash {
    let mut h = RefSha3_512::new();
    h.update(data);
    let out = h.finalize();
    let mut r = [0u8; 64];
    r.copy_from_slice(&out);
    r
}

#[test]
fn every_split_of_a_message_gives_the_same_digest() {
    let data: Vec<u8> = (0..300u32).map(|i| (i * 7 + 3) as u8).collect();
    let expected = reference(&data);
    for cut1 in [0usize, 1, 5, 71, 72, 73, 144, 150] {
        for cut2 in [cut1, cut1 + 1, 200, 299, 300] {
            if cut2 < cut1 || cut2 > data.len() {
                continue;
            }
            let mut h = Sha3_512Kernel::new();
            h.update(&data[..cut1]);
            h.update(&data[cut1..cut2]);
            h.update(&data[cut2..]);
            assert_eq!(h.finalize(), expected, "split at {cut1}/{cut2}");
        }
    }
}

#[test]
fn padding_edge_lengths_match_reference() {
    // 71 bytes left over: the domain byte and the final bit share a byte (0x86).
    for len in [71usize, 143, 215, 70, 142, 144, 216] {
        let data = vec![0x5Au8; len];
        assert_eq!(Sha3_512Kernel::new().hash(&data), reference(&data), "len={len}");
    }
}

#[test]
fn hash_digest_and_finalize_digest_wrap_the_digest() {
    let mut h = Sha3_512Kernel::new();
    let d = h.hash_digest(b"hello");
    assert_eq!(d, Sha3Digest::new(reference(b"hello")));
    h.reset();
    h.update(b"hel");
    h.update(b"lo");
    assert_eq!(h.finalize_digest(), d);
}

#[test]
fn config_roundtrip_and_default() {
    let h = Sha3_512Kernel::new();
    let c = h.config();
    assert!(!c.use_avx512);
    assert!(c.use_avx2 && c.prefetch_data && c.parallel_chunks);
    assert_eq!(c.chunk_size, 1024);
    let mut h2 = Sha3_512Kernel::with_config(PerformanceConfig { use_avx512: true, ..c });
    assert!(h2.config().use_avx512);
    h2.update_config(PerformanceConfig { chunk_size: 7, ..c });
    assert_eq!(h2.config().chunk_size, 7);
    assert!(!h2.config().use_avx512);
    // Every configuration computes the same digest.
    assert_eq!(h2.hash(b"abc"), reference(b"abc"));
    let mut h3 = Sha3_512Kernel::with_config(PerformanceConfig { use_avx512: true, ..c });
    assert_eq!(h3.hash(b"abc"), reference(b"abc"));
    let d = Sha3_512Kernel::default().config();
    assert_eq!(d.chunk_size, 1024);
}

#[test]
fn update_config_keeps_absorbed_data() {
    let mut h = Sha3_512Kernel::new();
    h.update(b"first ");
    h.update_config(PerformanceConfig { use_avx512: true, ..PerformanceConfig::default() });
    h.update(b"second");
    assert_eq!(h.finalize(), reference(b"first second"));
}

#[test]
fn reset_after_finalize_starts_a_new_message() {
    let mut h = Sha3_512Kernel::new();
    h.update(b"garbage");
    let _ = h.finalize();
    h.reset();
    h.update(b"abc");
    assert_eq!(h.finalize(), reference(b"abc"));
}

#[test]
fn state_new_and_reset_are_all_zero() {
    let mut s = Sha3_512State::new();
    assert_eq!(s.state, [0u64; 25]);
    assert_eq!(s.pos, 0);
    assert_eq!(s.rate, 72);
    assert!(s.buffer.iter().all(|&b| b == 0));
    s.state[3] = 9;
    s.pos = 5;
    s.rate = 17;
    s.buffer[7] = 1;
    s.reset();
    assert_eq!(s.state, [0u64; 25]);
    assert_eq!(s.pos, 0);
    assert_eq!(s.rate, 72);
    assert!(s.buffer.iter().all(|&b| b == 0));
    let d = Sha3_512State::default();
    assert_eq!(d.rate, 72);
}

#[test]
fn region_size_limits() {
    assert!(!Sha3_512Kernel::region_size_accepted(0));
    assert!(Sha3_512Kernel::region_size_accepted(1));
    assert!(Sha3_512Kernel::region_size_accepted(MAX_HASH_SIZE));
    assert!(!Sha3_512Kernel::region_size_accepted(MAX_HASH_SIZE + 1));
}

#[test]
fn hashable_regions_keeps_readable_accepted_regions_in_order() {
    let r = |base: u64, size: usize, readable: bool| MemoryRegion {
        base_address: base,
        size,
        is_readable: readable,
        is_writable: false,
        is_executable: false,
    };
    let regions = [
        r(0x1000, 16, true),
        r(0x2000, 0, true),
        r(0x3000, 32, false),
        r(0x4000, MAX_HASH_SIZE + 1, true),
        r(0x5000, MAX_HASH_SIZE, true),
    ];
    let sel = Sha3_512Kernel::hashable_regions(&regions);
    let bases: Vec<u64> = sel.iter().map(|m| m.base_address).collect();
    assert_eq!(bases, vec![0x1000, 0x5000]);
}

#[test]
fn features_decoded_from_cpuid_bits() {
    let ebx = (1 << 5) | (1 << 8) | (1 << 16) | (1 << 17) | (1 << 30);
    let xsave_on = (1 << 26) | (1 << 27);
    let f = features_from_cpuid(7, (1 << 20) | xsave_on, ebx);
    assert!(f.sse42_available && f.avx2_available && f.bmi2_available && f.avx512_available);
    let g = features_from_cpuid(6, (1 << 20) | xsave_on, ebx);
    assert!(g.sse42_available && !g.avx2_available && !g.bmi2_available && !g.avx512_available);
    let h = features_from_cpuid(7, xsave_on, (1 << 5) | (1 << 16) | (1 << 17));
    assert!(!h.sse42_available && !h.avx2_available && !h.bmi2_available && !h.avx512_available);
    // Without XSAVE turned on by the operating system, no AVX state is usable.
    let k = features_from_cpuid(7, (1 << 20) | (1 << 26), ebx);
    assert!(k.sse42_available && !k.avx2_available && k.bmi2_available && !k.avx512_available);
}

#[test]
fn hash_dispatches_to_avx512_path_when_configured_and_available() {
    let mut hasher = Sha3_512Kernel::with_config(PerformanceConfig {
        use_avx512: true,
        ..PerformanceConfig::default()
    });
    let vector_digest = hasher.hash(b"the quick brown fox jumps over the lazy dog");

    let mut scalar_hasher = Sha3_512Kernel::with_config(PerformanceConfig {
        use_avx512: false,
        ..PerformanceConfig::default()
    });
    let scalar_digest = scalar_hasher.hash(b"the quick brown fox jumps over the lazy dog");
    assert_eq!(
        vector_digest, scalar_digest,
        "AVX-512-dispatched hash() must match scalar-dispatched hash() bit for bit"
    );
}

#[test]
fn hash_dispatches_to_scalar_path_when_use_avx512_is_false() {
    let mut hasher = Sha3_512Kernel::with_config(PerformanceConfig {
        use_avx512: false,
        ..PerformanceConfig::default()
    });
    assert!(!hasher.config().use_avx512);
    let digest = hasher.hash(b"some data");
    let mut reference = Sha3_512Kernel::new();
    assert_eq!(digest, reference.hash(b"some data"));
}

#[test]
fn incremental_update_also_uses_configured_dispatch() {
    let mut hasher = Sha3_512Kernel::with_config(PerformanceConfig {
        use_avx512: true,
        ..PerformanceConfig::default()
    });
    let data = vec![0xABu8; 72 * 5 + 13]; // 5 full blocks + a partial tail
    hasher.update(&data[..72 * 3]);
    hasher.update(&data[72 * 3..]);
    let vector_digest = hasher.finalize_digest();

    let mut scalar_hasher = Sha3_512Kernel::with_config(PerformanceConfig {
        use_avx512: false,
        ..PerformanceConfig::default()
    });
    let scalar_digest = scalar_hasher.hash_digest(&data);
    assert_eq!(
        vector_digest, scalar_digest,
        "incremental AVX-512 digest must match scalar one-shot digest"
    );
}
