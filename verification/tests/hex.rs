use sha3_kernel_hasher::Sha3Digest;

#[test]
fn test_roundtrip_hex() {
    let bytes = [0xABu8; 64];
    let digest = Sha3Digest::new(bytes);
    let hex = digest.to_hex_lower();
    let parsed = Sha3Digest::from_hex(&hex).expect("valid hex");
    assert_eq!(parsed, digest);
}

#[test]
fn test_display_format() {
    let bytes = [0x00u8; 64];
    let digest = Sha3Digest::new(bytes);
    let s = digest.to_hex_lower();
    assert_eq!(s.len(), 128);
    assert!(s.chars().all(|c| c == '0'));
}

#[test]
fn test_upper_hex() {
    let mut bytes = [0u8; 64];
    bytes[0] = 0xDE;
    bytes[1] = 0xAD;
    let digest = Sha3Digest::new(bytes);
    let s = digest.to_hex_upper();
    assert!(s.starts_with("DEAD"));
}

#[test]
fn test_from_hex_invalid_length() {
    assert!(Sha3Digest::from_hex("abcd").is_none());
}

#[test]
fn test_from_hex_invalid_char() {
    let bad = "g".repeat(128);
    assert!(Sha3Digest::from_hex(&bad).is_none());
}

fn sample_digest() -> Sha3Digest {
    let mut bytes = [0u8; 64];
    for (i, b) in bytes.iter_mut().enumerate() {
        *b = (i as u8).wrapping_mul(37).wrapping_add(11);
    }
    Sha3Digest::new(bytes)
}

#[test]
fn hex_lower_exact_encoding() {
    let mut bytes = [0u8; 64];
    bytes[0] = 0x01;
    bytes[1] = 0xAB;
    bytes[63] = 0xF0;
    let s = Sha3Digest::new(bytes).to_hex_lower();
    assert_eq!(&s[..4], "01ab");
    assert_eq!(&s[124..], "00f0");
    assert_eq!(s.len(), 128);
}

#[test]
fn hex_upper_roundtrip_law() {
    let d = sample_digest();
    let upper = d.to_hex_upper();
    assert_eq!(Sha3Digest::from_hex(&upper), Some(d));
    assert_eq!(upper.to_lowercase(), d.to_hex_lower());
}

#[test]
fn from_hex_mixed_case_is_accepted() {
    let d = sample_digest();
    let mixed: String = d
        .to_hex_lower()
        .chars()
        .enumerate()
        .map(|(i, c)| if i % 3 == 0 { c.to_ascii_uppercase() } else { c })
        .collect();
    assert_eq!(Sha3Digest::from_hex(&mixed), Some(d));
}

#[test]
fn from_hex_rejects_non_ascii_of_right_byte_length() {
    // 126 ASCII digits plus one two-byte character: 128 bytes, not hex.
    let s = format!("{}é", "0".repeat(126));
    assert_eq!(s.len(), 128);
    assert!(Sha3Digest::from_hex(&s).is_none());
}

#[test]
fn from_hex_rejects_129_digits() {
    assert!(Sha3Digest::from_hex(&"0".repeat(129)).is_none());
    assert!(Sha3Digest::from_hex(&"0".repeat(128)).is_some());
}

#[test]
fn digest_bytes_accessors() {
    let d = sample_digest();
    assert_eq!(d.as_bytes(), &d.0);
    assert_eq!(d.into_bytes(), d.0);
}

#[test]
fn from_slice_requires_64_bytes() {
    let d = sample_digest();
    assert_eq!(Sha3Digest::from_slice(&d.0), Some(d));
    assert!(Sha3Digest::from_slice(&d.0[..63]).is_none());
    assert!(Sha3Digest::from_slice(&[0u8; 65]).is_none());
}

#[test]
fn from_conversions_and_as_ref() {
    let bytes = [0x5Cu8; 64];
    let d: Sha3Digest = bytes.into();
    assert_eq!(d, Sha3Digest::new(bytes));
    let back: [u8; 64] = d.into();
    assert_eq!(back, bytes);
    let r: &[u8] = d.as_ref();
    assert_eq!(r, &bytes[..]);
}
