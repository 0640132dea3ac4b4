use sha3_kernel_hasher::ct::{ct_eq, ct_hash_eq, ct_select};

#[test]
fn test_ct_eq_equal() {
    let a = [0x42u8; 64];
    let b = [0x42u8; 64];
    assert!(ct_eq(&a, &b));
    assert!(ct_hash_eq(&a, &b));
}

#[test]
fn test_ct_eq_different() {
    let a = [0x42u8; 64];
    let mut b = [0x42u8; 64];
    b[63] = 0x43;
    assert!(!ct_eq(&a, &b));
    assert!(!ct_hash_eq(&a, &b));
}

#[test]
fn test_ct_eq_different_lengths() {
    let a = [0u8; 64];
    let b = [0u8; 32];
    assert!(!ct_eq(&a, &b));
}

#[test]
fn test_ct_select() {
    assert_eq!(ct_select(true, 0xAA, 0xBB), 0xAA);
    assert_eq!(ct_select(false, 0xAA, 0xBB), 0xBB);
}

#[test]
fn test_ct_eq_all_zero() {
    let a = [0u8; 64];
    let b = [0u8; 64];
    assert!(ct_hash_eq(&a, &b));
}

#[test]
fn test_ct_eq_single_bit_diff() {
    let a = [0u8; 64];
    let mut b = [0u8; 64];
    b[0] = 1;
    assert!(!ct_hash_eq(&a, &b));
}

#[test]
fn ct_eq_empty_slices_are_equal() {
    assert!(ct_eq(&[], &[]));
}

#[test]
fn ct_eq_difference_in_first_byte() {
    assert!(!ct_eq(&[1, 2, 3], &[0, 2, 3]));
    assert!(ct_eq(&[1, 2, 3], &[1, 2, 3]));
}

#[test]
fn ct_select_all_values_of_a_byte() {
    for a in 0..=255u8 {
        assert_eq!(ct_select(true, a, 0x5A), a);
        assert_eq!(ct_select(false, 0x5A, a), a);
    }
}
