//! Constant-time comparison for SHA3-512 digests.
//!
//! A byte-by-byte comparison with early exit leaks which position differs
//! first.  These functions accumulate the XOR of every byte pair instead,
//! so every byte is always visited; the result is zero exactly when all
//! bytes agree.
use vstd::prelude::*;

verus! {

/// OR-accumulating the XOR of two bytes keeps the accumulator zero exactly
/// while all byte pairs so far agree.
proof fn lemma_accumulate(acc: u8, x: u8, y: u8)
    ensures
        ((acc | (x ^ y)) == 0u8) == (acc == 0u8 && x == y),
{
    assert(((acc | (x ^ y)) == 0u8) == (acc == 0u8 && x == y)) by (bit_vector);
}

/// Compare two byte slices in constant time: `true` exactly when they have
/// the same length and the same contents.  The time taken depends only on
/// the length, never on where the first difference lies.
#[inline]
pub fn ct_eq(a: &[u8], b: &[u8]) -> (eq: bool)
    ensures
        eq == (a@ == b@),
{
    if a.len() != b.len() {
        return false;
    }
    let mut acc: u8 = 0;
    for i in 0..a.len()
        invariant
            a@.len() == b@.len(),
            (acc == 0) == (forall|j: int| 0 <= j < i ==> a@[j] == b@[j]),
    {
        proof {
            lemma_accumulate(acc, a@[i as int], b@[i as int]);
        }
        acc = acc | (a[i] ^ b[i]);
    }
    proof {
        if acc == 0 {
            assert(a@ =~= b@);
        }
    }
    acc == 0
}

/// Compare two 64-byte digests in constant time.
#[inline]
pub fn ct_hash_eq(a: &[u8; 64], b: &[u8; 64]) -> (eq: bool)
    ensures
        eq == (a@ == b@),
{
    let mut acc: u8 = 0;
    for i in 0..64
        invariant
            a@.len() == 64 && b@.len() == 64,
            (acc == 0) == (forall|j: int| 0 <= j < i ==> a@[j] == b@[j]),
    {
        proof {
            lemma_accumulate(acc, a@[i as int], b@[i as int]);
        }
        acc = acc | (a[i] ^ b[i]);
    }
    proof {
        if acc == 0 {
            assert(a@ =~= b@);
        }
    }
    acc == 0
}

/// Select `a` when `condition` holds and `b` otherwise, without a branch:
/// both values are combined through a mask of all ones or all zeros.
#[inline]
pub fn ct_select(condition: bool, a: u8, b: u8) -> (r: u8)
    ensures
        r == if condition {
            a
        } else {
            b
        },
{
    let c = condition as u8;
    let mask = 0u8.wrapping_sub(c);
    proof {
        if condition {
            assert(mask == 0xFFu8);
            assert((0xFFu8 & a) | (!0xFFu8 & b) == a) by (bit_vector);
        } else {
            assert(mask == 0u8);
            assert((0u8 & a) | (!0u8 & b) == b) by (bit_vector);
        }
    }
    (mask & a) | (!mask & b)
}

} // verus!
