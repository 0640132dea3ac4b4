//! Keccak-f[1600] in the row-vector layout of 512-bit SIMD registers.
//!
//! The state is held as five 8-lane vectors, one per row `y` (row `y` in
//! lanes 0..5 of its vector; lanes 5..8 are padding).  In this layout
//! theta's column parities and chi's row-local shifts are whole-vector
//! operations, and pi becomes, for each destination row, a lane
//! permutation of every source row merged under a lane mask.  The vector
//! operations (XOR, rotate, lane permutation, masked blend and the
//! `a ^ (!b & c)` ternary function of chi) are written out lane by lane.
//!
//! Every table here is checked against the scalar tables `RHO` and `PI`
//! of [`crate::keccak`], and [`keccak_f1600_avx512`] is proved to compute
//! the same permutation as the scalar [`keccak_f1600`].
use vstd::prelude::*;

use crate::keccak::{
    chi, iota, keccak_f, keccak_f1600, keccak_round, keccak_rounds, lemma_pi_table, pi,
    pi_source, rho, rotl, rotl_spec, theta, theta_effect, column_parity, KECCAK_ROUNDS, PI, RC,
    RHO,
};

verus! {

/// One 512-bit register: eight 64-bit lanes.
pub type Lanes8 = [u64; 8];

/// Rotation amounts of rho, one vector per row: `ROT_ROW[y][x] == RHO[5 * y + x]`.
pub const ROT_ROW: [[u64; 8]; 5] = [
    [0, 1, 62, 28, 27, 0, 0, 0],
    [36, 44, 6, 55, 20, 0, 0, 0],
    [3, 10, 43, 25, 39, 0, 0, 0],
    [41, 45, 15, 21, 8, 0, 0, 0],
    [18, 2, 61, 56, 14, 0, 0, 0],
];

/// Theta lane selection: lane `x` takes column parity `(x + 4) % 5`.
pub const THETA_MINUS1_IDX: [u64; 8] = [4, 0, 1, 2, 3, 0, 0, 0];

/// Theta lane selection: lane `x` takes column parity `(x + 1) % 5`.
pub const THETA_PLUS1_IDX: [u64; 8] = [1, 2, 3, 4, 0, 0, 0, 0];

/// Chi lane selection: lane `x` takes row lane `(x + 1) % 5`.
pub const CHI_SHIFT1_IDX: [u64; 8] = [1, 2, 3, 4, 0, 0, 0, 0];

/// Chi lane selection: lane `x` takes row lane `(x + 2) % 5`.
pub const CHI_SHIFT2_IDX: [u64; 8] = [2, 3, 4, 0, 1, 0, 0, 0];

/// Ternary-logic immediate of the chi function `a ^ (!b & c)`.
pub const CHI_TERNARY_IMM: i32 = 0xD2;

// ---------------------------------------------------------------------
// Specification
// ---------------------------------------------------------------------

/// The 25-lane state held by five row vectors.
pub open spec fn flat(rows: [[u64; 8]; 5]) -> Seq<u64> {
    Seq::new(25, |i: int| rows@[i / 5]@[i % 5])
}

/// Bit `x` of a lane mask.
pub open spec fn mask_bit(mask: u8, x: int) -> bool {
    (mask >> (x as u8)) & 1u8 == 1u8
}

/// The row pi takes destination lane `j` from.
pub open spec fn spec_source_row(j: int) -> int {
    pi_source(j) / 5
}

/// The lane, within its row, pi takes destination lane `j` from.
pub open spec fn spec_source_lane(j: int) -> int {
    pi_source(j) % 5
}

/// The truth-table bit a ternary-logic immediate holds for inputs `a, b, c`.
pub open spec fn ternary_bit(imm: i32, a: int, b: int, c: int) -> int {
    (imm as int / pow2_int(4 * a + 2 * b + c)) % 2
}

/// `2` to the power `k` for small `k`.
pub open spec fn pow2_int(k: int) -> int
    decreases k,
{
    if k <= 0 {
        1
    } else {
        2 * pow2_int(k - 1)
    }
}

/// The immediate `0xD2` is the truth table of chi's `a ^ (!b & c)`.
pub proof fn lemma_chi_immediate()
    ensures
        forall|a: int, b: int, c: int|
            0 <= a < 2 && 0 <= b < 2 && 0 <= c < 2 ==> #[trigger] ternary_bit(
                CHI_TERNARY_IMM,
                a,
                b,
                c,
            ) == (a + (1 - b) * c) % 2,
{
    reveal_with_fuel(pow2_int, 8);
    assert(pow2_int(0) == 1 && pow2_int(1) == 2 && pow2_int(2) == 4 && pow2_int(3) == 8);
    assert(pow2_int(4) == 16 && pow2_int(5) == 32 && pow2_int(6) == 64 && pow2_int(7) == 128);
    assert(CHI_TERNARY_IMM as int == 210);
    assert(210int / 1 == 210 && 210int / 2 == 105 && 210int / 4 == 52 && 210int / 8 == 26);
    assert(210int / 16 == 13 && 210int / 32 == 6 && 210int / 64 == 3 && 210int / 128 == 1);
    assert(ternary_bit(CHI_TERNARY_IMM, 0, 0, 0) == 0);
    assert(ternary_bit(CHI_TERNARY_IMM, 0, 0, 1) == 1);
    assert(ternary_bit(CHI_TERNARY_IMM, 0, 1, 0) == 0);
    assert(ternary_bit(CHI_TERNARY_IMM, 0, 1, 1) == 0);
    assert(ternary_bit(CHI_TERNARY_IMM, 1, 0, 0) == 1);
    assert(ternary_bit(CHI_TERNARY_IMM, 1, 0, 1) == 0);
    assert(ternary_bit(CHI_TERNARY_IMM, 1, 1, 0) == 1);
    assert(ternary_bit(CHI_TERNARY_IMM, 1, 1, 1) == 1);
    assert forall|a: int, b: int, c: int|
        0 <= a < 2 && 0 <= b < 2 && 0 <= c < 2 implies #[trigger] ternary_bit(
        CHI_TERNARY_IMM,
        a,
        b,
        c,
    ) == (a + (1 - b) * c) % 2 by {
        if a == 0 {
            if b == 0 {
                if c == 0 {
                } else {
                }
            } else {
                if c == 0 {
                } else {
                }
            }
        } else {
            if b == 0 {
                if c == 0 {
                } else {
                }
            } else {
                if c == 0 {
                } else {
                }
            }
        }
    }
}

/// The rotation table agrees with the scalar rho offsets.
pub proof fn lemma_rot_row_table()
    ensures
        forall|y: int, x: int|
            0 <= y < 5 && 0 <= x < 5 ==> #[trigger] ROT_ROW@[y]@[x] == RHO@[5 * y + x] as u64,
{
}

// ---------------------------------------------------------------------
// The pi tables
// ---------------------------------------------------------------------

/// The row pi takes destination lane `j` from.
pub fn source_row(j: usize) -> (r: usize)
    requires
        j < 25,
    ensures
        r == spec_source_row(j as int),
        r < 5,
{
    proof {
        lemma_pi_table();
    }
    PI[j] / 5
}

/// The lane, within its row, pi takes destination lane `j` from.
pub fn source_lane(j: usize) -> (r: usize)
    requires
        j < 25,
    ensures
        r == spec_source_lane(j as int),
        r < 5,
{
    proof {
        lemma_pi_table();
    }
    PI[j] % 5
}

/// Setting bit `x` of a mask changes no other bit, and masks stay below `2^(x+1)`.
proof fn lemma_set_bit(mask: u8, x: u8, k: u8)
    requires
        x < 5,
        k < 8,
        mask < (1u8 << x),
    ensures
        mask_bit(mask | (1u8 << x), k as int) == (mask_bit(mask, k as int) || k == x),
        (mask | (1u8 << x)) < (1u8 << ((x + 1) as u8)),
        mask < (1u8 << ((x + 1) as u8)),
        k >= x ==> !mask_bit(mask, k as int),
{
    assert(mask_bit(mask | (1u8 << x), k as int) == (mask_bit(mask, k as int) || k == x))
        by (bit_vector)
        requires
            x < 5u8,
            k < 8u8,
            mask < (1u8 << x),
    ;
    assert((mask | (1u8 << x)) < (1u8 << ((x + 1) as u8)) && mask < (1u8 << ((x + 1) as u8)))
        by (bit_vector)
        requires
            x < 5u8,
            mask < (1u8 << x),
    ;
    assert(k >= x ==> !mask_bit(mask, k as int)) by (bit_vector)
        requires
            x < 5u8,
            k < 8u8,
            mask < (1u8 << x),
    ;
}

/// A mask below `2^5` has no bit set from 5 on.
proof fn lemma_high_bits_clear(mask: u8, k: u8)
    requires
        mask < (1u8 << 5u8),
        5 <= k < 8,
    ensures
        !mask_bit(mask, k as int),
{
    assert(!((mask >> k) & 1u8 == 1u8)) by (bit_vector)
        requires
            mask < (1u8 << 5u8),
            5u8 <= k < 8u8,
    ;
}

/// Lane mask of destination row `z` for source row `y`: bit `x` is set
/// exactly when lane `x` of row `z` comes from row `y`.
pub fn pi_mask(z: usize, y: usize) -> (mask: u8)
    requires
        z < 5,
        y < 5,
    ensures
        forall|x: int|
            0 <= x < 8 ==> #[trigger] mask_bit(mask, x) == (x < 5 && spec_source_row(5 * (z as int) + x)
                == y),
{
    let mut mask = 0u8;
    let mut x: usize = 0;
    assert(0u8 < (1u8 << 0u8)) by (bit_vector);
    while x < 5
        invariant
            z < 5,
            x <= 5,
            mask < (1u8 << (x as u8)),
            forall|k: int|
                0 <= k < x ==> #[trigger] mask_bit(mask, k) == (spec_source_row(5 * (z as int) + k) == y),
        decreases 5 - x,
    {
        let ghost old_mask = mask;
        if source_row(5 * z + x) == y {
            mask = mask | (1 << x);
        }
        proof {
            assert forall|k: int| 0 <= k < x + 1 implies #[trigger] mask_bit(mask, k) == (
            spec_source_row(5 * (z as int) + k) == y) by {
                lemma_set_bit(old_mask, x as u8, k as u8);
            }
            lemma_set_bit(old_mask, x as u8, 0);
        }
        x = x + 1;
    }
    proof {
        assert forall|k: int| 0 <= k < 8 implies #[trigger] mask_bit(mask, k) == (k < 5
            && spec_source_row(5 * (z as int) + k) == y) by {
            if k >= 5 {
                lemma_high_bits_clear(mask, k as u8);
            }
        }
    }
    mask
}

/// Lane permutation of destination row `z` for source row `y`: where
/// lane `x` of row `z` comes from row `y`, its source lane; `0` elsewhere.
pub fn pi_idx(z: usize, y: usize) -> (idx: Lanes8)
    requires
        z < 5,
        y < 5,
    ensures
        forall|x: int|
            0 <= x < 8 ==> #[trigger] idx@[x] == if x < 5 && spec_source_row(5 * (z as int) + x) == y {
                spec_source_lane(5 * (z as int) + x) as u64
            } else {
                0u64
            },
{
    let mut idx = [0u64; 8];
    for x in 0..5
        invariant
            z < 5,
            forall|k: int|
                0 <= k < 8 ==> #[trigger] idx@[k] == if k < x && spec_source_row(5 * (z as int) + k)
                    == y {
                    spec_source_lane(5 * (z as int) + k) as u64
                } else {
                    0u64
                },
    {
        if source_row(5 * z + x) == y {
            idx[x] = source_lane(5 * z + x) as u64;
        }
    }
    idx
}

/// All pi lane masks, `[z][y]`.
pub fn build_pi_masks() -> (out: [[u8; 5]; 5])
    ensures
        forall|z: int, y: int, x: int|
            0 <= z < 5 && 0 <= y < 5 && 0 <= x < 8 ==> #[trigger] mask_bit(out@[z]@[y], x) == (x
                < 5 && spec_source_row(5 * (z as int) + x) == y),
{
    let mut out = [[0u8; 5]; 5];
    for z in 0..5
        invariant
            forall|zz: int, y: int, x: int|
                0 <= zz < z && 0 <= y < 5 && 0 <= x < 8 ==> #[trigger] mask_bit(out@[zz]@[y], x)
                    == (x < 5 && spec_source_row(5 * zz + x) == y),
    {
        let mut row = [0u8; 5];
        for y in 0..5
            invariant
                z < 5,
                forall|yy: int, x: int|
                    0 <= yy < y && 0 <= x < 8 ==> #[trigger] mask_bit(row@[yy], x) == (x < 5
                        && spec_source_row(5 * (z as int) + x) == yy),
        {
            row[y] = pi_mask(z, y);
        }
        out[z] = row;
    }
    out
}

/// All pi lane permutations, `[z][y]`.
pub fn build_pi_idxs() -> (out: [[[u64; 8]; 5]; 5])
    ensures
        forall|z: int, y: int, x: int|
            0 <= z < 5 && 0 <= y < 5 && 0 <= x < 8 ==> #[trigger] out@[z]@[y]@[x] == if x < 5
                && spec_source_row(5 * (z as int) + x) == y {
                spec_source_lane(5 * (z as int) + x) as u64
            } else {
                0u64
            },
{
    let mut out = [[[0u64; 8]; 5]; 5];
    for z in 0..5
        invariant
            forall|zz: int, y: int, x: int|
                0 <= zz < z && 0 <= y < 5 && 0 <= x < 8 ==> #[trigger] out@[zz]@[y]@[x] == if x
                    < 5 && spec_source_row(5 * zz + x) == y {
                    spec_source_lane(5 * zz + x) as u64
                } else {
                    0u64
                },
    {
        let mut row = [[0u64; 8]; 5];
        for y in 0..5
            invariant
                z < 5,
                forall|yy: int, x: int|
                    0 <= yy < y && 0 <= x < 8 ==> #[trigger] row@[yy]@[x] == if x < 5
                        && spec_source_row(5 * (z as int) + x) == yy {
                        spec_source_lane(5 * (z as int) + x) as u64
                    } else {
                        0u64
                    },
        {
            row[y] = pi_idx(z, y);
        }
        out[z] = row;
    }
    out
}

// ---------------------------------------------------------------------
// Vector operations, lane by lane
// ---------------------------------------------------------------------

/// Lane-wise XOR.
pub(crate) fn xor8(a: &Lanes8, b: &Lanes8) -> (r: Lanes8)
    ensures
        forall|i: int| 0 <= i < 8 ==> #[trigger] r@[i] == a@[i] ^ b@[i],
{
    let mut r = [0u64; 8];
    for i in 0..8
        invariant
            forall|j: int| 0 <= j < i ==> #[trigger] r@[j] == a@[j] ^ b@[j],
    {
        r[i] = a[i] ^ b[i];
    }
    r
}

/// Lane permutation: lane `i` takes lane `idx[i] mod 8` of `a`.
fn permutexvar(idx: &Lanes8, a: &Lanes8) -> (r: Lanes8)
    ensures
        forall|i: int| 0 <= i < 8 ==> #[trigger] r@[i] == a@[(idx@[i] % 8) as int],
{
    let mut r = [0u64; 8];
    for i in 0..8
        invariant
            forall|j: int| 0 <= j < i ==> #[trigger] r@[j] == a@[(idx@[j] % 8) as int],
    {
        let k = idx[i];
        assert(k & 7 == k % 8) by (bit_vector);
        r[i] = a[(k & 7) as usize];
    }
    r
}

/// Lane-wise rotation left by one bit.
pub(crate) fn rol1(a: &Lanes8) -> (r: Lanes8)
    ensures
        forall|i: int| 0 <= i < 8 ==> #[trigger] r@[i] == rotl_spec(a@[i], 1),
{
    let mut r = [0u64; 8];
    for i in 0..8
        invariant
            forall|j: int| 0 <= j < i ==> #[trigger] r@[j] == rotl_spec(a@[j], 1),
    {
        r[i] = rotl(a[i], 1);
    }
    r
}

/// Lane-wise rotation left by a per-lane amount, taken modulo 64.
pub(crate) fn rolv(a: &Lanes8, amount: &Lanes8) -> (r: Lanes8)
    ensures
        forall|i: int| 0 <= i < 8 ==> #[trigger] r@[i] == rotl_spec(a@[i], (amount@[i] % 64) as u32),
{
    let mut r = [0u64; 8];
    for i in 0..8
        invariant
            forall|j: int|
                0 <= j < i ==> #[trigger] r@[j] == rotl_spec(a@[j], (amount@[j] % 64) as u32),
    {
        let n = amount[i] % 64;
        r[i] = rotl(a[i], n as u32);
    }
    r
}

/// Masked blend: lane `i` is `b[i]` where bit `i` of `mask` is set, else `a[i]`.
fn mask_blend(mask: u8, a: &Lanes8, b: &Lanes8) -> (r: Lanes8)
    ensures
        forall|i: int|
            0 <= i < 8 ==> #[trigger] r@[i] == if mask_bit(mask, i) {
                b@[i]
            } else {
                a@[i]
            },
{
    let mut r = [0u64; 8];
    for i in 0..8
        invariant
            forall|j: int|
                0 <= j < i ==> #[trigger] r@[j] == if mask_bit(mask, j) {
                    b@[j]
                } else {
                    a@[j]
                },
    {
        let ii = i as u8;
        r[i] = if (mask >> ii) & 1 == 1 {
            b[i]
        } else {
            a[i]
        };
    }
    r
}

/// Chi's ternary function `a ^ (!b & c)`, lane-wise (ternary logic `0xD2`).
pub(crate) fn chi_ternary(a: &Lanes8, b: &Lanes8, c: &Lanes8) -> (r: Lanes8)
    ensures
        forall|i: int| 0 <= i < 8 ==> #[trigger] r@[i] == a@[i] ^ (!b@[i] & c@[i]),
{
    let mut r = [0u64; 8];
    for i in 0..8
        invariant
            forall|j: int| 0 <= j < i ==> #[trigger] r@[j] == a@[j] ^ (!b@[j] & c@[j]),
    {
        r[i] = a[i] ^ (!b[i] & c[i]);
    }
    r
}

// ---------------------------------------------------------------------
// The permutation, step by step
// ---------------------------------------------------------------------

/// Theta on row vectors.
fn theta_rows(row: &mut [[u64; 8]; 5])
    ensures
        flat(*final(row)) == theta(flat(*old(row))),
{
    let ghost a = flat(*row);
    let mut c = row[0];
    c = xor8(&c, &row[1]);
    c = xor8(&c, &row[2]);
    c = xor8(&c, &row[3]);
    c = xor8(&c, &row[4]);
    assert forall|x: int| 0 <= x < 5 implies #[trigger] c@[x] == column_parity(a, x) by {
        assert(a[x] == row@[0]@[x]);
        assert(a[x + 5] == row@[1]@[x]);
        assert(a[x + 10] == row@[2]@[x]);
        assert(a[x + 15] == row@[3]@[x]);
        assert(a[x + 20] == row@[4]@[x]);
    }
    let c_minus1 = permutexvar(&THETA_MINUS1_IDX, &c);
    let c_plus1 = permutexvar(&THETA_PLUS1_IDX, &c);
    let c_plus1_rot1 = rol1(&c_plus1);
    let d = xor8(&c_minus1, &c_plus1_rot1);
    assert forall|x: int| 0 <= x < 5 implies #[trigger] d@[x] == theta_effect(a, x) by {
        assert(THETA_MINUS1_IDX@[x] % 8 == (x + 4) % 5);
        assert(THETA_PLUS1_IDX@[x] % 8 == (x + 1) % 5);
    }
    let ghost r0 = *row;
    for y in 0..5
        invariant
            forall|x: int| 0 <= x < 5 ==> #[trigger] d@[x] == theta_effect(a, x),
            forall|yy: int, x: int|
                0 <= yy < 5 && 0 <= x < 8 ==> #[trigger] row@[yy]@[x] == if yy < y {
                    r0@[yy]@[x] ^ d@[x]
                } else {
                    r0@[yy]@[x]
                },
    {
        let r = xor8(&row[y], &d);
        row[y] = r;
    }
    reveal(theta);
    assert(flat(*row) =~= theta(a));
}

/// Rho on row vectors: every row rotated by its rotation vector.
fn rho_rows(row: &[[u64; 8]; 5]) -> (rotated: [[u64; 8]; 5])
    ensures
        flat(rotated) == rho(flat(*row)),
{
    proof {
        lemma_rot_row_table();
    }
    let mut rotated = [[0u64; 8]; 5];
    for y in 0..5
        invariant
            forall|yy: int, x: int|
                0 <= yy < y && 0 <= x < 8 ==> #[trigger] rotated@[yy]@[x] == rotl_spec(
                    row@[yy]@[x],
                    (ROT_ROW@[yy]@[x] % 64) as u32,
                ),
    {
        rotated[y] = rolv(&row[y], &ROT_ROW[y]);
    }
    reveal(rho);
    assert forall|i: int| 0 <= i < 25 implies #[trigger] flat(rotated)[i] == rho(flat(*row))[i] by {
        assert(ROT_ROW@[i / 5]@[i % 5] == RHO@[5 * (i / 5) + i % 5] as u64);
    }
    assert(flat(rotated) =~= rho(flat(*row)));
    rotated
}

/// Pi on row vectors: each destination row gathers its lanes from every
/// source row through a lane permutation and a masked blend.
fn pi_rows(
    rotated: &[[u64; 8]; 5],
    pi_masks: &[[u8; 5]; 5],
    pi_idxs: &[[[u64; 8]; 5]; 5],
) -> (new_row: [[u64; 8]; 5])
    requires
        forall|z: int, y: int, x: int|
            0 <= z < 5 && 0 <= y < 5 && 0 <= x < 8 ==> #[trigger] mask_bit(pi_masks@[z]@[y], x)
                == (x < 5 && spec_source_row(5 * (z as int) + x) == y),
        forall|z: int, y: int, x: int|
            0 <= z < 5 && 0 <= y < 5 && 0 <= x < 8 ==> #[trigger] pi_idxs@[z]@[y]@[x] == if x < 5
                && spec_source_row(5 * (z as int) + x) == y {
                spec_source_lane(5 * (z as int) + x) as u64
            } else {
                0u64
            },
    ensures
        flat(new_row) == pi(flat(*rotated)),
{
    proof {
        lemma_pi_table();
    }
    let mut new_row = [[0u64; 8]; 5];
    for z in 0..5
        invariant
            forall|z2: int, y: int, x: int|
                0 <= z2 < 5 && 0 <= y < 5 && 0 <= x < 8 ==> #[trigger] mask_bit(
                    pi_masks@[z2]@[y],
                    x,
                ) == (x < 5 && spec_source_row(5 * z2 + x) == y),
            forall|z2: int, y: int, x: int|
                0 <= z2 < 5 && 0 <= y < 5 && 0 <= x < 8 ==> #[trigger] pi_idxs@[z2]@[y]@[x]
                    == if x < 5 && spec_source_row(5 * z2 + x) == y {
                    spec_source_lane(5 * z2 + x) as u64
                } else {
                    0u64
                },
            forall|zz: int, x: int|
                0 <= zz < z && 0 <= x < 5 ==> #[trigger] new_row@[zz]@[x] == rotated@[spec_source_row(
                    5 * zz + x,
                )]@[spec_source_lane(5 * zz + x)],
    {
        let mut acc = [0u64; 8];
        for y in 0..5
            invariant
                z < 5,
                forall|y2: int, x: int|
                    0 <= y2 < 5 && 0 <= x < 8 ==> #[trigger] mask_bit(pi_masks@[z as int]@[y2], x)
                        == (x < 5 && spec_source_row(5 * (z as int) + x) == y2),
                forall|y2: int, x: int|
                    0 <= y2 < 5 && 0 <= x < 8 ==> #[trigger] pi_idxs@[z as int]@[y2]@[x] == if x
                        < 5 && spec_source_row(5 * (z as int) + x) == y2 {
                        spec_source_lane(5 * (z as int) + x) as u64
                    } else {
                        0u64
                    },
                forall|x: int|
                    0 <= x < 5 ==> #[trigger] acc@[x] == if spec_source_row(5 * (z as int) + x) < y {
                        rotated@[spec_source_row(5 * (z as int) + x)]@[spec_source_lane(5 * (z as int) + x)]
                    } else {
                        0u64
                    },
        {
            let candidate = permutexvar(&pi_idxs[z][y], &rotated[y]);
            acc = mask_blend(pi_masks[z][y], &acc, &candidate);
            assert forall|x: int| 0 <= x < 5 implies #[trigger] acc@[x] == if spec_source_row(5 * (z as int) + x,
            ) < y + 1 {
                rotated@[spec_source_row(5 * (z as int) + x)]@[spec_source_lane(5 * (z as int) + x)]
            } else {
                0u64
            } by {
                assert(mask_bit(pi_masks@[z as int]@[y as int], x) == (spec_source_row(5 * (z as int) + x)
                    == y));
                assert(0 <= spec_source_lane(5 * (z as int) + x) < 5);
            }
        }
        proof {
            assert forall|x: int| 0 <= x < 5 implies 0 <= #[trigger] spec_source_row(5 * (z as int) + x) < 5 by {}
        }
        new_row[z] = acc;
    }
    reveal(pi);
    assert forall|i: int| 0 <= i < 25 implies #[trigger] flat(new_row)[i] == pi(flat(*rotated))[i] by {
        let z = i / 5;
        let x = i % 5;
        assert(5 * z + x == i);
        let src = pi_source(i);
        assert(0 <= src < 25);
        assert(flat(*rotated)[src] == rotated@[src / 5]@[src % 5]);
    }
    assert(flat(new_row) =~= pi(flat(*rotated)));
    new_row
}

/// Chi on row vectors, from the pi output `new_row` into `row`.
fn chi_rows(new_row: &[[u64; 8]; 5], row: &mut [[u64; 8]; 5])
    ensures
        flat(*final(row)) == chi(flat(*new_row)),
{
    let ghost a = flat(*new_row);
    for z in 0..5
        invariant
            forall|zz: int, x: int|
                0 <= zz < z && 0 <= x < 5 ==> #[trigger] row@[zz]@[x] == new_row@[zz]@[x] ^ (
                !new_row@[zz]@[(x + 1) % 5] & new_row@[zz]@[(x + 2) % 5]),
    {
        let b = permutexvar(&CHI_SHIFT1_IDX, &new_row[z]);
        let c = permutexvar(&CHI_SHIFT2_IDX, &new_row[z]);
        let r = chi_ternary(&new_row[z], &b, &c);
        assert forall|x: int| 0 <= x < 5 implies #[trigger] r@[x] == new_row@[z as int]@[x] ^ (
        !new_row@[z as int]@[(x + 1) % 5] & new_row@[z as int]@[(x + 2) % 5]) by {
            assert(CHI_SHIFT1_IDX@[x] % 8 == (x + 1) % 5);
            assert(CHI_SHIFT2_IDX@[x] % 8 == (x + 2) % 5);
        }
        row[z] = r;
    }
    reveal(chi);
    assert(flat(*row) =~= chi(a));
}

/// XOR with zero changes nothing.
pub(crate) proof fn lemma_xor_zero(x: u64)
    ensures
        x ^ 0u64 == x,
{
    assert(x ^ 0u64 == x) by (bit_vector);
}

/// Keccak-f[1600] computed in the row-vector layout.
pub fn keccak_f1600_avx512(state: &mut [u64; 25])
    ensures
        final(state)@ == keccak_f(old(state)@),
{
    let ghost start = state@;
    // Load the 5 rows, padding lanes 5..8 with zero.
    let mut row = [[0u64; 8]; 5];
    for y in 0..5
        invariant
            state@ == start,
            forall|yy: int, x: int|
                0 <= yy < y && 0 <= x < 5 ==> #[trigger] row@[yy]@[x] == start[5 * yy + x],
    {
        let mut r = [0u64; 8];
        for x in 0..5
            invariant
                y < 5,
                state@ == start,
                forall|xx: int| 0 <= xx < x ==> #[trigger] r@[xx] == start[5 * (y as int) + xx],
        {
            r[x] = state[5 * y + x];
        }
        row[y] = r;
    }
    assert(flat(row) =~= start);

    let pi_masks = build_pi_masks();
    let pi_idxs = build_pi_idxs();

    for round in 0..KECCAK_ROUNDS
        invariant
            flat(row) == keccak_rounds(start, round as nat),
            forall|z: int, y: int, x: int|
                0 <= z < 5 && 0 <= y < 5 && 0 <= x < 8 ==> #[trigger] mask_bit(pi_masks@[z]@[y], x)
                    == (x < 5 && spec_source_row(5 * (z as int) + x) == y),
            forall|z: int, y: int, x: int|
                0 <= z < 5 && 0 <= y < 5 && 0 <= x < 8 ==> #[trigger] pi_idxs@[z]@[y]@[x] == if x
                    < 5 && spec_source_row(5 * (z as int) + x) == y {
                    spec_source_lane(5 * (z as int) + x) as u64
                } else {
                    0u64
                },
    {
        let ghost prev = flat(row);
        theta_rows(&mut row);
        let rotated = rho_rows(&row);
        let new_row = pi_rows(&rotated, &pi_masks, &pi_idxs);
        chi_rows(&new_row, &mut row);
        let ghost mixed = flat(row);
        // Iota: the round constant in lane 0 of row 0, zero elsewhere.
        let mut rc_lanes = [0u64; 8];
        rc_lanes[0] = RC[round];
        let r0 = xor8(&row[0], &rc_lanes);
        row[0] = r0;
        proof {
            assert forall|x: int| 1 <= x < 5 implies #[trigger] r0@[x] == mixed[x] by {
                lemma_xor_zero(mixed[x]);
            }
            assert(flat(row) =~= iota(mixed, RC@[round as int]));
        }
    }

    // Store the rows back.
    for y in 0..5
        invariant
            forall|i: int| 0 <= i < 5 * y ==> #[trigger] state@[i] == flat(row)[i],
    {
        for x in 0..5
            invariant
                y < 5,
                forall|i: int| 0 <= i < 5 * (y as int) + (x as int) ==> #[trigger] state@[i] == flat(row)[i],
        {
            state[5 * y + x] = row[y][x];
            assert((5 * y + x) as int / 5 == y && (5 * y + x) as int % 5 == x);
        }
    }
    assert(state@ =~= flat(row));
}

/// Run the permutation in the vector layout when `use_avx512` is set, and
/// the scalar one otherwise; both compute Keccak-f[1600].
#[inline]
pub fn keccak_f1600_dispatch(state: &mut [u64; 25], use_avx512: bool)
    ensures
        final(state)@ == keccak_f(old(state)@),
{
    if use_avx512 {
        keccak_f1600_avx512(state)
    } else {
        keccak_f1600(state)
    }
}

} // verus!
