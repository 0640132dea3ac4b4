//! Keccak-f[1600] on several independent states at once, in the
//! struct-of-arrays layout of SIMD registers.
//!
//! Register `reg[i]` holds lane `i` of every state: for eight states,
//! `reg[i] == [states[0][i], ..., states[7][i]]`.  Each step of a round is
//! then the scalar step with every lane replaced by a register and every
//! lane operation applied to all states at once: the rho rotation amount of
//! a lane position is the same for every state, and pi only chooses which
//! register to read.  The register operations are written out lane by lane.
//!
//! With four states (the AVX2 width) there is no 64-bit rotate; rotation is
//! built from two variable shifts, `(v << n) | (v >> (64 - n))`, where a
//! shift by 64 or more yields zero.
use vstd::prelude::*;

use crate::keccak::{
    chi, column_parity, keccak_f, keccak_round, keccak_rounds, lemma_pi_table, pi, pi_source,
    rho, rotl_spec, theta, theta_effect, KECCAK_ROUNDS, PI, RC, RHO,
};
use crate::simd_avx512::{chi_ternary, lemma_xor_zero, rol1, rolv, xor8, Lanes8};

verus! {

/// Ternary-logic immediate of the chi function `a ^ (!b & c)`.
pub const CHI_TERNARY_IMM: i32 = 0xD2;

/// State number `s` held by transposed registers.
pub open spec fn column8(reg: [[u64; 8]; 25], s: int) -> Seq<u64> {
    Seq::new(25, |i: int| reg@[i]@[s])
}

/// State number `s` held by transposed four-lane registers.
pub open spec fn column4(reg: [[u64; 4]; 25], s: int) -> Seq<u64> {
    Seq::new(25, |i: int| reg@[i]@[s])
}

/// XOR is associative and commutative on five lanes.
proof fn lemma_xor5(a0: u64, a1: u64, a2: u64, a3: u64, a4: u64)
    ensures
        (a0 ^ a1) ^ (a2 ^ (a3 ^ a4)) == a0 ^ a1 ^ a2 ^ a3 ^ a4,
{
    assert((a0 ^ a1) ^ (a2 ^ (a3 ^ a4)) == a0 ^ a1 ^ a2 ^ a3 ^ a4) by (bit_vector);
}

// ---------------------------------------------------------------------
// Eight states (AVX-512 width)
// ---------------------------------------------------------------------

/// Theta on transposed registers.
fn theta_x8(reg: &mut [[u64; 8]; 25])
    ensures
        forall|s: int| 0 <= s < 8 ==> #[trigger] column8(*final(reg), s) == theta(column8(*old(reg), s)),
{
    let ghost r0 = *reg;
    let mut c = [[0u64; 8]; 5];
    for x in 0..5
        invariant
            *reg == r0,
            forall|xx: int, s: int|
                0 <= xx < x && 0 <= s < 8 ==> #[trigger] c@[xx]@[s] == column_parity(
                    column8(r0, s),
                    xx,
                ),
    {
        let t1 = xor8(&reg[x], &reg[x + 5]);
        let t2 = xor8(&reg[x + 15], &reg[x + 20]);
        let t3 = xor8(&reg[x + 10], &t2);
        let cx = xor8(&t1, &t3);
        assert forall|s: int| 0 <= s < 8 implies #[trigger] cx@[s] == column_parity(column8(r0, s), x as int) by {
            lemma_xor5(r0@[x as int]@[s], r0@[x + 5]@[s], r0@[x + 10]@[s], r0@[x + 15]@[s], r0@[x + 20]@[s]);
        }
        c[x] = cx;
    }
    let mut d = [[0u64; 8]; 5];
    for x in 0..5
        invariant
            forall|xx: int, s: int|
                0 <= xx < 5 && 0 <= s < 8 ==> #[trigger] c@[xx]@[s] == column_parity(
                    column8(r0, s),
                    xx,
                ),
            forall|xx: int, s: int|
                0 <= xx < x && 0 <= s < 8 ==> #[trigger] d@[xx]@[s] == theta_effect(
                    column8(r0, s),
                    xx,
                ),
    {
        let r = rol1(&c[(x + 1) % 5]);
        let dx = xor8(&c[(x + 4) % 5], &r);
        d[x] = dx;
    }
    for y in 0..5
        invariant
            forall|xx: int, s: int|
                0 <= xx < 5 && 0 <= s < 8 ==> #[trigger] d@[xx]@[s] == theta_effect(
                    column8(r0, s),
                    xx,
                ),
            forall|i: int, s: int|
                0 <= i < 25 && 0 <= s < 8 ==> #[trigger] reg@[i]@[s] == if i < 5 * y {
                    r0@[i]@[s] ^ d@[i % 5]@[s]
                } else {
                    r0@[i]@[s]
                },
    {
        for x in 0..5
            invariant
                y < 5,
                forall|i: int, s: int|
                    0 <= i < 25 && 0 <= s < 8 ==> #[trigger] reg@[i]@[s] == if i < 5 * (y as int) + (x as int) {
                        r0@[i]@[s] ^ d@[i % 5]@[s]
                    } else {
                        r0@[i]@[s]
                    },
        {
            let v = xor8(&reg[x + 5 * y], &d[x]);
            reg[x + 5 * y] = v;
            assert(((x + 5 * y) as int) % 5 == x);
        }
    }
    reveal(theta);
    assert forall|s: int| 0 <= s < 8 implies #[trigger] column8(*reg, s) == theta(column8(r0, s)) by {
        assert(column8(*reg, s) =~= theta(column8(r0, s)));
    }
}

/// Rho and pi on transposed registers: `b[i]` is register `PI[i]`
/// rotated by its rho offset in every state.
fn rho_pi_x8(reg: &[[u64; 8]; 25], rot_bcast: &[[u64; 8]; 25]) -> (b: [[u64; 8]; 25])
    requires
        forall|i: int, s: int| 0 <= i < 25 && 0 <= s < 8 ==> #[trigger] rot_bcast@[i]@[s] == RHO@[i] as u64,
    ensures
        forall|s: int| 0 <= s < 8 ==> #[trigger] column8(b, s) == pi(rho(column8(*reg, s))),
{
    proof {
        lemma_pi_table();
    }
    let mut b = [[0u64; 8]; 25];
    for i in 0..25
        invariant
            forall|i2: int, s: int| 0 <= i2 < 25 && 0 <= s < 8 ==> #[trigger] rot_bcast@[i2]@[s] == RHO@[i2] as u64,
            forall|j: int, s: int|
                0 <= j < i && 0 <= s < 8 ==> #[trigger] b@[j]@[s] == rotl_spec(
                    reg@[pi_source(j)]@[s],
                    RHO@[pi_source(j)],
                ),
    {
        let src = PI[i];
        let r = rolv(&reg[src], &rot_bcast[src]);
        assert forall|s: int| 0 <= s < 8 implies #[trigger] r@[s] == rotl_spec(reg@[src as int]@[s], RHO@[src as int]) by {
            assert(RHO@[src as int] < 64);
        }
        b[i] = r;
    }
    reveal(pi);
    reveal(rho);
    assert forall|s: int| 0 <= s < 8 implies #[trigger] column8(b, s) == pi(rho(column8(*reg, s))) by {
        assert(column8(b, s) =~= pi(rho(column8(*reg, s))));
    }
    b
}

/// Chi on transposed registers.
fn chi_x8(b: &[[u64; 8]; 25]) -> (reg: [[u64; 8]; 25])
    ensures
        forall|s: int| 0 <= s < 8 ==> #[trigger] column8(reg, s) == chi(column8(*b, s)),
{
    let mut reg = [[0u64; 8]; 25];
    for y in 0..5
        invariant
            forall|i: int, s: int|
                0 <= i < 5 * y && 0 <= s < 8 ==> #[trigger] reg@[i]@[s] == b@[i]@[s] ^ (
                !b@[5 * (i / 5) + (i % 5 + 1) % 5]@[s] & b@[5 * (i / 5) + (i % 5 + 2) % 5]@[s]),
    {
        let base = 5 * y;
        reg[base] = chi_ternary(&b[base], &b[base + 1], &b[base + 2]);
        reg[base + 1] = chi_ternary(&b[base + 1], &b[base + 2], &b[base + 3]);
        reg[base + 2] = chi_ternary(&b[base + 2], &b[base + 3], &b[base + 4]);
        reg[base + 3] = chi_ternary(&b[base + 3], &b[base + 4], &b[base]);
        reg[base + 4] = chi_ternary(&b[base + 4], &b[base], &b[base + 1]);
        assert forall|i: int, s: int| 5 * y <= i < 5 * y + 5 && 0 <= s < 8 implies #[trigger] reg@[i]@[s]
            == b@[i]@[s] ^ (!b@[5 * (i / 5) + (i % 5 + 1) % 5]@[s] & b@[5 * (i / 5) + (i % 5 + 2)
            % 5]@[s]) by {
            assert(i / 5 == y);
        }
    }
    reveal(chi);
    assert forall|s: int| 0 <= s < 8 implies #[trigger] column8(reg, s) == chi(column8(*b, s)) by {
        assert(column8(reg, s) =~= chi(column8(*b, s)));
    }
    reg
}

/// Permute eight independent Keccak-f[1600] states in parallel.
pub fn keccak_f1600_x8_avx512(states: &mut [[u64; 25]; 8])
    ensures
        forall|s: int| 0 <= s < 8 ==> #[trigger] final(states)@[s]@ == keccak_f(old(states)@[s]@),
{
    let ghost start = *states;
    // Transpose in: reg[i] holds lane i of all eight states.
    let mut reg = [[0u64; 8]; 25];
    for i in 0..25
        invariant
            *states == start,
            forall|j: int, s: int| 0 <= j < i && 0 <= s < 8 ==> #[trigger] reg@[j]@[s] == start@[s]@[j],
    {
        let mut r = [0u64; 8];
        for s in 0..8
            invariant
                i < 25,
                *states == start,
                forall|t: int| 0 <= t < s ==> #[trigger] r@[t] == start@[t]@[i as int],
        {
            r[s] = states[s][i];
        }
        reg[i] = r;
    }
    // The rho offset of every lane, broadcast to all eight states.
    let mut rot_bcast = [[0u64; 8]; 25];
    for i in 0..25
        invariant
            forall|j: int, s: int| 0 <= j < i && 0 <= s < 8 ==> #[trigger] rot_bcast@[j]@[s] == RHO@[j] as u64,
    {
        let v = RHO[i] as u64;
        rot_bcast[i] = [v, v, v, v, v, v, v, v];
    }
    assert forall|s: int| 0 <= s < 8 implies #[trigger] column8(reg, s) == keccak_rounds(start@[s]@, 0) by {
        assert(column8(reg, s) =~= start@[s]@);
    }

    for round in 0..KECCAK_ROUNDS
        invariant
            forall|s: int| 0 <= s < 8 ==> #[trigger] column8(reg, s) == keccak_rounds(start@[s]@, round as nat),
            forall|j: int, s: int| 0 <= j < 25 && 0 <= s < 8 ==> #[trigger] rot_bcast@[j]@[s] == RHO@[j] as u64,
    {
        let ghost prev = reg;
        theta_x8(&mut reg);
        let b = rho_pi_x8(&reg, &rot_bcast);
        reg = chi_x8(&b);
        let ghost mixed = reg;
        let rc = RC[round];
        let rc_vec = [rc, rc, rc, rc, rc, rc, rc, rc];
        let r0 = xor8(&reg[0], &rc_vec);
        reg[0] = r0;
        assert forall|s: int| 0 <= s < 8 implies #[trigger] column8(reg, s) == keccak_rounds(start@[s]@, (round + 1) as nat) by {
            assert(column8(reg, s) =~= crate::keccak::iota(column8(mixed, s), RC@[round as int]));
        }
    }

    // Transpose out.
    for i in 0..25
        invariant
            forall|j: int, s: int| 0 <= j < i && 0 <= s < 8 ==> #[trigger] states@[s]@[j] == reg@[j]@[s],
            forall|j: int, s: int| i <= j < 25 && 0 <= s < 8 ==> #[trigger] states@[s]@[j] == start@[s]@[j],
    {
        for s in 0..8
            invariant
                i < 25,
                forall|j: int, t: int| 0 <= j < i && 0 <= t < 8 ==> #[trigger] states@[t]@[j] == reg@[j]@[t],
                forall|t: int| 0 <= t < s ==> #[trigger] states@[t]@[i as int] == reg@[i as int]@[t],
                forall|j: int, t: int| i < j < 25 && 0 <= t < 8 ==> #[trigger] states@[t]@[j] == start@[t]@[j],
                forall|t: int| s <= t < 8 ==> #[trigger] states@[t]@[i as int] == start@[t]@[i as int],
        {
            let mut st = states[s];
            st[i] = reg[i][s];
            states[s] = st;
        }
    }
    assert forall|s: int| 0 <= s < 8 implies #[trigger] states@[s]@ == keccak_f(start@[s]@) by {
        assert(states@[s]@ =~= column8(reg, s));
    }
}

// ---------------------------------------------------------------------
// Four states (AVX2 width)
// ---------------------------------------------------------------------

/// One 256-bit register: four 64-bit lanes.
pub type Lanes4 = [u64; 4];

/// Lane-wise XOR of four lanes.
fn xor4(a: &Lanes4, b: &Lanes4) -> (r: Lanes4)
    ensures
        forall|i: int| 0 <= i < 4 ==> #[trigger] r@[i] == a@[i] ^ b@[i],
{
    [a[0] ^ b[0], a[1] ^ b[1], a[2] ^ b[2], a[3] ^ b[3]]
}

/// Lane-wise AND-NOT: `!a & b`.
fn andnot4(a: &Lanes4, b: &Lanes4) -> (r: Lanes4)
    ensures
        forall|i: int| 0 <= i < 4 ==> #[trigger] r@[i] == !a@[i] & b@[i],
{
    [!a[0] & b[0], !a[1] & b[1], !a[2] & b[2], !a[3] & b[3]]
}

/// Lane-wise OR.
fn or4(a: &Lanes4, b: &Lanes4) -> (r: Lanes4)
    ensures
        forall|i: int| 0 <= i < 4 ==> #[trigger] r@[i] == a@[i] | b@[i],
{
    [a[0] | b[0], a[1] | b[1], a[2] | b[2], a[3] | b[3]]
}

/// Shift of one lane left by `n`; 64 or more yields zero.
pub open spec fn sllv_lane(v: u64, n: u64) -> u64 {
    if n < 64 {
        v << n
    } else {
        0
    }
}

/// Shift of one lane right by `n`; 64 or more yields zero.
pub open spec fn srlv_lane(v: u64, n: u64) -> u64 {
    if n < 64 {
        v >> n
    } else {
        0
    }
}

/// Lane-wise variable left shift.
fn sllv4(v: &Lanes4, n: &Lanes4) -> (r: Lanes4)
    ensures
        forall|i: int| 0 <= i < 4 ==> #[trigger] r@[i] == sllv_lane(v@[i], n@[i]),
{
    let mut r = [0u64; 4];
    for i in 0..4
        invariant
            forall|j: int| 0 <= j < i ==> #[trigger] r@[j] == sllv_lane(v@[j], n@[j]),
    {
        r[i] = if n[i] < 64 {
            v[i] << n[i]
        } else {
            0
        };
    }
    r
}

/// Lane-wise variable right shift.
fn srlv4(v: &Lanes4, n: &Lanes4) -> (r: Lanes4)
    ensures
        forall|i: int| 0 <= i < 4 ==> #[trigger] r@[i] == srlv_lane(v@[i], n@[i]),
{
    let mut r = [0u64; 4];
    for i in 0..4
        invariant
            forall|j: int| 0 <= j < i ==> #[trigger] r@[j] == srlv_lane(v@[j], n@[j]),
    {
        r[i] = if n[i] < 64 {
            v[i] >> n[i]
        } else {
            0
        };
    }
    r
}

/// Two shifts make a rotation: `(v << n) | (v >> (64 - n))` is `v` rotated
/// left by `n`, also for `n == 0`, where the right shift by 64 yields zero.
proof fn lemma_shift_rotation(v: u64, n: u64)
    requires
        n < 64,
    ensures
        sllv_lane(v, n) | srlv_lane(v, (64 - n) as u64) == rotl_spec(v, n as u32),
{
    if n == 0 {
        assert(v << 0u64 == v && v | 0u64 == v) by (bit_vector);
    } else {
        let m = n as u32;
        let k = (64 - n) as u64;
        assert((v << n) | (v >> k) == (v << m) | (v >> ((64 - m) as u32))) by (bit_vector)
            requires
                0 < n < 64,
                m == n,
                k == 64 - n,
        ;
    }
}

/// Rotate every lane left by its amount `n`, given `64 - n` alongside.
fn rotl4(v: &Lanes4, n: &Lanes4, sixty_four_minus_n: &Lanes4) -> (r: Lanes4)
    requires
        forall|i: int| 0 <= i < 4 ==> #[trigger] n@[i] < 64 && sixty_four_minus_n@[i] == 64 - n@[i],
    ensures
        forall|i: int| 0 <= i < 4 ==> #[trigger] r@[i] == rotl_spec(v@[i], n@[i] as u32),
{
    let a = sllv4(v, n);
    let b = srlv4(v, sixty_four_minus_n);
    let r = or4(&a, &b);
    assert forall|i: int| 0 <= i < 4 implies #[trigger] r@[i] == rotl_spec(v@[i], n@[i] as u32) by {
        lemma_shift_rotation(v@[i], n@[i]);
    }
    r
}

/// Theta on transposed four-lane registers.
fn theta_x4(reg: &mut [[u64; 4]; 25])
    ensures
        forall|s: int| 0 <= s < 4 ==> #[trigger] column4(*final(reg), s) == theta(column4(*old(reg), s)),
{
    let ghost r0 = *reg;
    let mut c = [[0u64; 4]; 5];
    for x in 0..5
        invariant
            *reg == r0,
            forall|xx: int, s: int|
                0 <= xx < x && 0 <= s < 4 ==> #[trigger] c@[xx]@[s] == column_parity(
                    column4(r0, s),
                    xx,
                ),
    {
        let t1 = xor4(&reg[x], &reg[x + 5]);
        let t2 = xor4(&reg[x + 15], &reg[x + 20]);
        let t3 = xor4(&reg[x + 10], &t2);
        let cx = xor4(&t1, &t3);
        assert forall|s: int| 0 <= s < 4 implies #[trigger] cx@[s] == column_parity(column4(r0, s), x as int) by {
            lemma_xor5(r0@[x as int]@[s], r0@[x + 5]@[s], r0@[x + 10]@[s], r0@[x + 15]@[s], r0@[x + 20]@[s]);
        }
        c[x] = cx;
    }
    let one = [1u64; 4];
    let sixty_three = [63u64; 4];
    let mut d = [[0u64; 4]; 5];
    for x in 0..5
        invariant
            one@ == seq![1u64, 1u64, 1u64, 1u64],
            sixty_three@ == seq![63u64, 63u64, 63u64, 63u64],
            forall|xx: int, s: int|
                0 <= xx < 5 && 0 <= s < 4 ==> #[trigger] c@[xx]@[s] == column_parity(
                    column4(r0, s),
                    xx,
                ),
            forall|xx: int, s: int|
                0 <= xx < x && 0 <= s < 4 ==> #[trigger] d@[xx]@[s] == theta_effect(
                    column4(r0, s),
                    xx,
                ),
    {
        let rotated = rotl4(&c[(x + 1) % 5], &one, &sixty_three);
        let dx = xor4(&c[(x + 4) % 5], &rotated);
        d[x] = dx;
    }
    for y in 0..5
        invariant
            forall|xx: int, s: int|
                0 <= xx < 5 && 0 <= s < 4 ==> #[trigger] d@[xx]@[s] == theta_effect(
                    column4(r0, s),
                    xx,
                ),
            forall|i: int, s: int|
                0 <= i < 25 && 0 <= s < 4 ==> #[trigger] reg@[i]@[s] == if i < 5 * y {
                    r0@[i]@[s] ^ d@[i % 5]@[s]
                } else {
                    r0@[i]@[s]
                },
    {
        for x in 0..5
            invariant
                y < 5,
                forall|i: int, s: int|
                    0 <= i < 25 && 0 <= s < 4 ==> #[trigger] reg@[i]@[s] == if i < 5 * (y as int)
                        + (x as int) {
                        r0@[i]@[s] ^ d@[i % 5]@[s]
                    } else {
                        r0@[i]@[s]
                    },
        {
            let v = xor4(&reg[x + 5 * y], &d[x]);
            reg[x + 5 * y] = v;
            assert(((x + 5 * y) as int) % 5 == x);
        }
    }
    reveal(theta);
    assert forall|s: int| 0 <= s < 4 implies #[trigger] column4(*reg, s) == theta(column4(r0, s)) by {
        assert(column4(*reg, s) =~= theta(column4(r0, s)));
    }
}

/// Rho and pi on transposed four-lane registers; lanes whose rho offset
/// is zero are copied without a rotation.
fn rho_pi_x4(
    reg: &[[u64; 4]; 25],
    rot_n: &[[u64; 4]; 25],
    rot_64_minus_n: &[[u64; 4]; 25],
) -> (b: [[u64; 4]; 25])
    requires
        forall|i: int, s: int|
            0 <= i < 25 && 0 <= s < 4 ==> #[trigger] rot_n@[i]@[s] == RHO@[i] as u64,
        forall|i: int, s: int|
            0 <= i < 25 && 0 <= s < 4 ==> #[trigger] rot_64_minus_n@[i]@[s] == 64 - RHO@[i],
    ensures
        forall|s: int| 0 <= s < 4 ==> #[trigger] column4(b, s) == pi(rho(column4(*reg, s))),
{
    proof {
        lemma_pi_table();
    }
    let mut b = [[0u64; 4]; 25];
    for i in 0..25
        invariant
            forall|i2: int, s: int|
                0 <= i2 < 25 && 0 <= s < 4 ==> #[trigger] rot_n@[i2]@[s] == RHO@[i2] as u64,
            forall|i2: int, s: int|
                0 <= i2 < 25 && 0 <= s < 4 ==> #[trigger] rot_64_minus_n@[i2]@[s] == 64 - RHO@[i2],
            forall|j: int, s: int|
                0 <= j < i && 0 <= s < 4 ==> #[trigger] b@[j]@[s] == rotl_spec(
                    reg@[pi_source(j)]@[s],
                    RHO@[pi_source(j)],
                ),
    {
        let src = PI[i];
        assert(RHO@[src as int] < 64);
        b[i] = if RHO[src] == 0 {
            reg[src]
        } else {
            rotl4(&reg[src], &rot_n[src], &rot_64_minus_n[src])
        };
    }
    reveal(pi);
    reveal(rho);
    assert forall|s: int| 0 <= s < 4 implies #[trigger] column4(b, s) == pi(rho(column4(*reg, s))) by {
        assert(column4(b, s) =~= pi(rho(column4(*reg, s))));
    }
    b
}

/// Chi on transposed four-lane registers.
fn chi_x4(b: &[[u64; 4]; 25]) -> (reg: [[u64; 4]; 25])
    ensures
        forall|s: int| 0 <= s < 4 ==> #[trigger] column4(reg, s) == chi(column4(*b, s)),
{
    let mut reg = [[0u64; 4]; 25];
    for y in 0..5
        invariant
            forall|i: int, s: int|
                0 <= i < 5 * y && 0 <= s < 4 ==> #[trigger] reg@[i]@[s] == b@[i]@[s] ^ (
                !b@[5 * (i / 5) + (i % 5 + 1) % 5]@[s] & b@[5 * (i / 5) + (i % 5 + 2) % 5]@[s]),
    {
        let base = 5 * y;
        let b0 = b[base];
        let b1 = b[base + 1];
        let b2 = b[base + 2];
        let b3 = b[base + 3];
        let b4 = b[base + 4];
        reg[base] = xor4(&b0, &andnot4(&b1, &b2));
        reg[base + 1] = xor4(&b1, &andnot4(&b2, &b3));
        reg[base + 2] = xor4(&b2, &andnot4(&b3, &b4));
        reg[base + 3] = xor4(&b3, &andnot4(&b4, &b0));
        reg[base + 4] = xor4(&b4, &andnot4(&b0, &b1));
        assert forall|i: int, s: int| 5 * y <= i < 5 * y + 5 && 0 <= s < 4 implies #[trigger] reg@[i]@[s]
            == b@[i]@[s] ^ (!b@[5 * (i / 5) + (i % 5 + 1) % 5]@[s] & b@[5 * (i / 5) + (i % 5 + 2)
            % 5]@[s]) by {
            assert(i / 5 == y);
        }
    }
    reveal(chi);
    assert forall|s: int| 0 <= s < 4 implies #[trigger] column4(reg, s) == chi(column4(*b, s)) by {
        assert(column4(reg, s) =~= chi(column4(*b, s)));
    }
    reg
}

/// Permute four independent Keccak-f[1600] states in parallel.
pub fn keccak_f1600_x4_avx2(states: &mut [[u64; 25]; 4])
    ensures
        forall|s: int| 0 <= s < 4 ==> #[trigger] final(states)@[s]@ == keccak_f(old(states)@[s]@),
{
    let ghost start = *states;
    let mut reg = [[0u64; 4]; 25];
    for i in 0..25
        invariant
            *states == start,
            forall|j: int, s: int| 0 <= j < i && 0 <= s < 4 ==> #[trigger] reg@[j]@[s] == start@[s]@[j],
    {
        reg[i] = [states[0][i], states[1][i], states[2][i], states[3][i]];
    }
    // Rotation amounts n and 64 - n of every lane, for all four states:
    // AVX2 has no 64-bit rotate, only variable shifts.
    let mut rot_n = [[0u64; 4]; 25];
    let mut rot_64_minus_n = [[0u64; 4]; 25];
    for i in 0..25
        invariant
            forall|j: int, s: int|
                0 <= j < i && 0 <= s < 4 ==> #[trigger] rot_n@[j]@[s] == RHO@[j] as u64,
            forall|j: int, s: int|
                0 <= j < i && 0 <= s < 4 ==> #[trigger] rot_64_minus_n@[j]@[s] == 64 - RHO@[j],
    {
        let n = RHO[i] as u64;
        assert(RHO@[i as int] < 64);
        rot_n[i] = [n, n, n, n];
        let m = 64 - n;
        rot_64_minus_n[i] = [m, m, m, m];
    }
    assert forall|s: int| 0 <= s < 4 implies #[trigger] column4(reg, s) == keccak_rounds(start@[s]@, 0) by {
        assert(column4(reg, s) =~= start@[s]@);
    }

    for round in 0..KECCAK_ROUNDS
        invariant
            forall|s: int| 0 <= s < 4 ==> #[trigger] column4(reg, s) == keccak_rounds(start@[s]@, round as nat),
            forall|j: int, s: int|
                0 <= j < 25 && 0 <= s < 4 ==> #[trigger] rot_n@[j]@[s] == RHO@[j] as u64,
            forall|j: int, s: int|
                0 <= j < 25 && 0 <= s < 4 ==> #[trigger] rot_64_minus_n@[j]@[s] == 64 - RHO@[j],
    {
        theta_x4(&mut reg);
        let b = rho_pi_x4(&reg, &rot_n, &rot_64_minus_n);
        reg = chi_x4(&b);
        let ghost mixed = reg;
        let rc = RC[round];
        let rc_vec = [rc, rc, rc, rc];
        let r0 = xor4(&reg[0], &rc_vec);
        reg[0] = r0;
        assert forall|s: int| 0 <= s < 4 implies #[trigger] column4(reg, s) == keccak_rounds(start@[s]@, (round + 1) as nat) by {
            assert(column4(reg, s) =~= crate::keccak::iota(column4(mixed, s), RC@[round as int]));
        }
    }

    for i in 0..25
        invariant
            forall|j: int, s: int| 0 <= j < i && 0 <= s < 4 ==> #[trigger] states@[s]@[j] == reg@[j]@[s],
            forall|j: int, s: int| i <= j < 25 && 0 <= s < 4 ==> #[trigger] states@[s]@[j] == start@[s]@[j],
    {
        for s in 0..4
            invariant
                i < 25,
                forall|j: int, t: int| 0 <= j < i && 0 <= t < 4 ==> #[trigger] states@[t]@[j] == reg@[j]@[t],
                forall|t: int| 0 <= t < s ==> #[trigger] states@[t]@[i as int] == reg@[i as int]@[t],
                forall|j: int, t: int| i < j < 25 && 0 <= t < 4 ==> #[trigger] states@[t]@[j] == start@[t]@[j],
                forall|t: int| s <= t < 4 ==> #[trigger] states@[t]@[i as int] == start@[t]@[i as int],
        {
            let mut st = states[s];
            st[i] = reg[i][s];
            states[s] = st;
        }
    }
    assert forall|s: int| 0 <= s < 4 implies #[trigger] states@[s]@ == keccak_f(start@[s]@) by {
        assert(states@[s]@ =~= column4(reg, s));
    }
}

} // verus!
