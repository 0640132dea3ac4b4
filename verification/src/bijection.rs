//! Keccak-f[1600] is a permutation: distinct states stay distinct.
//!
//! Each of the five step mappings is shown injective on 25-lane states:
//! iota XORs a constant, chi is invertible on every 5-lane row, pi only
//! moves lanes, rho rotates each lane, and theta has a trivial kernel.
use vstd::prelude::*;

use crate::keccak::{
    chi, column_parity, iota, keccak_f, keccak_round, keccak_rounds, pi, pi_source, rho,
    rotl_spec, theta, theta_effect, RHO,
};

verus! {

/// XORing the same value into two lanes keeps them apart.
proof fn lemma_xor_cancel(x: u64, y: u64, c: u64)
    requires
        x ^ c == y ^ c,
    ensures
        x == y,
{
    assert(x ^ c == y ^ c ==> x == y) by (bit_vector);
}

/// Iota is injective.
proof fn lemma_iota_injective(a: Seq<u64>, b: Seq<u64>, rc: u64)
    requires
        a.len() == 25,
        b.len() == 25,
        iota(a, rc) == iota(b, rc),
    ensures
        a == b,
{
    let ia = iota(a, rc);
    let ib = iota(b, rc);
    assert(ia[0] == a[0] ^ rc);
    assert(ib[0] == b[0] ^ rc);
    assert(ia[0] == ib[0]);
    lemma_xor_cancel(a[0], b[0], rc);
    assert forall|i: int| 0 <= i < 25 implies a[i] == b[i] by {
        if i != 0 {
            assert(iota(a, rc)[i] == iota(b, rc)[i]);
        }
    }
    assert(a =~= b);
}

/// Chi is invertible on a single row of five lanes.
proof fn lemma_chi_row_injective(
    a0: u64,
    a1: u64,
    a2: u64,
    a3: u64,
    a4: u64,
    b0: u64,
    b1: u64,
    b2: u64,
    b3: u64,
    b4: u64,
)
    requires
        a0 ^ (!a1 & a2) == b0 ^ (!b1 & b2),
        a1 ^ (!a2 & a3) == b1 ^ (!b2 & b3),
        a2 ^ (!a3 & a4) == b2 ^ (!b3 & b4),
        a3 ^ (!a4 & a0) == b3 ^ (!b4 & b0),
        a4 ^ (!a0 & a1) == b4 ^ (!b0 & b1),
    ensures
        a0 == b0 && a1 == b1 && a2 == b2 && a3 == b3 && a4 == b4,
{
    assert(a0 == b0 && a1 == b1 && a2 == b2 && a3 == b3 && a4 == b4) by (bit_vector)
        requires
            a0 ^ (!a1 & a2) == b0 ^ (!b1 & b2),
            a1 ^ (!a2 & a3) == b1 ^ (!b2 & b3),
            a2 ^ (!a3 & a4) == b2 ^ (!b3 & b4),
            a3 ^ (!a4 & a0) == b3 ^ (!b4 & b0),
            a4 ^ (!a0 & a1) == b4 ^ (!b0 & b1),
    ;
}

/// Row `y` of two states holds the same lanes.
spec fn rows_agree(a: Seq<u64>, b: Seq<u64>, y: int) -> bool {
    &&& a[5 * y] == b[5 * y]
    &&& a[5 * y + 1] == b[5 * y + 1]
    &&& a[5 * y + 2] == b[5 * y + 2]
    &&& a[5 * y + 3] == b[5 * y + 3]
    &&& a[5 * y + 4] == b[5 * y + 4]
}

/// Chi is injective.
proof fn lemma_chi_injective(a: Seq<u64>, b: Seq<u64>)
    requires
        a.len() == 25,
        b.len() == 25,
        chi(a) == chi(b),
    ensures
        a == b,
{
    reveal(chi);
    assert forall|y: int| 0 <= y < 5 implies #[trigger] rows_agree(a, b, y) by {
        reveal(chi);
        let k = 5 * y;
        assert(k / 5 == y && (k + 1) / 5 == y && (k + 2) / 5 == y && (k + 3) / 5 == y && (k + 4)
            / 5 == y);
        assert(k % 5 == 0 && (k + 1) % 5 == 1 && (k + 2) % 5 == 2 && (k + 3) % 5 == 3 && (k + 4)
            % 5 == 4);
        assert(chi(a)[k] == chi(b)[k]);
        assert(chi(a)[k + 1] == chi(b)[k + 1]);
        assert(chi(a)[k + 2] == chi(b)[k + 2]);
        assert(chi(a)[k + 3] == chi(b)[k + 3]);
        assert(chi(a)[k + 4] == chi(b)[k + 4]);
        assert(chi(a)[k] == a[k] ^ (!a[k + 1] & a[k + 2]));
        assert(chi(b)[k] == b[k] ^ (!b[k + 1] & b[k + 2]));
        assert(chi(a)[k + 1] == a[k + 1] ^ (!a[k + 2] & a[k + 3]));
        assert(chi(b)[k + 1] == b[k + 1] ^ (!b[k + 2] & b[k + 3]));
        assert(chi(a)[k + 2] == a[k + 2] ^ (!a[k + 3] & a[k + 4]));
        assert(chi(b)[k + 2] == b[k + 2] ^ (!b[k + 3] & b[k + 4]));
        assert(chi(a)[k + 3] == a[k + 3] ^ (!a[k + 4] & a[k]));
        assert(chi(b)[k + 3] == b[k + 3] ^ (!b[k + 4] & b[k]));
        assert(chi(a)[k + 4] == a[k + 4] ^ (!a[k] & a[k + 1]));
        assert(chi(b)[k + 4] == b[k + 4] ^ (!b[k] & b[k + 1]));
        lemma_chi_row_injective(
            a[k],
            a[k + 1],
            a[k + 2],
            a[k + 3],
            a[k + 4],
            b[k],
            b[k + 1],
            b[k + 2],
            b[k + 3],
            b[k + 4],
        );
    }
    assert forall|i: int| 0 <= i < 25 implies a[i] == b[i] by {
        let y = i / 5;
        assert(rows_agree(a, b, y));
        assert(i == 5 * y || i == 5 * y + 1 || i == 5 * y + 2 || i == 5 * y + 3 || i == 5 * y + 4);
    }
    assert(a =~= b);
}

/// The lane pi moves into position `k`: the inverse of `pi_source`.
pub open spec fn pi_target(k: int) -> int {
    let xs = k % 5;
    let ys = k / 5;
    ys + 5 * ((2 * (xs - ys) + 10) % 5)
}

/// Every lane is moved somewhere by pi.
proof fn lemma_pi_onto()
    ensures
        forall|k: int|
            0 <= k < 25 ==> 0 <= #[trigger] pi_target(k) < 25 && pi_source(pi_target(k)) == k,
{
    assert forall|k: int| 0 <= k < 25 implies 0 <= #[trigger] pi_target(k) < 25 && pi_source(
        pi_target(k),
    ) == k by {
        if k < 5 {
        } else if k < 10 {
        } else if k < 15 {
        } else if k < 20 {
        } else {
        }
    }
}

/// Pi is injective.
proof fn lemma_pi_injective(a: Seq<u64>, b: Seq<u64>)
    requires
        a.len() == 25,
        b.len() == 25,
        pi(a) == pi(b),
    ensures
        a == b,
{
    reveal(pi);
    lemma_pi_onto();
    assert forall|k: int| 0 <= k < 25 implies a[k] == b[k] by {
        reveal(pi);
        let i = pi_target(k);
        assert(0 <= i < 25 && pi_source(i) == k);
        assert(pi(a)[i] == pi(b)[i]);
        assert(pi(a)[i] == a[k]);
        assert(pi(b)[i] == b[k]);
    }
    assert(a =~= b);
}

/// Rotation by a fixed amount is injective.
proof fn lemma_rotl_injective(x: u64, y: u64, n: u32)
    requires
        n < 64,
        rotl_spec(x, n) == rotl_spec(y, n),
    ensures
        x == y,
{
    if n != 0 {
        let m = (64 - n) as u32;
        assert(((x << n) | (x >> m)) == ((y << n) | (y >> m)) ==> x == y) by (bit_vector)
            requires
                0 < n < 64,
                m == 64 - n,
        ;
    }
}

/// Rho is injective.
proof fn lemma_rho_injective(a: Seq<u64>, b: Seq<u64>)
    requires
        a.len() == 25,
        b.len() == 25,
        rho(a) == rho(b),
    ensures
        a == b,
{
    reveal(rho);
    assert forall|i: int| 0 <= i < 25 implies a[i] == b[i] by {
        reveal(rho);
        assert(rho(a)[i] == rho(b)[i]);
        assert(rho(a)[i] == rotl_spec(a[i], RHO@[i]));
        assert(rho(b)[i] == rotl_spec(b[i], RHO@[i]));
        assert(RHO@[i] < 64);
        lemma_rotl_injective(a[i], b[i], RHO@[i]);
    }
    assert(a =~= b);
}

/// The only solution of the theta kernel equations is zero: five lanes,
/// each the XOR of its left neighbour and its right neighbour rotated by one.
proof fn lemma_theta_kernel(e0: u64, e1: u64, e2: u64, e3: u64, e4: u64)
    by (bit_vector)
    requires
        e0 == e4 ^ ((e1 << 1u32) | (e1 >> 63u32)),
        e1 == e0 ^ ((e2 << 1u32) | (e2 >> 63u32)),
        e2 == e1 ^ ((e3 << 1u32) | (e3 >> 63u32)),
        e3 == e2 ^ ((e4 << 1u32) | (e4 >> 63u32)),
        e4 == e3 ^ ((e0 << 1u32) | (e0 >> 63u32)),
    ensures
        e0 == 0 && e1 == 0 && e2 == 0 && e3 == 0 && e4 == 0,
{
}

/// Difference of two theta-images of a lane.
proof fn lemma_xor_diff(a: u64, b: u64, ea: u64, eb: u64)
    requires
        a ^ ea == b ^ eb,
    ensures
        a ^ b == ea ^ eb,
        (ea ^ eb == 0u64) ==> a == b,
{
    assert(a ^ ea == b ^ eb ==> a ^ b == ea ^ eb) by (bit_vector);
    assert(a ^ b == ea ^ eb && ea ^ eb == 0u64 ==> a == b) by (bit_vector);
}

/// Column parities differ by the common lane difference of the column.
proof fn lemma_parity_diff(
    a0: u64,
    a1: u64,
    a2: u64,
    a3: u64,
    a4: u64,
    b0: u64,
    b1: u64,
    b2: u64,
    b3: u64,
    b4: u64,
    f: u64,
)
    requires
        a0 ^ b0 == f,
        a1 ^ b1 == f,
        a2 ^ b2 == f,
        a3 ^ b3 == f,
        a4 ^ b4 == f,
    ensures
        (a0 ^ a1 ^ a2 ^ a3 ^ a4) ^ (b0 ^ b1 ^ b2 ^ b3 ^ b4) == f,
{
    assert((a0 ^ a1 ^ a2 ^ a3 ^ a4) ^ (b0 ^ b1 ^ b2 ^ b3 ^ b4) == f) by (bit_vector)
        requires
            a0 ^ b0 == f,
            a1 ^ b1 == f,
            a2 ^ b2 == f,
            a3 ^ b3 == f,
            a4 ^ b4 == f,
    ;
}

/// Lanes whose XOR is zero are equal.
proof fn lemma_xor_zero_diff(x: u64, y: u64)
    requires
        x ^ y == 0u64,
    ensures
        x == y,
{
    assert(x ^ y == 0u64 ==> x == y) by (bit_vector);
}

/// Theta's effect is linear in the column parities.
proof fn lemma_effect_diff(pa_l: u64, pa_r: u64, pb_l: u64, pb_r: u64)
    ensures
        (pa_l ^ rotl_spec(pa_r, 1)) ^ (pb_l ^ rotl_spec(pb_r, 1)) == (pa_l ^ pb_l) ^ rotl_spec(
            pa_r ^ pb_r,
            1,
        ),
{
    assert((pa_l ^ ((pa_r << 1u32) | (pa_r >> 63u32))) ^ (pb_l ^ ((pb_r << 1u32) | (pb_r
        >> 63u32))) == (pa_l ^ pb_l) ^ (((pa_r ^ pb_r) << 1u32) | ((pa_r ^ pb_r) >> 63u32)))
        by (bit_vector);
}

/// The difference theta's effect makes in column `x` of two states.
spec fn effect_diff(a: Seq<u64>, b: Seq<u64>, x: int) -> u64 {
    theta_effect(a, x) ^ theta_effect(b, x)
}

/// Where theta agrees on two states, every lane differs by its column's effect difference.
proof fn lemma_theta_lane_diff(a: Seq<u64>, b: Seq<u64>, i: int)
    requires
        a.len() == 25,
        b.len() == 25,
        theta(a) == theta(b),
        0 <= i < 25,
    ensures
        a[i] ^ b[i] == effect_diff(a, b, i % 5),
{
    reveal(theta);
    assert(theta(a)[i] == theta(b)[i]);
    assert(theta(a)[i] == a[i] ^ theta_effect(a, i % 5));
    assert(theta(b)[i] == b[i] ^ theta_effect(b, i % 5));
    lemma_xor_diff(a[i], b[i], theta_effect(a, i % 5), theta_effect(b, i % 5));
}

/// Where theta agrees on two states, column parities differ by the effect difference.
proof fn lemma_theta_parity_diff(a: Seq<u64>, b: Seq<u64>, x: int)
    requires
        a.len() == 25,
        b.len() == 25,
        theta(a) == theta(b),
        0 <= x < 5,
    ensures
        column_parity(a, x) ^ column_parity(b, x) == effect_diff(a, b, x),
{
    lemma_theta_lane_diff(a, b, x);
    lemma_theta_lane_diff(a, b, x + 5);
    lemma_theta_lane_diff(a, b, x + 10);
    lemma_theta_lane_diff(a, b, x + 15);
    lemma_theta_lane_diff(a, b, x + 20);
    assert(x % 5 == x && (x + 5) % 5 == x && (x + 10) % 5 == x && (x + 15) % 5 == x && (x + 20)
        % 5 == x);
    lemma_parity_diff(
        a[x],
        a[x + 5],
        a[x + 10],
        a[x + 15],
        a[x + 20],
        b[x],
        b[x + 5],
        b[x + 10],
        b[x + 15],
        b[x + 20],
        effect_diff(a, b, x),
    );
}

/// Where theta agrees on two states, the effect differences solve the kernel equations.
proof fn lemma_theta_kernel_step(a: Seq<u64>, b: Seq<u64>, x: int)
    requires
        a.len() == 25,
        b.len() == 25,
        theta(a) == theta(b),
        0 <= x < 5,
    ensures
        effect_diff(a, b, x) == effect_diff(a, b, (x + 4) % 5) ^ rotl_spec(
            effect_diff(a, b, (x + 1) % 5),
            1,
        ),
{
    lemma_theta_parity_diff(a, b, (x + 4) % 5);
    lemma_theta_parity_diff(a, b, (x + 1) % 5);
    lemma_effect_diff(
        column_parity(a, (x + 4) % 5),
        column_parity(a, (x + 1) % 5),
        column_parity(b, (x + 4) % 5),
        column_parity(b, (x + 1) % 5),
    );
}

/// Theta is injective.
proof fn lemma_theta_injective(a: Seq<u64>, b: Seq<u64>)
    requires
        a.len() == 25,
        b.len() == 25,
        theta(a) == theta(b),
    ensures
        a == b,
{
    lemma_theta_kernel_step(a, b, 0);
    lemma_theta_kernel_step(a, b, 1);
    lemma_theta_kernel_step(a, b, 2);
    lemma_theta_kernel_step(a, b, 3);
    lemma_theta_kernel_step(a, b, 4);
    lemma_theta_kernel(
        effect_diff(a, b, 0),
        effect_diff(a, b, 1),
        effect_diff(a, b, 2),
        effect_diff(a, b, 3),
        effect_diff(a, b, 4),
    );
    assert forall|i: int| 0 <= i < 25 implies a[i] == b[i] by {
        lemma_theta_lane_diff(a, b, i);
        lemma_xor_zero_diff(a[i], b[i]);
    }
    assert(a =~= b);
}

/// Every step mapping keeps states 25 lanes long.
proof fn lemma_steps_len(a: Seq<u64>)
    requires
        a.len() == 25,
    ensures
        theta(a).len() == 25,
        rho(a).len() == 25,
        pi(a).len() == 25,
        chi(a).len() == 25,
{
    reveal(theta);
    reveal(rho);
    reveal(pi);
    reveal(chi);
}

/// One round of Keccak-f[1600] is injective.
pub proof fn lemma_round_injective(a: Seq<u64>, b: Seq<u64>, r: int)
    requires
        a.len() == 25,
        b.len() == 25,
        keccak_round(a, r) == keccak_round(b, r),
    ensures
        a == b,
{
    lemma_steps_len(a);
    lemma_steps_len(b);
    lemma_steps_len(theta(a));
    lemma_steps_len(theta(b));
    lemma_steps_len(rho(theta(a)));
    lemma_steps_len(rho(theta(b)));
    lemma_steps_len(pi(rho(theta(a))));
    lemma_steps_len(pi(rho(theta(b))));
    lemma_iota_injective(chi(pi(rho(theta(a)))), chi(pi(rho(theta(b)))), crate::keccak::RC@[r]);
    lemma_chi_injective(pi(rho(theta(a))), pi(rho(theta(b))));
    lemma_pi_injective(rho(theta(a)), rho(theta(b)));
    lemma_rho_injective(theta(a), theta(b));
    lemma_theta_injective(a, b);
}

/// Rounds keep states 25 lanes long.
proof fn lemma_rounds_len(a: Seq<u64>, n: nat)
    requires
        a.len() == 25,
    ensures
        keccak_rounds(a, n).len() == 25,
    decreases n,
{
    if n > 0 {
        lemma_rounds_len(a, (n - 1) as nat);
        lemma_steps_len(keccak_rounds(a, (n - 1) as nat));
        let t = keccak_rounds(a, (n - 1) as nat);
        lemma_steps_len(theta(t));
        lemma_steps_len(rho(theta(t)));
        lemma_steps_len(pi(rho(theta(t))));
    }
}

/// Any number of rounds is injective.
proof fn lemma_rounds_injective(a: Seq<u64>, b: Seq<u64>, n: nat)
    requires
        a.len() == 25,
        b.len() == 25,
        keccak_rounds(a, n) == keccak_rounds(b, n),
    ensures
        a == b,
    decreases n,
{
    if n > 0 {
        lemma_rounds_len(a, (n - 1) as nat);
        lemma_rounds_len(b, (n - 1) as nat);
        lemma_round_injective(
            keccak_rounds(a, (n - 1) as nat),
            keccak_rounds(b, (n - 1) as nat),
            n - 1,
        );
        lemma_rounds_injective(a, b, (n - 1) as nat);
    }
}

/// Keccak-f[1600] is a permutation of the 1600-bit states: two states that
/// it maps to the same state are the same state.
pub proof fn law_keccak_f_injective(a: Seq<u64>, b: Seq<u64>)
    requires
        a.len() == 25,
        b.len() == 25,
        keccak_f(a) == keccak_f(b),
    ensures
        a == b,
{
    lemma_rounds_injective(a, b, 24);
}

} // verus!
