//! Keccak-f[1600] permutation (FIPS 202, Section 3).
//!
//! The state is a 5x5 matrix of 64-bit lanes held as 25 words, lane
//! `(x, y)` at index `x + 5 * y`.  The mathematical permutation is given
//! step by step (theta, rho, pi, chi, iota) as spec functions over
//! `Seq<u64>`; [`keccak_f1600`] is proved to compute exactly it.
use vstd::prelude::*;

verus! {

/// Number of rounds in Keccak-f[1600].
pub const KECCAK_ROUNDS: usize = 24;

/// Round constants of the iota step, in round order (FIPS 202, Section 3.2.5).
pub const RC: [u64; 24] = [
    0x0000_0000_0000_0001,
    0x0000_0000_0000_8082,
    0x8000_0000_0000_808A,
    0x8000_0000_8000_8000,
    0x0000_0000_0000_808B,
    0x0000_0000_8000_0001,
    0x8000_0000_8000_8081,
    0x8000_0000_0000_8009,
    0x0000_0000_0000_008A,
    0x0000_0000_0000_0088,
    0x0000_0000_8000_8009,
    0x0000_0000_8000_000A,
    0x0000_0000_8000_808B,
    0x8000_0000_0000_008B,
    0x8000_0000_0000_8089,
    0x8000_0000_0000_8003,
    0x8000_0000_0000_8002,
    0x8000_0000_0000_0080,
    0x0000_0000_0000_800A,
    0x8000_0000_8000_000A,
    0x8000_0000_8000_8081,
    0x8000_0000_0000_8080,
    0x0000_0000_8000_0001,
    0x8000_0000_8000_8008,
];

/// Rotation offsets of the rho step, indexed by lane `x + 5 * y`
/// (FIPS 202, Table 2).
pub const RHO: [u32; 25] = [
    0, 1, 62, 28, 27, 36, 44, 6, 55, 20, 3, 10, 43, 25, 39, 41, 45, 15, 21, 8, 18, 2, 61, 56, 14,
];

/// Source lane of the pi step: destination lane `d` takes lane `PI[d]`.
pub const PI: [usize; 25] = [
    0, 6, 12, 18, 24, 3, 9, 10, 16, 22, 1, 7, 13, 19, 20, 4, 5, 11, 17, 23, 2, 8, 14, 15, 21,
];

/// The round constants in round order.
pub fn round_constants() -> (r: [u64; 24])
    ensures
        r@ == RC@,
{
    RC
}

// ---------------------------------------------------------------------
// The permutation as mathematics
// ---------------------------------------------------------------------

/// Rotation of a 64-bit lane left by `n` bits (`n < 64`).
pub open spec fn rotl_spec(x: u64, n: u32) -> u64 {
    if n == 0 {
        x
    } else {
        (x << n) | (x >> ((64 - n) as u32))
    }
}

/// Parity (XOR) of column `x` of the state.
pub open spec fn column_parity(a: Seq<u64>, x: int) -> u64 {
    a[x] ^ a[x + 5] ^ a[x + 10] ^ a[x + 15] ^ a[x + 20]
}

/// What theta XORs into every lane of column `x`.
pub open spec fn theta_effect(a: Seq<u64>, x: int) -> u64 {
    column_parity(a, (x + 4) % 5) ^ rotl_spec(column_parity(a, (x + 1) % 5), 1)
}

/// The theta step: each lane absorbs the parities of two neighbouring columns.
#[verifier::opaque]
pub open spec fn theta(a: Seq<u64>) -> Seq<u64> {
    Seq::new(25, |i: int| a[i] ^ theta_effect(a, i % 5))
}

/// The rho step: each lane is rotated by its own fixed offset.
#[verifier::opaque]
pub open spec fn rho(a: Seq<u64>) -> Seq<u64> {
    Seq::new(25, |i: int| rotl_spec(a[i], RHO@[i]))
}

/// Source of destination lane `(x, y)` under pi: lane `((x + 3y) mod 5, x)`.
pub open spec fn pi_source(i: int) -> int {
    (i % 5 + 3 * (i / 5)) % 5 + 5 * (i % 5)
}

/// The pi step: a fixed transposition of lane positions.
#[verifier::opaque]
pub open spec fn pi(a: Seq<u64>) -> Seq<u64> {
    Seq::new(25, |i: int| a[pi_source(i)])
}

/// The chi step: the only non-linear step, row by row.
#[verifier::opaque]
pub open spec fn chi(a: Seq<u64>) -> Seq<u64> {
    Seq::new(
        25,
        |i: int|
            a[i] ^ (!a[5 * (i / 5) + (i % 5 + 1) % 5] & a[5 * (i / 5) + (i % 5 + 2) % 5]),
    )
}

/// The iota step: XOR of a round constant into lane `(0, 0)`.
pub open spec fn iota(a: Seq<u64>, rc: u64) -> Seq<u64> {
    a.update(0, a[0] ^ rc)
}

/// Round number `r` of Keccak-f[1600].
pub open spec fn keccak_round(a: Seq<u64>, r: int) -> Seq<u64> {
    iota(chi(pi(rho(theta(a)))), RC@[r])
}

/// The first `n` rounds of Keccak-f[1600].
pub open spec fn keccak_rounds(a: Seq<u64>, n: nat) -> Seq<u64>
    decreases n,
{
    if n == 0 {
        a
    } else {
        keccak_round(keccak_rounds(a, (n - 1) as nat), n - 1)
    }
}

/// Keccak-f[1600]: all 24 rounds.
pub open spec fn keccak_f(a: Seq<u64>) -> Seq<u64> {
    keccak_rounds(a, 24)
}

/// The pi table is the FIPS 202 pi mapping.
pub proof fn lemma_pi_table()
    ensures
        forall|i: int| 0 <= i < 25 ==> #[trigger] PI@[i] as int == pi_source(i),
{
    assert forall|i: int| 0 <= i < 25 implies #[trigger] PI@[i] as int == pi_source(i) by {
        if i < 5 {
        } else if i < 10 {
        } else if i < 15 {
        } else if i < 20 {
        } else {
        }
    }
}

/// Flip bit `k` (given as its power of two `p`) of a small non-negative integer.
pub open spec fn flip_bit(v: int, p: int) -> int {
    if (v / p) % 2 == 1 {
        v - p
    } else {
        v + p
    }
}

/// One step of the round-constant LFSR of FIPS 202, Section 3.2.5, on the
/// register `R[0..8]` held as the integer `sum R[k] 2^k`: shift `R` up by
/// one place and, when the bit shifted out is set, XOR it into `R[0]`,
/// `R[4]`, `R[5]` and `R[6]`.
pub open spec fn lfsr_step(r: int) -> int {
    let s = 2 * r;
    if s >= 256 {
        flip_bit(flip_bit(flip_bit(s - 256 + 1, 16), 32), 64)
    } else {
        s
    }
}

/// The LFSR register after `t` steps from `R = 1`.
pub open spec fn lfsr(t: nat) -> int
    decreases t,
{
    if t == 0 {
        1
    } else {
        lfsr_step(lfsr((t - 1) as nat))
    }
}

/// The output bit `rc(t)` of the LFSR (for `t < 255`).
pub open spec fn rc_bit(t: nat) -> int {
    lfsr(t) % 2
}

/// Round constant `i` as FIPS 202 builds it: bit `2^j - 1` is `rc(j + 7i)`
/// for `j` from 0 to 6, every other bit is zero.
pub open spec fn round_constant(i: nat) -> int {
    rc_bit(7 * i) + rc_bit(7 * i + 1) * 0x2 + rc_bit(7 * i + 2) * 0x8 + rc_bit(7 * i + 3) * 0x80
        + rc_bit(7 * i + 4) * 0x8000 + rc_bit(7 * i + 5) * 0x8000_0000 + rc_bit(7 * i + 6)
        * 0x8000_0000_0000_0000
}

/// The LFSR register through the steps the round constants use.
proof fn lemma_lfsr_values()
    ensures
        lfsr(0) == 1,
        lfsr(1) == 2,
        lfsr(2) == 4,
        lfsr(3) == 8,
        lfsr(4) == 16,
        lfsr(5) == 32,
        lfsr(6) == 64,
        lfsr(7) == 128,
        lfsr(8) == 113,
        lfsr(9) == 226,
        lfsr(10) == 181,
        lfsr(11) == 27,
        lfsr(12) == 54,
        lfsr(13) == 108,
        lfsr(14) == 216,
        lfsr(15) == 193,
        lfsr(16) == 243,
        lfsr(17) == 151,
        lfsr(18) == 95,
        lfsr(19) == 190,
        lfsr(20) == 13,
        lfsr(21) == 26,
        lfsr(22) == 52,
        lfsr(23) == 104,
        lfsr(24) == 208,
        lfsr(25) == 209,
        lfsr(26) == 211,
        lfsr(27) == 215,
        lfsr(28) == 223,
        lfsr(29) == 207,
        lfsr(30) == 239,
        lfsr(31) == 175,
        lfsr(32) == 47,
        lfsr(33) == 94,
        lfsr(34) == 188,
        lfsr(35) == 9,
        lfsr(36) == 18,
        lfsr(37) == 36,
        lfsr(38) == 72,
        lfsr(39) == 144,
        lfsr(40) == 81,
        lfsr(41) == 162,
        lfsr(42) == 53,
        lfsr(43) == 106,
        lfsr(44) == 212,
        lfsr(45) == 217,
        lfsr(46) == 195,
        lfsr(47) == 247,
        lfsr(48) == 159,
        lfsr(49) == 79,
        lfsr(50) == 158,
        lfsr(51) == 77,
        lfsr(52) == 154,
        lfsr(53) == 69,
        lfsr(54) == 138,
        lfsr(55) == 101,
        lfsr(56) == 202,
        lfsr(57) == 229,
        lfsr(58) == 187,
        lfsr(59) == 7,
        lfsr(60) == 14,
        lfsr(61) == 28,
        lfsr(62) == 56,
        lfsr(63) == 112,
        lfsr(64) == 224,
        lfsr(65) == 177,
        lfsr(66) == 19,
        lfsr(67) == 38,
        lfsr(68) == 76,
        lfsr(69) == 152,
        lfsr(70) == 65,
        lfsr(71) == 130,
        lfsr(72) == 117,
        lfsr(73) == 234,
        lfsr(74) == 165,
        lfsr(75) == 59,
        lfsr(76) == 118,
        lfsr(77) == 236,
        lfsr(78) == 169,
        lfsr(79) == 35,
        lfsr(80) == 70,
        lfsr(81) == 140,
        lfsr(82) == 105,
        lfsr(83) == 210,
        lfsr(84) == 213,
        lfsr(85) == 219,
        lfsr(86) == 199,
        lfsr(87) == 255,
        lfsr(88) == 143,
        lfsr(89) == 111,
        lfsr(90) == 222,
        lfsr(91) == 205,
        lfsr(92) == 235,
        lfsr(93) == 167,
        lfsr(94) == 63,
        lfsr(95) == 126,
        lfsr(96) == 252,
        lfsr(97) == 137,
        lfsr(98) == 99,
        lfsr(99) == 198,
        lfsr(100) == 253,
        lfsr(101) == 139,
        lfsr(102) == 103,
        lfsr(103) == 206,
        lfsr(104) == 237,
        lfsr(105) == 171,
        lfsr(106) == 39,
        lfsr(107) == 78,
        lfsr(108) == 156,
        lfsr(109) == 73,
        lfsr(110) == 146,
        lfsr(111) == 85,
        lfsr(112) == 170,
        lfsr(113) == 37,
        lfsr(114) == 74,
        lfsr(115) == 148,
        lfsr(116) == 89,
        lfsr(117) == 178,
        lfsr(118) == 21,
        lfsr(119) == 42,
        lfsr(120) == 84,
        lfsr(121) == 168,
        lfsr(122) == 33,
        lfsr(123) == 66,
        lfsr(124) == 132,
        lfsr(125) == 121,
        lfsr(126) == 242,
        lfsr(127) == 149,
        lfsr(128) == 91,
        lfsr(129) == 182,
        lfsr(130) == 29,
        lfsr(131) == 58,
        lfsr(132) == 116,
        lfsr(133) == 232,
        lfsr(134) == 161,
        lfsr(135) == 51,
        lfsr(136) == 102,
        lfsr(137) == 204,
        lfsr(138) == 233,
        lfsr(139) == 163,
        lfsr(140) == 55,
        lfsr(141) == 110,
        lfsr(142) == 220,
        lfsr(143) == 201,
        lfsr(144) == 227,
        lfsr(145) == 183,
        lfsr(146) == 31,
        lfsr(147) == 62,
        lfsr(148) == 124,
        lfsr(149) == 248,
        lfsr(150) == 129,
        lfsr(151) == 115,
        lfsr(152) == 230,
        lfsr(153) == 189,
        lfsr(154) == 11,
        lfsr(155) == 22,
        lfsr(156) == 44,
        lfsr(157) == 88,
        lfsr(158) == 176,
        lfsr(159) == 17,
        lfsr(160) == 34,
        lfsr(161) == 68,
        lfsr(162) == 136,
        lfsr(163) == 97,
        lfsr(164) == 194,
        lfsr(165) == 245,
        lfsr(166) == 155,
        lfsr(167) == 71,
{
    assert(lfsr(0) == 1);
    assert(lfsr(1) == 2);
    assert(lfsr(2) == 4);
    assert(lfsr(3) == 8);
    assert(lfsr(4) == 16);
    assert(lfsr(5) == 32);
    assert(lfsr(6) == 64);
    assert(lfsr(7) == 128);
    assert(lfsr(8) == 113);
    assert(lfsr(9) == 226);
    assert(lfsr(10) == 181);
    assert(lfsr(11) == 27);
    assert(lfsr(12) == 54);
    assert(lfsr(13) == 108);
    assert(lfsr(14) == 216);
    assert(lfsr(15) == 193);
    assert(lfsr(16) == 243);
    assert(lfsr(17) == 151);
    assert(lfsr(18) == 95);
    assert(lfsr(19) == 190);
    assert(lfsr(20) == 13);
    assert(lfsr(21) == 26);
    assert(lfsr(22) == 52);
    assert(lfsr(23) == 104);
    assert(lfsr(24) == 208);
    assert(lfsr(25) == 209);
    assert(lfsr(26) == 211);
    assert(lfsr(27) == 215);
    assert(lfsr(28) == 223);
    assert(lfsr(29) == 207);
    assert(lfsr(30) == 239);
    assert(lfsr(31) == 175);
    assert(lfsr(32) == 47);
    assert(lfsr(33) == 94);
    assert(lfsr(34) == 188);
    assert(lfsr(35) == 9);
    assert(lfsr(36) == 18);
    assert(lfsr(37) == 36);
    assert(lfsr(38) == 72);
    assert(lfsr(39) == 144);
    assert(lfsr(40) == 81);
    assert(lfsr(41) == 162);
    assert(lfsr(42) == 53);
    assert(lfsr(43) == 106);
    assert(lfsr(44) == 212);
    assert(lfsr(45) == 217);
    assert(lfsr(46) == 195);
    assert(lfsr(47) == 247);
    assert(lfsr(48) == 159);
    assert(lfsr(49) == 79);
    assert(lfsr(50) == 158);
    assert(lfsr(51) == 77);
    assert(lfsr(52) == 154);
    assert(lfsr(53) == 69);
    assert(lfsr(54) == 138);
    assert(lfsr(55) == 101);
    assert(lfsr(56) == 202);
    assert(lfsr(57) == 229);
    assert(lfsr(58) == 187);
    assert(lfsr(59) == 7);
    assert(lfsr(60) == 14);
    assert(lfsr(61) == 28);
    assert(lfsr(62) == 56);
    assert(lfsr(63) == 112);
    assert(lfsr(64) == 224);
    assert(lfsr(65) == 177);
    assert(lfsr(66) == 19);
    assert(lfsr(67) == 38);
    assert(lfsr(68) == 76);
    assert(lfsr(69) == 152);
    assert(lfsr(70) == 65);
    assert(lfsr(71) == 130);
    assert(lfsr(72) == 117);
    assert(lfsr(73) == 234);
    assert(lfsr(74) == 165);
    assert(lfsr(75) == 59);
    assert(lfsr(76) == 118);
    assert(lfsr(77) == 236);
    assert(lfsr(78) == 169);
    assert(lfsr(79) == 35);
    assert(lfsr(80) == 70);
    assert(lfsr(81) == 140);
    assert(lfsr(82) == 105);
    assert(lfsr(83) == 210);
    assert(lfsr(84) == 213);
    assert(lfsr(85) == 219);
    assert(lfsr(86) == 199);
    assert(lfsr(87) == 255);
    assert(lfsr(88) == 143);
    assert(lfsr(89) == 111);
    assert(lfsr(90) == 222);
    assert(lfsr(91) == 205);
    assert(lfsr(92) == 235);
    assert(lfsr(93) == 167);
    assert(lfsr(94) == 63);
    assert(lfsr(95) == 126);
    assert(lfsr(96) == 252);
    assert(lfsr(97) == 137);
    assert(lfsr(98) == 99);
    assert(lfsr(99) == 198);
    assert(lfsr(100) == 253);
    assert(lfsr(101) == 139);
    assert(lfsr(102) == 103);
    assert(lfsr(103) == 206);
    assert(lfsr(104) == 237);
    assert(lfsr(105) == 171);
    assert(lfsr(106) == 39);
    assert(lfsr(107) == 78);
    assert(lfsr(108) == 156);
    assert(lfsr(109) == 73);
    assert(lfsr(110) == 146);
    assert(lfsr(111) == 85);
    assert(lfsr(112) == 170);
    assert(lfsr(113) == 37);
    assert(lfsr(114) == 74);
    assert(lfsr(115) == 148);
    assert(lfsr(116) == 89);
    assert(lfsr(117) == 178);
    assert(lfsr(118) == 21);
    assert(lfsr(119) == 42);
    assert(lfsr(120) == 84);
    assert(lfsr(121) == 168);
    assert(lfsr(122) == 33);
    assert(lfsr(123) == 66);
    assert(lfsr(124) == 132);
    assert(lfsr(125) == 121);
    assert(lfsr(126) == 242);
    assert(lfsr(127) == 149);
    assert(lfsr(128) == 91);
    assert(lfsr(129) == 182);
    assert(lfsr(130) == 29);
    assert(lfsr(131) == 58);
    assert(lfsr(132) == 116);
    assert(lfsr(133) == 232);
    assert(lfsr(134) == 161);
    assert(lfsr(135) == 51);
    assert(lfsr(136) == 102);
    assert(lfsr(137) == 204);
    assert(lfsr(138) == 233);
    assert(lfsr(139) == 163);
    assert(lfsr(140) == 55);
    assert(lfsr(141) == 110);
    assert(lfsr(142) == 220);
    assert(lfsr(143) == 201);
    assert(lfsr(144) == 227);
    assert(lfsr(145) == 183);
    assert(lfsr(146) == 31);
    assert(lfsr(147) == 62);
    assert(lfsr(148) == 124);
    assert(lfsr(149) == 248);
    assert(lfsr(150) == 129);
    assert(lfsr(151) == 115);
    assert(lfsr(152) == 230);
    assert(lfsr(153) == 189);
    assert(lfsr(154) == 11);
    assert(lfsr(155) == 22);
    assert(lfsr(156) == 44);
    assert(lfsr(157) == 88);
    assert(lfsr(158) == 176);
    assert(lfsr(159) == 17);
    assert(lfsr(160) == 34);
    assert(lfsr(161) == 68);
    assert(lfsr(162) == 136);
    assert(lfsr(163) == 97);
    assert(lfsr(164) == 194);
    assert(lfsr(165) == 245);
    assert(lfsr(166) == 155);
    assert(lfsr(167) == 71);
}

/// The round-constant table is the one FIPS 202 derives from its LFSR.
pub proof fn lemma_rc_table()
    ensures
        forall|i: nat| i < 24 ==> #[trigger] RC@[i as int] as int == round_constant(i),
{
    lemma_lfsr_values();
    assert forall|i: nat| i < 24 implies #[trigger] RC@[i as int] as int == round_constant(i) by {
        if i == 0 {
        } else if i == 1 {
        } else if i == 2 {
        } else if i == 3 {
        } else if i == 4 {
        } else if i == 5 {
        } else if i == 6 {
        } else if i == 7 {
        } else if i == 8 {
        } else if i == 9 {
        } else if i == 10 {
        } else if i == 11 {
        } else if i == 12 {
        } else if i == 13 {
        } else if i == 14 {
        } else if i == 15 {
        } else if i == 16 {
        } else if i == 17 {
        } else if i == 18 {
        } else if i == 19 {
        } else if i == 20 {
        } else if i == 21 {
        } else if i == 22 {
        } else if i == 23 {
        }
    }
}

/// Lane `(x, y)` visited at step `t` of the rho walk of FIPS 202, Section
/// 3.2.2: start at `(1, 0)` and move to `(y, (2x + 3y) mod 5)`.
pub open spec fn rho_walk(t: nat) -> (int, int)
    decreases t,
{
    if t == 0 {
        (1, 0)
    } else {
        let (x, y) = rho_walk((t - 1) as nat);
        (y, (2 * x + 3 * y) % 5)
    }
}

/// The rho offset FIPS 202 assigns at step `t`: `(t + 1)(t + 2) / 2 mod 64`.
pub open spec fn rho_offset(t: int) -> int {
    ((t + 1) * (t + 2) / 2) % 64
}

/// The first 24 values of the FIPS 202 rho offset rule.
proof fn lemma_rho_offsets()
    ensures
        rho_offset(0) == 1,
        rho_offset(1) == 3,
        rho_offset(2) == 6,
        rho_offset(3) == 10,
        rho_offset(4) == 15,
        rho_offset(5) == 21,
        rho_offset(6) == 28,
        rho_offset(7) == 36,
        rho_offset(8) == 45,
        rho_offset(9) == 55,
        rho_offset(10) == 2,
        rho_offset(11) == 14,
        rho_offset(12) == 27,
        rho_offset(13) == 41,
        rho_offset(14) == 56,
        rho_offset(15) == 8,
        rho_offset(16) == 25,
        rho_offset(17) == 43,
        rho_offset(18) == 62,
        rho_offset(19) == 18,
        rho_offset(20) == 39,
        rho_offset(21) == 61,
        rho_offset(22) == 20,
        rho_offset(23) == 44,
{
    assert(2int / 2 == 1);
    assert(1int % 64 == 1);
    assert(6int / 2 == 3);
    assert(3int % 64 == 3);
    assert(12int / 2 == 6);
    assert(6int % 64 == 6);
    assert(20int / 2 == 10);
    assert(10int % 64 == 10);
    assert(30int / 2 == 15);
    assert(15int % 64 == 15);
    assert(42int / 2 == 21);
    assert(21int % 64 == 21);
    assert(56int / 2 == 28);
    assert(28int % 64 == 28);
    assert(72int / 2 == 36);
    assert(36int % 64 == 36);
    assert(90int / 2 == 45);
    assert(45int % 64 == 45);
    assert(110int / 2 == 55);
    assert(55int % 64 == 55);
    assert(132int / 2 == 66);
    assert(66int % 64 == 2);
    assert(156int / 2 == 78);
    assert(78int % 64 == 14);
    assert(182int / 2 == 91);
    assert(91int % 64 == 27);
    assert(210int / 2 == 105);
    assert(105int % 64 == 41);
    assert(240int / 2 == 120);
    assert(120int % 64 == 56);
    assert(272int / 2 == 136);
    assert(136int % 64 == 8);
    assert(306int / 2 == 153);
    assert(153int % 64 == 25);
    assert(342int / 2 == 171);
    assert(171int % 64 == 43);
    assert(380int / 2 == 190);
    assert(190int % 64 == 62);
    assert(420int / 2 == 210);
    assert(210int % 64 == 18);
    assert(462int / 2 == 231);
    assert(231int % 64 == 39);
    assert(506int / 2 == 253);
    assert(253int % 64 == 61);
    assert(552int / 2 == 276);
    assert(276int % 64 == 20);
    assert(600int / 2 == 300);
    assert(300int % 64 == 44);
}

/// The rho table follows the FIPS 202 rule: lane `(0, 0)` is not rotated,
/// and the lane reached at step `t` of the walk is rotated by
/// `(t + 1)(t + 2) / 2 mod 64`, for `t` from 0 to 23.
pub proof fn lemma_rho_table()
    ensures
        RHO@[0] == 0,
        forall|t: nat|
            t < 24 ==> #[trigger] RHO@[rho_walk(t).0 + 5 * rho_walk(t).1] as int == rho_offset(
                t as int,
            ),
{
    reveal_with_fuel(rho_walk, 25);
    lemma_rho_offsets();
    assert(rho_walk(0) == (1int, 0int));
    assert(rho_walk(1) == (0int, 2int));
    assert(rho_walk(2) == (2int, 1int));
    assert(rho_walk(3) == (1int, 2int));
    assert(rho_walk(4) == (2int, 3int));
    assert(rho_walk(5) == (3int, 3int));
    assert(rho_walk(6) == (3int, 0int));
    assert(rho_walk(7) == (0int, 1int));
    assert(rho_walk(8) == (1int, 3int));
    assert(rho_walk(9) == (3int, 1int));
    assert(rho_walk(10) == (1int, 4int));
    assert(rho_walk(11) == (4int, 4int));
    assert(rho_walk(12) == (4int, 0int));
    assert(rho_walk(13) == (0int, 3int));
    assert(rho_walk(14) == (3int, 4int));
    assert(rho_walk(15) == (4int, 3int));
    assert(rho_walk(16) == (3int, 2int));
    assert(rho_walk(17) == (2int, 2int));
    assert(rho_walk(18) == (2int, 0int));
    assert(rho_walk(19) == (0int, 4int));
    assert(rho_walk(20) == (4int, 2int));
    assert(rho_walk(21) == (2int, 4int));
    assert(rho_walk(22) == (4int, 1int));
    assert(rho_walk(23) == (1int, 1int));
    assert forall|t: nat| t < 24 implies #[trigger] RHO@[rho_walk(t).0 + 5 * rho_walk(t).1] as int
        == rho_offset(t as int) by {
        if t == 0 {
        } else if t == 1 {
        } else if t == 2 {
        } else if t == 3 {
        } else if t == 4 {
        } else if t == 5 {
        } else if t == 6 {
        } else if t == 7 {
        } else if t == 8 {
        } else if t == 9 {
        } else if t == 10 {
        } else if t == 11 {
        } else if t == 12 {
        } else if t == 13 {
        } else if t == 14 {
        } else if t == 15 {
        } else if t == 16 {
        } else if t == 17 {
        } else if t == 18 {
        } else if t == 19 {
        } else if t == 20 {
        } else if t == 21 {
        } else if t == 22 {
        } else if t == 23 {
        }
    }
}

// ---------------------------------------------------------------------
// Executable permutation
// ---------------------------------------------------------------------

/// Rotate a lane left by `n < 64` bits.
#[inline]
pub fn rotl(x: u64, n: u32) -> (r: u64)
    requires
        n < 64,
    ensures
        r == rotl_spec(x, n),
{
    if n == 0 {
        x
    } else {
        (x << n) | (x >> (64 - n))
    }
}

/// Theta, in place.
#[inline]
fn theta_step(state: &mut [u64; 25])
    ensures
        final(state)@ == theta(old(state)@),
{
    let c0 = state[0] ^ state[5] ^ state[10] ^ state[15] ^ state[20];
    let c1 = state[1] ^ state[6] ^ state[11] ^ state[16] ^ state[21];
    let c2 = state[2] ^ state[7] ^ state[12] ^ state[17] ^ state[22];
    let c3 = state[3] ^ state[8] ^ state[13] ^ state[18] ^ state[23];
    let c4 = state[4] ^ state[9] ^ state[14] ^ state[19] ^ state[24];

    let d0 = c4 ^ rotl(c1, 1);
    let d1 = c0 ^ rotl(c2, 1);
    let d2 = c1 ^ rotl(c3, 1);
    let d3 = c2 ^ rotl(c4, 1);
    let d4 = c3 ^ rotl(c0, 1);

    let ghost a = state@;
    reveal(theta);
    assert(d0 == theta_effect(a, 0));
    assert(d1 == theta_effect(a, 1));
    assert(d2 == theta_effect(a, 2));
    assert(d3 == theta_effect(a, 3));
    assert(d4 == theta_effect(a, 4));

    state[0] ^= d0;
    state[5] ^= d0;
    state[10] ^= d0;
    state[15] ^= d0;
    state[20] ^= d0;
    state[1] ^= d1;
    state[6] ^= d1;
    state[11] ^= d1;
    state[16] ^= d1;
    state[21] ^= d1;
    state[2] ^= d2;
    state[7] ^= d2;
    state[12] ^= d2;
    state[17] ^= d2;
    state[22] ^= d2;
    state[3] ^= d3;
    state[8] ^= d3;
    state[13] ^= d3;
    state[18] ^= d3;
    state[23] ^= d3;
    state[4] ^= d4;
    state[9] ^= d4;
    state[14] ^= d4;
    state[19] ^= d4;
    state[24] ^= d4;

    assert(state@ =~= theta(a));
}

/// Rho and pi fused: `b[i]` is lane `PI[i]` rotated by its rho offset.
#[inline]
fn rho_pi_step(state: &[u64; 25]) -> (b: [u64; 25])
    ensures
        b@ == pi(rho(state@)),
{
    proof {
        lemma_pi_table();
    }
    let mut b = [0u64; 25];
    for i in 0..25
        invariant
            forall|j: int| 0 <= j < i ==> b@[j] == #[trigger] pi(rho(state@))[j],
    {
        reveal(pi);
        reveal(rho);
        let src = PI[i];
        b[i] = rotl(state[src], RHO[src]);
    }
    reveal(pi);
    reveal(rho);
    assert(b@ =~= pi(rho(state@)));
    b
}

/// Chi from the rho-pi output `b` into `state`.
#[inline]
fn chi_step(b: &[u64; 25], state: &mut [u64; 25])
    ensures
        final(state)@ == chi(b@),
{
    for y in 0..5
        invariant
            forall|j: int| 0 <= j < 5 * y ==> state@[j] == #[trigger] chi(b@)[j],
    {
        reveal(chi);
        let base = 5 * y;
        state[base] = b[base] ^ ((!b[base + 1]) & b[base + 2]);
        state[base + 1] = b[base + 1] ^ ((!b[base + 2]) & b[base + 3]);
        state[base + 2] = b[base + 2] ^ ((!b[base + 3]) & b[base + 4]);
        state[base + 3] = b[base + 3] ^ ((!b[base + 4]) & b[base]);
        state[base + 4] = b[base + 4] ^ ((!b[base]) & b[base + 1]);
        assert forall|j: int| 5 * y <= j < 5 * y + 5 implies state@[j] == #[trigger] chi(b@)[j] by {
            assert(j / 5 == y);
        }
    }
    reveal(chi);
    assert(state@ =~= chi(b@));
}

/// Apply the full Keccak-f[1600] permutation in place.
pub fn keccak_f1600(state: &mut [u64; 25])
    ensures
        final(state)@ == keccak_f(old(state)@),
{
    let ghost start = state@;
    for round in 0..KECCAK_ROUNDS
        invariant
            state@ == keccak_rounds(start, round as nat),
    {
        let ghost prev = state@;
        theta_step(state);
        let b = rho_pi_step(state);
        chi_step(&b, state);
        let ghost mixed = state@;
        state[0] ^= RC[round];
        assert(state@ =~= iota(mixed, RC@[round as int]));
    }
}

} // verus!
