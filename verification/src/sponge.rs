//! The SHA3-512 sponge as mathematics (FIPS 202, Sections 4, 5.1 and 6.1).
//!
//! A message is padded with the SHA3 domain byte `0x06` and the `pad10*1`
//! rule to a whole number of 72-byte blocks; each block is XORed, as nine
//! little-endian 64-bit words, into the first nine lanes of the state,
//! followed by Keccak-f[1600]; the digest is the first 64 bytes of the
//! final state, lanes in order, each lane little-endian.
use vstd::prelude::*;

use crate::keccak::keccak_f;

verus! {

/// SHA3-512 rate in bytes: r = (1600 - 2 * 512) / 8 = 72.
pub const SHA3_512_RATE: usize = 72;

/// SHA3 domain separation byte (FIPS 202, Section 6.1).
pub const SHA3_DOMAIN_BYTE: u8 = 0x06;

/// The all-zero initial state.
pub open spec fn zero_lanes() -> Seq<u64> {
    Seq::new(25, |i: int| 0u64)
}

/// The little-endian 64-bit word formed by bytes `off .. off + 8` of `s`.
pub open spec fn le_word(s: Seq<u8>, off: int) -> u64 {
    (s[off] as u64) | ((s[off + 1] as u64) << 8u64) | ((s[off + 2] as u64) << 16u64) | ((s[off
        + 3] as u64) << 24u64) | ((s[off + 4] as u64) << 32u64) | ((s[off + 5] as u64) << 40u64)
        | ((s[off + 6] as u64) << 48u64) | ((s[off + 7] as u64) << 56u64)
}

/// XOR of a 72-byte block, as nine little-endian words, into the first nine lanes.
pub open spec fn xor_block(lanes: Seq<u64>, block: Seq<u8>) -> Seq<u64> {
    Seq::new(25, |i: int| if i < 9 { lanes[i] ^ le_word(block, 8 * i) } else { lanes[i] })
}

/// Block number `j` of a byte stream.
pub open spec fn block_of(s: Seq<u8>, j: int) -> Seq<u8> {
    s.subrange(72 * j, 72 * j + 72)
}

/// The state after absorbing the first `n` blocks of `s` into `lanes`.
pub open spec fn absorb_from(lanes: Seq<u64>, s: Seq<u8>, n: nat) -> Seq<u64>
    decreases n,
{
    if n == 0 {
        lanes
    } else {
        keccak_f(xor_block(absorb_from(lanes, s, (n - 1) as nat), block_of(s, n - 1)))
    }
}

/// The state after absorbing the first `n` blocks of `s` into the zero state.
pub open spec fn absorb(s: Seq<u8>, n: nat) -> Seq<u64> {
    absorb_from(zero_lanes(), s, n)
}

/// Number of bytes of `s` that lie in whole blocks.
pub open spec fn full_len(s: Seq<u8>) -> int {
    72 * (s.len() / 72) as int
}

/// The bytes of `s` after its last whole block (fewer than 72).
pub open spec fn tail(s: Seq<u8>) -> Seq<u8> {
    s.skip(full_len(s))
}

/// The last block of the padded message, made from the trailing
/// `t.len() < 72` message bytes: the domain byte `0x06` right after them,
/// zeros, and the final `pad10*1` bit `0x80` in the last byte (the two
/// coincide as `0x86` when 71 bytes remain).
pub open spec fn pad_block(t: Seq<u8>) -> Seq<u8> {
    Seq::new(
        72,
        |i: int|
            if i < t.len() {
                t[i]
            } else if i == 71 {
                if t.len() == 71 {
                    0x86u8
                } else {
                    0x80u8
                }
            } else if i == t.len() {
                0x06u8
            } else {
                0u8
            },
    )
}

/// The SHA3-512 padding of a message: its whole blocks, then the padded last block.
pub open spec fn padded(m: Seq<u8>) -> Seq<u8> {
    m.take(full_len(m)) + pad_block(tail(m))
}

/// The 64 digest bytes read out of the first eight lanes, each little-endian.
pub open spec fn squeeze(lanes: Seq<u64>) -> Seq<u8> {
    Seq::new(64, |k: int| (lanes[k / 8] >> ((8 * (k % 8)) as u64)) as u8)
}

/// SHA3-512 of a message (FIPS 202, Section 6.1).
pub open spec fn sha3_512(m: Seq<u8>) -> Seq<u8> {
    squeeze(absorb(padded(m), (m.len() / 72 + 1) as nat))
}

/// The byte stream a sponge stands for once it has been finalized: the
/// padded message, followed again by its trailing partial block, which
/// stays in the buffer.
pub open spec fn finalized_stream(m: Seq<u8>) -> Seq<u8> {
    padded(m) + tail(m)
}

// ---------------------------------------------------------------------
// Lemmas
// ---------------------------------------------------------------------

/// Absorbing `n` blocks reads only the first `72 * n` bytes.
pub proof fn lemma_absorb_from_prefix(lanes: Seq<u64>, s: Seq<u8>, t: Seq<u8>, n: nat)
    requires
        72 * n <= s.len(),
        72 * n <= t.len(),
        s.take((72 * n) as int) == t.take((72 * n) as int),
    ensures
        absorb_from(lanes, s, n) == absorb_from(lanes, t, n),
    decreases n,
{
    if n > 0 {
        let m = (n - 1) as nat;
        assert(s.take((72 * m) as int) =~= s.take((72 * n) as int).take((72 * m) as int));
        assert(t.take((72 * m) as int) =~= t.take((72 * n) as int).take((72 * m) as int));
        lemma_absorb_from_prefix(lanes, s, t, m);
        assert(block_of(s, m as int) =~= s.take((72 * n) as int).subrange((72 * m) as int, (72 * n) as int));
        assert(block_of(t, m as int) =~= t.take((72 * n) as int).subrange((72 * m) as int, (72 * n) as int));
    }
}

/// Absorbing `n` blocks from the zero state reads only the first `72 * n` bytes.
pub proof fn lemma_absorb_prefix(s: Seq<u8>, t: Seq<u8>, n: nat)
    requires
        72 * n <= s.len(),
        72 * n <= t.len(),
        s.take((72 * n) as int) == t.take((72 * n) as int),
    ensures
        absorb(s, n) == absorb(t, n),
{
    lemma_absorb_from_prefix(zero_lanes(), s, t, n);
}

/// Appending bytes never changes the absorption of blocks already complete.
pub proof fn lemma_absorb_from_append(lanes: Seq<u64>, s: Seq<u8>, extra: Seq<u8>, n: nat)
    requires
        72 * n <= s.len(),
    ensures
        absorb_from(lanes, s + extra, n) == absorb_from(lanes, s, n),
{
    assert((s + extra).take((72 * n) as int) =~= s.take((72 * n) as int));
    lemma_absorb_from_prefix(lanes, s + extra, s, n);
}

/// Appending bytes never changes the absorption of blocks already complete.
pub proof fn lemma_absorb_append(s: Seq<u8>, extra: Seq<u8>, n: nat)
    requires
        72 * n <= s.len(),
    ensures
        absorb(s + extra, n) == absorb(s, n),
{
    lemma_absorb_from_append(zero_lanes(), s, extra, n);
}

/// Absorbing whole blocks `pre` and then `k` blocks of `u` is absorbing
/// `n + k` blocks of `pre + u`.
pub proof fn lemma_absorb_shift(lanes: Seq<u64>, pre: Seq<u8>, u: Seq<u8>, n: nat, k: nat)
    requires
        pre.len() == 72 * n,
        72 * k <= u.len(),
    ensures
        absorb_from(lanes, pre + u, n + k) == absorb_from(absorb_from(lanes, pre, n), u, k),
    decreases k,
{
    if k == 0 {
        lemma_absorb_from_append(lanes, pre, u, n);
    } else {
        let j = (k - 1) as nat;
        lemma_absorb_shift(lanes, pre, u, n, j);
        assert(block_of(pre + u, (n + j) as int) =~= block_of(u, j as int));
        assert((n + k - 1) as nat == n + j);
    }
}

/// The whole-block length and the trailing partial block of `72 * n + r` bytes.
proof fn lemma_block_split(n: nat, r: nat)
    ensures
        (72 * n + r) / 72 == n + r / 72,
        (72 * n + r) % 72 == r % 72,
{
    assert((72 * n + r) / 72 == n + r / 72 && (72 * n + r) % 72 == r % 72) by (nonlinear_arith);
}

/// Absorbing `s + d` into `lanes` goes on from the state after the whole
/// blocks of `s`, with the trailing bytes of `s` followed by `d`.
pub proof fn lemma_absorb_continue(lanes: Seq<u64>, s: Seq<u8>, d: Seq<u8>)
    ensures
        ({
            let u = tail(s) + d;
            &&& (s + d).len() % 72 == u.len() % 72
            &&& tail(s + d) == tail(u)
            &&& absorb_from(lanes, s + d, (s + d).len() / 72) == absorb_from(
                absorb_from(lanes, s, s.len() / 72),
                u,
                u.len() / 72,
            )
        }),
{
    let n = s.len() / 72;
    let pre = s.take((72 * n) as int);
    let u = tail(s) + d;
    let k = u.len() / 72;
    assert(s + d =~= pre + u);
    lemma_block_split(n, u.len());
    assert((s + d).len() == 72 * n + u.len());
    assert(72 * k <= u.len()) by (nonlinear_arith)
        requires
            k == u.len() / 72,
    ;
    lemma_absorb_shift(lanes, pre, u, n, k);
    assert(s =~= pre + tail(s));
    lemma_absorb_from_append(lanes, pre, tail(s), n);
    assert(tail(s + d) =~= tail(u));
}

/// The padding of a message is a whole number of blocks, one more than the
/// whole blocks of the message, and starts with the message itself.
pub proof fn lemma_padded_shape(m: Seq<u8>)
    ensures
        padded(m).len() == 72 * (m.len() / 72 + 1),
        padded(m).len() > m.len(),
        padded(m).take(m.len() as int) == m,
        padded(m)[m.len() as int] == if m.len() % 72 == 71 {
            0x86u8
        } else {
            0x06u8
        },
        padded(m)[padded(m).len() - 1] & 0x80u8 == 0x80u8,
{
    let f = full_len(m);
    assert(tail(m).len() == m.len() % 72);
    assert(padded(m).take(m.len() as int) =~= m);
    let last = padded(m)[padded(m).len() - 1];
    assert(last == 0x86u8 || last == 0x80u8);
    assert(0x86u8 & 0x80u8 == 0x80u8) by (bit_vector);
    assert(0x80u8 & 0x80u8 == 0x80u8) by (bit_vector);
}

/// SHA3-512 absorbs exactly the blocks of the padded message.
pub proof fn lemma_finalized_absorb(m: Seq<u8>)
    ensures
        finalized_stream(m).len() / 72 == m.len() / 72 + 1,
        finalized_stream(m).len() % 72 == m.len() % 72,
        absorb(finalized_stream(m), (m.len() / 72 + 1) as nat) == absorb(
            padded(m),
            (m.len() / 72 + 1) as nat,
        ),
        tail(finalized_stream(m)) == tail(m),
{
    lemma_padded_shape(m);
    let n = (m.len() / 72 + 1) as nat;
    lemma_absorb_append(padded(m), tail(m), n);
    assert(tail(finalized_stream(m)) =~= tail(m));
}

/// The last block of SHA3-512: the padded trailing bytes of `m`, absorbed
/// after the whole blocks of `m`.
pub proof fn lemma_padded_last_block(m: Seq<u8>)
    ensures
        absorb(padded(m), (m.len() / 72 + 1) as nat) == keccak_f(
            xor_block(absorb(m, (m.len() / 72) as nat), pad_block(tail(m))),
        ),
{
    let n = (m.len() / 72) as nat;
    let pm = padded(m);
    lemma_padded_shape(m);
    assert(pm.take((72 * n) as int) =~= m.take((72 * n) as int));
    lemma_absorb_prefix(pm, m, n);
    assert(block_of(pm, n as int) =~= pad_block(tail(m)));
    assert((n + 1 - 1) as nat == n);
}

} // verus!
