use vstd::prelude::*;
use vstd::slice::slice_subrange;

pub mod cpu;
pub mod bijection;
pub mod ct;
pub mod hex;
pub mod io;
pub mod keccak;
pub mod simd_avx512;
pub mod simd_parallel;
pub mod sponge;

pub use hex::Sha3Digest;

use crate::cpu::CpuidProbe;
use crate::keccak::{keccak_f, keccak_f1600};
use crate::simd_avx512::keccak_f1600_dispatch;
use crate::sponge::{
    absorb, absorb_from, block_of, finalized_stream, lemma_absorb_continue,
    lemma_absorb_from_append, lemma_finalized_absorb, lemma_padded_last_block, lemma_padded_shape,
    le_word, pad_block, padded, sha3_512, squeeze, tail, xor_block, zero_lanes, SHA3_512_RATE,
    SHA3_DOMAIN_BYTE,
};

verus! {

/// One Keccak-f[1600] permutation of the sponge state: in the row-vector
/// layout when `use_avx512` is set, scalar otherwise.  Both compute the
/// same permutation, so the result does not depend on the flag.
#[inline]
fn permute(state: &mut [u64; 25], use_avx512: bool)
    ensures
        final(state)@ == keccak_f(old(state)@),
{
    keccak_f1600_dispatch(state, use_avx512);
}

/// Hash result type: 64 bytes (512 bits).
pub type Sha3_512Hash = [u8; 64];

/// SHA3-512 sponge state.
#[derive(Debug, Clone, Copy)]
pub struct Sha3_512State {
    /// Keccak state: 5x5 matrix of 64-bit lanes (1600 bits)
    pub state: [u64; 25],
    /// Current position in the absorb buffer (0..rate)
    pub pos: usize,
    /// Rate in bytes (72 for SHA3-512)
    pub rate: usize,
    /// Absorb buffer: accumulates input until a full rate-block is ready
    pub buffer: [u8; 200],
}

/// The little-endian word at `off .. off + 8` of `b`.
#[inline]
fn load_word(b: &[u8], off: usize) -> (w: u64)
    requires
        off + 8 <= b@.len(),
    ensures
        w == le_word(b@, off as int),
{
    (b[off] as u64) | ((b[off + 1] as u64) << 8u64) | ((b[off + 2] as u64) << 16u64) | ((b[off
        + 3] as u64) << 24u64) | ((b[off + 4] as u64) << 32u64) | ((b[off + 5] as u64) << 40u64)
        | ((b[off + 6] as u64) << 48u64) | ((b[off + 7] as u64) << 56u64)
}

/// XOR the first 72 bytes of `block`, as nine little-endian words, into
/// the first nine lanes of `state`.
fn xor_block_into(state: &mut [u64; 25], block: &[u8])
    requires
        block@.len() >= SHA3_512_RATE,
    ensures
        final(state)@ == xor_block(old(state)@, block@),
{
    let words = SHA3_512_RATE / 8;
    for i in 0..words
        invariant
            words == 9,
            block@.len() >= 72,
            forall|j: int|
                0 <= j < 25 ==> #[trigger] state@[j] == if j < i {
                    old(state)@[j] ^ le_word(block@, 8 * j)
                } else {
                    old(state)@[j]
                },
    {
        let word = load_word(block, i * 8);
        state[i] = state[i] ^ word;
    }
    assert(state@ =~= xor_block(old(state)@, block@));
}

/// The digest: the first eight lanes, each written out little-endian.
fn squeeze_lanes(state: &[u64; 25]) -> (hash: Sha3_512Hash)
    ensures
        hash@ == squeeze(state@),
{
    let mut hash = [0u8; 64];
    for i in 0..8
        invariant
            forall|k: int| 0 <= k < 8 * i ==> hash@[k] == #[trigger] squeeze(state@)[k],
    {
        let lane = state[i];
        for j in 0..8
            invariant
                0 <= i < 8,
                lane == state@[i as int],
                forall|k: int| 0 <= k < 8 * i + j ==> hash@[k] == #[trigger] squeeze(state@)[k],
        {
            let shift: u64 = 8 * j as u64;
            hash[8 * i + j] = (lane >> shift) as u8;
            assert(((8 * i + j) as int) / 8 == i && ((8 * i + j) as int) % 8 == j);
        }
    }
    assert(hash@ =~= squeeze(state@));
    hash
}

impl Sha3_512State {
    /// This sponge stands for having absorbed the byte stream `stream`
    /// into the lanes `lanes0`: its lanes hold the whole blocks of `stream`
    /// absorbed into `lanes0`, and its buffer holds the trailing partial block.
    pub open spec fn models_from(&self, lanes0: Seq<u64>, stream: Seq<u8>) -> bool {
        &&& self.rate == 72
        &&& self.pos == stream.len() % 72
        &&& self.state@ == absorb_from(lanes0, stream, (stream.len() / 72) as nat)
        &&& self.buffer@.take(self.pos as int) == tail(stream)
    }

    /// This sponge stands for having absorbed the byte stream `stream`
    /// from the initial all-zero state.
    pub open spec fn models(&self, stream: Seq<u8>) -> bool {
        self.models_from(zero_lanes(), stream)
    }

    /// The bytes waiting in the buffer, before the next whole block.
    pub open spec fn pending(&self) -> Seq<u8> {
        self.buffer@.take(self.pos as int)
    }

    /// Create a new SHA3-512 sponge state (all-zero per FIPS 202 Section 4).
    pub fn new() -> (s: Self)
        ensures
            s.state@ == zero_lanes(),
            s.pos == 0,
            s.rate == SHA3_512_RATE,
            s.buffer@ == Seq::new(200, |i: int| 0u8),
            s.models(Seq::empty()),
    {
        let s = Sha3_512State { state: [0u64; 25], pos: 0, rate: SHA3_512_RATE, buffer: [0u8; 200] };
        assert(s.state@ =~= zero_lanes());
        assert(s.buffer@ =~= Seq::new(200, |i: int| 0u8));
        assert(s.buffer@.take(0) =~= tail(Seq::<u8>::empty()));
        s
    }

    /// Reset the sponge to the initial all-zero state.
    pub fn reset(&mut self)
        ensures
            final(self).state@ == zero_lanes(),
            final(self).pos == 0,
            final(self).rate == SHA3_512_RATE,
            final(self).buffer@ == Seq::new(200, |i: int| 0u8),
            final(self).models(Seq::empty()),
    {
        self.state = [0u64; 25];
        self.pos = 0;
        self.rate = SHA3_512_RATE;
        self.buffer = [0u8; 200];
        assert(self.state@ =~= zero_lanes());
        assert(self.buffer@ =~= Seq::new(200, |i: int| 0u8));
        assert(self.buffer@.take(0) =~= tail(Seq::<u8>::empty()));
    }

    /// Absorb arbitrary-length input into the sponge: input is buffered
    /// until a full rate-block is accumulated, then XORed into the state
    /// and followed by a Keccak-f[1600] permutation.
    ///
    /// With `m` the pending bytes followed by `data`, the lanes end up with
    /// the whole blocks of `m` absorbed into them, and the buffer starts
    /// with the trailing partial block of `m`.  While no block is completed
    /// the lanes stay as they are and `data` is only copied into the buffer
    /// after the pending bytes; in particular an empty `data` changes nothing.
    fn absorb(&mut self, data: &[u8], use_avx512: bool)
        requires
            old(self).rate == 72,
            old(self).pos < 72,
        ensures
            final(self).models_from(old(self).state@, old(self).pending() + data@),
            old(self).pos + data@.len() < 72 ==> {
                &&& final(self).state@ == old(self).state@
                &&& forall|j: int|
                    0 <= j < 200 ==> #[trigger] final(self).buffer@[j] == if old(self).pos <= j
                        < old(self).pos + data@.len() {
                        data@[j - old(self).pos]
                    } else {
                        old(self).buffer@[j]
                    }
            },
    {
        let ghost lanes0 = self.state@;
        let ghost pending = self.pending();
        let ghost p0 = self.pos;
        proof {
            assert(tail(pending) =~= pending);
        }
        let mut offset: usize = 0;
        // If we have buffered data, fill the buffer first.
        if self.pos > 0 {
            offset = self.fill_buffer(data, use_avx512, Ghost(lanes0), Ghost(pending));
        } else {
            assert(pending + data@.take(0) =~= pending);
        }
        // Process full rate-blocks directly from the input.
        offset = self.absorb_whole_blocks(data, offset, use_avx512, Ghost(lanes0), Ghost(pending));
        // Buffer any remaining bytes.
        self.buffer_tail(data, offset, Ghost(lanes0), Ghost(pending));
    }

    /// Top up a partly filled buffer from the front of `data`, permuting
    /// when the buffer becomes a full block; returns how many bytes were taken.
    fn fill_buffer(
        &mut self,
        data: &[u8],
        use_avx512: bool,
        Ghost(lanes0): Ghost<Seq<u64>>,
        Ghost(stream): Ghost<Seq<u8>>,
    ) -> (taken: usize)
        requires
            old(self).models_from(lanes0, stream),
            old(self).pos > 0,
        ensures
            taken <= data@.len(),
            final(self).models_from(lanes0, stream + data@.take(taken as int)),
            final(self).pos == 0 || taken == data@.len(),
            old(self).pos + data@.len() < 72 ==> {
                &&& taken == data@.len()
                &&& final(self).state@ == old(self).state@
                &&& forall|j: int|
                    0 <= j < 200 ==> #[trigger] final(self).buffer@[j] == if old(self).pos <= j
                        < old(self).pos + data@.len() {
                        data@[j - old(self).pos]
                    } else {
                        old(self).buffer@[j]
                    }
            },
    {
        let len = data.len();
        let ghost n0 = (stream.len() / 72) as nat;
        let remaining = self.rate - self.pos;
        let to_copy = if remaining < len {
            remaining
        } else {
            len
        };
        let start = self.pos;
        for k in 0..to_copy
            invariant
                start + to_copy <= 72,
                to_copy <= data@.len(),
                self.rate == 72,
                self.pos == start,
                self.state@ == old(self).state@,
                forall|j: int|
                    0 <= j < 200 && !(start <= j < start + k) ==> self.buffer@[j] == old(
                        self,
                    ).buffer@[j],
                forall|j: int| start <= j < start + k ==> #[trigger] self.buffer@[j] == data@[j - start],
        {
            self.buffer[start + k] = data[k];
        }
        self.pos = start + to_copy;
        let ghost s1 = stream + data@.take(to_copy as int);
        assert(self.buffer@.take(self.pos as int) =~= tail(stream) + data@.take(to_copy as int));
        proof {
            lemma_absorb_from_append(lanes0, stream, data@.take(to_copy as int), n0);
        }
        if self.pos == self.rate {
            assert(block_of(s1, n0 as int) =~= self.buffer@.take(72));
            assert(xor_block(self.state@, self.buffer@) =~= xor_block(
                self.state@,
                self.buffer@.take(72),
            ));
            xor_block_into(&mut self.state, &self.buffer);
            permute(&mut self.state, use_avx512);
            self.pos = 0;
            assert(self.buffer@.take(0) =~= tail(s1));
        } else {
            assert(tail(s1) =~= tail(stream) + data@.take(to_copy as int));
        }
        to_copy
    }

    /// Absorb the whole blocks of `data` from `offset` on, straight from the input.
    fn absorb_whole_blocks(
        &mut self,
        data: &[u8],
        start: usize,
        use_avx512: bool,
        Ghost(lanes0): Ghost<Seq<u64>>,
        Ghost(stream): Ghost<Seq<u8>>,
    ) -> (end: usize)
        requires
            start <= data@.len(),
            old(self).models_from(lanes0, stream + data@.take(start as int)),
            old(self).pos == 0 || start == data@.len(),
        ensures
            start <= end <= data@.len(),
            data@.len() - end < 72,
            final(self).models_from(lanes0, stream + data@.take(end as int)),
            final(self).pos == 0 || end == data@.len(),
            final(self).buffer@ == old(self).buffer@,
            data@.len() - start < 72 ==> end == start && final(self).state@ == old(self).state@
                && final(self).pos == old(self).pos,
    {
        let len = data.len();
        let mut offset = start;
        while len - offset >= self.rate
            invariant
                len == data@.len(),
                start <= offset <= len,
                self.models_from(lanes0, stream + data@.take(offset as int)),
                self.pos == 0 || offset == len,
                self.buffer@ == old(self).buffer@,
                len - start < 72 ==> offset == start && self.state@ == old(self).state@
                    && self.pos == old(self).pos,
            decreases len - offset,
        {
            let ghost s = stream + data@.take(offset as int);
            let ghost n = (s.len() / 72) as nat;
            let block = slice_subrange(data, offset, offset + self.rate);
            xor_block_into(&mut self.state, block);
            permute(&mut self.state, use_avx512);
            offset = offset + self.rate;
            proof {
                let s2 = stream + data@.take(offset as int);
                assert(s2 =~= s + block@);
                lemma_absorb_from_append(lanes0, s, block@, n);
                assert(block_of(s2, n as int) =~= block@);
                assert(s2.len() / 72 == n + 1);
                assert(tail(s2) =~= Seq::<u8>::empty());
                assert(self.buffer@.take(0) =~= tail(s2));
            }
        }
        offset
    }

    /// Keep the final partial block of `data`, from `offset` on, in the buffer.
    fn buffer_tail(
        &mut self,
        data: &[u8],
        offset: usize,
        Ghost(lanes0): Ghost<Seq<u64>>,
        Ghost(stream): Ghost<Seq<u8>>,
    )
        requires
            offset <= data@.len(),
            data@.len() - offset < 72,
            old(self).models_from(lanes0, stream + data@.take(offset as int)),
            old(self).pos == 0 || offset == data@.len(),
        ensures
            final(self).models_from(lanes0, stream + data@),
            final(self).state@ == old(self).state@,
            forall|j: int|
                0 <= j < 200 ==> #[trigger] final(self).buffer@[j] == if j < data@.len() - offset {
                    data@[offset + j]
                } else {
                    old(self).buffer@[j]
                },
    {
        let len = data.len();
        let tail_len = len - offset;
        let ghost s = stream + data@.take(offset as int);
        if tail_len > 0 {
            for k in 0..tail_len
                invariant
                    tail_len == len - offset,
                    len == data@.len(),
                    tail_len < 72,
                    self.state@ == old(self).state@,
                    self.rate == old(self).rate,
                    forall|j: int| 0 <= j < k ==> #[trigger] self.buffer@[j] == data@[offset + j],
                    forall|j: int| k <= j < 200 ==> #[trigger] self.buffer@[j] == old(self).buffer@[j],
            {
                self.buffer[k] = data[offset + k];
            }
            self.pos = tail_len;
            proof {
                let s3 = stream + data@;
                assert(s3 =~= s + data@.skip(offset as int));
                lemma_absorb_from_append(lanes0, s, data@.skip(offset as int), (s.len() / 72) as nat);
                assert(s3.len() / 72 == s.len() / 72);
                assert(tail(s3) =~= data@.skip(offset as int));
                assert(self.buffer@.take(self.pos as int) =~= tail(s3));
            }
        } else {
            assert(data@.take(offset as int) =~= data@);
        }
    }

    /// Apply the SHA3 padding (FIPS 202 Section 6.1), absorb the final
    /// block and squeeze the digest:
    ///   1. append the domain separation byte `0x06` after the pending bytes,
    ///   2. pad with zeros,
    ///   3. set the high bit of the last byte of the block (`0x80`),
    ///   4. XOR the padded block into the state and apply Keccak-f[1600],
    ///   5. read out 64 bytes, lanes in order, each little-endian.
    /// The padded block is left in the first 72 bytes of the buffer.
    fn finalize(&mut self, use_avx512: bool) -> (hash: Sha3_512Hash)
        requires
            old(self).rate == 72,
            old(self).pos < 72,
        ensures
            final(self).state@ == keccak_f(xor_block(old(self).state@, pad_block(old(self).pending()))),
            hash@ == squeeze(final(self).state@),
            final(self).rate == 72,
            final(self).pos == old(self).pos,
            final(self).buffer@ == pad_block(old(self).pending()) + old(self).buffer@.skip(72),
    {
        let p = self.pos;
        let rate = self.rate;
        // Clear the buffer beyond the current position.
        for i in p..rate
            invariant
                rate == 72,
                self.rate == 72,
                self.pos == p,
                p < 72,
                self.state@ == old(self).state@,
                forall|j: int| 0 <= j < p ==> self.buffer@[j] == old(self).buffer@[j],
                forall|j: int| 72 <= j < 200 ==> self.buffer@[j] == old(self).buffer@[j],
                forall|j: int| p <= j < i ==> #[trigger] self.buffer@[j] == 0u8,
        {
            self.buffer[i] = 0;
        }
        // Domain separation byte.
        self.buffer[p] = SHA3_DOMAIN_BYTE;
        // pad10*1: set the high bit of the last byte in the rate block.
        let last = self.buffer[self.rate - 1];
        assert(0x06u8 | 0x80u8 == 0x86u8) by (bit_vector);
        assert(0x00u8 | 0x80u8 == 0x80u8) by (bit_vector);
        self.buffer[self.rate - 1] = last | 0x80;
        let ghost t = old(self).pending();
        proof {
            assert(self.buffer@.take(72) =~= pad_block(t));
            assert(self.buffer@ =~= pad_block(t) + old(self).buffer@.skip(72));
            assert(xor_block(self.state@, self.buffer@) =~= xor_block(self.state@, pad_block(t)));
        }
        xor_block_into(&mut self.state, &self.buffer);
        permute(&mut self.state, use_avx512);
        squeeze_lanes(&self.state)
    }
}

/// Absorbing into a sponge that stands for `stream` gives one that stands
/// for `stream` followed by the new data.
proof fn lemma_absorb_models(before: Sha3_512State, after: Sha3_512State, stream: Seq<u8>, data: Seq<u8>)
    requires
        before.models(stream),
        after.models_from(before.state@, before.pending() + data),
    ensures
        after.models(stream + data),
{
    lemma_absorb_continue(zero_lanes(), stream, data);
}

/// Finalizing a sponge that stands for `stream` yields SHA3-512 of `stream`,
/// and leaves a sponge that stands for the finalized stream.
proof fn lemma_finalize_models(before: Sha3_512State, after: Sha3_512State, stream: Seq<u8>)
    requires
        before.models(stream),
        after.state@ == keccak_f(xor_block(before.state@, pad_block(before.pending()))),
        after.rate == 72,
        after.pos == before.pos,
        after.buffer@ == pad_block(before.pending()) + before.buffer@.skip(72),
    ensures
        after.models(finalized_stream(stream)),
        squeeze(after.state@) == sha3_512(stream),
{
    lemma_padded_last_block(stream);
    lemma_finalized_absorb(stream);
    assert(after.buffer@.take(after.pos as int) =~= before.pending());
}

/// SIMD feature detection results, decoded from the CPUID instruction.
///
/// AVX2 and AVX-512 count only where the operating system has turned XSAVE
/// on; which register state it saves (XCR0) is not read, so on a system that
/// does not save AVX or AVX-512 state they may be reported although they
/// cannot be used there.  No digest depends on these flags.
#[derive(Debug, Clone, Copy)]
pub struct SimdFeatures {
    pub avx512_available: bool,
    pub avx2_available: bool,
    pub sse42_available: bool,
    pub bmi2_available: bool,
}

/// Performance configuration for the hasher.
///
/// `use_avx512` and `use_avx2` select how permutations are scheduled;
/// every choice computes the same digests.  `prefetch_data`,
/// `parallel_chunks` and `chunk_size` are reserved and read by nothing.
#[derive(Debug, Clone, Copy)]
pub struct PerformanceConfig {
    /// Vectorised permutation, and eight-message batches in `hash_many`.
    pub use_avx512: bool,
    /// Four-message batches in `hash_many`.
    pub use_avx2: bool,
    /// Reserved.
    pub prefetch_data: bool,
    /// Reserved.
    pub parallel_chunks: bool,
    /// Reserved.
    pub chunk_size: usize,
}

impl PerformanceConfig {
    /// The default configuration: AVX-512 off (not a measured win), the rest on.
    pub open spec fn is_default(&self) -> bool {
        &&& !self.use_avx512
        &&& self.use_avx2
        &&& self.prefetch_data
        &&& self.parallel_chunks
        &&& self.chunk_size == 1024
    }
}

impl Default for PerformanceConfig {
    fn default() -> (c: Self)
        ensures
            c.is_default(),
    {
        PerformanceConfig {
            use_avx512: false,
            use_avx2: true,
            prefetch_data: true,
            parallel_chunks: true,
            chunk_size: 1024,
        }
    }
}

impl Default for Sha3_512State {
    fn default() -> (s: Self)
        ensures
            s.state@ == zero_lanes(),
            s.pos == 0,
            s.rate == SHA3_512_RATE,
            s.buffer@ == Seq::new(200, |i: int| 0u8),
            s.models(Seq::empty()),
    {
        Sha3_512State::new()
    }
}

/// A field of a serialised sponge state with the wrong number of elements.
#[derive(Debug, Clone, Copy, PartialEq, Eq)]
pub enum StateFieldError {
    /// The lane list does not hold 25 lanes; the length found.
    Lanes(usize),
    /// The buffer does not hold 200 bytes; the length found.
    Buffer(usize),
}

impl Sha3_512State {
    /// Rebuild a sponge state from its fields, as stored when it was
    /// serialised: the lanes must number 25 and the buffer 200 bytes (the
    /// lanes are checked first).
    pub fn from_parts(lanes: &[u64], pos: usize, rate: usize, buffer: &[u8]) -> (r: Result<
        Sha3_512State,
        StateFieldError,
    >)
        ensures
            lanes@.len() != 25 ==> r == Err::<Sha3_512State, StateFieldError>(
                StateFieldError::Lanes(lanes@.len() as usize),
            ),
            lanes@.len() == 25 && buffer@.len() != 200 ==> r == Err::<
                Sha3_512State,
                StateFieldError,
            >(StateFieldError::Buffer(buffer@.len() as usize)),
            r matches Ok(st) ==> {
                &&& lanes@.len() == 25 && buffer@.len() == 200
                &&& st.state@ == lanes@
                &&& st.pos == pos
                &&& st.rate == rate
                &&& st.buffer@ == buffer@
            },
            lanes@.len() == 25 && buffer@.len() == 200 ==> r is Ok,
    {
        if lanes.len() != 25 {
            return Err(StateFieldError::Lanes(lanes.len()));
        }
        if buffer.len() != 200 {
            return Err(StateFieldError::Buffer(buffer.len()));
        }
        let mut state = [0u64; 25];
        for i in 0..25
            invariant
                lanes@.len() == 25,
                forall|j: int| 0 <= j < i ==> state@[j] == lanes@[j],
        {
            state[i] = lanes[i];
        }
        let mut buf = [0u8; 200];
        for i in 0..200
            invariant
                buffer@.len() == 200,
                forall|j: int| 0 <= j < i ==> buf@[j] == buffer@[j],
        {
            buf[i] = buffer[i];
        }
        assert(state@ =~= lanes@);
        assert(buf@ =~= buffer@);
        Ok(Sha3_512State { state, pos, rate, buffer: buf })
    }
}

/// Memory region descriptor for kernel hashing.
#[derive(Debug, Clone, Copy)]
pub struct MemoryRegion {
    pub base_address: u64,
    pub size: usize,
    pub is_readable: bool,
    pub is_writable: bool,
    pub is_executable: bool,
}

/// Maximum safe hash size for kernel operations (256 MiB).
pub const MAX_HASH_SIZE: usize = 256 * 1024 * 1024;

/// Default chunk size for parallel processing.
pub const DEFAULT_CHUNK_SIZE: usize = 1024;

/// A region whose size the kernel hasher accepts: not empty, at most `MAX_HASH_SIZE`.
pub open spec fn region_size_ok(size: usize) -> bool {
    0 < size <= MAX_HASH_SIZE
}

/// A region that `hash_memory_regions` hashes: readable, with an accepted size.
pub open spec fn region_hashable(r: MemoryRegion) -> bool {
    r.is_readable && region_size_ok(r.size)
}

/// SHA3-512 of `data` on a fresh sponge.
fn sha3_512_oneshot(data: &[u8]) -> (hash: Sha3_512Hash)
    ensures
        hash@ == sha3_512(data@),
{
    let mut st = Sha3_512State::new();
    let ghost st0 = st;
    st.absorb(data, false);
    let ghost st1 = st;
    proof {
        lemma_absorb_models(st0, st1, Seq::empty(), data@);
        assert(Seq::<u8>::empty() + data@ =~= data@);
    }
    let hash = st.finalize(false);
    proof {
        lemma_finalize_models(st1, st, data@);
    }
    hash
}

/// SHA3-512 kernel hasher.
///
/// It stands for the byte stream absorbed since it was created or last
/// reset (its view); `update` appends to that stream and `finalize`
/// returns SHA3-512 of it.
pub struct Sha3_512Kernel {
    state: Sha3_512State,
    /// SIMD feature detection
    features: SimdFeatures,
    /// Performance configuration
    config: PerformanceConfig,
    /// The byte stream the sponge stands for
    stream: Ghost<Seq<u8>>,
    /// The CPUID answers the features were decoded from
    probe: Ghost<CpuidProbe>,
}

impl View for Sha3_512Kernel {
    type V = Seq<u8>;

    closed spec fn view(&self) -> Seq<u8> {
        self.stream@
    }
}

impl Sha3_512Kernel {
    /// The sponge is always in step with the stream the hasher stands for.
    #[verifier::type_invariant]
    spec fn inv(&self) -> bool {
        &&& self.state.models(self.stream@)
        &&& self.probe@.well_asked()
        &&& self.features == self.probe@.features()
    }

    /// The sponge holds no trace of earlier input: all-zero lanes and buffer.
    pub closed spec fn zeroised(&self) -> bool {
        &&& self.state.state@ == zero_lanes()
        &&& self.state.pos == 0
        &&& self.state.buffer@ == Seq::new(200, |i: int| 0u8)
    }

    /// The configuration the hasher runs with.
    pub closed spec fn spec_config(&self) -> PerformanceConfig {
        self.config
    }

    /// The SIMD features found when the hasher was made.
    pub closed spec fn spec_features(&self) -> SimdFeatures {
        self.features
    }

    /// The CPUID answers the SIMD features were decoded from.
    pub closed spec fn spec_probe(&self) -> CpuidProbe {
        self.probe@
    }

    /// The lanes of the hasher's sponge.
    pub closed spec fn spec_lanes(&self) -> Seq<u64> {
        self.state.state@
    }

    /// The bytes waiting in the hasher's sponge for the next whole block.
    pub closed spec fn spec_pending(&self) -> Seq<u8> {
        self.state.pending()
    }

    /// The sponge is in step with the bytes the hasher stands for: its
    /// lanes hold their whole blocks absorbed into the zero state, and its
    /// buffer starts with their trailing partial block.
    pub open spec fn in_step(&self) -> bool {
        &&& self.spec_lanes() == absorb(self@, (self@.len() / 72) as nat)
        &&& self.spec_pending() == tail(self@)
    }

    /// Create a new SHA3-512 kernel hasher with default configuration.
    pub fn new() -> (h: Self)
        ensures
            h.in_step(),
            h.zeroised(),
            h@ == Seq::<u8>::empty(),
            h.spec_config().is_default(),
            h.spec_features().avx2_available ==> h.spec_features().bmi2_available,
            h.spec_probe().well_asked(),
            h.spec_features() == h.spec_probe().features(),
    {
        Self::with_config(PerformanceConfig::default())
    }

    /// Create a hasher with a custom performance configuration.
    pub fn with_config(config: PerformanceConfig) -> (h: Self)
        ensures
            h.in_step(),
            h.zeroised(),
            h@ == Seq::<u8>::empty(),
            h.spec_config() == config,
            h.spec_features().avx2_available ==> h.spec_features().bmi2_available,
            h.spec_probe().well_asked(),
            h.spec_features() == h.spec_probe().features(),
    {
        let (features, probe) = Self::detect_simd_features();
        Self { state: Sha3_512State::new(), features, config, stream: Ghost(Seq::empty()), probe }
    }

    /// Hash `data` in a single call, returning its 64-byte SHA3-512 digest.
    pub fn hash(&mut self, data: &[u8]) -> (hash: Sha3_512Hash)
        ensures
            hash@ == sha3_512(data@),
            final(self)@ == finalized_stream(data@),
            final(self).spec_config() == old(self).spec_config(),
            final(self).spec_features() == old(self).spec_features(),
            final(self).in_step(),
    {
        proof {
            use_type_invariant(&*self);
        }
        let mut st = self.state;
        st.reset();
        let ghost st0 = st;
        st.absorb(data, self.config.use_avx512);
        let ghost st1 = st;
        proof {
            lemma_absorb_models(st0, st1, Seq::empty(), data@);
            assert(Seq::<u8>::empty() + data@ =~= data@);
        }
        let hash = st.finalize(self.config.use_avx512);
        proof {
            lemma_finalize_models(st1, st, data@);
        }
        *self = Sha3_512Kernel {
            state: st,
            features: self.features,
            probe: self.probe,
            config: self.config,
            stream: Ghost(finalized_stream(data@)),
        };
        hash
    }

    /// Whether the kernel hasher accepts a memory region of `size` bytes:
    /// zero-size regions and regions above `MAX_HASH_SIZE` hash to all zeros.
    pub fn region_size_accepted(size: usize) -> (ok: bool)
        ensures
            ok == region_size_ok(size),
    {
        !(size == 0 || size > MAX_HASH_SIZE)
    }

    /// The regions that `hash_memory_regions` hashes, in order: the
    /// readable ones with an accepted size.
    pub fn hashable_regions(regions: &[MemoryRegion]) -> (selected: Vec<MemoryRegion>)
        ensures
            selected@ == regions@.filter(|r: MemoryRegion| region_hashable(r)),
    {
        let mut selected: Vec<MemoryRegion> = Vec::new();
        for i in 0..regions.len()
            invariant
                selected@ == regions@.take(i as int).filter(|r: MemoryRegion| region_hashable(r)),
        {
            proof {
                reveal_with_fuel(Seq::<_>::filter, 1);
                assert(regions@.take(i + 1).drop_last() =~= regions@.take(i as int));
            }
            let r = regions[i];
            if r.is_readable && Self::region_size_accepted(r.size) {
                selected.push(r);
            }
        }
        assert(regions@.take(regions@.len() as int) =~= regions@);
        selected
    }

    /// Hash several independent messages, returning one digest per message,
    /// in order.  Messages are scheduled in batches of eight or four when the
    /// configuration asks for AVX-512 or AVX2 and the processor has it.
    /// Every message must lie at least one block below `usize::MAX` bytes,
    /// so that the length of its padding is a `usize`.
    pub fn hash_many(&self, messages: &[&[u8]]) -> (results: Vec<Sha3_512Hash>)
        requires
            forall|i: int|
                0 <= i < messages@.len() ==> #[trigger] messages@[i]@.len() <= usize::MAX - 72,
        ensures
            results@.len() == messages@.len(),
            forall|i: int|
                0 <= i < messages@.len() ==> #[trigger] results@[i]@ == sha3_512(messages@[i]@),
    {
        let width: usize = if self.config.use_avx512 && self.features.avx512_available {
            8
        } else if self.config.use_avx2 && self.features.avx2_available {
            4
        } else {
            1
        };
        let n = messages.len();
        let mut results: Vec<Sha3_512Hash> = Vec::with_capacity(n);
        let mut start: usize = 0;
        while start < n
            invariant
                n == messages@.len(),
                start <= n,
                width == 1 || width == 4 || width == 8,
                results@.len() == start,
                forall|i: int|
                    0 <= i < messages@.len() ==> #[trigger] messages@[i]@.len() <= usize::MAX - 72,
                forall|i: int| 0 <= i < start ==> #[trigger] results@[i]@ == sha3_512(messages@[i]@),
            decreases n - start,
        {
            let end = if n - start < width {
                n
            } else {
                start + width
            };
            if width == 1 {
                results.push(sha3_512_oneshot(messages[start]));
            } else {
                let batch = hash_batch(messages, start, end, width);
                for k in 0..end - start
                    invariant
                        start < end <= n,
                        n == messages@.len(),
                        batch@.len() == end - start,
                        results@.len() == start + k,
                        forall|j: int|
                            0 <= j < end - start ==> #[trigger] batch@[j]@ == sha3_512(
                                messages@[start + j]@,
                            ),
                        forall|i: int|
                            0 <= i < start + k ==> #[trigger] results@[i]@ == sha3_512(
                                messages@[i]@,
                            ),
                {
                    results.push(batch[k]);
                    assert(results@[start + k]@ == batch@[k as int]@);
                }
            }
            start = end;
        }
        results
    }

    /// Detect the available SIMD features at runtime.
    fn detect_simd_features() -> (r: (SimdFeatures, Ghost<CpuidProbe>))
        ensures
            r.0.avx2_available ==> r.0.bmi2_available,
            r.1@.well_asked(),
            r.0 == r.1@.features(),
    {
        crate::cpu::detect_features()
    }

    /// The SIMD features detected when the hasher was made (see
    /// [`SimdFeatures`] for what the detection does not read).
    pub fn simd_features(&self) -> (f: SimdFeatures)
        ensures
            f == self.spec_features(),
            self.spec_probe().well_asked(),
            f == self.spec_probe().features(),
    {
        proof {
            use_type_invariant(self);
        }
        self.features
    }

    /// The current configuration.
    pub fn config(&self) -> (c: PerformanceConfig)
        ensures
            c == self.spec_config(),
    {
        self.config
    }

    /// Replace the configuration; the stream absorbed so far is kept.
    pub fn update_config(&mut self, config: PerformanceConfig)
        ensures
            final(self)@ == old(self)@,
            final(self).spec_config() == config,
            final(self).spec_features() == old(self).spec_features(),
            final(self).in_step(),
    {
        proof {
            use_type_invariant(&*self);
        }
        self.config = config;
    }

    /// Hash `data` and wrap the digest in a [`Sha3Digest`].
    pub fn hash_digest(&mut self, data: &[u8]) -> (d: Sha3Digest)
        ensures
            d.0@ == sha3_512(data@),
            final(self)@ == finalized_stream(data@),
            final(self).spec_config() == old(self).spec_config(),
            final(self).spec_features() == old(self).spec_features(),
            final(self).in_step(),
    {
        Sha3Digest::new(self.hash(data))
    }

    /// Finalize the current hash (incremental hashing): apply the SHA3
    /// padding and return the digest of everything absorbed since the last
    /// reset.  The hasher must be `reset()` before it is used for another
    /// message: until then it stands for the padded stream followed by its
    /// trailing partial block.
    pub fn finalize(&mut self) -> (hash: Sha3_512Hash)
        ensures
            hash@ == sha3_512(old(self)@),
            final(self)@ == finalized_stream(old(self)@),
            final(self).spec_config() == old(self).spec_config(),
            final(self).spec_features() == old(self).spec_features(),
            final(self).in_step(),
    {
        proof {
            use_type_invariant(&*self);
        }
        let mut st = self.state;
        let ghost st0 = st;
        let hash = st.finalize(self.config.use_avx512);
        proof {
            lemma_finalize_models(st0, st, self.stream@);
        }
        *self = Sha3_512Kernel {
            state: st,
            features: self.features,
            probe: self.probe,
            config: self.config,
            stream: Ghost(finalized_stream(self.stream@)),
        };
        hash
    }

    /// Finalize and wrap the digest in a [`Sha3Digest`].
    pub fn finalize_digest(&mut self) -> (d: Sha3Digest)
        ensures
            d.0@ == sha3_512(old(self)@),
            final(self)@ == finalized_stream(old(self)@),
            final(self).spec_config() == old(self).spec_config(),
            final(self).spec_features() == old(self).spec_features(),
            final(self).in_step(),
    {
        Sha3Digest::new(self.finalize())
    }

    /// Reset the hasher for a new message, zeroising its sponge.
    pub fn reset(&mut self)
        ensures
            final(self).zeroised(),
            final(self)@ == Seq::<u8>::empty(),
            final(self).spec_config() == old(self).spec_config(),
            final(self).spec_features() == old(self).spec_features(),
            final(self).in_step(),
    {
        proof {
            use_type_invariant(&*self);
        }
        let mut st = self.state;
        st.reset();
        *self = Sha3_512Kernel {
            state: st,
            features: self.features,
            probe: self.probe,
            config: self.config,
            stream: Ghost(Seq::empty()),
        };
    }

    /// Absorb more data (incremental / streaming hashing).
    pub fn update(&mut self, data: &[u8])
        ensures
            final(self)@ == old(self)@ + data@,
            final(self).spec_config() == old(self).spec_config(),
            final(self).spec_features() == old(self).spec_features(),
            final(self).in_step(),
    {
        proof {
            use_type_invariant(&*self);
        }
        let mut st = self.state;
        let ghost st0 = st;
        st.absorb(data, self.config.use_avx512);
        proof {
            lemma_absorb_models(st0, st, self.stream@, data@);
        }
        *self = Sha3_512Kernel {
            state: st,
            features: self.features,
            probe: self.probe,
            config: self.config,
            stream: Ghost(self.stream@ + data@),
        };
    }
}

/// The views of a hasher that starts empty and then takes one `update`
/// per chunk: `views[i + 1]` is `views[i]` followed by `chunks[i]`.
pub open spec fn update_trace(views: Seq<Seq<u8>>, chunks: Seq<Seq<u8>>) -> bool {
    &&& views.len() == chunks.len() + 1
    &&& views[0] == Seq::<u8>::empty()
    &&& forall|i: int| 0 <= i < chunks.len() ==> #[trigger] views[i + 1] == views[i] + chunks[i]
}

/// After `i` updates, the hasher stands for the first `i` chunks concatenated.
proof fn lemma_update_trace_prefix(views: Seq<Seq<u8>>, chunks: Seq<Seq<u8>>, i: int)
    requires
        update_trace(views, chunks),
        0 <= i <= chunks.len(),
    ensures
        views[i] == chunks.take(i).flatten_alt(),
    decreases i,
{
    if i > 0 {
        lemma_update_trace_prefix(views, chunks, i - 1);
        assert(chunks.take(i).drop_last() =~= chunks.take(i - 1));
        assert(views[(i - 1) + 1] == views[i - 1] + chunks[i - 1]);
    } else {
        assert(chunks.take(0).flatten_alt() =~= Seq::<u8>::empty());
    }
}

/// Incremental hashing agrees with one-shot hashing.  A hasher that starts
/// empty (as `new` and `reset` leave it) and is given the chunks through
/// one `update` each, in order, stands for the chunks concatenated; so
/// `finalize` then returns the digest that `hash` returns for the
/// concatenation, however the message is split and into however many chunks.
pub proof fn law_incremental_matches_oneshot(views: Seq<Seq<u8>>, chunks: Seq<Seq<u8>>)
    requires
        update_trace(views, chunks),
    ensures
        views.last() == chunks.flatten(),
        sha3_512(views.last()) == sha3_512(chunks.flatten()),
{
    lemma_update_trace_prefix(views, chunks, chunks.len() as int);
    assert(chunks.take(chunks.len() as int) =~= chunks);
    chunks.lemma_flatten_and_flatten_alt_are_equivalent();
}

/// Splitting data over `update` calls makes no difference: a hasher that
/// stands for `s` followed by `a` and then `b`, and one that stands for `s`
/// followed by `a` and `b` joined, hold the same lanes and the same pending
/// bytes, and finalize to the same digest.
pub proof fn law_update_split(
    h1: Sha3_512Kernel,
    h2: Sha3_512Kernel,
    s: Seq<u8>,
    a: Seq<u8>,
    b: Seq<u8>,
)
    requires
        h1.in_step(),
        h2.in_step(),
        h1@ == (s + a) + b,
        h2@ == s + (a + b),
    ensures
        h1@ == h2@,
        h1.spec_lanes() == h2.spec_lanes(),
        h1.spec_pending() == h2.spec_pending(),
        sha3_512(h1@) == sha3_512(h2@),
{
    assert((s + a) + b =~= s + (a + b));
}

/// An empty `update` changes nothing: the hasher stands for the same bytes
/// and holds the same lanes and the same pending bytes.
pub proof fn law_update_empty(before: Sha3_512Kernel, after: Sha3_512Kernel)
    requires
        before.in_step(),
        after.in_step(),
        after@ == before@ + Seq::<u8>::empty(),
    ensures
        after@ == before@,
        after.spec_lanes() == before.spec_lanes(),
        after.spec_pending() == before.spec_pending(),
{
    assert(before@ + Seq::<u8>::empty() =~= before@);
}

impl Default for Sha3_512Kernel {
    fn default() -> (h: Self)
        ensures
            h.in_step(),
            h.zeroised(),
            h@ == Seq::<u8>::empty(),
            h.spec_config().is_default(),
    {
        Self::new()
    }
}

// ---------------------------------------------------------------------
// Batch hashing of independent messages
// ---------------------------------------------------------------------

/// The SHA3-512 padding of `msg`, as bytes.
fn pad_message(msg: &[u8]) -> (buf: Vec<u8>)
    requires
        msg@.len() <= usize::MAX - 72,
    ensures
        buf@ == padded(msg@),
{
    let rate = SHA3_512_RATE;
    let full_blocks = msg.len() / rate;
    let total_len = (full_blocks + 1) * rate;
    let mut buf: Vec<u8> = Vec::with_capacity(total_len);
    for i in 0..total_len
        invariant
            total_len == 72 * (msg@.len() / 72 + 1),
            buf@.len() == i,
            forall|j: int| 0 <= j < i ==> #[trigger] buf@[j] == if j < msg@.len() {
                msg@[j]
            } else {
                0u8
            },
    {
        if i < msg.len() {
            buf.push(msg[i]);
        } else {
            buf.push(0u8);
        }
    }
    buf.set(msg.len(), SHA3_DOMAIN_BYTE);
    let last = total_len - 1;
    let b = buf[last];
    assert(0x06u8 | 0x80u8 == 0x86u8) by (bit_vector);
    assert(0x00u8 | 0x80u8 == 0x80u8) by (bit_vector);
    buf.set(last, b | 0x80);
    proof {
        lemma_padded_shape(msg@);
        assert(buf@ =~= padded(msg@));
    }
    buf
}

/// Permute up to `width` independent states together, through the
/// eight-state or the four-state parallel permutation.
fn permute_lanes(states: &mut Vec<[u64; 25]>, width: usize)
    requires
        width == 4 || width == 8,
        old(states)@.len() <= width,
    ensures
        final(states)@.len() == old(states)@.len(),
        forall|j: int|
            0 <= j < old(states)@.len() ==> #[trigger] final(states)@[j]@ == keccak_f(
                old(states)@[j]@,
            ),
{
    let ghost s1 = states@;
    let n = states.len();
    if width == 8 {
        let mut batch = [[0u64; 25]; 8];
        for i in 0..n
            invariant
                n == s1.len(),
                n <= 8,
                states@ == s1,
                forall|j: int| 0 <= j < i ==> #[trigger] batch@[j] == s1[j],
        {
            batch[i] = states[i];
        }
        let ghost b0 = batch;
        crate::simd_parallel::keccak_f1600_x8_avx512(&mut batch);
        for i in 0..n
            invariant
                n == s1.len(),
                n <= 8,
                states@.len() == n,
                forall|j: int| 0 <= j < n ==> #[trigger] b0@[j] == s1[j],
                forall|j: int| 0 <= j < 8 ==> #[trigger] batch@[j]@ == keccak_f(b0@[j]@),
                forall|j: int|
                    0 <= j < n ==> if j < i {
                        #[trigger] states@[j]@ == keccak_f(s1[j]@)
                    } else {
                        states@[j] == s1[j]
                    },
        {
            states.set(i, batch[i]);
        }
    } else {
        let mut batch = [[0u64; 25]; 4];
        for i in 0..n
            invariant
                n == s1.len(),
                n <= 4,
                states@ == s1,
                forall|j: int| 0 <= j < i ==> #[trigger] batch@[j] == s1[j],
        {
            batch[i] = states[i];
        }
        let ghost b0 = batch;
        crate::simd_parallel::keccak_f1600_x4_avx2(&mut batch);
        for i in 0..n
            invariant
                n == s1.len(),
                n <= 4,
                states@.len() == n,
                forall|j: int| 0 <= j < n ==> #[trigger] b0@[j] == s1[j],
                forall|j: int| 0 <= j < 4 ==> #[trigger] batch@[j]@ == keccak_f(b0@[j]@),
                forall|j: int|
                    0 <= j < n ==> if j < i {
                        #[trigger] states@[j]@ == keccak_f(s1[j]@)
                    } else {
                        states@[j] == s1[j]
                    },
        {
            states.set(i, batch[i]);
        }
    }
}

/// Absorb the padded messages `lo..hi` in lockstep, one lane per message,
/// permuting all lanes together and capturing each digest the moment its
/// own last block is permuted.
fn hash_batch(messages: &[&[u8]], lo: usize, hi: usize, width: usize) -> (results: Vec<Sha3_512Hash>)
    requires
        lo <= hi <= messages@.len(),
        hi - lo <= width,
        width == 4 || width == 8,
        forall|i: int|
            0 <= i < messages@.len() ==> #[trigger] messages@[i]@.len() <= usize::MAX - 72,
    ensures
        results@.len() == hi - lo,
        forall|j: int|
            0 <= j < hi - lo ==> #[trigger] results@[j]@ == sha3_512(messages@[lo + j]@),
{
    let count = hi - lo;
    let mut padded_msgs: Vec<Vec<u8>> = Vec::new();
    let mut num_blocks: Vec<usize> = Vec::new();
    let mut max_blocks: usize = 0;
    for k in 0..count
        invariant
            count == hi - lo,
            lo <= hi <= messages@.len(),
            forall|i: int|
                0 <= i < messages@.len() ==> #[trigger] messages@[i]@.len() <= usize::MAX - 72,
            padded_msgs@.len() == k,
            num_blocks@.len() == k,
            forall|j: int|
                0 <= j < k ==> #[trigger] padded_msgs@[j]@ == padded(messages@[lo + j]@),
            forall|j: int|
                0 <= j < k ==> #[trigger] num_blocks@[j] == messages@[lo + j]@.len() / 72 + 1,
            forall|j: int| 0 <= j < k ==> #[trigger] num_blocks@[j] <= max_blocks,
    {
        let p = pad_message(messages[lo + k]);
        proof {
            let m = messages@[lo + k]@;
            lemma_padded_shape(m);
            vstd::arithmetic::div_mod::lemma_div_multiples_vanish((m.len() / 72 + 1) as int, 72);
        }
        let nb = p.len() / SHA3_512_RATE;
        if nb > max_blocks {
            max_blocks = nb;
        }
        num_blocks.push(nb);
        padded_msgs.push(p);
    }

    let mut states: Vec<[u64; 25]> = Vec::new();
    let mut results: Vec<Sha3_512Hash> = Vec::new();
    for k in 0..count
        invariant
            states@.len() == k,
            results@.len() == k,
            forall|j: int| 0 <= j < k ==> #[trigger] states@[j]@ == zero_lanes(),
    {
        let z = [0u64; 25];
        assert(z@ =~= zero_lanes());
        states.push(z);
        results.push([0u8; 64]);
    }

    for block_idx in 0..max_blocks
        invariant
            count == hi - lo,
            count <= width,
            width == 4 || width == 8,
            lo <= hi <= messages@.len(),
            padded_msgs@.len() == count,
            num_blocks@.len() == count,
            states@.len() == count,
            results@.len() == count,
            forall|j: int|
                0 <= j < count ==> #[trigger] padded_msgs@[j]@ == padded(messages@[lo + j]@),
            forall|j: int|
                0 <= j < count ==> #[trigger] num_blocks@[j] == messages@[lo + j]@.len() / 72 + 1,
            forall|j: int|
                0 <= j < count ==> #[trigger] padded_msgs@[j]@.len() == 72 * num_blocks@[j],
            forall|j: int| 0 <= j < count ==> #[trigger] num_blocks@[j] <= max_blocks,
            forall|j: int| 0 <= j < count ==> #[trigger] num_blocks@[j] >= 1,
            forall|j: int|
                0 <= j < count ==> (block_idx <= num_blocks@[j] ==> #[trigger] states@[j]@
                    == absorb(padded_msgs@[j]@, block_idx as nat)),
            forall|j: int|
                0 <= j < count ==> (num_blocks@[j] <= block_idx ==> #[trigger] results@[j]@
                    == sha3_512(messages@[lo + j]@)),
    {
        // XOR this round's block into every lane that still has one.
        let ghost s0 = states@;
        for i in 0..count
            invariant
                count == hi - lo,
                padded_msgs@.len() == count,
                num_blocks@.len() == count,
                states@.len() == count,
                s0.len() == count,
                block_idx < max_blocks,
                forall|j: int|
                    0 <= j < count ==> #[trigger] padded_msgs@[j]@.len() == 72 * num_blocks@[j],
                forall|j: int|
                    0 <= j < count ==> if j < i && block_idx < num_blocks@[j] {
                        #[trigger] states@[j]@ == xor_block(
                            s0[j]@,
                            block_of(padded_msgs@[j]@, block_idx as int),
                        )
                    } else {
                        states@[j] == s0[j]
                    },
        {
            if block_idx < num_blocks[i] {
                let plen = padded_msgs[i].len();
                assert(plen == 72 * num_blocks@[i as int]);
                let start = block_idx * SHA3_512_RATE;
                let mut st = states[i];
                let block = slice_subrange(padded_msgs[i].as_slice(), start, start + SHA3_512_RATE);
                xor_block_into(&mut st, block);
                states.set(i, st);
            }
        }
        // One permutation of every lane.
        let ghost s1 = states@;
        permute_lanes(&mut states, width);
        // Capture the digest of every lane whose message just ended.
        let ghost r0 = results@;
        for i in 0..count
            invariant
                states@.len() == count,
                results@.len() == count,
                r0.len() == count,
                num_blocks@.len() == count,
                forall|j: int| 0 <= j < count ==> #[trigger] num_blocks@[j] >= 1,
                forall|j: int|
                    0 <= j < count ==> if j < i && block_idx + 1 == num_blocks@[j] {
                        #[trigger] results@[j]@ == squeeze(states@[j]@)
                    } else {
                        results@[j] == r0[j]
                    },
        {
            if block_idx == num_blocks[i] - 1 {
                results.set(i, squeeze_lanes(&states[i]));
            }
        }
        assert forall|j: int| 0 <= j < count && block_idx + 1 <= num_blocks@[j] implies (#[trigger] states@[j]@ == absorb(padded_msgs@[j]@, (block_idx + 1) as nat)) by {
            if block_idx + 1 <= num_blocks@[j] {
                assert(states@[j]@ == keccak_f(s1[j]@));
            }
        }
    }
    assert forall|j: int| 0 <= j < hi - lo implies #[trigger] results@[j]@ == sha3_512(
        messages@[lo + j]@,
    ) by {
        assert(num_blocks@[j] <= max_blocks);
    }
    results
}

} // verus!
