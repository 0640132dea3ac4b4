//! Streaming hashing of a byte source.
//!
//! [`Sha3Reader`] carries a reader together with the hasher that digests
//! what has been read from it; reading itself is the caller's part (the
//! reader is reached through [`Sha3Reader::inner_mut`]), and every chunk
//! read is handed back through [`Sha3Reader::absorb_chunk`].
use vstd::prelude::*;

use crate::hex::Sha3Digest;
use crate::sponge::{finalized_stream, sha3_512};
use crate::Sha3_512Kernel;

verus! {

/// Default size of the staging buffer for reads (8 KiB).
pub const IO_BUF_SIZE: usize = 8 * 1024;

/// A streaming SHA3-512 hasher wrapping a byte source.
pub struct Sha3Reader<R> {
    inner: R,
    hasher: Sha3_512Kernel,
    /// Total bytes consumed so far.
    bytes_consumed: u64,
}

impl<R> Sha3Reader<R> {
    /// The bytes hashed so far.
    pub closed spec fn absorbed(&self) -> Seq<u8> {
        self.hasher@
    }

    /// The byte counter.
    pub closed spec fn spec_bytes_consumed(&self) -> u64 {
        self.bytes_consumed
    }

    /// The wrapped source.
    pub closed spec fn spec_inner(&self) -> R {
        self.inner
    }

    /// Wrap a reader in a streaming SHA3-512 hasher.
    pub fn new(reader: R) -> (r: Self)
        ensures
            r.absorbed() == Seq::<u8>::empty(),
            r.spec_bytes_consumed() == 0,
            r.spec_inner() == reader,
    {
        Self { inner: reader, hasher: Sha3_512Kernel::new(), bytes_consumed: 0 }
    }

    /// The wrapped source, to read the next chunk from.
    pub fn inner_mut(&mut self) -> (r: &mut R)
        ensures
            *r == old(self).spec_inner(),
            final(self).spec_inner() == *final(r),
            final(self).absorbed() == old(self).absorbed(),
            final(self).spec_bytes_consumed() == old(self).spec_bytes_consumed(),
    {
        &mut self.inner
    }

    /// Hash a chunk just read from the source and count its bytes.
    pub fn absorb_chunk(&mut self, chunk: &[u8])
        requires
            old(self).spec_bytes_consumed() + chunk@.len() <= u64::MAX,
        ensures
            final(self).absorbed() == old(self).absorbed() + chunk@,
            final(self).spec_bytes_consumed() == old(self).spec_bytes_consumed() + chunk@.len(),
            final(self).spec_inner() == old(self).spec_inner(),
    {
        if chunk.len() > 0 {
            self.hasher.update(chunk);
            self.bytes_consumed = self.bytes_consumed + chunk.len() as u64;
        } else {
            assert(self.hasher@ + chunk@ =~= self.hasher@);
        }
    }

    /// Finalize the hash and return the digest of everything absorbed.
    /// The reader should not be used for more data afterwards.
    pub fn finalize(&mut self) -> (d: Sha3Digest)
        ensures
            d.0@ == sha3_512(old(self).absorbed()),
            final(self).absorbed() == finalized_stream(old(self).absorbed()),
            final(self).spec_bytes_consumed() == old(self).spec_bytes_consumed(),
            final(self).spec_inner() == old(self).spec_inner(),
    {
        Sha3Digest::new(self.hasher.finalize())
    }

    /// The total number of bytes consumed so far.
    pub fn bytes_consumed(&self) -> (n: u64)
        ensures
            n == self.spec_bytes_consumed(),
    {
        self.bytes_consumed
    }
}

} // verus!
