use sha3_kernel_hasher::io::Sha3Reader;
use sha3_kernel_hasher::{Sha3Digest, Sha3_512Kernel};
use std::io::{Cursor, Read};

/// Read a source to its end through a `Sha3Reader`, in 8 KiB chunks.
fn digest_of<R: Read>(reader: R) -> (Sha3Digest, u64) {
    let mut r = Sha3Reader::new(reader);
    let mut buf = [0u8; 8 * 1024];
    loop {
        let n = r.inner_mut().read(&mut buf).unwrap();
        if n == 0 {
            break;
        }
        r.absorb_chunk(&buf[..n]);
    }
    let consumed = r.bytes_consumed();
    (r.finalize(), consumed)
}

#[test]
fn test_hash_reader_empty() {
    let (digest, _) = digest_of(Cursor::new(b""));
    let mut hasher = Sha3_512Kernel::new();
    let expected = Sha3Digest::new(hasher.hash(b""));
    assert_eq!(digest, expected);
}

#[test]
fn test_hash_reader_matches_direct() {
    let data = b"The quick brown fox jumps over the lazy dog";
    let (digest, _) = digest_of(Cursor::new(data));
    let mut hasher = Sha3_512Kernel::new();
    let expected = Sha3Digest::new(hasher.hash(data));
    assert_eq!(digest, expected);
}

#[test]
fn test_hash_reader_large() {
    let data = vec![0xCDu8; 100_000];
    let (digest, _) = digest_of(Cursor::new(&data));
    let mut hasher = Sha3_512Kernel::new();
    let expected = Sha3Digest::new(hasher.hash(&data));
    assert_eq!(digest, expected);
}

#[test]
fn test_sha3_reader_bytes_consumed() {
    let data = vec![0x42u8; 12345];
    let (_, consumed) = digest_of(Cursor::new(&data));
    assert_eq!(consumed, 12345);
}

#[test]
fn absorb_chunk_counts_and_hashes_uneven_chunks() {
    let data: Vec<u8> = (0..500u32).map(|i| i as u8).collect();
    let mut r = Sha3Reader::new(());
    r.absorb_chunk(&data[..1]);
    r.absorb_chunk(&[]);
    r.absorb_chunk(&data[1..200]);
    r.absorb_chunk(&data[200..]);
    assert_eq!(r.bytes_consumed(), 500);
    assert_eq!(r.finalize(), Sha3Digest::new(Sha3_512Kernel::new().hash(&data)));
}
