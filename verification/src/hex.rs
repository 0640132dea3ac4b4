//! Hexadecimal encoding and decoding of SHA3-512 digests.
//!
//! The encoder looks every nibble up in a 16-entry table, so no branch
//! depends on the data.
use vstd::prelude::*;
use vstd::string::StringSliceAdditionalSpecFns;

verus! {

/// Lowercase hex nibble lookup table (ASCII `0-9a-f`).
pub const HEX_LOWER: [u8; 16] = [
    0x30, 0x31, 0x32, 0x33, 0x34, 0x35, 0x36, 0x37, 0x38, 0x39, 0x61, 0x62, 0x63, 0x64, 0x65, 0x66,
];

/// Uppercase hex nibble lookup table (ASCII `0-9A-F`).
pub const HEX_UPPER: [u8; 16] = [
    0x30, 0x31, 0x32, 0x33, 0x34, 0x35, 0x36, 0x37, 0x38, 0x39, 0x41, 0x42, 0x43, 0x44, 0x45, 0x46,
];

/// A SHA3-512 digest.
#[derive(Debug, Clone, Copy, PartialEq, Eq, Hash)]
pub struct Sha3Digest(pub [u8; 64]);

// ---------------------------------------------------------------------
// Specification
// ---------------------------------------------------------------------

/// The ASCII code of hex digit `v < 16`.
pub open spec fn hex_digit(v: int, upper: bool) -> u8 {
    if v < 10 {
        (48 + v) as u8
    } else if upper {
        (55 + v) as u8
    } else {
        (87 + v) as u8
    }
}

/// Nibble `i` of `bytes`: the high nibble of each byte comes first.
pub open spec fn nibble_at(bytes: Seq<u8>, i: int) -> int {
    if i % 2 == 0 {
        (bytes[i / 2] / 16) as int
    } else {
        (bytes[i / 2] % 16) as int
    }
}

/// Hex encoding of `bytes`: two digits per byte, high nibble first.
pub open spec fn hex_encode(bytes: Seq<u8>, upper: bool) -> Seq<char> {
    Seq::new(2 * bytes.len(), |i: int| hex_digit(nibble_at(bytes, i), upper) as char)
}

/// The value of ASCII hex digit `c` (either case), if it is one.
pub open spec fn hex_value(c: u8) -> Option<u8> {
    if 48 <= c <= 57 {
        Some((c - 48) as u8)
    } else if 97 <= c <= 102 {
        Some((c - 87) as u8)
    } else if 65 <= c <= 70 {
        Some((c - 55) as u8)
    } else {
        None
    }
}

/// `s` is exactly 128 hex digits.
pub open spec fn is_digest_hex(s: Seq<u8>) -> bool {
    s.len() == 128 && forall|i: int| 0 <= i < 128 ==> (#[trigger] hex_value(s[i])) is Some
}

/// The bytes spelled by a string of hex digits, two digits per byte.
pub open spec fn hex_decode(s: Seq<u8>) -> Seq<u8> {
    Seq::new(
        s.len() / 2,
        |i: int| (hex_value(s[2 * i]).unwrap() * 16 + hex_value(s[2 * i + 1]).unwrap()) as u8,
    )
}

/// `c` is an ASCII hex digit: `0`-`9`, `a`-`f` or `A`-`F`.
pub open spec fn is_hex_digit_byte(c: u8) -> bool {
    (0x30 <= c && c <= 0x39) || (0x61 <= c && c <= 0x66) || (0x41 <= c && c <= 0x46)
}

/// `s` is 128 ASCII hex digits.
pub open spec fn is_hex_digits_128(s: Seq<u8>) -> bool {
    s.len() == 128 && forall|i: int| 0 <= i < 128 ==> #[trigger] is_hex_digit_byte(s[i])
}

/// ASCII lowercase: `A`-`Z` become `a`-`z`, every other byte stays.
pub open spec fn ascii_lower(c: u8) -> u8 {
    if 0x41 <= c && c <= 0x5A {
        (c + 0x20) as u8
    } else {
        c
    }
}

/// The characters of `s` lowercased.
pub open spec fn lowered(s: Seq<u8>) -> Seq<char> {
    Seq::new(s.len(), |i: int| ascii_lower(s[i]) as char)
}

/// The table holds hex digit `v` at position `v`.
proof fn lemma_tables()
    ensures
        forall|v: int| 0 <= v < 16 ==> #[trigger] HEX_LOWER@[v] == hex_digit(v, false),
        forall|v: int| 0 <= v < 16 ==> #[trigger] HEX_UPPER@[v] == hex_digit(v, true),
{
}

// ---------------------------------------------------------------------
// Trusted std operations
// ---------------------------------------------------------------------

/// `String::push`: the string gains `c` at its end.
#[verifier::external_body]
fn string_push(s: &mut String, c: char)
    ensures
        final(s)@ == old(s)@.push(c),
{
    s.push(c)
}

// ---------------------------------------------------------------------
// Encoding and decoding
// ---------------------------------------------------------------------

/// Encode `bytes` as hex through the nibble table `table`.
fn encode_hex(bytes: &[u8], table: &[u8; 16], upper: bool) -> (out: String)
    requires
        forall|v: int| 0 <= v < 16 ==> #[trigger] table@[v] == hex_digit(v, upper),
    ensures
        out@ == hex_encode(bytes@, upper),
{
    let mut out = String::new();
    for i in 0..bytes.len()
        invariant
            forall|v: int| 0 <= v < 16 ==> #[trigger] table@[v] == hex_digit(v, upper),
            out@ =~= hex_encode(bytes@.take(i as int), upper),
    {
        let b = bytes[i];
        let hi = b >> 4;
        let lo = b & 0x0F;
        assert((b >> 4) == b / 16 && (b & 0x0F) == b % 16) by (bit_vector);
        string_push(&mut out, table[hi as usize] as char);
        string_push(&mut out, table[lo as usize] as char);
        proof {
            let t = bytes@.take(i + 1);
            assert(nibble_at(t, 2 * i) == b / 16);
            assert(nibble_at(t, 2 * i + 1) == b % 16);
            assert forall|k: int| 0 <= k < 2 * i implies nibble_at(t, k) == nibble_at(
                bytes@.take(i as int),
                k,
            ) by {}
        }
    }
    assert(bytes@.take(bytes@.len() as int) =~= bytes@);
    out
}

/// The value of an ASCII hex digit (either case), if it is one.
#[inline]
fn nibble_from_ascii(c: u8) -> (v: Option<u8>)
    ensures
        v == hex_value(c),
{
    if 0x30 <= c && c <= 0x39 {
        // '0' ..= '9'
        Some(c - 0x30)
    } else if 0x61 <= c && c <= 0x66 {
        // 'a' ..= 'f'
        Some(c - 0x61 + 10)
    } else if 0x41 <= c && c <= 0x46 {
        // 'A' ..= 'F'
        Some(c - 0x41 + 10)
    } else {
        None
    }
}

impl Sha3Digest {
    /// Wrap a raw 64-byte hash.
    #[inline]
    pub fn new(bytes: [u8; 64]) -> (d: Self)
        ensures
            d.0 == bytes,
    {
        Self(bytes)
    }

    /// The underlying byte array.
    #[inline]
    pub fn as_bytes(&self) -> (b: &[u8; 64])
        ensures
            *b == self.0,
    {
        &self.0
    }

    /// Consume the digest and return the inner byte array.
    #[inline]
    pub fn into_bytes(self) -> (b: [u8; 64])
        ensures
            b == self.0,
    {
        self.0
    }

    /// The digest from exactly 64 bytes, or `None` for any other length.
    pub fn from_slice(v: &[u8]) -> (d: Option<Self>)
        ensures
            d is Some <==> v@.len() == 64,
            d matches Some(d) ==> d.0@ == v@,
    {
        if v.len() != 64 {
            return None;
        }
        let mut buf = [0u8; 64];
        for i in 0..64
            invariant
                v@.len() == 64,
                forall|j: int| 0 <= j < i ==> buf@[j] == v@[j],
        {
            buf[i] = v[i];
        }
        assert(buf@ =~= v@);
        Some(Self(buf))
    }

    /// The digest as a 128-character lowercase hex string.
    pub fn to_hex_lower(&self) -> (s: String)
        ensures
            s@ == hex_encode(self.0@, false),
    {
        proof {
            lemma_tables();
        }
        encode_hex(&self.0, &HEX_LOWER, false)
    }

    /// The digest as a 128-character uppercase hex string.
    pub fn to_hex_upper(&self) -> (s: String)
        ensures
            s@ == hex_encode(self.0@, true),
    {
        proof {
            lemma_tables();
        }
        encode_hex(&self.0, &HEX_UPPER, true)
    }

    /// Decode a 128-character hex string (digits of either case).
    ///
    /// Returns `None` if the string is not 128 bytes long or holds a byte
    /// that is not a hex digit.
    pub fn from_hex(hex: &str) -> (d: Option<Self>)
        ensures
            d is Some <==> is_digest_hex(hex.spec_bytes()),
            d matches Some(d) ==> d.0@ == hex_decode(hex.spec_bytes()),
            d is Some <==> is_hex_digits_128(hex.spec_bytes()),
            d matches Some(d) ==> hex_encode(d.0@, false) == lowered(hex.spec_bytes()),
    {
        proof {
            law_from_hex_reads_hex_digits(hex.spec_bytes());
        }
        let s = hex.as_bytes();
        if s.len() != 128 {
            return None;
        }
        let mut bytes = [0u8; 64];
        for i in 0..64
            invariant
                s@ == hex.spec_bytes(),
                s@.len() == 128,
                is_digest_hex(s@) <==> is_hex_digits_128(s@),
                is_hex_digits_128(s@) ==> hex_encode(hex_decode(s@), false) == lowered(s@),
                forall|k: int| 0 <= k < 2 * i ==> (#[trigger] hex_value(s@[k])) is Some,
                forall|j: int| 0 <= j < i ==> bytes@[j] == hex_decode(s@)[j],
        {
            let hi = match nibble_from_ascii(s[i * 2]) {
                Some(v) => v,
                None => return None,
            };
            let lo = match nibble_from_ascii(s[i * 2 + 1]) {
                Some(v) => v,
                None => return None,
            };
            assert(hi < 16 && lo < 16);
            assert((hi << 4) | lo == hi * 16 + lo) by (bit_vector)
                requires
                    hi < 16 && lo < 16,
            ;
            bytes[i] = (hi << 4) | lo;
        }
        assert(bytes@ =~= hex_decode(s@));
        Some(Self(bytes))
    }
}

impl From<[u8; 64]> for Sha3Digest {
    #[inline]
    fn from(bytes: [u8; 64]) -> (d: Self) {
        Self(bytes)
    }
}

impl vstd::std_specs::convert::FromSpecImpl<[u8; 64]> for Sha3Digest {
    open spec fn obeys_from_spec() -> bool {
        true
    }

    open spec fn from_spec(bytes: [u8; 64]) -> Self {
        Sha3Digest(bytes)
    }
}

impl From<Sha3Digest> for [u8; 64] {
    #[inline]
    fn from(digest: Sha3Digest) -> (b: Self) {
        digest.0
    }
}

impl vstd::std_specs::convert::FromSpecImpl<Sha3Digest> for [u8; 64] {
    open spec fn obeys_from_spec() -> bool {
        true
    }

    open spec fn from_spec(digest: Sha3Digest) -> Self {
        digest.0
    }
}

impl AsRef<[u8]> for Sha3Digest {
    #[inline]
    fn as_ref(&self) -> (b: &[u8])
        ensures
            b@ == self.0@,
    {
        &self.0
    }
}

/// Decoding the hex encoding of a digest, in either case, gives the digest back.
pub proof fn lemma_hex_roundtrip(d: Sha3Digest, hex: &str, upper: bool)
    requires
        hex@ == hex_encode(d.0@, upper),
    ensures
        is_digest_hex(hex.spec_bytes()),
        hex_decode(hex.spec_bytes()) == d.0@,
{
    let chars = hex_encode(d.0@, upper);
    assert(vstd::string::is_ascii(hex)) by {
        assert forall|i: int| 0 <= i < chars.len() implies '\0' <= #[trigger] chars[i] <= '\u{7f}' by {
            let v = nibble_at(d.0@, i);
            assert(0 <= v < 16);
        }
    }
    vstd::string::is_ascii_spec_bytes(hex);
    let s = hex.spec_bytes();
    assert(s.len() == 128);
    assert forall|i: int| 0 <= i < 128 implies (#[trigger] hex_value(s[i])) is Some && hex_value(s[i]).unwrap() == nibble_at(d.0@, i) by {
        let v = nibble_at(d.0@, i);
        assert(0 <= v < 16);
        assert(s[i] == hex_digit(v, upper));
    }
    assert forall|j: int| 0 <= j < 64 implies #[trigger] hex_decode(s)[j] == d.0@[j] by {
        assert(nibble_at(d.0@, 2 * j) == d.0@[j] / 16);
        assert(nibble_at(d.0@, 2 * j + 1) == d.0@[j] % 16);
    }
    assert(hex_decode(s) =~= d.0@);
}

/// A hex digit's value, written back as a lowercase digit, is the digit lowercased.
proof fn lemma_digit_lowercase(c: u8)
    requires
        is_hex_digit_byte(c),
    ensures
        hex_value(c) is Some,
        hex_value(c).unwrap() < 16,
        hex_digit(hex_value(c).unwrap() as int, false) == ascii_lower(c),
{
}

/// The two nibbles of `16 * hi + lo`.
proof fn lemma_nibbles(hi: u8, lo: u8)
    requires
        hi < 16,
        lo < 16,
    ensures
        ((hi * 16 + lo) as u8) / 16 == hi,
        ((hi * 16 + lo) as u8) % 16 == lo,
{
    assert(((hi * 16 + lo) as u8) / 16 == hi && ((hi * 16 + lo) as u8) % 16 == lo) by (nonlinear_arith)
        requires
            hi < 16,
            lo < 16,
    ;
}

/// Hex decoding accepts exactly the strings of 128 ASCII hex digits (either
/// case), and the digest it gives, written out in lowercase hex, is the
/// string lowercased.
pub proof fn law_from_hex_reads_hex_digits(s: Seq<u8>)
    ensures
        is_digest_hex(s) <==> is_hex_digits_128(s),
        is_hex_digits_128(s) ==> hex_encode(hex_decode(s), false) == lowered(s),
{
    assert forall|i: int| #![trigger s[i]] 0 <= i < s.len() implies (hex_value(s[i]) is Some
        <==> is_hex_digit_byte(s[i])) by {}
    if is_digest_hex(s) {
        assert forall|i: int| 0 <= i < 128 implies #[trigger] is_hex_digit_byte(s[i]) by {
            assert(hex_value(s[i]) is Some);
        }
    }
    if is_hex_digits_128(s) {
        assert forall|i: int| 0 <= i < 128 implies (#[trigger] hex_value(s[i])) is Some by {
            assert(is_hex_digit_byte(s[i]));
        }
    }
    if is_hex_digits_128(s) {
        let d = hex_decode(s);
        assert forall|j: int| 0 <= j < 128 implies #[trigger] hex_encode(d, false)[j] == lowered(s)[j] by {
            let k = j / 2;
            assert(is_hex_digit_byte(s[2 * k]));
            assert(is_hex_digit_byte(s[2 * k + 1]));
            lemma_digit_lowercase(s[2 * k]);
            lemma_digit_lowercase(s[2 * k + 1]);
            lemma_digit_lowercase(s[j]);
            let hi = hex_value(s[2 * k]).unwrap();
            let lo = hex_value(s[2 * k + 1]).unwrap();
            lemma_nibbles(hi, lo);
            assert(d[k] == (hi * 16 + lo) as u8);
            if j % 2 == 0 {
                assert(j == 2 * k);
            } else {
                assert(j == 2 * k + 1);
            }
            assert(nibble_at(d, j) == hex_value(s[j]).unwrap());
        }
        assert(hex_encode(d, false) =~= lowered(s));
    }
}

} // verus!
