# sha3-kernel-hasher

SHA3-512 (FIPS 202) with a scalar Keccak-f[1600], a row-vector permutation
in the layout of 512-bit SIMD registers, and four- and eight-state parallel
permutations for hashing batches of independent messages.  The library is
written in Verus and every function in `src/` is proved against its
contract, except two trusted wrappers around std whose contracts Verus
takes on trust: `cpu::cpuid` (`std::arch::x86_64::__cpuid_count`, of whose
answers nothing is claimed) and `hex::string_push` (`String::push`).

## Layout

- `src/keccak.rs` — the permutation as a mathematical function (`theta`,
  `rho`, `pi`, `chi`, `iota`, `keccak_f`) and the scalar implementation,
  proved equal to it.  The round constants are proved to come from the
  FIPS 202 LFSR, the rotation offsets from the `(x, y) -> (y, 2x + 3y)`
  walk, and the pi table from its definition.
- `src/bijection.rs` — Keccak-f[1600] is injective (every step mapping is).
- `src/sponge.rs` — the sponge as a specification: padding, absorbing,
  squeezing, and `sha3_512` itself.
- `src/lib.rs` — the streaming sponge state, the `Sha3_512Kernel` hasher
  (one-shot, incremental, batched `hash_many`), configuration and memory
  region selection.
- `src/simd_avx512.rs` — the row-vector permutation, its lane tables, and
  the chi ternary-logic immediate, each checked against the scalar tables.
- `src/simd_parallel.rs` — eight- and four-state permutations in the
  struct-of-arrays layout.
- `src/hex.rs`, `src/ct.rs`, `src/io.rs`, `src/cpu.rs` — digest type and
  hex codec, branch-free comparison, streaming over a byte source, CPUID
  feature decoding.
- `app/` — what stays outside the verifier: `std::io` readers and files,
  raw memory regions, processor-state helpers, timing, text formatting and
  serde.
- `tests/` — known-answer vectors, cross-checks and edge cases.

## Main results

- `Sha3_512Kernel::hash` returns `sha3_512(data)`; `update`/`finalize`
  return the same digest for any split of the message
  (`law_incremental_matches_oneshot`).  The hasher keeps its sponge in
  step with the bytes it stands for as a type invariant, so its sponge is
  determined by those bytes (`law_update_split`, `law_update_empty`).
- The sponge's `absorb` and `finalize` are specified for any state with
  the SHA3-512 rate, not only for states reached from zero.
- Every permutation path (scalar, row-vector, x4, x8) computes `keccak_f`.
- `hash_many` returns `sha3_512` of each message, in order, for every
  batching width.
- Hex encoding decodes back to the digest (`lemma_hex_roundtrip`).
