//! Runtime CPU feature probing with the CPUID instruction.
//!
//! What the processor reports depends on the machine the code runs on, so
//! nothing is promised of the instruction's answers; the library only
//! decodes the feature bits it reads into a [`SimdFeatures`] record.
use vstd::prelude::*;

use crate::SimdFeatures;

verus! {

/// `std::arch::x86_64::__cpuid_count`: the four registers CPUID returns for
/// `leaf` and `subleaf`, as `(eax, ebx, ecx, edx)`.  The values depend on
/// the processor and nothing is claimed of them.
#[verifier::external_body]
pub(crate) fn cpuid(leaf: u32, subleaf: u32) -> (u32, u32, u32, u32) {
    let r = std::arch::x86_64::__cpuid_count(leaf, subleaf);
    (r.eax, r.ebx, r.ecx, r.edx)
}

/// Bit `k` of `x` is set.
pub open spec fn bit_set(x: u32, k: u32) -> bool {
    (x >> k) & 1u32 == 1u32
}

/// Test bit `k < 32` of `x`.
#[inline]
fn test_bit(x: u32, k: u32) -> (b: bool)
    requires
        k < 32,
    ensures
        b == bit_set(x, k),
{
    (x >> k) & 1 == 1
}

/// The processor has XSAVE and the operating system has turned it on
/// (leaf 1 `ecx` bits 26 and 27): the precondition for using any AVX state.
pub open spec fn os_xsave(max_leaf: u32, leaf1_ecx: u32) -> bool {
    max_leaf >= 1 && bit_set(leaf1_ecx, 26) && bit_set(leaf1_ecx, 27)
}

/// The SIMD features that the CPUID answers `max_leaf` (leaf 0 `eax`),
/// `leaf1_ecx` and `leaf7_ebx` report.
pub open spec fn cpuid_features(max_leaf: u32, leaf1_ecx: u32, leaf7_ebx: u32) -> SimdFeatures {
    SimdFeatures {
        avx512_available: max_leaf >= 7 && os_xsave(max_leaf, leaf1_ecx) && bit_set(leaf7_ebx, 16)
            && bit_set(leaf7_ebx, 30) && bit_set(leaf7_ebx, 17),
        avx2_available: max_leaf >= 7 && os_xsave(max_leaf, leaf1_ecx) && bit_set(leaf7_ebx, 5)
            && bit_set(leaf7_ebx, 8),
        sse42_available: max_leaf >= 1 && bit_set(leaf1_ecx, 20),
        bmi2_available: max_leaf >= 7 && bit_set(leaf7_ebx, 8),
    }
}

/// Decode the SIMD features from CPUID answers: the highest basic leaf
/// (leaf 0, `eax`), leaf 1 `ecx` and leaf 7 `ebx`.  Leaf 7 counts only when
/// the processor has it.
///
/// SSE4.2 is leaf 1 `ecx` bit 20; AVX2, BMI2, AVX-512F, AVX-512DQ and
/// AVX-512BW are leaf 7 `ebx` bits 5, 8, 16, 17 and 30.  AVX2 and AVX-512
/// count only where the operating system has turned XSAVE on
/// ([`os_xsave`]).  Which register state the operating system saves
/// (the XCR0 register) is not read: the instruction that reads it is
/// available only as an `unsafe` intrinsic, so AVX2 and AVX-512 may be
/// reported on a system that has XSAVE on but does not save their state.
pub fn features_from_cpuid(max_leaf: u32, leaf1_ecx: u32, leaf7_ebx: u32) -> (f: SimdFeatures)
    ensures
        f.sse42_available == (max_leaf >= 1 && bit_set(leaf1_ecx, 20)),
        f.bmi2_available == (max_leaf >= 7 && bit_set(leaf7_ebx, 8)),
        f.avx2_available == (max_leaf >= 7 && os_xsave(max_leaf, leaf1_ecx) && bit_set(leaf7_ebx, 5)
            && bit_set(leaf7_ebx, 8)),
        f.avx512_available == (max_leaf >= 7 && os_xsave(max_leaf, leaf1_ecx) && bit_set(
            leaf7_ebx,
            16,
        ) && bit_set(leaf7_ebx, 30) && bit_set(leaf7_ebx, 17)),
        f == cpuid_features(max_leaf, leaf1_ecx, leaf7_ebx),
{
    let sse42 = max_leaf >= 1 && test_bit(leaf1_ecx, 20);
    let xsave_on = max_leaf >= 1 && test_bit(leaf1_ecx, 26) && test_bit(leaf1_ecx, 27);
    let has7 = max_leaf >= 7;
    let bmi2 = has7 && test_bit(leaf7_ebx, 8);
    let avx2 = has7 && xsave_on && test_bit(leaf7_ebx, 5) && bmi2;
    let avx512 = has7 && xsave_on && test_bit(leaf7_ebx, 16) && test_bit(leaf7_ebx, 30)
        && test_bit(leaf7_ebx, 17);
    SimdFeatures {
        avx512_available: avx512,
        avx2_available: avx2,
        sse42_available: sse42,
        bmi2_available: bmi2,
    }
}

/// The registers CPUID returned, with the leaf and subleaf they answer.
#[derive(Clone, Copy)]
pub struct CpuidAnswer {
    pub leaf: u32,
    pub subleaf: u32,
    pub eax: u32,
    pub ebx: u32,
    pub ecx: u32,
    pub edx: u32,
}

/// The CPUID answers that feature detection read: leaf 0, and leaves 1 and
/// 7 where the processor has them.
pub struct CpuidProbe {
    pub basic: CpuidAnswer,
    pub leaf1: Option<CpuidAnswer>,
    pub leaf7: Option<CpuidAnswer>,
}

impl CpuidProbe {
    /// Leaf 0 was asked, and leaf 1 and leaf 7, both at subleaf 0, were
    /// asked exactly when leaf 0 reports them.
    pub open spec fn well_asked(&self) -> bool {
        &&& self.basic.leaf == 0 && self.basic.subleaf == 0
        &&& (self.leaf1 is Some) == (self.basic.eax >= 1)
        &&& self.leaf1 is Some ==> self.leaf1.unwrap().leaf == 1 && self.leaf1.unwrap().subleaf == 0
        &&& (self.leaf7 is Some) == (self.basic.eax >= 7)
        &&& self.leaf7 is Some ==> self.leaf7.unwrap().leaf == 7 && self.leaf7.unwrap().subleaf == 0
    }

    /// Leaf 1 `ecx`, or zero where leaf 1 was not asked.
    pub open spec fn leaf1_ecx(&self) -> u32 {
        match self.leaf1 {
            Some(a) => a.ecx,
            None => 0,
        }
    }

    /// Leaf 7 `ebx`, or zero where leaf 7 was not asked.
    pub open spec fn leaf7_ebx(&self) -> u32 {
        match self.leaf7 {
            Some(a) => a.ebx,
            None => 0,
        }
    }

    /// The features these answers report.
    pub open spec fn features(&self) -> SimdFeatures {
        cpuid_features(self.basic.eax, self.leaf1_ecx(), self.leaf7_ebx())
    }
}

/// Ask CPUID for `leaf` and `subleaf`; the answer records what was asked.
fn query(leaf: u32, subleaf: u32) -> (a: CpuidAnswer)
    ensures
        a.leaf == leaf,
        a.subleaf == subleaf,
{
    let (eax, ebx, ecx, edx) = cpuid(leaf, subleaf);
    CpuidAnswer { leaf, subleaf, eax, ebx, ecx, edx }
}

/// Probe the running processor for the SIMD features the hasher knows,
/// decoded by [`features_from_cpuid`] (which does not read which register
/// state the operating system saves) from the answers for leaf 0, and for
/// leaf 1 and leaf 7 at subleaf 0; the answers read come back alongside.
/// Whatever the processor answers, AVX2 counts only together with BMI2.
pub(crate) fn detect_features() -> (r: (SimdFeatures, Ghost<CpuidProbe>))
    ensures
        r.0.avx2_available ==> r.0.bmi2_available,
        r.1@.well_asked(),
        r.0 == r.1@.features(),
{
    let basic = query(0, 0);
    let max_leaf = basic.eax;
    let mut leaf1_ecx: u32 = 0;
    let ghost mut leaf1: Option<CpuidAnswer> = None;
    if max_leaf >= 1 {
        let a = query(1, 0);
        leaf1_ecx = a.ecx;
        proof {
            leaf1 = Some(a);
        }
    }
    let mut leaf7_ebx: u32 = 0;
    let ghost mut leaf7: Option<CpuidAnswer> = None;
    if max_leaf >= 7 {
        let a = query(7, 0);
        leaf7_ebx = a.ebx;
        proof {
            leaf7 = Some(a);
        }
    }
    let f = features_from_cpuid(max_leaf, leaf1_ecx, leaf7_ebx);
    (f, Ghost(CpuidProbe { basic, leaf1, leaf7 }))
}

/// The features reported come from the processor's own answers, asked at
/// the leaves that hold them: SSE4.2 from bit 20 of `ecx` of the answer to
/// leaf 1; BMI2 from bit 8 of `ebx` of the answer to leaf 7, subleaf 0;
/// AVX2 (bits 5 and 8) and AVX-512 (F, DQ and BW: bits 16, 17 and 30) from
/// that same answer, and only where the answer to leaf 1 shows XSAVE turned
/// on by the operating system (`ecx` bits 26 and 27).
pub proof fn law_features_from_cpuid_leaves(p: CpuidProbe)
    requires
        p.well_asked(),
    ensures
        p.features().sse42_available <==> (p.leaf1 is Some && p.leaf1.unwrap().leaf == 1
            && p.leaf1.unwrap().subleaf == 0 && bit_set(p.leaf1.unwrap().ecx, 20)),
        p.features().bmi2_available <==> (p.leaf7 is Some && p.leaf7.unwrap().leaf == 7
            && p.leaf7.unwrap().subleaf == 0 && bit_set(p.leaf7.unwrap().ebx, 8)),
        p.features().avx2_available <==> (p.leaf1 is Some && p.leaf1.unwrap().leaf == 1
            && p.leaf1.unwrap().subleaf == 0 && bit_set(p.leaf1.unwrap().ecx, 26) && bit_set(
            p.leaf1.unwrap().ecx,
            27,
        ) && p.leaf7 is Some && p.leaf7.unwrap().leaf == 7 && p.leaf7.unwrap().subleaf == 0
            && bit_set(p.leaf7.unwrap().ebx, 5) && bit_set(p.leaf7.unwrap().ebx, 8)),
        p.features().avx512_available <==> (p.leaf1 is Some && p.leaf1.unwrap().leaf == 1
            && p.leaf1.unwrap().subleaf == 0 && bit_set(p.leaf1.unwrap().ecx, 26) && bit_set(
            p.leaf1.unwrap().ecx,
            27,
        ) && p.leaf7 is Some && p.leaf7.unwrap().leaf == 7 && p.leaf7.unwrap().subleaf == 0
            && bit_set(p.leaf7.unwrap().ebx, 16) && bit_set(p.leaf7.unwrap().ebx, 17) && bit_set(
            p.leaf7.unwrap().ebx,
            30,
        )),
{
}

} // verus!
