//! From the features of a processor to the capability ceiling of an assembly.
use crate::ir::CpuLevel;
use vstd::prelude::*;

verus! {

/// The features of an x86-64 processor that decide its level.
#[derive(Clone, Copy, Debug, PartialEq, Structural)]
pub struct CpuFeatures {
    pub sse: bool,
    pub sse2: bool,
    pub sse3: bool,
    pub ssse3: bool,
    pub sse4_1: bool,
    pub sse4_2: bool,
    pub sse4a: bool,
    pub avx: bool,
    pub avx2: bool,
    pub bmi1: bool,
    pub bmi2: bool,
    pub f16c: bool,
    pub fma: bool,
    pub lzcnt: bool,
    pub movbe: bool,
    pub avx512f: bool,
    pub avx512bw: bool,
    pub avx512cd: bool,
    pub avx512dq: bool,
}

impl CpuFeatures {
    /// Whether the processor has what 128 bit SIMD needs.
    pub open spec fn has_simd128(&self) -> bool {
        self.sse && self.sse2 && self.sse3 && self.ssse3 && self.sse4_1 && self.sse4_2
            && self.sse4a
    }

    /// Whether the processor has what 256 bit SIMD needs beyond that.
    pub open spec fn has_simd256(&self) -> bool {
        self.avx && self.avx2 && self.bmi1 && self.bmi2 && self.f16c && self.fma && self.lzcnt
            && self.movbe
    }

    /// Whether the processor has what 512 bit SIMD needs beyond that.
    pub open spec fn has_simd512(&self) -> bool {
        self.avx512f && self.avx512bw && self.avx512cd && self.avx512dq
    }

    /// The highest level all of whose features, and those of every level
    /// below it, the processor has.
    pub open spec fn level(&self) -> CpuLevel {
        if !self.has_simd128() {
            CpuLevel::Scalar
        } else if !self.has_simd256() {
            CpuLevel::Simd128
        } else if !self.has_simd512() {
            CpuLevel::Simd256
        } else {
            CpuLevel::Simd512
        }
    }
}

/// A simplified CPU level specification.
pub fn cpu_level(f: &CpuFeatures) -> (level: CpuLevel)
    ensures
        level == f.level(),
{
    if !f.sse || !f.sse2 || !f.sse3 || !f.ssse3 || !f.sse4_1 || !f.sse4_2 || !f.sse4a {
        CpuLevel::Scalar
    } else if !f.avx || !f.avx2 || !f.bmi1 || !f.bmi2 || !f.f16c || !f.fma || !f.lzcnt
        || !f.movbe {
        CpuLevel::Simd128
    } else if !f.avx512f || !f.avx512bw || !f.avx512cd || !f.avx512dq {
        CpuLevel::Simd256
    } else {
        CpuLevel::Simd512
    }
}

} // verus!
