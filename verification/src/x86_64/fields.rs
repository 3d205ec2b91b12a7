//! The bit fields that x86-64 instructions are made of: register numbers
//! split into their low three bits and their extension bit, the REX prefix,
//! the ModRM byte, condition codes and index scales.
use crate::ir::{Cond, Scale, R, V};
use vstd::prelude::*;

verus! {

impl R {
    /// Whether the register exists on x86-64.
    pub open spec fn spec_is_x86(&self) -> bool {
        self.0 < 16
    }

    /// Whether the register exists on x86-64.
    #[verifier::when_used_as_spec(spec_is_x86)]
    pub fn is_x86(&self) -> (b: bool)
        ensures
            b == self.spec_is_x86(),
    {
        self.0 < 16
    }

    /// The low three bits of the register number, which go into ModRM.
    pub open spec fn spec_to_x86_low(&self) -> u8 {
        self.0 % 8
    }

    /// The low three bits of the register number, which go into ModRM.
    #[verifier::when_used_as_spec(spec_to_x86_low)]
    pub fn to_x86_low(&self) -> (b: u8)
        ensures
            b == self.spec_to_x86_low(),
            b < 8,
    {
        let n = self.0;
        assert(n & 7 == n % 8) by (bit_vector);
        n & 7
    }

    /// Bit three of the register number, which goes into REX.
    pub open spec fn spec_to_x86_high(&self) -> u8 {
        (self.0 / 8) % 2
    }

    /// Bit three of the register number, which goes into REX.
    #[verifier::when_used_as_spec(spec_to_x86_high)]
    pub fn to_x86_high(&self) -> (b: u8)
        ensures
            b == self.spec_to_x86_high(),
            b < 2,
    {
        let n = self.0;
        assert((n & 8) >> 3 == (n / 8) % 2) by (bit_vector);
        (n & 8) >> 3
    }
}

impl V {
    /// Whether the register exists on x86-64 without AVX-512.
    pub open spec fn spec_is_x86(&self) -> bool {
        self.0 < 16
    }

    /// Whether the register exists on x86-64 without AVX-512.
    #[verifier::when_used_as_spec(spec_is_x86)]
    pub fn is_x86(&self) -> (b: bool)
        ensures
            b == self.spec_is_x86(),
    {
        self.0 < 16
    }

    /// The register number, which goes into the `vvvv` field of VEX.
    pub open spec fn spec_to_x86(&self) -> u8 {
        self.0
    }

    /// The register number, which goes into the `vvvv` field of VEX.
    #[verifier::when_used_as_spec(spec_to_x86)]
    pub fn to_x86(&self) -> (b: u8)
        ensures
            b == self.spec_to_x86(),
    {
        self.0
    }

    /// The low three bits of the register number, which go into ModRM.
    pub open spec fn spec_to_x86_low(&self) -> u8 {
        self.0 % 8
    }

    /// The low three bits of the register number, which go into ModRM.
    #[verifier::when_used_as_spec(spec_to_x86_low)]
    pub fn to_x86_low(&self) -> (b: u8)
        ensures
            b == self.spec_to_x86_low(),
            b < 8,
    {
        let n = self.0;
        assert(n & 7 == n % 8) by (bit_vector);
        n & 7
    }

    /// Bit three of the register number, which goes into VEX.
    pub open spec fn spec_to_x86_high(&self) -> u8 {
        (self.0 / 8) % 2
    }

    /// Bit three of the register number, which goes into VEX.
    #[verifier::when_used_as_spec(spec_to_x86_high)]
    pub fn to_x86_high(&self) -> (b: u8)
        ensures
            b == self.spec_to_x86_high(),
            b < 2,
    {
        let n = self.0;
        assert((n & 8) >> 3 == (n / 8) % 2) by (bit_vector);
        (n & 8) >> 3
    }
}

impl Cond {
    /// The condition code: the low four bits of `Jcc`, `CMOVcc` and `SETcc`.
    pub open spec fn spec_cc(&self) -> u8 {
        match *self {
            Cond::Eq => 0x04,
            Cond::Ne => 0x05,
            Cond::Sgt => 0x0f,
            Cond::Sge => 0x0d,
            Cond::Slt => 0x0c,
            Cond::Sle => 0x0e,
            Cond::Ugt => 0x07,
            Cond::Uge => 0x03,
            Cond::Ult => 0x02,
            Cond::Ule => 0x06,
        }
    }

    /// The condition code: the low four bits of `Jcc`, `CMOVcc` and `SETcc`.
    #[verifier::when_used_as_spec(spec_cc)]
    pub fn cc(&self) -> (b: u8)
        ensures
            b == self.spec_cc(),
            b < 16,
    {
        match self {
            Cond::Eq => 0x04,
            Cond::Ne => 0x05,
            Cond::Sgt => 0x0f,
            Cond::Sge => 0x0d,
            Cond::Slt => 0x0c,
            Cond::Sle => 0x0e,
            Cond::Ugt => 0x07,
            Cond::Uge => 0x03,
            Cond::Ult => 0x02,
            Cond::Ule => 0x06,
        }
    }
}

impl Scale {
    /// The scale field of a SIB byte: the binary logarithm of the factor.
    pub open spec fn spec_to_sib(&self) -> u8 {
        match *self {
            Scale::X1 => 0,
            Scale::X2 => 1,
            Scale::X4 => 2,
            Scale::X8 => 3,
        }
    }

    /// The scale field of a SIB byte: the binary logarithm of the factor.
    #[verifier::when_used_as_spec(spec_to_sib)]
    pub fn to_sib(&self) -> (b: u8)
        ensures
            b == self.spec_to_sib(),
            b < 4,
    {
        match self {
            Scale::X1 => 0,
            Scale::X2 => 1,
            Scale::X4 => 2,
            Scale::X8 => 3,
        }
    }
}

/// The REX prefix `0100WRXB`.
pub open spec fn rex_byte(w: u8, r: u8, x: u8, b: u8) -> u8 {
    (0x40 + w * 8 + r * 4 + x * 2 + b) as u8
}

/// A byte of three fields of two, three and three bits: ModRM
/// (`mod`, `reg`, `r/m`) or SIB (`scale`, `index`, `base`).
pub open spec fn modrm_byte(md: u8, reg: u8, rm: u8) -> u8 {
    (md * 0x40 + reg * 8 + rm) as u8
}

/// The REX prefix with the given `R`, `X`, `B` and `W` bits.
pub fn rex(r: u8, x: u8, b: u8, w: u8) -> (p: u8)
    requires
        r < 2,
        x < 2,
        b < 2,
        w < 2,
    ensures
        p == rex_byte(w, r, x, b),
{
    0x40 + w * 8 + r * 4 + x * 2 + b
}

/// A ModRM or SIB byte from its three fields.
pub fn modrm(md: u8, reg: u8, rm: u8) -> (p: u8)
    requires
        md < 4,
        reg < 8,
        rm < 8,
    ensures
        p == modrm_byte(md, reg, rm),
{
    md * 0x40 + reg * 8 + rm
}

/// The ModRM byte of a register-to-register form: `dest` in `reg`, `src` in
/// `r/m`.
pub fn modr(dest: &R, src: &R) -> (p: u8)
    ensures
        p == modrm_byte(3, dest.to_x86_low(), src.to_x86_low()),
{
    0xc0 + dest.to_x86_low() * 8 + src.to_x86_low()
}

/// The fields of a REX prefix stand at fixed bits, whatever their values:
/// the prefix can be taken apart again.
pub proof fn lemma_rex_fields(w: u8, r: u8, x: u8, b: u8)
    requires
        w < 2,
        r < 2,
        x < 2,
        b < 2,
    ensures
        rex_byte(w, r, x, b) & 0xf0 == 0x40,
        (rex_byte(w, r, x, b) >> 3) & 1 == w,
        (rex_byte(w, r, x, b) >> 2) & 1 == r,
        (rex_byte(w, r, x, b) >> 1) & 1 == x,
        rex_byte(w, r, x, b) & 1 == b,
{
    let p: u8 = (0x40 + w * 8 + r * 4 + x * 2 + b) as u8;
    assert(p & 0xf0 == 0x40 && (p >> 3) & 1 == w && (p >> 2) & 1 == r && (p >> 1) & 1 == x && p & 1
        == b) by (bit_vector)
        requires
            w < 2 && r < 2 && x < 2 && b < 2,
            p == (0x40 + w * 8 + r * 4 + x * 2 + b) as u8,
    ;
}

/// The fields of a ModRM or SIB byte stand at fixed bits, whatever their
/// values: the byte can be taken apart again.
pub proof fn lemma_modrm_fields(md: u8, reg: u8, rm: u8)
    requires
        md < 4,
        reg < 8,
        rm < 8,
    ensures
        modrm_byte(md, reg, rm) >> 6 == md,
        (modrm_byte(md, reg, rm) >> 3) & 7 == reg,
        modrm_byte(md, reg, rm) & 7 == rm,
{
    let p: u8 = (md * 0x40 + reg * 8 + rm) as u8;
    assert(p >> 6 == md && (p >> 3) & 7 == reg && p & 7 == rm) by (bit_vector)
        requires
            md < 4 && reg < 8 && rm < 8,
            p == (md * 0x40 + reg * 8 + rm) as u8,
    ;
}

/// A register number below sixteen is its extension bit and its low three
/// bits: the two fields determine the register.
pub proof fn lemma_register_fields(n: u8)
    requires
        n < 16,
    ensures
        n == R(n).to_x86_high() * 8 + R(n).to_x86_low(),
        n == V(n).to_x86_high() * 8 + V(n).to_x86_low(),
{
}

} // verus!
