//! The virtual instruction set: registers, operands, types and instructions.
//!
//! Everything here is plain data.  What an instruction assembles to is
//! decided by a backend.
use crate::bytes::{as_signed, to_signed};
use vstd::prelude::*;
use vstd::std_specs::convert::FromSpecImpl;

verus! {

/// Virtual 64 bit integer register: an index into the target's
/// general-purpose register file.
#[derive(Clone, Copy, Debug, PartialEq, Structural)]
pub struct R(pub u8);

/// Virtual vector register: an index into the target's vector register file.
#[derive(Clone, Copy, Debug, PartialEq, Structural)]
pub struct V(pub u8);

/// An unsigned 64 bit immediate.
#[derive(Clone, Copy, Debug, PartialEq, Structural)]
pub struct Imm(pub u64);

/// The right-hand operand of an instruction: a register, a vector register
/// or a signed 64 bit immediate.
#[derive(Clone, Copy, Debug, PartialEq, Structural)]
pub enum Src {
    SR(u8),
    SV(u8),
    Imm(i64),
}

impl From<R> for Src {
    fn from(value: R) -> (s: Self) {
        Src::SR(value.0)
    }
}

impl FromSpecImpl<R> for Src {
    open spec fn obeys_from_spec() -> bool {
        true
    }

    open spec fn from_spec(value: R) -> Self {
        Src::SR(value.0)
    }
}

impl From<&R> for Src {
    fn from(value: &R) -> (s: Self) {
        Src::SR(value.0)
    }
}

impl FromSpecImpl<&R> for Src {
    open spec fn obeys_from_spec() -> bool {
        true
    }

    open spec fn from_spec(value: &R) -> Self {
        Src::SR(value.0)
    }
}

impl From<V> for Src {
    fn from(value: V) -> (s: Self) {
        Src::SV(value.0)
    }
}

impl FromSpecImpl<V> for Src {
    open spec fn obeys_from_spec() -> bool {
        true
    }

    open spec fn from_spec(value: V) -> Self {
        Src::SV(value.0)
    }
}

impl From<i64> for Src {
    fn from(value: i64) -> (s: Self) {
        Src::Imm(value)
    }
}

impl FromSpecImpl<i64> for Src {
    open spec fn obeys_from_spec() -> bool {
        true
    }

    open spec fn from_spec(value: i64) -> Self {
        Src::Imm(value)
    }
}

impl Src {
    /// The register, if the operand is one.
    pub fn as_reg(&self) -> (r: Option<R>)
        ensures
            r == (match *self {
                Src::SR(n) => Some(R(n)),
                _ => None,
            }),
    {
        match self {
            Src::SR(n) => Some(R(*n)),
            _ => None,
        }
    }

    /// The vector register, if the operand is one.
    pub fn as_vreg(&self) -> (r: Option<V>)
        ensures
            r == (match *self {
                Src::SV(n) => Some(V(n)),
                _ => None,
            }),
    {
        match self {
            Src::SV(n) => Some(V(*n)),
            _ => None,
        }
    }

    /// The immediate, if the operand is one.
    pub fn as_imm64(&self) -> (r: Option<i64>)
        ensures
            r == (match *self {
                Src::Imm(i) => Some(i),
                _ => None,
            }),
    {
        match self {
            Src::Imm(i) => Some(*i),
            _ => None,
        }
    }

    /// The immediate, if the operand is one that a signed 32 bit field holds.
    pub fn as_imm32(&self) -> (r: Option<i32>)
        ensures
            r == (match *self {
                Src::Imm(i) if i32::MIN <= i <= i32::MAX => Some(i as i32),
                _ => None,
            }),
    {
        match self {
            Src::Imm(i) if -0x8000_0000 <= *i && *i <= 0x7fff_ffff => Some(*i as i32),
            _ => None,
        }
    }

    /// The immediate, if the operand is one that a signed 8 bit field holds.
    pub fn as_imm8(&self) -> (r: Option<i8>)
        ensures
            r == (match *self {
                Src::Imm(i) if i8::MIN <= i <= i8::MAX => Some(i as i8),
                _ => None,
            }),
    {
        match self {
            Src::Imm(i) if -0x80 <= *i && *i <= 0x7f => Some(*i as i8),
            _ => None,
        }
    }
}

/// The outcome of a comparison that a branch or a select tests.
#[derive(Clone, Copy, Debug, PartialEq, Structural)]
pub enum Cond {
    Eq,
    Ne,
    Sgt,
    Sge,
    Slt,
    Sle,
    Ugt,
    Uge,
    Ult,
    Ule,
}

impl Cond {
    /// Whether the condition holds of two numbers: of their bits read as
    /// signed numbers for the signed conditions, as unsigned numbers for the
    /// unsigned ones.
    pub open spec fn spec_holds(&self, a: u64, b: u64) -> bool {
        match *self {
            Cond::Eq => a == b,
            Cond::Ne => a != b,
            Cond::Sgt => as_signed(a) > as_signed(b),
            Cond::Sge => as_signed(a) >= as_signed(b),
            Cond::Slt => as_signed(a) < as_signed(b),
            Cond::Sle => as_signed(a) <= as_signed(b),
            Cond::Ugt => a > b,
            Cond::Uge => a >= b,
            Cond::Ult => a < b,
            Cond::Ule => a <= b,
        }
    }

    /// Whether the condition holds of two numbers.
    #[verifier::when_used_as_spec(spec_holds)]
    pub fn holds(&self, a: u64, b: u64) -> (r: bool)
        ensures
            r == self.spec_holds(a, b),
    {
        match self {
            Cond::Eq => a == b,
            Cond::Ne => a != b,
            Cond::Sgt => to_signed(a) > to_signed(b),
            Cond::Sge => to_signed(a) >= to_signed(b),
            Cond::Slt => to_signed(a) < to_signed(b),
            Cond::Sle => to_signed(a) <= to_signed(b),
            Cond::Ugt => a > b,
            Cond::Uge => a >= b,
            Cond::Ult => a < b,
            Cond::Ule => a <= b,
        }
    }
}

/// The type of a scalar or of a vector element: unsigned, signed or
/// floating point, of 8 to 256 bits.
#[derive(Clone, Copy, Debug, PartialEq, Structural)]
pub enum Type {
    U8,
    U16,
    U32,
    U64,
    U128,
    U256,
    S8,
    S16,
    S32,
    S64,
    S128,
    S256,
    F8,
    F16,
    F32,
    F64,
    F128,
    F256,
}

impl Type {
    /// The width of the type in bits.
    pub open spec fn spec_bits(&self) -> usize {
        match *self {
            Type::U8 | Type::S8 | Type::F8 => 8,
            Type::U16 | Type::S16 | Type::F16 => 16,
            Type::U32 | Type::S32 | Type::F32 => 32,
            Type::U64 | Type::S64 | Type::F64 => 64,
            Type::U128 | Type::S128 | Type::F128 => 128,
            Type::U256 | Type::S256 | Type::F256 => 256,
        }
    }

    /// The width of the type in bits.
    #[verifier::when_used_as_spec(spec_bits)]
    pub fn bits(&self) -> (n: usize)
        ensures
            n == self.spec_bits(),
    {
        match self {
            Type::U8 => 8,
            Type::U16 => 16,
            Type::U32 => 32,
            Type::U64 => 64,
            Type::U128 => 128,
            Type::U256 => 256,
            Type::S8 => 8,
            Type::S16 => 16,
            Type::S32 => 32,
            Type::S64 => 64,
            Type::S128 => 128,
            Type::S256 => 256,
            Type::F8 => 8,
            Type::F16 => 16,
            Type::F32 => 32,
            Type::F64 => 64,
            Type::F128 => 128,
            Type::F256 => 256,
        }
    }
}

/// Vector size
#[derive(Clone, Copy, Debug, PartialEq, Structural)]
pub enum Vsize {
    V8,
    V16,
    V32,
    V64,
    V128,
    V256,
    V512,
    V1024,
    V2048,
}

impl Vsize {
    /// The width of a vector operand in bits.
    pub open spec fn spec_bits(&self) -> usize {
        match *self {
            Vsize::V8 => 8,
            Vsize::V16 => 16,
            Vsize::V32 => 32,
            Vsize::V64 => 64,
            Vsize::V128 => 128,
            Vsize::V256 => 256,
            Vsize::V512 => 512,
            Vsize::V1024 => 1024,
            Vsize::V2048 => 2048,
        }
    }

    /// The width of a vector operand in bits.
    #[verifier::when_used_as_spec(spec_bits)]
    pub fn bits(&self) -> (n: usize)
        ensures
            n == self.spec_bits(),
    {
        match self {
            Vsize::V8 => 8,
            Vsize::V16 => 16,
            Vsize::V32 => 32,
            Vsize::V64 => 64,
            Vsize::V128 => 128,
            Vsize::V256 => 256,
            Vsize::V512 => 512,
            Vsize::V1024 => 1024,
            Vsize::V2048 => 2048,
        }
    }
}

/// The factor by which an index register is scaled in an address.
#[derive(Clone, Copy, Debug, PartialEq, Structural)]
pub enum Scale {
    X1,
    X2,
    X4,
    X8,
}

/// Cpu level supported: the capability ceiling of an assembly.
#[derive(Clone, Copy, Debug, PartialEq, PartialOrd, Structural)]
pub enum CpuLevel {
    /// Core features, no vector instructions.
    Scalar,
    /// 128 bit SIMD.
    Simd128,
    /// 256 bit SIMD.
    Simd256,
    /// 512 bit SIMD.
    Simd512,
}

impl CpuLevel {
    /// The widest vector operand, in bits, that the level allows.
    pub open spec fn spec_max_vbits(&self) -> usize {
        match *self {
            CpuLevel::Scalar => 64,
            CpuLevel::Simd128 => 128,
            CpuLevel::Simd256 => 256,
            CpuLevel::Simd512 => 512,
        }
    }

    /// The widest vector operand, in bits, that the level allows.
    #[verifier::when_used_as_spec(spec_max_vbits)]
    pub fn max_vbits(&self) -> (n: usize)
        ensures
            n == self.spec_max_vbits(),
    {
        match self {
            CpuLevel::Scalar => 64,
            CpuLevel::Simd128 => 128,
            CpuLevel::Simd256 => 256,
            CpuLevel::Simd512 => 512,
        }
    }
}

/// A virtual instruction.
#[derive(Clone, Copy, Debug, PartialEq, Structural)]
pub enum Ins {
    /// Remember a PC-rel location.
    Label(u32),
    /// Function entry: lower the stack pointer.  Must be modulo 16 bytes.
    Enter(u32),
    /// Function exit: raise the stack pointer.  Must be modulo 16 bytes.
    Leave(u32),
    /// Load the address of a label.
    Addr(R, u32),
    /// Load: value register, base register, displacement.
    Ld(Type, R, R, i32),
    /// Store: value register, base register, displacement.
    St(Type, R, R, i32),
    Vld(Type, Vsize, V, R, i32),
    Vst(Type, Vsize, V, R, i32),
    Add(R, R, Src),
    Sub(R, R, Src),
    And(R, R, Src),
    Or(R, R, Src),
    Xor(R, R, Src),
    Shl(R, R, Src),
    Shr(R, R, Src),
    Sar(R, R, Src),
    Mul(R, R, Src),
    UDiv(R, R, Src),
    SDiv(R, R, Src),
    Mov(R, Src),
    Movi(R, u64),
    Cmp(R, Src),
    Cmpi(R, u64),
    Not(R, Src),
    Neg(R, Src),
    Vadd(Type, Vsize, V, V, V),
    Vsub(Type, Vsize, V, V, V),
    Vand(Type, Vsize, V, V, V),
    Vor(Type, Vsize, V, V, V),
    Vxor(Type, Vsize, V, V, V),
    Vshl(Type, Vsize, V, V, V),
    Vshr(Type, Vsize, V, V, V),
    Vmul(Type, Vsize, V, V, V),
    Vmov(Type, Vsize, V, V),
    Vmovi(Type, Vsize, V, u64),
    Vnot(Type, Vsize, V, V),
    Vneg(Type, Vsize, V, V),
    Vrecpe(Type, Vsize, V, V),
    Vrsqrte(Type, Vsize, V, V),
    /// Call indirect.
    Call(R),
    /// Branch indirect.
    Branch(R),
    /// Use the flags to branch conditionally.  Only after a `Cmp`.
    B(Cond, u32),
    /// Branch unconditionally.
    J(u32),
    /// Select: destination, value if the condition holds, value if not.
    Sel(Cond, R, R, R),
    /// Return.
    Ret,
    /// Constant data.
    D(Type, u64),
}

} // verus!
