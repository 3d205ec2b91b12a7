//! What each virtual instruction assembles to on AArch64.
//!
//! Every instruction is one word of 32 bits, stored least significant byte
//! first.  `encode` gives the bytes of an instruction, with every
//! displacement that depends on the final layout left out, and `step` the
//! state after it.
use crate::bytes::{le_bytes, le_u32};
use crate::data::{data_bytes, gen_data};
use crate::error::Error;
use crate::ir::{Cond, Ins, Src, Type, R};
use crate::state::{emitted, stepped, Fixup, State, StateView};
use vstd::prelude::*;

verus! {

/// The most code that an assembly may hold when an instruction is added.
pub const MAX_CODE: usize = 0x4000_0000;

impl R {
    /// Whether the register exists on AArch64.
    pub open spec fn spec_is_aarch64(&self) -> bool {
        self.0 < 32
    }

    /// Whether the register exists on AArch64.
    #[verifier::when_used_as_spec(spec_is_aarch64)]
    pub fn is_aarch64(&self) -> (b: bool)
        ensures
            b == self.spec_is_aarch64(),
    {
        self.0 < 32
    }

    /// The register number as it goes into an instruction word.
    pub open spec fn spec_to_aarch64(&self) -> u32 {
        self.0 as u32
    }

    /// The register number as it goes into an instruction word.
    #[verifier::when_used_as_spec(spec_to_aarch64)]
    pub fn to_aarch64(&self) -> (n: u32)
        ensures
            n == self.spec_to_aarch64(),
    {
        self.0 as u32
    }
}

impl Cond {
    /// The condition code of AArch64.
    pub open spec fn spec_a64(&self) -> u32 {
        match *self {
            Cond::Eq => 0x0,
            Cond::Ne => 0x1,
            Cond::Sgt => 0xc,
            Cond::Sge => 0xa,
            Cond::Slt => 0xb,
            Cond::Sle => 0xd,
            Cond::Ugt => 0x8,
            Cond::Uge => 0x2,
            Cond::Ult => 0x3,
            Cond::Ule => 0x9,
        }
    }

    /// The condition code of AArch64.
    #[verifier::when_used_as_spec(spec_a64)]
    pub fn a64(&self) -> (c: u32)
        ensures
            c == self.spec_a64(),
            c < 16,
    {
        match self {
            Cond::Eq => 0x0,
            Cond::Ne => 0x1,
            Cond::Sgt => 0xc,
            Cond::Sge => 0xa,
            Cond::Slt => 0xb,
            Cond::Sle => 0xd,
            Cond::Ugt => 0x8,
            Cond::Uge => 0x2,
            Cond::Ult => 0x3,
            Cond::Ule => 0x9,
        }
    }
}

/// Whether an operand names no register that AArch64 does not have.
pub open spec fn src_ok(s: Src) -> bool {
    match s {
        Src::SR(n) => R(n).is_aarch64(),
        _ => true,
    }
}

/// Whether an instruction names no general-purpose register that AArch64
/// does not have: there are thirty-two.
pub open spec fn regs_ok(i: Ins) -> bool {
    match i {
        Ins::Addr(d, _) | Ins::Movi(d, _) | Ins::Cmpi(d, _) | Ins::Call(d) | Ins::Branch(d) => {
            d.is_aarch64()
        },
        Ins::Ld(_, r, ra, _) | Ins::St(_, r, ra, _) => r.is_aarch64() && ra.is_aarch64(),
        Ins::Add(d, s1, s2)
        | Ins::Sub(d, s1, s2)
        | Ins::And(d, s1, s2)
        | Ins::Or(d, s1, s2)
        | Ins::Xor(d, s1, s2)
        | Ins::Shl(d, s1, s2)
        | Ins::Shr(d, s1, s2)
        | Ins::Sar(d, s1, s2)
        | Ins::Mul(d, s1, s2)
        | Ins::UDiv(d, s1, s2)
        | Ins::SDiv(d, s1, s2) => d.is_aarch64() && s1.is_aarch64() && src_ok(s2),
        Ins::Mov(d, s) | Ins::Cmp(d, s) | Ins::Not(d, s) | Ins::Neg(d, s) => d.is_aarch64()
            && src_ok(s),
        Ins::Sel(_, d, t, f) => d.is_aarch64() && t.is_aarch64() && f.is_aarch64(),
        _ => true,
    }
}

/// Whether an instruction is a vector instruction, for which this backend
/// has no encoder.
pub open spec fn is_vector(i: Ins) -> bool {
    i is Vld || i is Vst || i is Vadd || i is Vsub || i is Vand || i is Vor || i is Vxor
        || i is Vshl || i is Vshr || i is Vmul || i is Vmov || i is Vmovi || i is Vnot
        || i is Vneg || i is Vrecpe || i is Vrsqrte
}

/// The bytes of an instruction word.
pub open spec fn word(w: u32) -> Seq<u8> {
    le_bytes(w as int, 4)
}

/// An instruction word with a destination and two sources: `Rd` in bits 0
/// to 4, `Rn` in bits 5 to 9, `Rm` in bits 16 to 20.
pub open spec fn three_reg(op: u32, d: R, n: R, m: R) -> u32 {
    op | d.to_aarch64() | n.to_aarch64() << 5 | m.to_aarch64() << 16
}

/// The opcode of an operation between three registers, or 0 for an
/// instruction that is none.
pub open spec fn three_reg_op(i: Ins) -> u32 {
    match i {
        Ins::Add(_, _, _) => 0xab00_0000,
        Ins::Sub(_, _, _) => 0xeb00_0000,
        Ins::And(_, _, _) => 0x8a00_0000,
        Ins::Or(_, _, _) => 0xaa00_0000,
        Ins::Xor(_, _, _) => 0xca00_0000,
        Ins::Mul(_, _, _) => 0x9b00_7c00,
        Ins::UDiv(_, _, _) => 0x9ac0_0800,
        Ins::SDiv(_, _, _) => 0x9ac0_0c00,
        Ins::Shl(_, _, _) => 0x9ac0_2000,
        Ins::Shr(_, _, _) => 0x9ac0_2400,
        Ins::Sar(_, _, _) => 0x9ac0_2800,
        _ => 0,
    }
}

/// An operation between three registers: the second source must be one.
pub open spec fn arith_bytes(op: u32, d: R, s1: R, s2: Src, i: Ins) -> Result<Seq<u8>, Error> {
    match s2 {
        Src::SR(m) => Ok(word(three_reg(op, d, s1, R(m)))),
        _ => Err(Error::InvalidSrcArgument(i)),
    }
}

/// `movz`: a register is set to an immediate of 16 bits.
pub open spec fn movz_bytes(d: R, v: int, i: Ins) -> Result<Seq<u8>, Error> {
    if 0 <= v < 0x1_0000 {
        Ok(word(0xd280_0000 | d.to_aarch64() | (v as u32) << 5))
    } else {
        Err(Error::InvalidImmediate(i))
    }
}

/// `cmp` with an immediate of 12 bits.
pub open spec fn compare_imm_bytes(l: R, v: int, i: Ins) -> Result<Seq<u8>, Error> {
    if 0 <= v < 0x1000 {
        Ok(word(0xf100_001f | l.to_aarch64() << 5 | (v as u32) << 10))
    } else {
        Err(Error::InvalidImmediate(i))
    }
}

/// `mov`: nothing between a register and itself.
pub open spec fn mov_bytes(d: R, s: Src, i: Ins) -> Result<Seq<u8>, Error> {
    match s {
        Src::SR(m) => Ok(
            if R(m) == d {
                Seq::empty()
            } else {
                word(0xaa00_03e0 | R(m).to_aarch64() << 16 | d.to_aarch64())
            },
        ),
        Src::Imm(v) => movz_bytes(d, v as int, i),
        Src::SV(_) => Err(Error::InvalidSrcArgument(i)),
    }
}

/// `cmp` with a register or an immediate.
pub open spec fn compare_bytes(l: R, s: Src, i: Ins) -> Result<Seq<u8>, Error> {
    match s {
        Src::SR(m) => Ok(word(0xeb00_001f | l.to_aarch64() << 5 | R(m).to_aarch64() << 16)),
        Src::Imm(v) => compare_imm_bytes(l, v as int, i),
        Src::SV(_) => Err(Error::InvalidSrcArgument(i)),
    }
}

/// `mvn` (opcode `aa2003e0`) or `neg` (opcode `cb0003e0`): the source must be
/// a register, and goes into `Rm`.
pub open spec fn unary_bytes(op: u32, d: R, s: Src, i: Ins) -> Result<Seq<u8>, Error> {
    match s {
        Src::SR(m) => Ok(word(op | R(m).to_aarch64() << 16 | d.to_aarch64())),
        _ => Err(Error::InvalidSrcArgument(i)),
    }
}

/// `csel`: the condition in bits 12 to 15.
pub open spec fn sel_word(c: Cond, d: R, t: R, f: R) -> u32 {
    0x9a80_0000 | c.a64() << 12 | f.to_aarch64() << 16 | t.to_aarch64() << 5 | d.to_aarch64()
}

/// An adjustment of the stack pointer by `n` bytes, which must be a multiple
/// of sixteen below 4096.
pub open spec fn frame_bytes(op: u32, n: u32, i: Ins) -> Result<Seq<u8>, Error> {
    if n >= 0x1000 {
        Err(Error::InvalidImmediate(i))
    } else if n % 16 != 0 {
        Err(Error::StackFrameMustBeModulo16(i))
    } else {
        Ok(word(op | n << 10))
    }
}

/// The size in bytes of what a load or store of a type moves, and the
/// opcode, for integers of at most 64 bits.
pub open spec fn mem_form(ty: Type, load: bool) -> Option<(u32, u32)> {
    if load {
        match ty {
            Type::U8 => Some((1u32, 0x3940_0000u32)),
            Type::U16 => Some((2u32, 0x7940_0000u32)),
            Type::U32 => Some((4u32, 0xb940_0000u32)),
            Type::U64 => Some((8u32, 0xf940_0000u32)),
            Type::S8 => Some((1u32, 0x39c0_0000u32)),
            Type::S16 => Some((2u32, 0x79c0_0000u32)),
            Type::S32 => Some((4u32, 0xb980_0000u32)),
            Type::S64 => Some((8u32, 0xf940_0000u32)),
            _ => None,
        }
    } else {
        match ty {
            Type::U8 | Type::S8 => Some((1u32, 0x3900_0000u32)),
            Type::U16 | Type::S16 => Some((2u32, 0x7900_0000u32)),
            Type::U32 | Type::S32 => Some((4u32, 0xb900_0000u32)),
            Type::U64 | Type::S64 => Some((8u32, 0xf900_0000u32)),
            _ => None,
        }
    }
}

/// A load or store with an unsigned offset: the displacement must be a
/// multiple of the size of what is moved, and the multiple must be below
/// 4096.
pub open spec fn mem_bytes(ty: Type, load: bool, r: R, ra: R, disp: i32, i: Ins) -> Result<
    Seq<u8>,
    Error,
> {
    match mem_form(ty, load) {
        None => Err(Error::InvalidType(i)),
        Some((size, op)) => if disp < 0 || (disp as int) % (size as int) != 0 || (disp as int) / (
        size as int) >= 0x1000 {
            Err(Error::InvalidImmediate(i))
        } else {
            Ok(
                word(
                    op | (((disp as int) / (size as int)) as u32) << 10 | ra.to_aarch64() << 5
                        | r.to_aarch64(),
                ),
            )
        },
    }
}

/// The bytes of an instruction, or the reason why it has none.
///
/// A label has no bytes.  A reference to a label is a word that the resolver
/// overwrites.
pub open spec fn encode(i: Ins) -> Result<Seq<u8>, Error> {
    if !regs_ok(i) {
        Err(Error::InvalidRegisterNumber(i))
    } else if is_vector(i) {
        Err(Error::VectorOperationNotSupported(i))
    } else {
        match i {
            Ins::Label(_) => Ok(Seq::empty()),
            Ins::Add(d, s1, s2)
            | Ins::Sub(d, s1, s2)
            | Ins::And(d, s1, s2)
            | Ins::Or(d, s1, s2)
            | Ins::Xor(d, s1, s2)
            | Ins::Mul(d, s1, s2)
            | Ins::UDiv(d, s1, s2)
            | Ins::SDiv(d, s1, s2)
            | Ins::Shl(d, s1, s2)
            | Ins::Shr(d, s1, s2)
            | Ins::Sar(d, s1, s2) => arith_bytes(three_reg_op(i), d, s1, s2, i),
            Ins::Addr(_, _) => Ok(word(0x1000_0000)),
            Ins::B(_, _) => Ok(word(0x1000_0000)),
            Ins::J(_) => Ok(word(0x1400_0000)),
            Ins::Movi(d, v) => movz_bytes(d, v as int, i),
            Ins::Mov(d, s) => mov_bytes(d, s, i),
            Ins::Cmp(l, s) => compare_bytes(l, s, i),
            Ins::Cmpi(l, v) => compare_imm_bytes(l, v as int, i),
            Ins::Call(t) => Ok(word(0xd63f_0000 | t.to_aarch64() << 5)),
            Ins::Branch(t) => Ok(word(0xd61f_0000 | t.to_aarch64() << 5)),
            Ins::Ret => Ok(word(0xd65f_03c0)),
            Ins::Not(d, s) => unary_bytes(0xaa20_03e0, d, s, i),
            Ins::Neg(d, s) => unary_bytes(0xcb00_03e0, d, s, i),
            Ins::Sel(c, d, t, f) => Ok(word(sel_word(c, d, t, f))),
            Ins::Enter(n) => frame_bytes(0xd100_03ff, n, i),
            Ins::Leave(n) => frame_bytes(0x9100_03ff, n, i),
            Ins::Ld(ty, r, ra, disp) => mem_bytes(ty, true, r, ra, disp, i),
            Ins::St(ty, r, ra, disp) => mem_bytes(ty, false, r, ra, disp, i),
            Ins::D(ty, v) => data_bytes(ty, v, i),
            _ => Err(Error::VectorOperationNotSupported(i)),
        }
    }
}

/// What the resolver has to know of an instruction: the state with the label
/// or the reference to a label recorded, before the bytes of the instruction
/// are appended.
pub open spec fn record(s: StateView, i: Ins) -> StateView {
    match i {
        Ins::Label(l) => s.label(l),
        Ins::Addr(d, l) => s.fixup(0, Fixup::Adr(d, l)),
        Ins::B(c, l) => s.fixup(0, Fixup::B(c, l)),
        Ins::J(l) => s.fixup(0, Fixup::J(l)),
        _ => s,
    }
}

/// The state after an instruction.
///
/// An assembly whose code has grown beyond `MAX_CODE` takes no further
/// instruction.
pub open spec fn step(s: StateView, i: Ins) -> Result<StateView, Error> {
    if s.code.len() > MAX_CODE {
        Err(Error::CodeTooBig)
    } else {
        match encode(i) {
            Ok(b) => Ok(record(s, i).emit(b)),
            Err(e) => Err(e),
        }
    }
}

/// Whether an operand names no register that AArch64 does not have.
pub fn src_is_ok(s: Src) -> (b: bool)
    ensures
        b == src_ok(s),
{
    match s {
        Src::SR(n) => n < 32,
        _ => true,
    }
}

/// Whether an instruction names no general-purpose register that AArch64
/// does not have.
pub fn regs_are_ok(i: Ins) -> (b: bool)
    ensures
        b == regs_ok(i),
{
    match i {
        Ins::Addr(d, _) | Ins::Movi(d, _) | Ins::Cmpi(d, _) | Ins::Call(d) | Ins::Branch(d) => {
            d.is_aarch64()
        },
        Ins::Ld(_, r, ra, _) | Ins::St(_, r, ra, _) => r.is_aarch64() && ra.is_aarch64(),
        Ins::Add(d, s1, s2)
        | Ins::Sub(d, s1, s2)
        | Ins::And(d, s1, s2)
        | Ins::Or(d, s1, s2)
        | Ins::Xor(d, s1, s2)
        | Ins::Shl(d, s1, s2)
        | Ins::Shr(d, s1, s2)
        | Ins::Sar(d, s1, s2)
        | Ins::Mul(d, s1, s2)
        | Ins::UDiv(d, s1, s2)
        | Ins::SDiv(d, s1, s2) => d.is_aarch64() && s1.is_aarch64() && src_is_ok(s2),
        Ins::Mov(d, s) | Ins::Cmp(d, s) | Ins::Not(d, s) | Ins::Neg(d, s) => d.is_aarch64()
            && src_is_ok(s),
        Ins::Sel(_, d, t, f) => d.is_aarch64() && t.is_aarch64() && f.is_aarch64(),
        _ => true,
    }
}

/// Whether an instruction is a vector instruction.
pub fn is_vector_ins(i: Ins) -> (b: bool)
    ensures
        b == is_vector(i),
{
    match i {
        Ins::Vld(..)
        | Ins::Vst(..)
        | Ins::Vadd(..)
        | Ins::Vsub(..)
        | Ins::Vand(..)
        | Ins::Vor(..)
        | Ins::Vxor(..)
        | Ins::Vshl(..)
        | Ins::Vshr(..)
        | Ins::Vmul(..)
        | Ins::Vmov(..)
        | Ins::Vmovi(..)
        | Ins::Vnot(..)
        | Ins::Vneg(..)
        | Ins::Vrecpe(..)
        | Ins::Vrsqrte(..) => true,
        _ => false,
    }
}

/// Emits an instruction word.
pub fn gen_word(state: &mut State, w: u32)
    ensures
        final(state)@ == old(state)@.emit(word(w)),
{
    state.emit(&le_u32(w));
}

/// Emits an operation between three registers.
pub fn arith(state: &mut State, opcode: u32, dest: R, src1: R, src2: R)
    ensures
        final(state)@ == old(state)@.emit(word(three_reg(opcode, dest, src1, src2))),
{
    let coding = opcode | dest.to_aarch64() | src1.to_aarch64() << 5 | src2.to_aarch64() << 16;
    gen_word(state, coding);
}

/// Emits `movz`, `movk` or `movn`, by the opcode: an immediate of 16 bits,
/// shifted by a multiple of 16 bits.
pub fn movzkn(state: &mut State, opcode: u32, dest: R, imm: u32, shift: u32)
    requires
        imm < 0x1_0000,
        shift < 4,
    ensures
        final(state)@ == old(state)@.emit(
            word(opcode | dest.to_aarch64() | imm << 5 | shift << 21),
        ),
{
    let coding = opcode | dest.to_aarch64() | imm << 5 | shift << 21;
    gen_word(state, coding);
}

/// Emits `movz` for an immediate.
fn gen_movz(state: &mut State, dest: R, v: i128, i: Ins) -> (r: Result<(), Error>)
    ensures
        emitted(old(state)@, r, final(state)@, movz_bytes(dest, v as int, i)),
{
    if 0 <= v && v < 0x1_0000 {
        let imm = v as u32;
        let ghost a = 0xd280_0000u32 | dest.to_aarch64() | imm << 5;
        assert(a | 0u32 << 21 == a) by (bit_vector);
        movzkn(state, 0xd280_0000, dest, imm, 0);
        Ok(())
    } else {
        Err(Error::InvalidImmediate(i))
    }
}

/// Emits `cmp` with an immediate.
fn gen_compare_imm(state: &mut State, lhs: R, v: i128, i: Ins) -> (r: Result<(), Error>)
    ensures
        emitted(old(state)@, r, final(state)@, compare_imm_bytes(lhs, v as int, i)),
{
    if 0 <= v && v < 0x1000 {
        let opcode = 0xf100_001f_u32 | lhs.to_aarch64() << 5 | (v as u32) << 10;
        gen_word(state, opcode);
        Ok(())
    } else {
        Err(Error::InvalidImmediate(i))
    }
}

/// Emits an adjustment of the stack pointer.
fn gen_frame(state: &mut State, op: u32, imm: u32, i: Ins) -> (r: Result<(), Error>)
    ensures
        emitted(old(state)@, r, final(state)@, frame_bytes(op, imm, i)),
{
    if imm >= 0x1000 {
        return Err(Error::InvalidImmediate(i));
    }
    if imm % 16 != 0 {
        return Err(Error::StackFrameMustBeModulo16(i));
    }
    gen_word(state, op | imm << 10);
    Ok(())
}

/// The size and opcode of a load or store.
fn mem_form_of(ty: Type, load: bool) -> (f: Option<(u32, u32)>)
    ensures
        f == mem_form(ty, load),
        f matches Some(so) ==> so.0 == 1 || so.0 == 2 || so.0 == 4 || so.0 == 8,
{
    let size: u32 = match ty {
        Type::U8 | Type::S8 => 1,
        Type::U16 | Type::S16 => 2,
        Type::U32 | Type::S32 => 4,
        Type::U64 | Type::S64 => 8,
        _ => {
            return None;
        },
    };
    let op: u32 = if load {
        match ty {
            Type::U8 => 0x3940_0000,   // ldrb w0, [x0, #0]
            Type::U16 => 0x7940_0000,  // ldrh w0, [x0, #0]
            Type::U32 => 0xb940_0000,  // ldr w0, [x0, #0]
            Type::S8 => 0x39c0_0000,   // ldrsb w0, [x0, #0]
            Type::S16 => 0x79c0_0000,  // ldrsh w0, [x0, #0]
            Type::S32 => 0xb980_0000,  // ldrsw x0, [x0, #0]
            _ => 0xf940_0000,  // ldr x0, [x0, #0]
        }
    } else {
        match size {
            1 => 0x3900_0000,  // strb w0, [x0, #0]
            2 => 0x7900_0000,  // strh w0, [x0, #0]
            4 => 0xb900_0000,  // str w0, [x0, #0]
            _ => 0xf900_0000,  // str x0, [x0, #0]
        }
    };
    Some((size, op))
}

/// Emits a load or a store.
fn gen_mem(state: &mut State, ty: Type, load: bool, r: R, ra: R, imm: i32, i: Ins) -> (res: Result<
    (),
    Error,
>)
    ensures
        emitted(old(state)@, res, final(state)@, mem_bytes(ty, load, r, ra, imm, i)),
{
    let Some((size, op)) = mem_form_of(ty, load) else {
        return Err(Error::InvalidType(i));
    };
    if imm < 0 {
        return Err(Error::InvalidImmediate(i));
    }
    let disp = imm as u32;
    if disp % size != 0 || disp / size >= 0x1000 {
        return Err(Error::InvalidImmediate(i));
    }
    let opcode = op | (disp / size) << 10 | ra.to_aarch64() << 5 | r.to_aarch64();
    gen_word(state, opcode);
    Ok(())
}

/// Emits an instruction that has operands in registers or immediates.
fn gen_operate(state: &mut State, i: Ins) -> (r: Result<(), Error>)
    requires
        regs_ok(i),
        i is Movi || i is Mov || i is Cmp || i is Cmpi || i is Not || i is Neg,
    ensures
        emitted(old(state)@, r, final(state)@, encode(i)),
{
    match i {
        Ins::Movi(dest, value) => gen_movz(state, dest, value as i128, i),
        Ins::Mov(d, src) => match src {
            Src::SR(m) => {
                if R(m) != d {
                    let opcode = 0xaa00_03e0_u32 | R(m).to_aarch64() << 16 | d.to_aarch64();
                    gen_word(state, opcode);
                } else {
                    assert(state@.code =~= old(state)@.code + Seq::<u8>::empty());
                }
                Ok(())
            },
            Src::Imm(v) => gen_movz(state, d, v as i128, i),
            Src::SV(_) => Err(Error::InvalidSrcArgument(i)),
        },
        Ins::Cmp(lhs, src) => match src {
            Src::SR(m) => {
                let opcode = 0xeb00_001f_u32 | lhs.to_aarch64() << 5 | R(m).to_aarch64() << 16;
                gen_word(state, opcode);
                Ok(())
            },
            Src::Imm(v) => gen_compare_imm(state, lhs, v as i128, i),
            Src::SV(_) => Err(Error::InvalidSrcArgument(i)),
        },
        Ins::Cmpi(lhs, imm) => gen_compare_imm(state, lhs, imm as i128, i),
        Ins::Not(d, src) => match src {
            Src::SR(m) => {
                gen_word(state, 0xaa20_03e0_u32 | R(m).to_aarch64() << 16 | d.to_aarch64());
                Ok(())
            },
            _ => Err(Error::InvalidSrcArgument(i)),
        },
        Ins::Neg(d, src) => match src {
            Src::SR(m) => {
                gen_word(state, 0xcb00_03e0_u32 | R(m).to_aarch64() << 16 | d.to_aarch64());
                Ok(())
            },
            _ => Err(Error::InvalidSrcArgument(i)),
        },
        _ => Ok(()),
    }
}

/// Emits an operation between three registers.
fn gen_arith(state: &mut State, i: Ins) -> (r: Result<(), Error>)
    requires
        regs_ok(i),
        i is Add || i is Sub || i is And || i is Or || i is Xor || i is Mul || i is UDiv || i is SDiv
            || i is Shl || i is Shr || i is Sar,
    ensures
        emitted(old(state)@, r, final(state)@, encode(i)),
{
    let (op, dest, src1, src2): (u32, R, R, Src) = match i {
        Ins::Add(d, s1, s2) => (0xab00_0000, d, s1, s2),
        Ins::Sub(d, s1, s2) => (0xeb00_0000, d, s1, s2),
        Ins::And(d, s1, s2) => (0x8a00_0000, d, s1, s2),
        Ins::Or(d, s1, s2) => (0xaa00_0000, d, s1, s2),
        Ins::Xor(d, s1, s2) => (0xca00_0000, d, s1, s2),
        Ins::Mul(d, s1, s2) => (0x9b00_7c00, d, s1, s2),
        Ins::UDiv(d, s1, s2) => (0x9ac0_0800, d, s1, s2),
        Ins::SDiv(d, s1, s2) => (0x9ac0_0c00, d, s1, s2),
        Ins::Shl(d, s1, s2) => (0x9ac0_2000, d, s1, s2),
        Ins::Shr(d, s1, s2) => (0x9ac0_2400, d, s1, s2),
        Ins::Sar(d, s1, s2) => (0x9ac0_2800, d, s1, s2),
        _ => (0, R(0), R(0), Src::Imm(0)),
    };
    let Some(src2) = src2.as_reg() else {
        return Err(Error::InvalidSrcArgument(i));
    };
    arith(state, op, dest, src1, src2);
    Ok(())
}

/// Emits an instruction that refers to no label.
fn gen_plain(state: &mut State, i: Ins) -> (r: Result<(), Error>)
    requires
        regs_ok(i),
        !is_vector(i),
        !(i is Label || i is Addr || i is B || i is J),
    ensures
        emitted(old(state)@, r, final(state)@, encode(i)),
{
    match i {
        Ins::Add(..)
        | Ins::Sub(..)
        | Ins::And(..)
        | Ins::Or(..)
        | Ins::Xor(..)
        | Ins::Mul(..)
        | Ins::UDiv(..)
        | Ins::SDiv(..)
        | Ins::Shl(..)
        | Ins::Shr(..)
        | Ins::Sar(..) => gen_arith(state, i),
        Ins::Movi(..) | Ins::Mov(..) | Ins::Cmp(..) | Ins::Cmpi(..) | Ins::Not(..) | Ins::Neg(
            ..,
        ) => gen_operate(state, i),
        Ins::Call(target) => {
            gen_word(state, 0xd63f_0000_u32 | target.to_aarch64() << 5);
            Ok(())
        },
        Ins::Branch(target) => {
            gen_word(state, 0xd61f_0000_u32 | target.to_aarch64() << 5);
            Ok(())
        },
        Ins::Ret => {
            gen_word(state, 0xd65f_03c0);
            Ok(())
        },
        Ins::Sel(cond, d, t, f) => {
            let opcode = 0x9a80_0000_u32 | cond.a64() << 12 | f.to_aarch64() << 16
                | t.to_aarch64() << 5 | d.to_aarch64();
            gen_word(state, opcode);
            Ok(())
        },
        Ins::Enter(imm) => gen_frame(state, 0xd100_03ff, imm, i),
        Ins::Leave(imm) => gen_frame(state, 0x9100_03ff, imm, i),
        Ins::Ld(ty, r, ra, imm) => gen_mem(state, ty, true, r, ra, imm, i),
        Ins::St(ty, r, ra, imm) => gen_mem(state, ty, false, r, ra, imm, i),
        Ins::D(ty, value) => gen_data(state, ty, value, i),
        _ => Ok(()),
    }
}

/// Emits an instruction and records what the resolver has to know of it.
pub fn gen_ins(state: &mut State, i: Ins) -> (r: Result<(), Error>)
    ensures
        stepped(old(state)@, r, final(state)@, step(old(state)@, i)),
{
    if state.code.len() > MAX_CODE {
        return Err(Error::CodeTooBig);
    }
    if !regs_are_ok(i) {
        return Err(Error::InvalidRegisterNumber(i));
    }
    if is_vector_ins(i) {
        return Err(Error::VectorOperationNotSupported(i));
    }
    match i {
        Ins::Label(label) => {
            state.label(label);
            assert(state@.code =~= state@.code + Seq::<u8>::empty());
            Ok(())
        },
        Ins::Addr(dest, label) => {
            state.fixup(0, Fixup::Adr(dest, label));
            gen_word(state, 0x1000_0000);
            Ok(())
        },
        Ins::B(cond, label) => {
            state.fixup(0, Fixup::B(cond, label));
            gen_word(state, 0x1000_0000);
            Ok(())
        },
        Ins::J(label) => {
            state.fixup(0, Fixup::J(label));
            gen_word(state, 0x1400_0000);
            Ok(())
        },
        _ => gen_plain(state, i),
    }
}

} // verus!
