//! What each virtual instruction assembles to on x86-64.
//!
//! `encode` gives the bytes of an instruction, with every displacement that
//! depends on the final layout left zero.  `step` gives the state after the
//! instruction: its bytes are appended, and a label, a reference to a label
//! or a reference to the constant pool is recorded for the resolver.
use crate::bytes::{as_signed, to_signed};
use crate::data::{data_bytes, gen_data};
use crate::error::Error;
use crate::ir::{CpuLevel, Ins, Src, Type, R, V};
use crate::state::{bytes_if, emitted, pool_position, stepped, Fixup, State, StateView};
use crate::x86_64::fields::{modrm, modrm_byte, rex, rex_byte};
use crate::x86_64::memory::{
    gen_load_store,
    ld_bytes,
    load_form_of,
    st_bytes,
    store_form_of,
};
use crate::x86_64::regs::RSP;
use crate::x86_64::scalar::{
    binary_bytes,
    div_bytes,
    gen_binary,
    gen_div,
    gen_mov,
    gen_mov_reg,
    gen_shift,
    gen_unary,
    mov_bytes,
    mov_imm_bytes,
    mov_reg_bytes,
    shift_bytes,
    unary_bytes,
    Alu,
    BinOp,
    DivOp,
    ShiftOp,
    UnOp,
};
use crate::x86_64::vector::{
    gen_vimm,
    gen_vload_store,
    gen_vneg,
    gen_vop,
    vimm_bytes,
    vimm_constant,
    vload_store_bytes,
    vneg_bytes,
    vneg_record,
    vop_bytes,
    VecOp,
};
use vstd::prelude::*;

verus! {

/// The most code that an assembly may hold when an instruction is added, and
/// the largest constant pool.
pub const MAX_CODE: usize = 0x3fff_ff00;

/// Whether an operand names no register that x86-64 does not have.
pub open spec fn src_ok(s: Src) -> bool {
    match s {
        Src::SR(n) => R(n).is_x86(),
        _ => true,
    }
}

/// Whether an instruction names no register that x86-64 does not have:
/// there are sixteen general-purpose and sixteen vector registers.
pub open spec fn regs_ok(i: Ins) -> bool {
    match i {
        Ins::Label(_) | Ins::Enter(_) | Ins::Leave(_) | Ins::B(_, _) | Ins::J(_) | Ins::Ret
        | Ins::D(_, _) => true,
        Ins::Addr(d, _) | Ins::Movi(d, _) | Ins::Cmpi(d, _) | Ins::Call(d) | Ins::Branch(d) => {
            d.is_x86()
        },
        Ins::Ld(_, r, ra, _) | Ins::St(_, r, ra, _) => r.is_x86() && ra.is_x86(),
        Ins::Vld(_, _, v, ra, _) | Ins::Vst(_, _, v, ra, _) => v.is_x86() && ra.is_x86(),
        Ins::Add(d, s1, s2)
        | Ins::Sub(d, s1, s2)
        | Ins::And(d, s1, s2)
        | Ins::Or(d, s1, s2)
        | Ins::Xor(d, s1, s2)
        | Ins::Shl(d, s1, s2)
        | Ins::Shr(d, s1, s2)
        | Ins::Sar(d, s1, s2)
        | Ins::Mul(d, s1, s2)
        | Ins::UDiv(d, s1, s2)
        | Ins::SDiv(d, s1, s2) => d.is_x86() && s1.is_x86() && src_ok(s2),
        Ins::Mov(d, s) | Ins::Cmp(d, s) | Ins::Not(d, s) | Ins::Neg(d, s) => d.is_x86() && src_ok(
            s,
        ),
        Ins::Vadd(_, _, v, v1, v2)
        | Ins::Vsub(_, _, v, v1, v2)
        | Ins::Vand(_, _, v, v1, v2)
        | Ins::Vor(_, _, v, v1, v2)
        | Ins::Vxor(_, _, v, v1, v2)
        | Ins::Vshl(_, _, v, v1, v2)
        | Ins::Vshr(_, _, v, v1, v2)
        | Ins::Vmul(_, _, v, v1, v2) => v.is_x86() && v1.is_x86() && v2.is_x86(),
        Ins::Vmov(_, _, v, v1)
        | Ins::Vnot(_, _, v, v1)
        | Ins::Vneg(_, _, v, v1)
        | Ins::Vrecpe(_, _, v, v1)
        | Ins::Vrsqrte(_, _, v, v1) => v.is_x86() && v1.is_x86(),
        Ins::Vmovi(_, _, v, _) => v.is_x86(),
        Ins::Sel(_, d, t, f) => d.is_x86() && t.is_x86() && f.is_x86(),
    }
}

/// `lea dest, [rip + 0]`: the address of a label, with the displacement left
/// zero.
pub open spec fn addr_site_bytes(dest: R) -> Seq<u8> {
    seq![
        rex_byte(1, dest.to_x86_high(), 0, 0),
        0x8du8,
        modrm_byte(0, dest.to_x86_low(), 5),
        0u8,
        0u8,
        0u8,
        0u8,
    ]
}

/// `call r64` (digit 2) or `jmp r64` (digit 4).
pub open spec fn indirect_bytes(digit: u8, dest: R) -> Seq<u8> {
    bytes_if(dest.to_x86_high() != 0, seq![rex_byte(0, 0, 0, 1)]) + seq![
        0xffu8,
        modrm_byte(3, digit, dest.to_x86_low()),
    ]
}

/// `cmovcc dest, t`.
pub open spec fn cmov_bytes(cc: u8, dest: R, t: R) -> Seq<u8> {
    seq![
        rex_byte(1, dest.to_x86_high(), 0, t.to_x86_high()),
        0x0fu8,
        (0x40 + cc) as u8,
        modrm_byte(3, dest.to_x86_low(), t.to_x86_low()),
    ]
}

/// The condition code that holds exactly when `cc` does not: the codes come
/// in pairs that differ in their lowest bit.
pub open spec fn inverse_cc(cc: u8) -> u8 {
    if cc % 2 == 0 {
        (cc + 1) as u8
    } else {
        (cc - 1) as u8
    }
}

/// A select `dest = cc ? t : f`.
///
/// The value for a condition that does not hold is moved to the destination,
/// then the other value is moved over it if the condition holds.  Where the
/// destination holds the value for a condition that holds, the other value is
/// moved over it if the condition does not hold.
pub open spec fn sel_bytes(cc: u8, dest: R, t: R, f: R) -> Seq<u8> {
    if dest == t {
        bytes_if(f != dest, cmov_bytes(inverse_cc(cc), dest, f))
    } else {
        mov_reg_bytes(dest, f) + cmov_bytes(cc, dest, t)
    }
}

/// An adjustment of the stack pointer by `n` bytes, which must be a multiple
/// of sixteen.
pub open spec fn frame_bytes(op: Alu, n: u32, i: Ins) -> Result<Seq<u8>, Error> {
    if n % 16 != 0 {
        Err(Error::StackFrameMustBeModulo16(i))
    } else {
        binary_bytes(BinOp::Alu(op), R(RSP), R(RSP), Src::Imm(n as i64), i)
    }
}

/// A vector shift to the right: logical for unsigned elements, arithmetic
/// for signed ones.
pub open spec fn vshr_bytes(i: Ins, level: CpuLevel) -> Result<Seq<u8>, Error> {
    match i {
        Ins::Vshr(ty, vsize, v, v1, v2) => match ty {
            Type::U16 | Type::U32 | Type::U64 => vop_bytes(
                VecOp::Shr,
                ty,
                vsize,
                v,
                v1,
                v2,
                level,
                i,
            ),
            Type::S16 | Type::S32 | Type::S64 => vop_bytes(
                VecOp::Sar,
                ty,
                vsize,
                v,
                v1,
                v2,
                level,
                i,
            ),
            _ => Err(Error::UnsupportedVectorOperation(i)),
        },
        _ => Err(Error::UnsupportedVectorOperation(i)),
    }
}

/// Whether an instruction is integer arithmetic or a move.
pub open spec fn is_arith(i: Ins) -> bool {
    i is Add || i is Sub || i is And || i is Or || i is Xor || i is Mul || i is UDiv || i is SDiv
        || i is Not || i is Neg || i is Mov || i is Movi || i is Cmp || i is Cmpi || i is Shl
        || i is Shr || i is Sar
}

/// Whether an instruction is a vector operation between registers, or a
/// vector load or store.
pub open spec fn is_simd(i: Ins) -> bool {
    i is Vld || i is Vst || i is Vadd || i is Vsub || i is Vand || i is Vor || i is Vxor
        || i is Vshl || i is Vshr || i is Vmul || i is Vmov || i is Vrecpe || i is Vrsqrte
}

/// Whether an instruction is a load, a store, a stack adjustment or data.
pub open spec fn is_mem(i: Ins) -> bool {
    i is Enter || i is Leave || i is Ld || i is St || i is D
}

/// The bytes of integer arithmetic or of a move.
#[verifier::opaque]
pub open spec fn arith_bytes(i: Ins) -> Result<Seq<u8>, Error> {
    match i {
        Ins::Add(d, s1, s2) => binary_bytes(BinOp::Alu(Alu::Add), d, s1, s2, i),
        Ins::Sub(d, s1, s2) => binary_bytes(BinOp::Alu(Alu::Sub), d, s1, s2, i),
        Ins::And(d, s1, s2) => binary_bytes(BinOp::Alu(Alu::And), d, s1, s2, i),
        Ins::Or(d, s1, s2) => binary_bytes(BinOp::Alu(Alu::Or), d, s1, s2, i),
        Ins::Xor(d, s1, s2) => binary_bytes(BinOp::Alu(Alu::Xor), d, s1, s2, i),
        Ins::Shl(d, s1, s2) => shift_bytes(ShiftOp::Shl, d, s1, s2, i),
        Ins::Shr(d, s1, s2) => shift_bytes(ShiftOp::Shr, d, s1, s2, i),
        Ins::Sar(d, s1, s2) => shift_bytes(ShiftOp::Sar, d, s1, s2, i),
        Ins::Mul(d, s1, s2) => binary_bytes(BinOp::Mul, d, s1, s2, i),
        Ins::UDiv(d, s1, s2) => div_bytes(DivOp::Unsigned, d, s1, s2, i),
        Ins::SDiv(d, s1, s2) => div_bytes(DivOp::Signed, d, s1, s2, i),
        Ins::Mov(d, s) => mov_bytes(d, s, i),
        Ins::Movi(d, v) => Ok(mov_imm_bytes(d, as_signed(v))),
        Ins::Cmp(s1, s2) => binary_bytes(BinOp::Alu(Alu::Cmp), s1, s1, s2, i),
        Ins::Cmpi(s1, v) => binary_bytes(
            BinOp::Alu(Alu::Cmp),
            s1,
            s1,
            Src::Imm(as_signed(v)),
            i,
        ),
        Ins::Not(d, s) => unary_bytes(UnOp::Not, d, s, i),
        Ins::Neg(d, s) => unary_bytes(UnOp::Neg, d, s, i),
        _ => Err(Error::UnsupportedBaseOperation(i)),
    }
}

/// The bytes of a vector operation between registers, or of a vector load or
/// store.
#[verifier::opaque]
pub open spec fn simd_bytes(i: Ins, level: CpuLevel) -> Result<Seq<u8>, Error> {
    match i {
        Ins::Vld(ty, vsize, v, ra, disp) => vload_store_bytes(
            0x10,
            ty,
            vsize,
            v,
            ra,
            disp,
            level,
            i,
        ),
        Ins::Vst(ty, vsize, v, ra, disp) => vload_store_bytes(
            0x11,
            ty,
            vsize,
            v,
            ra,
            disp,
            level,
            i,
        ),
        Ins::Vadd(ty, vsize, v, v1, v2) => vop_bytes(VecOp::Add, ty, vsize, v, v1, v2, level, i),
        Ins::Vsub(ty, vsize, v, v1, v2) => vop_bytes(VecOp::Sub, ty, vsize, v, v1, v2, level, i),
        Ins::Vand(ty, vsize, v, v1, v2) => vop_bytes(VecOp::And, ty, vsize, v, v1, v2, level, i),
        Ins::Vor(ty, vsize, v, v1, v2) => vop_bytes(VecOp::Or, ty, vsize, v, v1, v2, level, i),
        Ins::Vxor(ty, vsize, v, v1, v2) => vop_bytes(VecOp::Xor, ty, vsize, v, v1, v2, level, i),
        Ins::Vshl(ty, vsize, v, v1, v2) => vop_bytes(VecOp::Shl, ty, vsize, v, v1, v2, level, i),
        Ins::Vshr(_, _, _, _, _) => vshr_bytes(i, level),
        Ins::Vmul(ty, vsize, v, v1, v2) => vop_bytes(VecOp::Mul, ty, vsize, v, v1, v2, level, i),
        Ins::Vmov(ty, vsize, v, v1) => vop_bytes(VecOp::Mov, ty, vsize, v, V(0), v1, level, i),
        Ins::Vrecpe(ty, vsize, v, v1) => vop_bytes(VecOp::Rcp, ty, vsize, v, V(0), v1, level, i),
        Ins::Vrsqrte(ty, vsize, v, v1) => vop_bytes(
            VecOp::Rsqrt,
            ty,
            vsize,
            v,
            V(0),
            v1,
            level,
            i,
        ),
        _ => Err(Error::UnsupportedVectorOperation(i)),
    }
}

/// The bytes of a load, a store, a stack adjustment or data.
#[verifier::opaque]
pub open spec fn mem_bytes(i: Ins) -> Result<Seq<u8>, Error> {
    match i {
        Ins::Enter(n) => frame_bytes(Alu::Sub, n, i),
        Ins::Leave(n) => frame_bytes(Alu::Add, n, i),
        Ins::Ld(ty, r, ra, disp) => ld_bytes(ty, r, ra, disp, i),
        Ins::St(ty, r, ra, disp) => st_bytes(ty, r, ra, disp, i),
        Ins::D(ty, v) => data_bytes(ty, v, i),
        _ => Err(Error::UnsupportedBaseOperation(i)),
    }
}

/// The bytes of an instruction under a capability ceiling, or the reason why
/// it has none.
///
/// A label has no bytes.  A branch is a run of zeros, six for a conditional
/// and five for an unconditional one, which the resolver overwrites.
pub open spec fn encode(i: Ins, level: CpuLevel) -> Result<Seq<u8>, Error> {
    if !regs_ok(i) {
        Err(Error::InvalidRegisterNumber(i))
    } else if is_arith(i) {
        arith_bytes(i)
    } else if is_simd(i) {
        simd_bytes(i, level)
    } else if is_mem(i) {
        mem_bytes(i)
    } else {
        match i {
            Ins::Addr(d, _) => Ok(addr_site_bytes(d)),
            Ins::Vmovi(ty, vsize, v, _) => vimm_bytes(VecOp::Mov, ty, vsize, v, V(0), level, i),
            Ins::Vnot(ty, vsize, v, v1) => vimm_bytes(VecOp::Xor, ty, vsize, v, v1, level, i),
            Ins::Vneg(ty, vsize, v, v1) => vneg_bytes(ty, vsize, v, v1, level, i),
            Ins::Call(d) => Ok(indirect_bytes(2, d)),
            Ins::Branch(d) => Ok(indirect_bytes(4, d)),
            Ins::B(_, _) => Ok(seq![0u8, 0u8, 0u8, 0u8, 0u8, 0u8]),
            Ins::J(_) => Ok(seq![0u8, 0u8, 0u8, 0u8, 0u8]),
            Ins::Sel(c, d, t, f) => Ok(sel_bytes(c.cc(), d, t, f)),
            Ins::Ret => Ok(seq![0xc3u8]),
            // A label, which has no bytes; every other instruction is of one
            // of the groups above.
            _ => Ok(Seq::empty()),
        }
    }
}

/// What the resolver has to know of an instruction: the state with the
/// label, the reference to a label or the reference to the constant pool
/// recorded, before the bytes of the instruction are appended.
pub open spec fn record(s: StateView, i: Ins) -> StateView {
    match i {
        Ins::Label(l) => s.label(l),
        Ins::Addr(d, l) => s.fixup(0, Fixup::Adr(d, l)),
        Ins::B(c, l) => s.fixup(0, Fixup::B(c, l)),
        Ins::J(l) => s.fixup(0, Fixup::J(l)),
        Ins::Vmovi(ty, vsize, _, imm) => {
            let c = vimm_constant(ty, vsize, imm);
            s.intern(c).fixup(4, Fixup::Const(pool_position(s.constants, c) as usize, 4))
        },
        Ins::Vnot(ty, vsize, _, _) => {
            let c = vimm_constant(ty, vsize, 0xffff_ffff_ffff_ffff);
            s.intern(c).fixup(4, Fixup::Const(pool_position(s.constants, c) as usize, 4))
        },
        Ins::Vneg(ty, vsize, _, _) => vneg_record(s, ty, vsize),
        _ => s,
    }
}

/// The state after an instruction.
///
/// An assembly whose code or constant pool has grown beyond `MAX_CODE` takes
/// no further instruction.
pub open spec fn step(s: StateView, i: Ins) -> Result<StateView, Error> {
    if s.code.len() > MAX_CODE || s.constants.len() > MAX_CODE {
        Err(Error::CodeTooBig)
    } else {
        match encode(i, s.cpu_level) {
            Ok(b) => Ok(record(s, i).emit(b)),
            Err(e) => Err(e),
        }
    }
}

/// Whether an operand names no register that x86-64 does not have.
pub fn src_is_ok(s: Src) -> (b: bool)
    ensures
        b == src_ok(s),
{
    match s {
        Src::SR(n) => n < 16,
        _ => true,
    }
}

/// Whether an instruction names no register that x86-64 does not have.
pub fn regs_are_ok(i: Ins) -> (b: bool)
    ensures
        b == regs_ok(i),
{
    match i {
        Ins::Label(_) | Ins::Enter(_) | Ins::Leave(_) | Ins::B(_, _) | Ins::J(_) | Ins::Ret
        | Ins::D(_, _) => true,
        Ins::Addr(d, _) | Ins::Movi(d, _) | Ins::Cmpi(d, _) | Ins::Call(d) | Ins::Branch(d) => {
            d.is_x86()
        },
        Ins::Ld(_, r, ra, _) | Ins::St(_, r, ra, _) => r.is_x86() && ra.is_x86(),
        Ins::Vld(_, _, v, ra, _) | Ins::Vst(_, _, v, ra, _) => v.is_x86() && ra.is_x86(),
        Ins::Add(d, s1, s2)
        | Ins::Sub(d, s1, s2)
        | Ins::And(d, s1, s2)
        | Ins::Or(d, s1, s2)
        | Ins::Xor(d, s1, s2)
        | Ins::Shl(d, s1, s2)
        | Ins::Shr(d, s1, s2)
        | Ins::Sar(d, s1, s2)
        | Ins::Mul(d, s1, s2)
        | Ins::UDiv(d, s1, s2)
        | Ins::SDiv(d, s1, s2) => d.is_x86() && s1.is_x86() && src_is_ok(s2),
        Ins::Mov(d, s) | Ins::Cmp(d, s) | Ins::Not(d, s) | Ins::Neg(d, s) => d.is_x86()
            && src_is_ok(s),
        Ins::Vadd(_, _, v, v1, v2)
        | Ins::Vsub(_, _, v, v1, v2)
        | Ins::Vand(_, _, v, v1, v2)
        | Ins::Vor(_, _, v, v1, v2)
        | Ins::Vxor(_, _, v, v1, v2)
        | Ins::Vshl(_, _, v, v1, v2)
        | Ins::Vshr(_, _, v, v1, v2)
        | Ins::Vmul(_, _, v, v1, v2) => v.is_x86() && v1.is_x86() && v2.is_x86(),
        Ins::Vmov(_, _, v, v1)
        | Ins::Vnot(_, _, v, v1)
        | Ins::Vneg(_, _, v, v1)
        | Ins::Vrecpe(_, _, v, v1)
        | Ins::Vrsqrte(_, _, v, v1) => v.is_x86() && v1.is_x86(),
        Ins::Vmovi(_, _, v, _) => v.is_x86(),
        Ins::Sel(_, d, t, f) => d.is_x86() && t.is_x86() && f.is_x86(),
    }
}

/// Emits an indirect call or jump.
fn gen_indirect(state: &mut State, digit: u8, dest: R)
    requires
        digit < 8,
    ensures
        final(state)@ == old(state)@.emit(indirect_bytes(digit, dest)),
{
    let op = 0xff;
    let modrm = modrm(3, digit, dest.to_x86_low());
    if dest.to_x86_high() == 0 {
        state.emit(&[op, modrm]);
    } else {
        state.emit(&[rex(0, 0, 1, 0), op, modrm]);
    }
    assert(state@.code =~= old(state)@.code + indirect_bytes(digit, dest));
}

/// Emits an adjustment of the stack pointer.
fn gen_frame(state: &mut State, op: Alu, n: u32, i: Ins) -> (r: Result<(), Error>)
    ensures
        emitted(old(state)@, r, final(state)@, frame_bytes(op, n, i)),
{
    if n % 16 != 0 {
        return Err(Error::StackFrameMustBeModulo16(i));
    }
    gen_binary(state, BinOp::Alu(op), R(RSP), R(RSP), Src::Imm(n as i64), i)
}

/// Emits a conditional move.
fn gen_cmov(state: &mut State, cc: u8, dest: R, src: R)
    requires
        cc < 16,
    ensures
        final(state)@ == old(state)@.emit(cmov_bytes(cc, dest, src)),
{
    let rex = rex(dest.to_x86_high(), 0, src.to_x86_high(), 1);
    let modrm = modrm(3, dest.to_x86_low(), src.to_x86_low());
    state.emit(&[rex, 0x0f, 0x40 + cc, modrm]);
}

/// Emits a conditional select.
fn gen_sel(state: &mut State, cc: u8, dest: R, t: R, f: R)
    requires
        cc < 16,
    ensures
        final(state)@ == old(state)@.emit(sel_bytes(cc, dest, t, f)),
{
    if dest == t {
        if f != dest {
            let inverse = if cc % 2 == 0 {
                cc + 1
            } else {
                cc - 1
            };
            gen_cmov(state, inverse, dest, f);
        } else {
            assert(state@.code =~= old(state)@.code + Seq::<u8>::empty());
        }
    } else {
        gen_mov_reg(state, dest, f);
        gen_cmov(state, cc, dest, t);
        assert(state@.code =~= old(state)@.code + (mov_reg_bytes(dest, f) + cmov_bytes(cc, dest, t)));
    }
}

/// Emits a vector shift to the right.
fn gen_vshr(state: &mut State, i: Ins) -> (r: Result<(), Error>)
    requires
        regs_ok(i),
    ensures
        emitted(old(state)@, r, final(state)@, vshr_bytes(i, old(state).cpu_level)),
{
    match i {
        Ins::Vshr(ty, vsize, v, v1, v2) => match ty {
            Type::U16 | Type::U32 | Type::U64 => gen_vop(state, VecOp::Shr, ty, vsize, v, v1, v2, i),
            Type::S16 | Type::S32 | Type::S64 => gen_vop(state, VecOp::Sar, ty, vsize, v, v1, v2, i),
            _ => Err(Error::UnsupportedVectorOperation(i)),
        },
        _ => Err(Error::UnsupportedVectorOperation(i)),
    }
}

/// Emits integer arithmetic or a move.
fn gen_arith(state: &mut State, i: Ins) -> (r: Result<(), Error>)
    requires
        regs_ok(i),
        is_arith(i),
    ensures
        emitted(old(state)@, r, final(state)@, encode(i, old(state).cpu_level)),
{
    reveal(arith_bytes);
    match i {
        Ins::Add(dest, src1, src2) => gen_binary(state, BinOp::Alu(Alu::Add), dest, src1, src2, i),
        Ins::Sub(dest, src1, src2) => gen_binary(state, BinOp::Alu(Alu::Sub), dest, src1, src2, i),
        Ins::And(dest, src1, src2) => gen_binary(state, BinOp::Alu(Alu::And), dest, src1, src2, i),
        Ins::Or(dest, src1, src2) => gen_binary(state, BinOp::Alu(Alu::Or), dest, src1, src2, i),
        Ins::Xor(dest, src1, src2) => gen_binary(state, BinOp::Alu(Alu::Xor), dest, src1, src2, i),
        Ins::Mul(dest, src1, src2) => gen_binary(state, BinOp::Mul, dest, src1, src2, i),
        Ins::UDiv(dest, src1, src2) => gen_div(state, DivOp::Unsigned, dest, src1, src2, i),
        Ins::SDiv(dest, src1, src2) => gen_div(state, DivOp::Signed, dest, src1, src2, i),
        Ins::Not(dest, src) => gen_unary(state, UnOp::Not, dest, src, i),
        Ins::Neg(dest, src) => gen_unary(state, UnOp::Neg, dest, src, i),
        Ins::Mov(dest, src) => gen_mov(state, dest, src, i),
        Ins::Movi(dest, value) => gen_mov(state, dest, Src::Imm(to_signed(value)), i),
        Ins::Cmp(src1, src2) => gen_binary(state, BinOp::Alu(Alu::Cmp), src1, src1, src2, i),
        Ins::Cmpi(src1, value) => gen_binary(
            state,
            BinOp::Alu(Alu::Cmp),
            src1,
            src1,
            Src::Imm(to_signed(value)),
            i,
        ),
        Ins::Shl(dest, src1, src2) => gen_shift(state, ShiftOp::Shl, dest, src1, src2, i),
        Ins::Shr(dest, src1, src2) => gen_shift(state, ShiftOp::Shr, dest, src1, src2, i),
        Ins::Sar(dest, src1, src2) => gen_shift(state, ShiftOp::Sar, dest, src1, src2, i),
        _ => Ok(()),
    }
}

/// Emits a vector operation between registers, or a vector load or store.
fn gen_simd(state: &mut State, i: Ins) -> (r: Result<(), Error>)
    requires
        regs_ok(i),
        is_simd(i),
    ensures
        emitted(old(state)@, r, final(state)@, encode(i, old(state).cpu_level)),
{
    reveal(simd_bytes);
    match i {
        Ins::Vld(ty, vsize, v, ra, imm) => gen_vload_store(state, ty, vsize, 0x10, v, ra, imm, i),
        Ins::Vst(ty, vsize, v, ra, imm) => gen_vload_store(state, ty, vsize, 0x11, v, ra, imm, i),
        Ins::Vadd(ty, vsize, v, v1, v2) => gen_vop(state, VecOp::Add, ty, vsize, v, v1, v2, i),
        Ins::Vsub(ty, vsize, v, v1, v2) => gen_vop(state, VecOp::Sub, ty, vsize, v, v1, v2, i),
        Ins::Vand(ty, vsize, v, v1, v2) => gen_vop(state, VecOp::And, ty, vsize, v, v1, v2, i),
        Ins::Vor(ty, vsize, v, v1, v2) => gen_vop(state, VecOp::Or, ty, vsize, v, v1, v2, i),
        Ins::Vxor(ty, vsize, v, v1, v2) => gen_vop(state, VecOp::Xor, ty, vsize, v, v1, v2, i),
        Ins::Vshl(ty, vsize, v, v1, v2) => gen_vop(state, VecOp::Shl, ty, vsize, v, v1, v2, i),
        Ins::Vshr(_, _, _, _, _) => gen_vshr(state, i),
        Ins::Vmul(ty, vsize, v, v1, v2) => gen_vop(state, VecOp::Mul, ty, vsize, v, v1, v2, i),
        Ins::Vmov(ty, vsize, v, v1) => gen_vop(state, VecOp::Mov, ty, vsize, v, V(0), v1, i),
        Ins::Vrecpe(ty, vsize, v, v1) => gen_vop(state, VecOp::Rcp, ty, vsize, v, V(0), v1, i),
        Ins::Vrsqrte(ty, vsize, v, v1) => gen_vop(state, VecOp::Rsqrt, ty, vsize, v, V(0), v1, i),
        _ => Ok(()),
    }
}

/// Emits a load, a store, a stack adjustment or constant data.
fn gen_mem(state: &mut State, i: Ins) -> (r: Result<(), Error>)
    requires
        regs_ok(i),
        is_mem(i),
    ensures
        emitted(old(state)@, r, final(state)@, encode(i, old(state).cpu_level)),
{
    reveal(mem_bytes);
    match i {
        Ins::Enter(imm) => gen_frame(state, Alu::Sub, imm, i),
        Ins::Leave(imm) => gen_frame(state, Alu::Add, imm, i),
        Ins::Ld(ty, r, ra, imm) => {
            let Some(f) = load_form_of(ty) else {
                return Err(Error::InvalidType(i));
            };
            gen_load_store(state, f, r, ra, imm, i)
        },
        Ins::St(ty, r, ra, imm) => {
            let Some(f) = store_form_of(ty) else {
                return Err(Error::InvalidType(i));
            };
            gen_load_store(state, f, r, ra, imm, i)
        },
        Ins::D(ty, value) => gen_data(state, ty, value, i),
        _ => Ok(()),
    }
}

/// Emits an indirect call or branch, a return or a select.
fn gen_flow(state: &mut State, i: Ins) -> (r: Result<(), Error>)
    requires
        regs_ok(i),
        i is Call || i is Branch || i is Ret || i is Sel,
    ensures
        emitted(old(state)@, r, final(state)@, encode(i, old(state).cpu_level)),
{
    match i {
        Ins::Call(dest) => {
            gen_indirect(state, 2, dest);
            Ok(())
        },
        Ins::Branch(dest) => {
            gen_indirect(state, 4, dest);
            Ok(())
        },
        Ins::Ret => {
            state.emit(&[0xc3]);
            assert(state@.code =~= old(state)@.code + seq![0xc3u8]);
            Ok(())
        },
        Ins::Sel(cond, dest, t, f) => {
            gen_sel(state, cond.cc(), dest, t, f);
            Ok(())
        },
        _ => Ok(()),
    }
}

/// Emits an instruction that refers to nothing outside itself.
fn gen_plain(state: &mut State, i: Ins) -> (r: Result<(), Error>)
    requires
        regs_ok(i),
        !(i is Label || i is Addr || i is B || i is J || i is Vmovi || i is Vnot || i is Vneg),
    ensures
        emitted(old(state)@, r, final(state)@, encode(i, old(state).cpu_level)),
{
    match i {
        Ins::Call(..) | Ins::Branch(..) | Ins::Ret | Ins::Sel(..) => gen_flow(state, i),
        Ins::Enter(..) | Ins::Leave(..) | Ins::Ld(..) | Ins::St(..) | Ins::D(..) => gen_mem(
            state,
            i,
        ),
        Ins::Vld(..)
        | Ins::Vst(..)
        | Ins::Vadd(..)
        | Ins::Vsub(..)
        | Ins::Vand(..)
        | Ins::Vor(..)
        | Ins::Vxor(..)
        | Ins::Vshl(..)
        | Ins::Vshr(..)
        | Ins::Vmul(..)
        | Ins::Vmov(..)
        | Ins::Vrecpe(..)
        | Ins::Vrsqrte(..) => gen_simd(state, i),
        _ => gen_arith(state, i),
    }
}

/// Emits an instruction and records what the resolver has to know of it.
pub fn gen_ins(state: &mut State, i: Ins) -> (r: Result<(), Error>)
    ensures
        stepped(old(state)@, r, final(state)@, step(old(state)@, i)),
{
    if state.code.len() > MAX_CODE || state.constants.len() > MAX_CODE {
        return Err(Error::CodeTooBig);
    }
    if !regs_are_ok(i) {
        return Err(Error::InvalidRegisterNumber(i));
    }
    match i {
        Ins::Label(label) => {
            state.label(label);
            assert(state@.code =~= state@.code + Seq::<u8>::empty());
            Ok(())
        },
        Ins::Addr(dest, label) => {
            state.fixup(0, Fixup::Adr(dest, label));
            let rex = rex(dest.to_x86_high(), 0, 0, 1);
            let modrm = modrm(0, dest.to_x86_low(), 5);
            state.emit(&[rex, 0x8d, modrm, 0x00, 0x00, 0x00, 0x00]);
            Ok(())
        },
        Ins::B(cond, label) => {
            state.fixup(0, Fixup::B(cond, label));
            state.emit(&[0, 0, 0, 0, 0, 0]);
            Ok(())
        },
        Ins::J(label) => {
            state.fixup(0, Fixup::J(label));
            state.emit(&[0, 0, 0, 0, 0]);
            Ok(())
        },
        Ins::Vmovi(ty, vsize, v, imm) => gen_vimm(state, VecOp::Mov, ty, vsize, v, V(0), imm, i),
        Ins::Vnot(ty, vsize, v, v1) => gen_vimm(
            state,
            VecOp::Xor,
            ty,
            vsize,
            v,
            v1,
            0xffff_ffff_ffff_ffff,
            i,
        ),
        Ins::Vneg(ty, vsize, v, v1) => gen_vneg(state, ty, vsize, v, v1, i),
        _ => gen_plain(state, i),
    }
}

} // verus!
