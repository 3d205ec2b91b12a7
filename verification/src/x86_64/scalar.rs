//! Integer instructions: moves, arithmetic, shifts, division, push and pop.
//!
//! Each form has a specification function that gives its bytes, and an
//! emitter that appends exactly those bytes to the code.
use crate::bytes::{fits_i32, fits_i8, le_bytes, le_i32, le_i64, le_i8};
use crate::error::Error;
use crate::ir::{Ins, Src, R};
use crate::state::{bytes_if, emitted, State};
use crate::x86_64::fields::{modrm, modrm_byte, rex, rex_byte};
use crate::x86_64::regs::{RAX, RCX, RDX, RSP};
use vstd::prelude::*;

verus! {

/// The six operations of the arithmetic group, which share their encodings
/// but for a three bit number.
#[derive(Clone, Copy, Debug, PartialEq, Structural)]
pub enum Alu {
    Add,
    Or,
    And,
    Sub,
    Xor,
    Cmp,
}

impl Alu {
    /// The number of the operation: the opcode of its register form is
    /// `8 * digit + 1`, and its immediate form carries the digit in the `reg`
    /// field of ModRM.
    pub open spec fn spec_digit(&self) -> u8 {
        match *self {
            Alu::Add => 0,
            Alu::Or => 1,
            Alu::And => 4,
            Alu::Sub => 5,
            Alu::Xor => 6,
            Alu::Cmp => 7,
        }
    }

    /// The number of the operation.
    #[verifier::when_used_as_spec(spec_digit)]
    pub fn digit(&self) -> (d: u8)
        ensures
            d == self.spec_digit(),
            d < 8,
    {
        match self {
            Alu::Add => 0,
            Alu::Or => 1,
            Alu::And => 4,
            Alu::Sub => 5,
            Alu::Xor => 6,
            Alu::Cmp => 7,
        }
    }
}

/// A binary operation: one of the arithmetic group, or multiplication.
#[derive(Clone, Copy, Debug, PartialEq, Structural)]
pub enum BinOp {
    Alu(Alu),
    Mul,
}

/// A unary operation.
#[derive(Clone, Copy, Debug, PartialEq, Structural)]
pub enum UnOp {
    Not,
    Neg,
}

impl UnOp {
    /// The `reg` field of ModRM that selects the operation under opcode `F7`.
    pub open spec fn spec_digit(&self) -> u8 {
        match *self {
            UnOp::Not => 2,
            UnOp::Neg => 3,
        }
    }

    /// The `reg` field of ModRM that selects the operation under opcode `F7`.
    #[verifier::when_used_as_spec(spec_digit)]
    pub fn digit(&self) -> (d: u8)
        ensures
            d == self.spec_digit(),
            d < 8,
    {
        match self {
            UnOp::Not => 2,
            UnOp::Neg => 3,
        }
    }
}

/// A shift.
#[derive(Clone, Copy, Debug, PartialEq, Structural)]
pub enum ShiftOp {
    Shl,
    Shr,
    Sar,
}

impl ShiftOp {
    /// The `reg` field of ModRM that selects the shift under opcodes `D3`
    /// and `C1`.
    pub open spec fn spec_digit(&self) -> u8 {
        match *self {
            ShiftOp::Shl => 4,
            ShiftOp::Shr => 5,
            ShiftOp::Sar => 7,
        }
    }

    /// The `reg` field of ModRM that selects the shift.
    #[verifier::when_used_as_spec(spec_digit)]
    pub fn digit(&self) -> (d: u8)
        ensures
            d == self.spec_digit(),
            d < 8,
    {
        match self {
            ShiftOp::Shl => 4,
            ShiftOp::Shr => 5,
            ShiftOp::Sar => 7,
        }
    }
}

/// A division.
#[derive(Clone, Copy, Debug, PartialEq, Structural)]
pub enum DivOp {
    Unsigned,
    Signed,
}

impl DivOp {
    /// The `reg` field of ModRM that selects the division under opcode `F7`.
    pub open spec fn spec_digit(&self) -> u8 {
        match *self {
            DivOp::Unsigned => 6,
            DivOp::Signed => 7,
        }
    }

    /// The `reg` field of ModRM that selects the division.
    #[verifier::when_used_as_spec(spec_digit)]
    pub fn digit(&self) -> (d: u8)
        ensures
            d == self.spec_digit(),
            d < 8,
    {
        match self {
            DivOp::Unsigned => 6,
            DivOp::Signed => 7,
        }
    }
}

/// `REX.W op+r`: an opcode that carries the register in its low bits.
pub open spec fn reg_bytes(op: u8, dest: R) -> Seq<u8> {
    seq![rex_byte(1, 0, 0, dest.to_x86_high()), (op + dest.to_x86_low()) as u8]
}

/// `REX.W op /r`: `dest` in `r/m`, `src` in `reg`.
pub open spec fn regreg_bytes(op: u8, dest: R, src: R) -> Seq<u8> {
    seq![
        rex_byte(1, src.to_x86_high(), 0, dest.to_x86_high()),
        op,
        modrm_byte(3, src.to_x86_low(), dest.to_x86_low()),
    ]
}

/// `REX.W pfx op+r`.
pub open spec fn reg_pfx_bytes(pfx: u8, op: u8, dest: R) -> Seq<u8> {
    seq![rex_byte(1, 0, 0, dest.to_x86_high()), pfx, (op + dest.to_x86_low()) as u8]
}

/// `REX.W pfx op /r`: `dest` in `r/m`, `src` in `reg`.
pub open spec fn regreg_pfx_bytes(pfx: u8, op: u8, dest: R, src: R) -> Seq<u8> {
    seq![
        rex_byte(1, src.to_x86_high(), 0, dest.to_x86_high()),
        pfx,
        op,
        modrm_byte(3, src.to_x86_low(), dest.to_x86_low()),
    ]
}

/// `REX.W op /digit`: an opcode of a group, with the operation in `reg` and
/// the register in `r/m`.
pub open spec fn group_bytes(op: u8, digit: u8, rm: R) -> Seq<u8> {
    seq![rex_byte(1, 0, 0, rm.to_x86_high()), op, modrm_byte(3, digit, rm.to_x86_low())]
}

/// `push r64`.
pub open spec fn push_reg_bytes(src: R) -> Seq<u8> {
    if src.to_x86_high() == 0 {
        seq![(0x50 + src.to_x86_low()) as u8]
    } else {
        seq![rex_byte(0, 0, 0, 1), (0x50 + src.to_x86_low()) as u8]
    }
}

/// `push imm`: with one byte where the value fits a signed byte, else with
/// four.
pub open spec fn push_imm_bytes(v: i64) -> Seq<u8> {
    if fits_i8(v as int) {
        seq![0x6au8] + le_bytes(v as int, 1)
    } else {
        seq![0x68u8] + le_bytes(v as int, 4)
    }
}

/// `push`: a register, or an immediate in the signed 32 bit range.
pub open spec fn push_bytes(src: Src, i: Ins) -> Result<Seq<u8>, Error> {
    match src {
        Src::SR(s) => Ok(push_reg_bytes(R(s))),
        Src::Imm(v) => if fits_i32(v as int) {
            Ok(push_imm_bytes(v))
        } else {
            Err(Error::InvalidSrcArgument(i))
        },
        Src::SV(_) => Err(Error::InvalidSrcArgument(i)),
    }
}

/// `pop r64`.
pub open spec fn pop_bytes(dest: R) -> Seq<u8> {
    if dest.to_x86_high() == 0 {
        seq![(0x58 + dest.to_x86_low()) as u8]
    } else {
        seq![rex_byte(0, 0, 0, 1), (0x58 + dest.to_x86_low()) as u8]
    }
}

/// `mov dest, src` between registers: nothing if they are the same.
pub open spec fn mov_reg_bytes(dest: R, src: R) -> Seq<u8> {
    bytes_if(src != dest, regreg_bytes(0x89, dest, src))
}

/// `mov dest, imm`: sign-extended from 32 bits where the value allows it,
/// else with all 64 bits.
pub open spec fn mov_imm_bytes(dest: R, v: i64) -> Seq<u8> {
    if fits_i32(v as int) {
        group_bytes(0xc7, 0, dest) + le_bytes(v as int, 4)
    } else {
        reg_bytes(0xb8, dest) + le_bytes(v as int, 8)
    }
}

/// `mov dest, src`.
pub open spec fn mov_bytes(dest: R, src: Src, i: Ins) -> Result<Seq<u8>, Error> {
    match src {
        Src::SR(s) => Ok(mov_reg_bytes(dest, R(s))),
        Src::Imm(v) => Ok(mov_imm_bytes(dest, v)),
        Src::SV(_) => Err(Error::InvalidSrcArgument(i)),
    }
}

/// An operation of the arithmetic group between registers.
pub open spec fn alu_reg_bytes(op: Alu, dest: R, src: R) -> Seq<u8> {
    regreg_bytes((8 * op.digit() + 1) as u8, dest, src)
}

/// `imul dest, src`.
pub open spec fn mul_reg_bytes(dest: R, src: R) -> Seq<u8> {
    regreg_pfx_bytes(0x0f, 0xaf, src, dest)
}

/// A binary operation with an immediate: the narrow form with one byte
/// where the value fits a signed byte, else the wide form with four.
pub open spec fn imm_form_bytes(op: BinOp, dest: R, v: i64) -> Seq<u8> {
    if fits_i8(v as int) {
        (match op {
            BinOp::Alu(a) => group_bytes(0x83, a.digit(), dest),
            BinOp::Mul => regreg_bytes(0x6b, dest, dest),
        }) + le_bytes(v as int, 1)
    } else {
        (match op {
            BinOp::Alu(a) => group_bytes(0x81, a.digit(), dest),
            BinOp::Mul => regreg_bytes(0x69, dest, dest),
        }) + le_bytes(v as int, 4)
    }
}

/// A binary operation with an immediate, which must be in the signed 32 bit
/// range.
pub open spec fn immediate_bytes(op: BinOp, dest: R, v: i64, i: Ins) -> Result<Seq<u8>, Error> {
    if fits_i32(v as int) {
        Ok(imm_form_bytes(op, dest, v))
    } else {
        Err(Error::InvalidImmediate(i))
    }
}

/// A shift by an immediate count, which must fit a signed byte.
pub open spec fn shift_imm_bytes(op: ShiftOp, dest: R, v: i64) -> Seq<u8> {
    reg_pfx_bytes(0xc1, modrm_byte(3, op.digit(), 0), dest) + le_bytes(v as int, 1)
}

/// A binary operation `dest = src1 op src2`: `src1` is moved to `dest` if
/// they differ, then the operation is applied to `dest` and `src2`.
pub open spec fn binary_bytes(op: BinOp, dest: R, src1: R, src2: Src, i: Ins) -> Result<
    Seq<u8>,
    Error,
> {
    match src2 {
        Src::SR(s) => Ok(
            mov_reg_bytes(dest, src1) + (match op {
                BinOp::Alu(a) => alu_reg_bytes(a, dest, R(s)),
                BinOp::Mul => mul_reg_bytes(dest, R(s)),
            }),
        ),
        Src::Imm(v) => match immediate_bytes(op, dest, v, i) {
            Ok(b) => Ok(mov_reg_bytes(dest, src1) + b),
            Err(e) => Err(e),
        },
        Src::SV(_) => Err(Error::InvalidSrcArgument(i)),
    }
}

/// A unary operation `dest = op src`: `src` is moved to `dest` if they
/// differ, then the operation is applied to `dest`.
pub open spec fn unary_bytes(op: UnOp, dest: R, src: Src, i: Ins) -> Result<Seq<u8>, Error> {
    match src {
        Src::SR(s) => Ok(mov_reg_bytes(dest, R(s)) + group_bytes(0xf7, op.digit(), dest)),
        _ => Err(Error::InvalidSrcArgument(i)),
    }
}

/// `xchg a, b`.
pub open spec fn xchg_bytes(a: R, b: R) -> Seq<u8> {
    regreg_bytes(0x87, a, b)
}

/// Whether a shift by a count in a register can move the first operand to
/// the destination and then the count to `rcx`, without losing either: the
/// count is not the destination, unless the first operand is too; and with
/// `rcx` for the destination, the first operand is the count.
pub open spec fn shift_is_plain(dest: R, src1: R, count: R) -> bool {
    if dest != R(RCX) {
        count != dest || src1 == dest
    } else {
        src1 == count
    }
}

/// The register in which a shift to `rcx` is made: `rax`, or `rdx` where
/// `rax` holds the count.
pub open spec fn shift_temp(count: R) -> R {
    if count == R(RAX) {
        R(RDX)
    } else {
        R(RAX)
    }
}

/// The plain sequence for a shift by a count in a register: the first
/// operand is moved to the destination and the count to `rcx`, which is saved
/// around the shift unless it is the destination.
pub open spec fn shift_plain_bytes(op: ShiftOp, dest: R, src1: R, count: R) -> Seq<u8> {
    bytes_if(dest != R(RCX), push_reg_bytes(R(RCX))) + mov_reg_bytes(dest, src1) + mov_reg_bytes(
        R(RCX),
        count,
    ) + group_bytes(0xd3, op.digit(), dest) + bytes_if(dest != R(RCX), pop_bytes(R(RCX)))
}

/// The sequence for a shift whose count is in its destination, which is not
/// `rcx`: the count is moved to `rcx` before the first operand is moved to
/// the destination; where the first operand is in `rcx`, the two are
/// exchanged.
pub open spec fn shift_swapped_bytes(op: ShiftOp, dest: R, src1: R) -> Seq<u8> {
    push_reg_bytes(R(RCX)) + (if src1 == R(RCX) {
        xchg_bytes(dest, R(RCX))
    } else {
        regreg_bytes(0x89, R(RCX), dest) + regreg_bytes(0x89, dest, src1)
    }) + group_bytes(0xd3, op.digit(), dest) + pop_bytes(R(RCX))
}

/// The sequence for a shift to `rcx`: the shift is made in another register,
/// which is saved around it, and the result is moved to `rcx`.
pub open spec fn shift_to_rcx_bytes(op: ShiftOp, src1: R, count: R) -> Seq<u8> {
    let t = shift_temp(count);
    push_reg_bytes(t) + mov_reg_bytes(t, src1) + mov_reg_bytes(R(RCX), count) + group_bytes(
        0xd3,
        op.digit(),
        t,
    ) + regreg_bytes(0x89, R(RCX), t) + pop_bytes(t)
}

/// A shift by a count in a register.
pub open spec fn shift_reg_bytes(op: ShiftOp, dest: R, src1: R, count: R) -> Seq<u8> {
    if shift_is_plain(dest, src1, count) {
        shift_plain_bytes(op, dest, src1, count)
    } else if dest != R(RCX) {
        shift_swapped_bytes(op, dest, src1)
    } else {
        shift_to_rcx_bytes(op, src1, count)
    }
}

/// A shift `dest = src1 op src2`.
///
/// A count in a register must be in `rcx`.  The count is moved there and the
/// first operand to the destination, in the order, or by the way of another
/// register, that loses neither, whatever registers they are; and every
/// register that is used on the way is saved around the shift, unless it is
/// the destination.  A count that is an immediate must fit a signed byte.
pub open spec fn shift_bytes(op: ShiftOp, dest: R, src1: R, src2: Src, i: Ins) -> Result<
    Seq<u8>,
    Error,
> {
    match src2 {
        Src::SR(s) => Ok(shift_reg_bytes(op, dest, src1, R(s))),
        Src::Imm(v) => if fits_i8(v as int) {
            Ok(mov_reg_bytes(dest, src1) + shift_imm_bytes(op, dest, v))
        } else {
            Err(Error::InvalidSrcArgument(i))
        },
        Src::SV(_) => Err(Error::InvalidSrcArgument(i)),
    }
}

/// Whether a divisor has to be spilled to the stack: an immediate has no
/// register, and `rax` and `rdx` are overwritten before the division.
pub open spec fn div_uses_stack(src2: Src) -> bool {
    match src2 {
        Src::Imm(_) => true,
        Src::SR(s) => s == RAX || s == RDX,
        Src::SV(_) => false,
    }
}

/// What prepares `rdx` for a division: zero for an unsigned one, the sign of
/// `rax` (`cqo`) for a signed one.
pub open spec fn div_extend_bytes(op: DivOp) -> Seq<u8> {
    match op {
        DivOp::Unsigned => mov_imm_bytes(R(RDX), 0),
        DivOp::Signed => seq![0x48u8, 0x99u8],
    }
}

/// The division itself: by the quadword on top of the stack, or by a
/// register.
pub open spec fn div_divide_bytes(op: DivOp, src2: Src) -> Seq<u8> {
    match src2 {
        Src::SR(s) if !div_uses_stack(src2) => group_bytes(0xf7, op.digit(), R(s)),
        _ => div_top_bytes(op),
    }
}

/// A division by the quadword on top of the stack.
pub open spec fn div_top_bytes(op: DivOp) -> Seq<u8> {
    seq![rex_byte(1, 0, 0, 0), 0xf7u8, modrm_byte(0, op.digit(), 4), 0x24u8]
}

/// What saves `rax` and `rdx` before a division: each is pushed unless it
/// is the destination.
pub open spec fn div_save_bytes(dest: R) -> Seq<u8> {
    bytes_if(dest != R(RAX), push_reg_bytes(R(RAX))) + bytes_if(dest != R(RDX), push_reg_bytes(R(RDX)))
}

/// What restores `rdx` and `rax` after a division, in the reverse order.
pub open spec fn div_restore_bytes(dest: R) -> Seq<u8> {
    bytes_if(dest != R(RDX), pop_bytes(R(RDX))) + bytes_if(dest != R(RAX), pop_bytes(R(RAX)))
}

/// What takes a spilled divisor off the stack again: `add rsp, 8`.
pub open spec fn div_release_bytes() -> Seq<u8> {
    group_bytes(0x83, Alu::Add.digit(), R(RSP)) + le_bytes(8, 1)
}

/// A division between the saving and the restoring of `rax` and `rdx`: the
/// divisor is spilled if it must be, the dividend is moved to `rax` and
/// extended into `rdx`, the quotient is moved to the destination, and a
/// spilled divisor is taken off the stack.
pub open spec fn div_core_bytes(op: DivOp, dest: R, src1: R, src2: Src, i: Ins) -> Result<
    Seq<u8>,
    Error,
> {
    let body = mov_reg_bytes(R(RAX), src1) + div_extend_bytes(op) + div_divide_bytes(op, src2)
        + mov_reg_bytes(dest, R(RAX));
    match src2 {
        Src::SV(_) => Err(Error::InvalidSrcArgument(i)),
        _ => if div_uses_stack(src2) {
            match push_bytes(src2, i) {
                Ok(spill) => Ok(spill + body + div_release_bytes()),
                Err(e) => Err(e),
            }
        } else {
            Ok(body)
        },
    }
}

/// A division `dest = src1 / src2`.
///
/// The dividend must be in `rdx:rax` and the quotient comes in `rax`.  So
/// `rax` and `rdx` are saved on the stack around the division, each unless it
/// is the destination; a divisor that is an immediate, `rax` or `rdx` is
/// pushed after them and divided by from the stack; and the stack is back
/// where it was at the end.
pub open spec fn div_bytes(op: DivOp, dest: R, src1: R, src2: Src, i: Ins) -> Result<
    Seq<u8>,
    Error,
> {
    match div_core_bytes(op, dest, src1, src2, i) {
        Ok(core) => Ok(div_save_bytes(dest) + core + div_restore_bytes(dest)),
        Err(e) => Err(e),
    }
}

/// Emits an opcode that carries the register in its low bits: `movabs`.
pub fn gen_reg(state: &mut State, op: u8, dest: R)
    requires
        op <= 0xf8,
    ensures
        final(state)@ == old(state)@.emit(reg_bytes(op, dest)),
{
    let rex = rex(0, 0, dest.to_x86_high(), 1);
    let op = op + dest.to_x86_low();
    state.emit(&[rex, op]);
}

/// Emits a register-to-register form of a one byte opcode.
pub fn gen_regreg(state: &mut State, op: u8, dest: R, src: R)
    ensures
        final(state)@ == old(state)@.emit(regreg_bytes(op, dest, src)),
{
    let rex = rex(src.to_x86_high(), 0, dest.to_x86_high(), 1);
    let modrm = modrm(3, src.to_x86_low(), dest.to_x86_low());
    state.emit(&[rex, op, modrm]);
}

/// Emits a two byte opcode that carries the register in its low bits.
pub fn gen_reg_pfx(state: &mut State, pfx: u8, op: u8, dest: R)
    requires
        op <= 0xf8,
    ensures
        final(state)@ == old(state)@.emit(reg_pfx_bytes(pfx, op, dest)),
{
    let rex = rex(0, 0, dest.to_x86_high(), 1);
    let op = op + dest.to_x86_low();
    state.emit(&[rex, pfx, op]);
}

/// Emits a register-to-register form of a two byte opcode.
pub fn gen_regreg_pfx(state: &mut State, pfx: u8, op: u8, dest: R, src: R)
    ensures
        final(state)@ == old(state)@.emit(regreg_pfx_bytes(pfx, op, dest, src)),
{
    let rex = rex(src.to_x86_high(), 0, dest.to_x86_high(), 1);
    let modrm = modrm(3, src.to_x86_low(), dest.to_x86_low());
    state.emit(&[rex, pfx, op, modrm]);
}

/// Emits an opcode of a group, with the operation in `reg`.
pub fn gen_group(state: &mut State, op: u8, digit: u8, rm: R)
    requires
        digit < 8,
    ensures
        final(state)@ == old(state)@.emit(group_bytes(op, digit, rm)),
{
    let rex = rex(0, 0, rm.to_x86_high(), 1);
    let modrm = modrm(3, digit, rm.to_x86_low());
    state.emit(&[rex, op, modrm]);
}

/// Emits a move.
pub fn gen_mov(state: &mut State, dest: R, src: Src, i: Ins) -> (r: Result<(), Error>)
    ensures
        emitted(old(state)@, r, final(state)@, mov_bytes(dest, src, i)),
{
    if let Some(src) = src.as_reg() {
        if src != dest {
            gen_regreg(state, 0x89, dest, src);
        } else {
            assert(state@.code =~= old(state)@.code + Seq::<u8>::empty());
        }
    } else if let Some(imm) = src.as_imm32() {
        gen_group(state, 0xc7, 0, dest);
        state.emit(&le_i32(imm));
        assert(state@.code =~= old(state)@.code + mov_imm_bytes(dest, imm as i64));
    } else if let Some(imm) = src.as_imm64() {
        gen_reg(state, 0xb8, dest);
        state.emit(&le_i64(imm));
        assert(state@.code =~= old(state)@.code + mov_imm_bytes(dest, imm));
    } else {
        return Err(Error::InvalidSrcArgument(i));
    }
    Ok(())
}

/// Emits a push.
pub fn gen_push(state: &mut State, src: Src, i: Ins) -> (r: Result<(), Error>)
    ensures
        emitted(old(state)@, r, final(state)@, push_bytes(src, i)),
{
    if let Some(src) = src.as_reg() {
        let op = 0x50 + src.to_x86_low();
        if src.to_x86_high() == 0 {
            state.emit(&[op]);
        } else {
            let rex = rex(0, 0, 1, 0);
            state.emit(&[rex, op]);
        }
        assert(state@.code =~= old(state)@.code + push_reg_bytes(src));
    } else if let Some(imm) = src.as_imm8() {
        state.emit(&[0x6a]);
        state.emit(&le_i8(imm));
        assert(state@.code =~= old(state)@.code + (seq![0x6au8] + le_bytes(imm as int, 1)));
    } else if let Some(imm) = src.as_imm32() {
        state.emit(&[0x68]);
        state.emit(&le_i32(imm));
        assert(state@.code =~= old(state)@.code + (seq![0x68u8] + le_bytes(imm as int, 4)));
    } else {
        return Err(Error::InvalidSrcArgument(i));
    }
    Ok(())
}

/// Emits a pop.
pub fn gen_pop(state: &mut State, dest: R)
    ensures
        final(state)@ == old(state)@.emit(pop_bytes(dest)),
{
    let op = 0x58 + dest.to_x86_low();
    if dest.to_x86_high() == 0 {
        state.emit(&[op]);
    } else {
        let rex = rex(0, 0, 1, 0);
        state.emit(&[rex, op]);
    }
    assert(state@.code =~= old(state)@.code + pop_bytes(dest));
}

/// Emits a move between registers: nothing if they are the same.
pub fn gen_mov_reg(state: &mut State, dest: R, src: R)
    ensures
        final(state)@ == old(state)@.emit(mov_reg_bytes(dest, src)),
{
    if src != dest {
        gen_regreg(state, 0x89, dest, src);
    } else {
        assert(state@.code =~= old(state)@.code + Seq::<u8>::empty());
    }
}

/// Emits a binary operation with an immediate.
pub fn gen_immediate(state: &mut State, op: BinOp, dest: R, imm: i64, i: Ins) -> (r: Result<
    (),
    Error,
>)
    ensures
        emitted(old(state)@, r, final(state)@, immediate_bytes(op, dest, imm, i)),
{
    if -0x80 <= imm && imm <= 0x7f {
        match op {
            BinOp::Alu(a) => gen_group(state, 0x83, a.digit(), dest),
            BinOp::Mul => gen_regreg(state, 0x6b, dest, dest),
        }
        state.emit(&le_i8(imm as i8));
        assert(state@.code =~= old(state)@.code + immediate_bytes(op, dest, imm, i).unwrap());
    } else if -0x8000_0000 <= imm && imm <= 0x7fff_ffff {
        match op {
            BinOp::Alu(a) => gen_group(state, 0x81, a.digit(), dest),
            BinOp::Mul => gen_regreg(state, 0x69, dest, dest),
        }
        state.emit(&le_i32(imm as i32));
        assert(state@.code =~= old(state)@.code + immediate_bytes(op, dest, imm, i).unwrap());
    } else {
        return Err(Error::InvalidImmediate(i));
    }
    Ok(())
}

/// Emits a binary operation.
pub fn gen_binary(state: &mut State, op: BinOp, dest: R, src1: R, src2: Src, i: Ins) -> (r: Result<
    (),
    Error,
>)
    ensures
        emitted(old(state)@, r, final(state)@, binary_bytes(op, dest, src1, src2, i)),
{
    if src2.as_vreg().is_some() {
        return Err(Error::InvalidSrcArgument(i));
    }
    if let Some(imm) = src2.as_imm64() {
        if imm < -0x8000_0000 || imm > 0x7fff_ffff {
            return Err(Error::InvalidImmediate(i));
        }
    }
    gen_mov_reg(state, dest, src1);
    if let Some(src2) = src2.as_reg() {
        match op {
            BinOp::Alu(a) => gen_regreg(state, 8 * a.digit() + 1, dest, src2),
            BinOp::Mul => gen_regreg_pfx(state, 0x0f, 0xaf, src2, dest),
        }
        assert(state@.code =~= old(state)@.code + binary_bytes(op, dest, src1, Src::SR(src2.0), i).unwrap());
    } else if let Some(imm) = src2.as_imm64() {
        gen_immediate(state, op, dest, imm, i)?;
        assert(state@.code =~= old(state)@.code + binary_bytes(op, dest, src1, src2, i).unwrap());
    } else {
        return Err(Error::InvalidSrcArgument(i));
    }
    Ok(())
}

/// Emits a unary operation.
pub fn gen_unary(state: &mut State, op: UnOp, dest: R, src: Src, i: Ins) -> (r: Result<(), Error>)
    ensures
        emitted(old(state)@, r, final(state)@, unary_bytes(op, dest, src, i)),
{
    if let Some(src) = src.as_reg() {
        gen_mov_reg(state, dest, src);
        gen_group(state, 0xf7, op.digit(), dest);
        assert(state@.code =~= old(state)@.code + unary_bytes(op, dest, Src::SR(src.0), i).unwrap());
    } else {
        return Err(Error::InvalidSrcArgument(i));
    }
    Ok(())
}

/// Emits the plain sequence for a shift by a count in a register.
fn gen_shift_plain(state: &mut State, op: ShiftOp, dest: R, src1: R, count: R)
    ensures
        final(state)@ == old(state)@.emit(shift_plain_bytes(op, dest, src1, count)),
{
    if dest != R(RCX) {
        gen_push_reg(state, R(RCX));
    }
    let ghost s1 = state@;
    gen_mov_reg(state, dest, src1);
    gen_mov_reg(state, R(RCX), count);
    gen_group(state, 0xd3, op.digit(), dest);
    let ghost s2 = state@;
    if dest != R(RCX) {
        gen_pop(state, R(RCX));
    }
    proof {
        let a = bytes_if(dest != R(RCX), push_reg_bytes(R(RCX)));
        let b = mov_reg_bytes(dest, src1);
        let c = mov_reg_bytes(R(RCX), count);
        let d = group_bytes(0xd3, op.digit(), dest);
        let e = bytes_if(dest != R(RCX), pop_bytes(R(RCX)));
        assert(s1.code =~= old(state)@.code + a);
        assert(s2.code =~= s1.code + b + c + d);
        assert(state@.code =~= s2.code + e);
        assert(state@.code =~= old(state)@.code + (a + b + c + d + e));
    }
}

/// Emits the sequence for a shift whose count is in its destination.
fn gen_shift_swapped(state: &mut State, op: ShiftOp, dest: R, src1: R)
    ensures
        final(state)@ == old(state)@.emit(shift_swapped_bytes(op, dest, src1)),
{
    gen_push_reg(state, R(RCX));
    let ghost s1 = state@;
    if src1 == R(RCX) {
        gen_regreg(state, 0x87, dest, R(RCX));
    } else {
        gen_regreg(state, 0x89, R(RCX), dest);
        gen_regreg(state, 0x89, dest, src1);
    }
    let ghost s2 = state@;
    gen_group(state, 0xd3, op.digit(), dest);
    gen_pop(state, R(RCX));
    proof {
        let a = push_reg_bytes(R(RCX));
        let b = if src1 == R(RCX) {
            xchg_bytes(dest, R(RCX))
        } else {
            regreg_bytes(0x89, R(RCX), dest) + regreg_bytes(0x89, dest, src1)
        };
        let d = group_bytes(0xd3, op.digit(), dest);
        let e = pop_bytes(R(RCX));
        assert(s2.code =~= s1.code + b);
        assert(state@.code =~= old(state)@.code + (a + b + d + e));
    }
}

/// Emits the sequence for a shift to `rcx`.
fn gen_shift_to_rcx(state: &mut State, op: ShiftOp, src1: R, count: R)
    ensures
        final(state)@ == old(state)@.emit(shift_to_rcx_bytes(op, src1, count)),
{
    let t = if count == R(RAX) {
        R(RDX)
    } else {
        R(RAX)
    };
    gen_push_reg(state, t);
    gen_mov_reg(state, t, src1);
    gen_mov_reg(state, R(RCX), count);
    let ghost s1 = state@;
    gen_group(state, 0xd3, op.digit(), t);
    gen_regreg(state, 0x89, R(RCX), t);
    gen_pop(state, t);
    proof {
        let a = push_reg_bytes(t) + mov_reg_bytes(t, src1) + mov_reg_bytes(R(RCX), count);
        let b = group_bytes(0xd3, op.digit(), t) + regreg_bytes(0x89, R(RCX), t) + pop_bytes(t);
        assert(s1.code =~= old(state)@.code + a);
        assert(state@.code =~= s1.code + b);
        assert(state@.code =~= old(state)@.code + shift_to_rcx_bytes(op, src1, count));
    }
}

/// Emits a shift.
pub fn gen_shift(state: &mut State, op: ShiftOp, dest: R, src1: R, src2: Src, i: Ins) -> (r:
    Result<(), Error>)
    ensures
        emitted(old(state)@, r, final(state)@, shift_bytes(op, dest, src1, src2, i)),
{
    if let Some(count) = src2.as_reg() {
        let plain = if dest != R(RCX) {
            count != dest || src1 == dest
        } else {
            src1 == count
        };
        if plain {
            gen_shift_plain(state, op, dest, src1, count);
        } else if dest != R(RCX) {
            gen_shift_swapped(state, op, dest, src1);
        } else {
            gen_shift_to_rcx(state, op, src1, count);
        }
    } else if let Some(imm) = src2.as_imm8() {
        gen_mov_reg(state, dest, src1);
        gen_reg_pfx(state, 0xc1, modrm(3, op.digit(), 0), dest);
        state.emit(&le_i8(imm));
        assert(state@.code =~= old(state)@.code + shift_bytes(op, dest, src1, src2, i).unwrap());
    } else {
        return Err(Error::InvalidSrcArgument(i));
    }
    Ok(())
}

/// Emits the push of a register.
pub fn gen_push_reg(state: &mut State, src: R)
    ensures
        final(state)@ == old(state)@.emit(push_reg_bytes(src)),
{
    let op = 0x50 + src.to_x86_low();
    if src.to_x86_high() == 0 {
        state.emit(&[op]);
    } else {
        let rex = rex(0, 0, 1, 0);
        state.emit(&[rex, op]);
    }
    assert(state@.code =~= old(state)@.code + push_reg_bytes(src));
}

/// Emits what prepares `rdx` for a division.
fn gen_div_extend(state: &mut State, op: DivOp)
    ensures
        final(state)@ == old(state)@.emit(div_extend_bytes(op)),
{
    match op {
        DivOp::Unsigned => {
            gen_group(state, 0xc7, 0, R(RDX));
            state.emit(&le_i32(0));
            assert(state@.code =~= old(state)@.code + mov_imm_bytes(R(RDX), 0));
        },
        DivOp::Signed => {
            // cqto
            state.emit(&[0x48, 0x99]);
        },
    }
}

/// Emits the division itself.
fn gen_div_divide(state: &mut State, op: DivOp, src2: Src)
    requires
        !(src2 is SV),
    ensures
        final(state)@ == old(state)@.emit(div_divide_bytes(op, src2)),
{
    match src2 {
        Src::SR(s) if s != RAX && s != RDX => {
            gen_group(state, 0xf7, op.digit(), R(s));
        },
        _ => {
            // divq (%rsp)
            state.emit(&[rex(0, 0, 0, 1), 0xf7, modrm(0, op.digit(), 4), 0x24]);
        },
    }
}

/// Emits a division but for the saving and restoring of `rax` and `rdx`.
#[verifier::rlimit(30)]
fn gen_div_core(state: &mut State, op: DivOp, dest: R, src1: R, src2: Src, i: Ins) -> (r: Result<
    (),
    Error,
>)
    ensures
        emitted(old(state)@, r, final(state)@, div_core_bytes(op, dest, src1, src2, i)),
{
    let use_stack = src2.as_imm64().is_some() || src2.as_reg() == Some(R(RAX)) || src2.as_reg()
        == Some(R(RDX));
    if src2.as_vreg().is_some() {
        return Err(Error::InvalidSrcArgument(i));
    }
    if use_stack {
        gen_push(state, src2, i)?;
    }
    let ghost s1 = state@;
    gen_mov_reg(state, R(RAX), src1);
    gen_div_extend(state, op);
    gen_div_divide(state, op, src2);
    gen_mov_reg(state, dest, R(RAX));
    let ghost s2 = state@;
    if use_stack {
        gen_group(state, 0x83, Alu::Add.digit(), R(RSP));
        state.emit(&le_i8(8));
    }
    proof {
        let body = mov_reg_bytes(R(RAX), src1) + div_extend_bytes(op) + div_divide_bytes(op, src2)
            + mov_reg_bytes(dest, R(RAX));
        assert(s2.code =~= s1.code + body);
        if use_stack {
            let spill = push_bytes(src2, i).unwrap();
            assert(s1.code =~= old(state)@.code + spill);
            assert(state@.code =~= s2.code + div_release_bytes());
            assert(state@.code =~= old(state)@.code + (spill + body + div_release_bytes()));
        }
    }
    Ok(())
}

/// Div is pretty nasty as it uses the fixed registers rdx:rax.
///
/// Emits a division: saves these registers and deals with the case where
/// they occur as inputs.
pub fn gen_div(state: &mut State, op: DivOp, dest: R, src1: R, src2: Src, i: Ins) -> (r: Result<
    (),
    Error,
>)
    ensures
        emitted(old(state)@, r, final(state)@, div_bytes(op, dest, src1, src2, i)),
{
    let save_rax = dest != R(RAX);
    let save_rdx = dest != R(RDX);
    if src2.as_vreg().is_some() {
        return Err(Error::InvalidSrcArgument(i));
    }
    if let Some(imm) = src2.as_imm64() {
        if imm < -0x8000_0000 || imm > 0x7fff_ffff {
            return Err(Error::InvalidSrcArgument(i));
        }
    }
    if save_rax {
        gen_push_reg(state, R(RAX));
    }
    if save_rdx {
        gen_push_reg(state, R(RDX));
    }
    let ghost s1 = state@;
    gen_div_core(state, op, dest, src1, src2, i)?;
    let ghost s2 = state@;
    if save_rdx {
        gen_pop(state, R(RDX));
    }
    if save_rax {
        gen_pop(state, R(RAX));
    }
    proof {
        let core = div_core_bytes(op, dest, src1, src2, i).unwrap();
        assert(s1.code =~= old(state)@.code + div_save_bytes(dest));
        assert(state@.code =~= s2.code + div_restore_bytes(dest));
        assert(state@.code =~= old(state)@.code + (div_save_bytes(dest) + core + div_restore_bytes(
            dest,
        )));
    }
    Ok(())
}

} // verus!
