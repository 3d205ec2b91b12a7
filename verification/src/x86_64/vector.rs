//! Vector instructions, in their VEX encoding.
use crate::bytes::{le_bytes, le_i32, le_u64};
use crate::error::Error;
use crate::ir::{CpuLevel, Ins, Type, Vsize, R, V};
use crate::state::{
    bytes_if,
    emitted,
    lemma_find_from,
    lemma_pool_holds,
    pool_position,
    stepped,
    Fixup,
    State,
    StateView,
};
use crate::x86_64::fields::{modrm, modrm_byte};
use vstd::prelude::*;

verus! {

/// A vector operation that has an opcode of its own.
#[derive(Clone, Copy, Debug, PartialEq, Structural)]
pub enum VecOp {
    Add,
    Sub,
    And,
    Or,
    Xor,
    Shl,
    Shr,
    Sar,
    Mul,
    Mov,
    Rsqrt,
    Rcp,
}

/// The class of an element type, by which the opcode of an operation is
/// chosen: integers of 8, 16, 32 and 64 bits, then single and double
/// precision.  Other types cannot be elements.
pub open spec fn lane(ty: Type) -> Option<u8> {
    match ty {
        Type::U8 | Type::S8 => Some(0),
        Type::U16 | Type::S16 => Some(1),
        Type::U32 | Type::S32 => Some(2),
        Type::U64 | Type::S64 => Some(3),
        Type::F32 => Some(4),
        Type::F64 => Some(5),
        _ => None,
    }
}

/// The mandatory prefix (0 for none, 1 for `66`) and the opcode of an
/// operation on elements of a class, where the instruction set has one.
///
/// The bitwise operations are the same on every class.  Shifts are on
/// integers of at least 16 bits, and the arithmetic shift not on 64 bits;
/// multiplication is on floating point numbers, and the estimates of the
/// reciprocal and of its square root on single precision alone.
pub open spec fn vec_opcode(op: VecOp, lane: u8) -> Option<(u8, u8)> {
    match op {
        VecOp::Add => if lane == 0 {
            Some((1u8, 0xfcu8))
        } else if lane == 1 {
            Some((1u8, 0xfdu8))
        } else if lane == 2 {
            Some((1u8, 0xfeu8))
        } else if lane == 3 {
            Some((1u8, 0xd4u8))
        } else if lane == 4 {
            Some((0u8, 0x58u8))
        } else {
            Some((1u8, 0x58u8))
        },
        VecOp::Sub => if lane == 0 {
            Some((1u8, 0xf8u8))
        } else if lane == 1 {
            Some((1u8, 0xf9u8))
        } else if lane == 2 {
            Some((1u8, 0xfau8))
        } else if lane == 3 {
            Some((1u8, 0xfbu8))
        } else if lane == 4 {
            Some((0u8, 0x5cu8))
        } else {
            Some((1u8, 0x5cu8))
        },
        VecOp::And => Some((1u8, 0xdbu8)),
        VecOp::Or => Some((1u8, 0xebu8)),
        VecOp::Xor => Some((1u8, 0xefu8)),
        VecOp::Shl => if lane == 1 {
            Some((1u8, 0xf1u8))
        } else if lane == 2 {
            Some((1u8, 0xf2u8))
        } else if lane == 3 {
            Some((1u8, 0xf3u8))
        } else {
            None
        },
        VecOp::Shr => if lane == 1 {
            Some((1u8, 0xd1u8))
        } else if lane == 2 {
            Some((1u8, 0xd2u8))
        } else if lane == 3 {
            Some((1u8, 0xd3u8))
        } else {
            None
        },
        VecOp::Sar => if lane == 1 {
            Some((1u8, 0xe1u8))
        } else if lane == 2 {
            Some((1u8, 0xe2u8))
        } else {
            None
        },
        VecOp::Mul => if lane == 4 {
            Some((0u8, 0x59u8))
        } else if lane == 5 {
            Some((1u8, 0x59u8))
        } else {
            None
        },
        VecOp::Mov => Some((0u8, 0x10u8)),
        VecOp::Rsqrt => if lane == 4 {
            Some((0u8, 0x52u8))
        } else {
            None
        },
        VecOp::Rcp => if lane == 4 {
            Some((0u8, 0x53u8))
        } else {
            None
        },
    }
}

/// The second byte of a two byte VEX prefix: `R`, `vvvv`, `L`, `pp`, with
/// `R` and `vvvv` stored inverted.
pub open spec fn vex2_byte(r: u8, v: u8, l: u8, p: u8) -> u8 {
    ((1 - r) * 0x80 + (15 - v) * 8 + l * 4 + p) as u8
}

/// The second byte of a three byte VEX prefix: `R`, `X`, `B`, `mmmmm`, with
/// `R`, `X` and `B` stored inverted.
pub open spec fn vex3_byte1(r: u8, x: u8, b: u8, m: u8) -> u8 {
    ((1 - r) * 0x80 + (1 - x) * 0x40 + (1 - b) * 0x20 + m) as u8
}

/// The third byte of a three byte VEX prefix: `W`, `vvvv`, `L`, `pp`, with
/// `vvvv` stored inverted.
pub open spec fn vex3_byte2(w: u8, v: u8, l: u8, p: u8) -> u8 {
    (w * 0x80 + (15 - v) * 8 + l * 4 + p) as u8
}

/// Whether the two byte VEX prefix can carry the fields.
pub open spec fn vex_is_short(x: u8, b: u8, w: u8, m: u8) -> bool {
    w == 0 && b == 0 && x == 0 && m == 1
}

/// A VEX prefix, in its two byte form where that can carry the fields, with
/// the opcode and the ModRM byte that follow it.
pub open spec fn vex_bytes(
    r: u8,
    x: u8,
    b: u8,
    w: u8,
    m: u8,
    v: u8,
    l: u8,
    p: u8,
    op: u8,
    modrm: u8,
) -> Seq<u8> {
    if vex_is_short(x, b, w, m) {
        seq![0xc5u8, vex2_byte(r, v, l, p), op, modrm]
    } else {
        seq![0xc4u8, vex3_byte1(r, x, b, m), vex3_byte2(w, v, l, p), op, modrm]
    }
}

/// The `L` bit for a vector width: 0 for 128 bits, 1 for 256.
///
/// A width above the capability ceiling is refused, and so is one that the
/// VEX encoding cannot express.
pub open spec fn vex_length(vsize: Vsize, level: CpuLevel, i: Ins) -> Result<u8, Error> {
    if vsize.bits() > level.max_vbits() {
        Err(Error::CpuLevelTooLow(i))
    } else if vsize.bits() > 256 {
        Err(Error::InvalidType(i))
    } else if vsize.bits() < 128 {
        Err(Error::VectorSizeNotSupported(i))
    } else if vsize == Vsize::V128 {
        Ok(0u8)
    } else {
        Ok(1u8)
    }
}

/// The `L` bit, prefix and opcode of an operation on vectors of a given
/// width and element type.
pub open spec fn vec_form(op: VecOp, ty: Type, vsize: Vsize, level: CpuLevel, i: Ins) -> Result<
    (u8, u8, u8),
    Error,
> {
    match vex_length(vsize, level, i) {
        Err(e) => Err(e),
        Ok(l) => match lane(ty) {
            None => Err(Error::UnsupportedVectorOperation(i)),
            Some(k) => match vec_opcode(op, k) {
                None => Err(Error::UnsupportedVectorOperation(i)),
                Some((p, o)) => Ok((l, p, o)),
            },
        },
    }
}

/// An operation `v = v1 op v2` between vector registers.
pub open spec fn vop_bytes(
    op: VecOp,
    ty: Type,
    vsize: Vsize,
    v: V,
    v1: V,
    v2: V,
    level: CpuLevel,
    i: Ins,
) -> Result<Seq<u8>, Error> {
    match vec_form(op, ty, vsize, level, i) {
        Err(e) => Err(e),
        Ok((l, p, o)) => Ok(
            vex_bytes(
                v.to_x86_high(),
                0,
                v2.to_x86_high(),
                0,
                1,
                v1.to_x86(),
                l,
                p,
                o,
                modrm_byte(3, v.to_x86_low(), v2.to_x86_low()),
            ),
        ),
    }
}

/// A load or store of a vector register (`vmovups`), always with a four byte
/// displacement.  A base whose low bits are 4 takes a SIB byte.
pub open spec fn vload_store_bytes(
    op: u8,
    ty: Type,
    vsize: Vsize,
    v: V,
    base: R,
    disp: i32,
    level: CpuLevel,
    i: Ins,
) -> Result<Seq<u8>, Error> {
    match vex_length(vsize, level, i) {
        Err(e) => Err(e),
        Ok(l) => if ty.bits() > vsize.bits() {
            Err(Error::InvalidType(i))
        } else {
            Ok(
                vex_bytes(
                    v.to_x86_high(),
                    0,
                    base.to_x86_high(),
                    0,
                    1,
                    0,
                    l,
                    0,
                    op,
                    modrm_byte(2, v.to_x86_low(), base.to_x86_low()),
                ) + bytes_if(base.to_x86_low() == 4, seq![modrm_byte(0, 4, 4)]) + le_bytes(
                    disp as int,
                    4,
                ),
            )
        },
    }
}

/// A vector of `n` bytes whose elements of `esize` bytes all hold the low
/// bytes of `imm`.
pub open spec fn splat(imm: u64, esize: nat, n: nat) -> Seq<u8> {
    Seq::new(n, |k: int| le_bytes(imm as int, 8)[k % (esize as int)])
}

/// The `L` bit, prefix and opcode of an operation between a vector register
/// and a constant.  The element type must be of at most 64 bits and no wider
/// than the vector.
pub open spec fn vimm_form(op: VecOp, ty: Type, vsize: Vsize, level: CpuLevel, i: Ins) -> Result<
    (u8, u8, u8),
    Error,
> {
    if vsize.bits() > level.max_vbits() {
        Err(Error::CpuLevelTooLow(i))
    } else if ty.bits() > vsize.bits() || ty.bits() > 64 {
        Err(Error::InvalidType(i))
    } else {
        vec_form(op, ty, vsize, level, i)
    }
}

/// An operation `v = v1 op constant`, where the constant is in the pool and
/// is addressed relative to the end of the instruction.  The displacement is
/// left zero.
pub open spec fn vimm_bytes(
    op: VecOp,
    ty: Type,
    vsize: Vsize,
    v: V,
    v1: V,
    level: CpuLevel,
    i: Ins,
) -> Result<Seq<u8>, Error> {
    match vimm_form(op, ty, vsize, level, i) {
        Err(e) => Err(e),
        Ok((l, p, o)) => Ok(
            vex_bytes(
                v.to_x86_high(),
                0,
                0,
                0,
                1,
                v1.to_x86(),
                l,
                p,
                o,
                modrm_byte(0, v.to_x86_low(), 5),
            ) + seq![0u8, 0u8, 0u8, 0u8],
        ),
    }
}

/// The constant of an operation with an immediate: the immediate in every
/// element.
pub open spec fn vimm_constant(ty: Type, vsize: Vsize, imm: u64) -> Seq<u8> {
    splat(imm, (ty.bits() / 8) as nat, (vsize.bits() / 8) as nat)
}

/// Whether a type is one of floating point numbers that can be elements.
pub open spec fn is_float(ty: Type) -> bool {
    ty is F32 || ty is F64
}

/// The immediate that a negation works with: the sign bit for floating point
/// numbers, all ones for integers.
pub open spec fn vneg_imm(ty: Type) -> u64 {
    match ty {
        Type::F32 => 0x8000_0000,
        Type::F64 => 0x8000_0000_0000_0000,
        _ => 0xffff_ffff_ffff_ffff,
    }
}

/// The constant that a negation works with.
pub open spec fn vneg_constant(ty: Type, vsize: Vsize) -> Seq<u8> {
    vimm_constant(ty, vsize, vneg_imm(ty))
}

/// A negation `v = -v1`.
///
/// Floating point numbers change their sign bit: `v = v1 ^ sign`.  Integers
/// are complemented, and the complement of zero, which is -1, is subtracted:
/// `v = v1 ^ ones`, then `v = v - ones`.  The constant is in the pool.
pub open spec fn vneg_bytes(ty: Type, vsize: Vsize, v: V, v1: V, level: CpuLevel, i: Ins) -> Result<
    Seq<u8>,
    Error,
> {
    match vimm_bytes(VecOp::Xor, ty, vsize, v, v1, level, i) {
        Err(e) => Err(e),
        Ok(x) => if is_float(ty) {
            Ok(x)
        } else {
            match vimm_bytes(VecOp::Sub, ty, vsize, v, v, level, i) {
                Err(e) => Err(e),
                Ok(y) => Ok(x + y),
            }
        },
    }
}

/// What the resolver has to know of a negation: the pool holds the constant,
/// and the displacement field of each of its instructions is recorded.
pub open spec fn vneg_record(s: StateView, ty: Type, vsize: Vsize) -> StateView {
    let c = vneg_constant(ty, vsize);
    let t = s.intern(c).fixup(4, Fixup::Const(pool_position(s.constants, c) as usize, 4));
    if is_float(ty) {
        t
    } else {
        t.fixup(12, Fixup::Const(pool_position(t.constants, c) as usize, 4))
    }
}

/// The state after an operation between a vector register and a constant:
/// the pool holds the constant, the displacement field, which starts after
/// the four bytes of prefix, opcode and ModRM, is recorded for patching, and
/// the instruction is emitted.
pub open spec fn vimm_step(
    s: StateView,
    op: VecOp,
    ty: Type,
    vsize: Vsize,
    v: V,
    v1: V,
    imm: u64,
    i: Ins,
) -> Result<StateView, Error> {
    match vimm_bytes(op, ty, vsize, v, v1, s.cpu_level, i) {
        Err(e) => Err(e),
        Ok(b) => {
            let c = vimm_constant(ty, vsize, imm);
            Ok(
                s.intern(c).fixup(
                    4,
                    Fixup::Const(pool_position(s.constants, c) as usize, 4),
                ).emit(b),
            )
        },
    }
}

/// The class of an element type.
pub fn lane_of(ty: Type) -> (k: Option<u8>)
    ensures
        k == lane(ty),
        k matches Some(n) ==> n < 6,
{
    match ty {
        Type::U8 | Type::S8 => Some(0),
        Type::U16 | Type::S16 => Some(1),
        Type::U32 | Type::S32 => Some(2),
        Type::U64 | Type::S64 => Some(3),
        Type::F32 => Some(4),
        Type::F64 => Some(5),
        _ => None,
    }
}

/// The prefix and opcode of an operation on elements of a class.
pub fn vec_opcode_of(op: VecOp, lane: u8) -> (r: Option<(u8, u8)>)
    requires
        lane < 6,
    ensures
        r == vec_opcode(op, lane),
        r matches Some(po) ==> po.0 < 2,
{
    let ops: [u8; 6] = match op {
        VecOp::Add => [0xfc, 0xfd, 0xfe, 0xd4, 0x58, 0x58],
        VecOp::Sub => [0xf8, 0xf9, 0xfa, 0xfb, 0x5c, 0x5c],
        VecOp::And => [0xdb, 0xdb, 0xdb, 0xdb, 0xdb, 0xdb],
        VecOp::Or => [0xeb, 0xeb, 0xeb, 0xeb, 0xeb, 0xeb],
        VecOp::Xor => [0xef, 0xef, 0xef, 0xef, 0xef, 0xef],
        VecOp::Shl => [0x00, 0xf1, 0xf2, 0xf3, 0x00, 0x00],
        VecOp::Shr => [0x00, 0xd1, 0xd2, 0xd3, 0x00, 0x00],
        VecOp::Sar => [0x00, 0xe1, 0xe2, 0x00, 0x00, 0x00],
        VecOp::Mul => [0x00, 0x00, 0x00, 0x00, 0x59, 0x59],
        VecOp::Mov => [0x10, 0x10, 0x10, 0x10, 0x10, 0x10],
        VecOp::Rsqrt => [0x00, 0x00, 0x00, 0x00, 0x52, 0x00],
        VecOp::Rcp => [0x00, 0x00, 0x00, 0x00, 0x53, 0x00],
    };
    let o = ops[lane as usize];
    if o == 0x00 {
        return None;
    }
    let p: u8 = match op {
        VecOp::Mov => 0,
        VecOp::And | VecOp::Or | VecOp::Xor => 1,
        _ => if lane == 4 {
            0
        } else {
            1
        },
    };
    Some((p, o))
}

/// The `L` bit for a vector width under a capability ceiling.
pub fn vex_length_of(vsize: Vsize, level: CpuLevel, i: Ins) -> (r: Result<u8, Error>)
    ensures
        r == vex_length(vsize, level, i),
        r matches Ok(l) ==> l < 2,
{
    if vsize.bits() > level.max_vbits() {
        Err(Error::CpuLevelTooLow(i))
    } else if vsize.bits() > 256 {
        Err(Error::InvalidType(i))
    } else if vsize.bits() < 128 {
        Err(Error::VectorSizeNotSupported(i))
    } else if vsize == Vsize::V128 {
        Ok(0)
    } else {
        Ok(1)
    }
}

/// The `L` bit, prefix and opcode of an operation on vectors.
pub fn vec_form_of(op: VecOp, ty: Type, vsize: Vsize, level: CpuLevel, i: Ins) -> (r: Result<
    (u8, u8, u8),
    Error,
>)
    ensures
        r == vec_form(op, ty, vsize, level, i),
        r matches Ok(f) ==> f.0 < 2 && f.1 < 2,
{
    let l = vex_length_of(vsize, level, i)?;
    let Some(k) = lane_of(ty) else {
        return Err(Error::UnsupportedVectorOperation(i));
    };
    let Some((p, o)) = vec_opcode_of(op, k) else {
        return Err(Error::UnsupportedVectorOperation(i));
    };
    Ok((l, p, o))
}

/// Emits a VEX prefix with the opcode and the ModRM byte that follow it.
pub fn gen_vex(
    state: &mut State,
    r: u8,
    x: u8,
    b: u8,
    w: u8,
    m: u8,
    v: u8,
    l: u8,
    p: u8,
    op: u8,
    modrm: u8,
)
    requires
        r < 2,
        x < 2,
        b < 2,
        w < 2,
        m < 32,
        v < 16,
        l < 2,
        p < 4,
    ensures
        final(state)@ == old(state)@.emit(vex_bytes(r, x, b, w, m, v, l, p, op, modrm)),
{
    if w == 0 && b == 0 && x == 0 && m == 1 {
        // VEX2
        let vex = 0xc5;
        let vex_p0 = (1 - r) * 0x80 + (15 - v) * 0x08 + l * 0x04 + p;
        state.emit(&[vex, vex_p0, op, modrm]);
    } else {
        // VEX3
        let vex = 0xc4;
        let vex_p0 = (1 - r) * 0x80 + (1 - x) * 0x40 + (1 - b) * 0x20 + m;
        let vex_p1 = w * 0x80 + (15 - v) * 0x08 + l * 0x04 + p;
        state.emit(&[vex, vex_p0, vex_p1, op, modrm]);
    }
}

/// Emits an operation between vector registers.
pub fn gen_vop(
    state: &mut State,
    op: VecOp,
    ty: Type,
    vsize: Vsize,
    v: V,
    v1: V,
    v2: V,
    i: Ins,
) -> (res: Result<(), Error>)
    requires
        v1.is_x86(),
    ensures
        emitted(
            old(state)@,
            res,
            final(state)@,
            vop_bytes(op, ty, vsize, v, v1, v2, old(state).cpu_level, i),
        ),
{
    let (l, p, o) = vec_form_of(op, ty, vsize, state.cpu_level, i)?;
    let modrm = modrm(3, v.to_x86_low(), v2.to_x86_low());
    gen_vex(state, v.to_x86_high(), 0, v2.to_x86_high(), 0, 1, v1.to_x86(), l, p, o, modrm);
    Ok(())
}

/// Emits a load or a store of a vector register.
pub fn gen_vload_store(
    state: &mut State,
    ty: Type,
    vsize: Vsize,
    op: u8,
    v: V,
    ra: R,
    imm: i32,
    i: Ins,
) -> (res: Result<(), Error>)
    ensures
        emitted(
            old(state)@,
            res,
            final(state)@,
            vload_store_bytes(op, ty, vsize, v, ra, imm, old(state).cpu_level, i),
        ),
{
    let l = vex_length_of(vsize, state.cpu_level, i)?;
    if ty.bits() > vsize.bits() {
        return Err(Error::InvalidType(i));
    }
    let modrm_byte = modrm(2, v.to_x86_low(), ra.to_x86_low());
    gen_vex(state, v.to_x86_high(), 0, ra.to_x86_high(), 0, 1, 0, l, 0, op, modrm_byte);
    if ra.to_x86_low() == 4 {
        state.emit(&[modrm(0, 4, 4)]);
    }
    state.emit(&le_i32(imm));
    assert(state@.code =~= old(state)@.code + vload_store_bytes(
        op,
        ty,
        vsize,
        v,
        ra,
        imm,
        old(state).cpu_level,
        i,
    ).unwrap());
    Ok(())
}

/// The constant whose elements of `esize` bytes all hold the low bytes of
/// `imm`.
pub fn splat_of(imm: u64, esize: usize, n: usize) -> (c: Vec<u8>)
    requires
        0 < esize <= 8,
    ensures
        c@ == splat(imm, esize as nat, n as nat),
{
    let le = le_u64(imm);
    let mut c: Vec<u8> = Vec::new();
    let mut k: usize = 0;
    while k < n
        invariant
            0 < esize <= 8,
            k <= n,
            le@ == le_bytes(imm as int, 8),
            c@.len() == k,
            forall|j: int| 0 <= j < k ==> c@[j] == le@[j % (esize as int)],
        decreases n - k,
    {
        proof {
            crate::bytes::lemma_le_bytes_len(imm as int, 8);
        }
        c.push(le[k % esize]);
        k += 1;
    }
    assert(c@ =~= splat(imm, esize as nat, n as nat));
    c
}

/// Vector immediate instructions use constants.
///
/// Emits an operation between a vector register and a constant.
pub fn gen_vimm(
    state: &mut State,
    op: VecOp,
    ty: Type,
    vsize: Vsize,
    v: V,
    v1: V,
    imm: u64,
    i: Ins,
) -> (res: Result<(), Error>)
    requires
        v1.is_x86(),
        old(state).code.len() + 4 <= usize::MAX,
    ensures
        stepped(old(state)@, res, final(state)@, vimm_step(old(state)@, op, ty, vsize, v, v1, imm, i)),
{
    if vsize.bits() > state.cpu_level.max_vbits() {
        return Err(Error::CpuLevelTooLow(i));
    }
    if ty.bits() > vsize.bits() || ty.bits() > 64 {
        return Err(Error::InvalidType(i));
    }
    let (l, p, o) = vec_form_of(op, ty, vsize, state.cpu_level, i)?;
    let c = splat_of(imm, ty.bits() / 8, vsize.bits() / 8);
    let pos = state.constant(c.as_slice());
    // PC relative load
    state.fixup(4, Fixup::Const(pos, 4));
    let ghost s1 = state@;
    let modrm = modrm(0, v.to_x86_low(), 5);
    gen_vex(state, v.to_x86_high(), 0, 0, 0, 1, v1.to_x86(), l, p, o, modrm);
    state.emit(&le_i32(0));
    proof {
        crate::bytes::lemma_le_bytes_len(0, 4);
        reveal_with_fuel(le_bytes, 5);
        assert(le_bytes(0, 4) =~= seq![0u8, 0u8, 0u8, 0u8]);
        assert(state@.code =~= s1.code + vimm_bytes(
            op,
            ty,
            vsize,
            v,
            v1,
            old(state).cpu_level,
            i,
        ).unwrap());
    }
    Ok(())
}

/// Emits a negation.
pub fn gen_vneg(state: &mut State, ty: Type, vsize: Vsize, v: V, v1: V, i: Ins) -> (res: Result<
    (),
    Error,
>)
    requires
        v.is_x86(),
        v1.is_x86(),
        old(state).code.len() + 16 <= usize::MAX,
    ensures
        match vneg_bytes(ty, vsize, v, v1, old(state).cpu_level, i) {
            Ok(b) => res == Ok::<(), Error>(()) && final(state)@ == vneg_record(
                old(state)@,
                ty,
                vsize,
            ).emit(b),
            Err(e) => res == Err::<(), Error>(e) && final(state)@ == old(state)@,
        },
{
    let imm: u64 = match ty {
        Type::F32 => 0x8000_0000,
        Type::F64 => 0x8000_0000_0000_0000,
        _ => 0xffff_ffff_ffff_ffff,
    };
    let ghost s = state@;
    let ghost c = vneg_constant(ty, vsize);
    gen_vimm(state, VecOp::Xor, ty, vsize, v, v1, imm, i)?;
    let ghost s1 = state@;
    let ghost x = vimm_bytes(VecOp::Xor, ty, vsize, v, v1, s.cpu_level, i).unwrap();
    assert(x.len() == 8);
    match ty {
        Type::F32 | Type::F64 => {},
        _ => {
            proof {
                lemma_pool_holds(s.constants, c);
                lemma_find_from(s1.constants, c, 0);
                assert(s1.intern(c) == s1);
            }
            gen_vimm(state, VecOp::Sub, ty, vsize, v, v, imm, i)?;
            proof {
                let y = vimm_bytes(VecOp::Sub, ty, vsize, v, v, s.cpu_level, i).unwrap();
                assert(state@.code =~= s.code + (x + y));
            }
        },
    }
    Ok(())
}

} // verus!
