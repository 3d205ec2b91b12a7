//! How large an assembly can get: no instruction is longer than 64 bytes,
//! so the code and the constant pool stay well inside what a displacement of
//! 32 bits reaches.
use crate::bytes::{as_signed, lemma_le_bytes_len_all};
use crate::ir::{CpuLevel, Ins, Scale, Src, Type, Vsize, R, V};
use crate::state::StateView;
use crate::x86_64::memory::{addr_bytes, load_form, load_store_bytes, store_form, MemForm};
use crate::x86_64::regs::{RAX, RDX, RSP};
use crate::x86_64::scalar::{
    binary_bytes,
    div_bytes,
    div_core_bytes,
    div_divide_bytes,
    div_extend_bytes,
    div_release_bytes,
    div_restore_bytes,
    div_save_bytes,
    immediate_bytes,
    mov_bytes,
    mov_imm_bytes,
    mov_reg_bytes,
    pop_bytes,
    push_bytes,
    push_reg_bytes,
    shift_bytes,
    unary_bytes,
    Alu,
    BinOp,
    DivOp,
    ShiftOp,
    UnOp,
};
use crate::x86_64::vector::{vload_store_bytes, vop_bytes, VecOp};
use crate::x86_64::assemble::{lemma_pool_position, run};
use crate::x86_64::encode::{
    arith_bytes,
    encode,
    is_arith,
    is_mem,
    is_simd,
    mem_bytes,
    simd_bytes,
    step,
    MAX_CODE,
};
use crate::state::{lemma_find_from, lemma_pool_holds, pool_with};
use crate::x86_64::vector::{vimm_constant, vneg_constant};
use vstd::prelude::*;

verus! {

/// A move takes at most 10 bytes.
proof fn lemma_mov_len(dest: R, src: Src, i: Ins)
    ensures
        mov_reg_bytes(dest, dest).len() <= 3,
        forall|s: R| #[trigger] mov_reg_bytes(dest, s).len() <= 3,
        forall|v: i64| #[trigger] mov_imm_bytes(dest, v).len() <= 10,
        mov_bytes(dest, src, i) matches Ok(b) ==> b.len() <= 10,
{
    lemma_le_bytes_len_all();
}

/// A push takes at most 5 bytes, and a pop at most 2.
proof fn lemma_push_pop_len(src: Src, i: Ins)
    ensures
        forall|r: R| #[trigger] push_reg_bytes(r).len() <= 2,
        forall|r: R| #[trigger] pop_bytes(r).len() <= 2,
        push_bytes(src, i) matches Ok(b) ==> b.len() <= 5,
{
    lemma_le_bytes_len_all();
}

/// A binary operation takes at most 10 bytes.
proof fn lemma_binary_len(op: BinOp, dest: R, src1: R, src2: Src, i: Ins)
    ensures
        binary_bytes(op, dest, src1, src2, i) matches Ok(b) ==> b.len() <= 10,
{
    lemma_le_bytes_len_all();
    match src2 {
        Src::Imm(v) => {
            assert(immediate_bytes(op, dest, v, i) matches Ok(b) ==> b.len() <= 7);
        },
        _ => {},
    }
}

/// A unary operation takes at most 6 bytes.
proof fn lemma_unary_len(op: UnOp, dest: R, src: Src, i: Ins)
    ensures
        unary_bytes(op, dest, src, i) matches Ok(b) ==> b.len() <= 6,
{
}

/// A shift takes at most 14 bytes.
proof fn lemma_shift_len(op: ShiftOp, dest: R, src1: R, src2: Src, i: Ins)
    ensures
        shift_bytes(op, dest, src1, src2, i) matches Ok(b) ==> b.len() <= 14,
{
    lemma_le_bytes_len_all();
    lemma_push_pop_len(src2, i);
}

/// A division takes at most 34 bytes.
proof fn lemma_div_len(op: DivOp, dest: R, src1: R, src2: Src, i: Ins)
    ensures
        div_bytes(op, dest, src1, src2, i) matches Ok(b) ==> b.len() <= 34,
{
    lemma_le_bytes_len_all();
    lemma_push_pop_len(src2, i);
    lemma_mov_len(dest, src2, i);
    lemma_mov_len(R(RAX), src2, i);
    lemma_mov_len(R(RDX), src2, i);
    assert(div_extend_bytes(op).len() <= 10);
    assert(div_divide_bytes(op, src2).len() <= 4);
    assert(div_release_bytes().len() == 4);
    assert(div_save_bytes(dest).len() <= 4);
    assert(div_restore_bytes(dest).len() <= 4);
    assert(div_core_bytes(op, dest, src1, src2, i) matches Ok(b) ==> b.len() <= 26);
}

/// Integer arithmetic and moves take at most 64 bytes.
proof fn lemma_arith_len(i: Ins)
    requires
        arith_bytes(i) is Ok,
    ensures
        arith_bytes(i).unwrap().len() <= 64,
{
    reveal(arith_bytes);
    match i {
        Ins::Add(d, s1, s2) => lemma_binary_len(BinOp::Alu(Alu::Add), d, s1, s2, i),
        Ins::Sub(d, s1, s2) => lemma_binary_len(BinOp::Alu(Alu::Sub), d, s1, s2, i),
        Ins::And(d, s1, s2) => lemma_binary_len(BinOp::Alu(Alu::And), d, s1, s2, i),
        Ins::Or(d, s1, s2) => lemma_binary_len(BinOp::Alu(Alu::Or), d, s1, s2, i),
        Ins::Xor(d, s1, s2) => lemma_binary_len(BinOp::Alu(Alu::Xor), d, s1, s2, i),
        Ins::Mul(d, s1, s2) => lemma_binary_len(BinOp::Mul, d, s1, s2, i),
        Ins::Cmp(s1, s2) => lemma_binary_len(BinOp::Alu(Alu::Cmp), s1, s1, s2, i),
        Ins::Cmpi(s1, v) => lemma_binary_len(
            BinOp::Alu(Alu::Cmp),
            s1,
            s1,
            Src::Imm(as_signed(v)),
            i,
        ),
        Ins::Shl(d, s1, s2) => lemma_shift_len(ShiftOp::Shl, d, s1, s2, i),
        Ins::Shr(d, s1, s2) => lemma_shift_len(ShiftOp::Shr, d, s1, s2, i),
        Ins::Sar(d, s1, s2) => lemma_shift_len(ShiftOp::Sar, d, s1, s2, i),
        Ins::UDiv(d, s1, s2) => lemma_div_len(DivOp::Unsigned, d, s1, s2, i),
        Ins::SDiv(d, s1, s2) => lemma_div_len(DivOp::Signed, d, s1, s2, i),
        Ins::Mov(d, s) => lemma_mov_len(d, s, i),
        Ins::Movi(d, v) => lemma_mov_len(d, Src::Imm(as_signed(v)), i),
        Ins::Not(d, s) => lemma_unary_len(UnOp::Not, d, s, i),
        Ins::Neg(d, s) => lemma_unary_len(UnOp::Neg, d, s, i),
        _ => {},
    }
}

/// A vector operation between registers takes 5 bytes at most, and a vector
/// load or store 10.
proof fn lemma_vector_len(
    op: VecOp,
    code: u8,
    ty: Type,
    vsize: Vsize,
    v: V,
    v1: V,
    v2: V,
    ra: R,
    disp: i32,
    level: CpuLevel,
    i: Ins,
)
    ensures
        vop_bytes(op, ty, vsize, v, v1, v2, level, i) matches Ok(b) ==> b.len() <= 5,
        vload_store_bytes(code, ty, vsize, v, ra, disp, level, i) matches Ok(b) ==> b.len() <= 10,
{
    lemma_le_bytes_len_all();
}

/// Vector operations between registers, loads and stores take at most 64
/// bytes.
proof fn lemma_simd_len(i: Ins, level: CpuLevel)
    requires
        simd_bytes(i, level) is Ok,
    ensures
        simd_bytes(i, level).unwrap().len() <= 64,
{
    reveal(simd_bytes);
    match i {
        Ins::Vld(ty, vsize, v, ra, disp) => lemma_vector_len(
            VecOp::Mov,
            0x10,
            ty,
            vsize,
            v,
            v,
            v,
            ra,
            disp,
            level,
            i,
        ),
        Ins::Vst(ty, vsize, v, ra, disp) => lemma_vector_len(
            VecOp::Mov,
            0x11,
            ty,
            vsize,
            v,
            v,
            v,
            ra,
            disp,
            level,
            i,
        ),
        Ins::Vadd(ty, vsize, v, v1, v2) => lemma_vector_len(VecOp::Add, 0, ty, vsize, v, v1, v2, R(0), 0, level, i),
        Ins::Vsub(ty, vsize, v, v1, v2) => lemma_vector_len(VecOp::Sub, 0, ty, vsize, v, v1, v2, R(0), 0, level, i),
        Ins::Vand(ty, vsize, v, v1, v2) => lemma_vector_len(VecOp::And, 0, ty, vsize, v, v1, v2, R(0), 0, level, i),
        Ins::Vor(ty, vsize, v, v1, v2) => lemma_vector_len(VecOp::Or, 0, ty, vsize, v, v1, v2, R(0), 0, level, i),
        Ins::Vxor(ty, vsize, v, v1, v2) => lemma_vector_len(VecOp::Xor, 0, ty, vsize, v, v1, v2, R(0), 0, level, i),
        Ins::Vshl(ty, vsize, v, v1, v2) => lemma_vector_len(VecOp::Shl, 0, ty, vsize, v, v1, v2, R(0), 0, level, i),
        Ins::Vshr(ty, vsize, v, v1, v2) => {
            lemma_vector_len(VecOp::Shr, 0, ty, vsize, v, v1, v2, R(0), 0, level, i);
            lemma_vector_len(VecOp::Sar, 0, ty, vsize, v, v1, v2, R(0), 0, level, i);
        },
        Ins::Vmul(ty, vsize, v, v1, v2) => lemma_vector_len(VecOp::Mul, 0, ty, vsize, v, v1, v2, R(0), 0, level, i),
        Ins::Vmov(ty, vsize, v, v1) => lemma_vector_len(VecOp::Mov, 0, ty, vsize, v, V(0), v1, R(0), 0, level, i),
        Ins::Vrecpe(ty, vsize, v, v1) => lemma_vector_len(VecOp::Rcp, 0, ty, vsize, v, V(0), v1, R(0), 0, level, i),
        Ins::Vrsqrte(ty, vsize, v, v1) => lemma_vector_len(VecOp::Rsqrt, 0, ty, vsize, v, V(0), v1, R(0), 0, level, i),
        _ => {},
    }
}

/// A load or a store takes at most 10 bytes.
proof fn lemma_load_store_len(f: MemForm, r: R, base: R, disp: i32, i: Ins)
    ensures
        load_store_bytes(f, r, base, disp, i) matches Ok(b) ==> b.len() <= 10,
{
    lemma_le_bytes_len_all();
    assert(addr_bytes(r.to_x86_low(), base, None, Scale::X1, disp, i) matches Ok(b) ==> b.len()
        <= 6);
}

/// Loads, stores, stack adjustments and data take at most 64 bytes.
proof fn lemma_mem_len(i: Ins)
    requires
        mem_bytes(i) is Ok,
    ensures
        mem_bytes(i).unwrap().len() <= 64,
{
    reveal(mem_bytes);
    lemma_le_bytes_len_all();
    match i {
        Ins::Enter(n) => lemma_binary_len(
            BinOp::Alu(Alu::Sub),
            R(RSP),
            R(RSP),
            Src::Imm(n as i64),
            i,
        ),
        Ins::Leave(n) => lemma_binary_len(
            BinOp::Alu(Alu::Add),
            R(RSP),
            R(RSP),
            Src::Imm(n as i64),
            i,
        ),
        Ins::Ld(ty, r, ra, disp) => {
            if load_form(ty) is Some {
                lemma_load_store_len(load_form(ty).unwrap(), r, ra, disp, i);
            }
        },
        Ins::St(ty, r, ra, disp) => {
            if store_form(ty) is Some {
                lemma_load_store_len(store_form(ty).unwrap(), r, ra, disp, i);
            }
        },
        _ => {},
    }
}

/// No instruction is longer than 64 bytes.
pub proof fn lemma_encode_len(i: Ins, level: CpuLevel)
    requires
        encode(i, level) is Ok,
    ensures
        encode(i, level).unwrap().len() <= 64,
{
    if is_arith(i) {
        lemma_arith_len(i);
    } else if is_simd(i) {
        lemma_simd_len(i, level);
    } else if is_mem(i) {
        lemma_mem_len(i);
    }
}

/// Whether the code and the constant pool are of a size that an assembly can
/// reach.
pub open spec fn bounded(s: StateView) -> bool {
    s.code.len() <= MAX_CODE + 64 && s.constants.len() <= MAX_CODE + 32
}

/// An instruction adds at most 64 bytes to the code and 32 to the pool.
pub proof fn lemma_step_bounded(s: StateView, i: Ins)
    requires
        step(s, i) is Ok,
    ensures
        bounded(step(s, i).unwrap()),
{
    lemma_encode_len(i, s.cpu_level);
    match i {
        Ins::Vmovi(ty, vsize, _, imm) => {
            lemma_pool_position(s.constants, vimm_constant(ty, vsize, imm));
        },
        Ins::Vnot(ty, vsize, _, _) => {
            lemma_pool_position(s.constants, vimm_constant(ty, vsize, 0xffff_ffff_ffff_ffff));
        },
        Ins::Vneg(ty, vsize, _, _) => {
            let c = vneg_constant(ty, vsize);
            lemma_pool_position(s.constants, c);
            lemma_pool_holds(s.constants, c);
            lemma_find_from(pool_with(s.constants, c), c, 0);
        },
        _ => {},
    }
}

/// The code and the constant pool of an assembly stay bounded.
pub proof fn lemma_run_bounded(level: CpuLevel, ins: Seq<Ins>)
    requires
        run(level, ins) is Ok,
    ensures
        bounded(run(level, ins).unwrap()),
    decreases ins.len(),
{
    if ins.len() > 0 {
        lemma_step_bounded(run(level, ins.drop_last()).unwrap(), ins.last());
    }
}

} // verus!
