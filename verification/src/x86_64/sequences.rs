//! What the sequences of instructions that the backend emits compute.
//!
//! Each sequence is given as instructions of the machine model, is shown to
//! have exactly the bytes that the backend emits, and is shown to leave the
//! result in the destination and every other register and the stack as they
//! were, whatever registers the operands are.
use crate::error::Error;
use crate::ir::{CpuLevel, Ins, Src, R};
use crate::state::bytes_if;
use crate::bytes::{as_signed, signed, wrap};
use crate::x86_64::encode::{arith_bytes, encode};
use crate::x86_64::machine::{
    binary,
    divided,
    divisible,
    known,
    lemma_then,
    op_bytes,
    ops_bytes,
    shifted,
    then,
    truncated,
    unary,
    Machine,
    Op,
};
use crate::x86_64::regs::{RAX, RCX, RDX};
use crate::x86_64::scalar::{
    binary_bytes,
    div_bytes,
    div_core_bytes,
    div_divide_bytes,
    div_extend_bytes,
    div_release_bytes,
    div_restore_bytes,
    div_save_bytes,
    div_uses_stack,
    mov_bytes,
    mov_imm_bytes,
    mov_reg_bytes,
    push_bytes,
    shift_bytes,
    shift_is_plain,
    shift_plain_bytes,
    shift_swapped_bytes,
    shift_temp,
    shift_to_rcx_bytes,
    unary_bytes,
    Alu,
    BinOp,
    DivOp,
    ShiftOp,
    UnOp,
};
use vstd::prelude::*;

verus! {

/// Whether the model knows the register of an operand, if it is one.
pub open spec fn known_src(s: Src) -> bool {
    match s {
        Src::SR(n) => known(R(n)),
        Src::Imm(_) => true,
        Src::SV(_) => false,
    }
}

/// The value of an operand.
pub open spec fn value(m: Machine, s: Src) -> u64 {
    match s {
        Src::SR(n) => m.get(R(n)),
        Src::Imm(v) => wrap(v as int),
        Src::SV(_) => 0,
    }
}

/// Whether the second operand can still be read once the first has been
/// moved to the destination: it is not the destination, unless the first is.
pub open spec fn readable(dest: R, src1: R, src2: Src) -> bool {
    src2 matches Src::SR(n) ==> R(n) != dest || src1 == dest
}

/// The instruction that applies a binary operation to a destination.
pub open spec fn binary_op(op: BinOp, dest: R, src2: Src) -> Op {
    match (op, src2) {
        (BinOp::Alu(o), Src::Imm(v)) => Op::AluImm(o, dest, v),
        (BinOp::Alu(o), Src::SR(n)) => Op::Alu(o, dest, R(n)),
        (BinOp::Alu(o), Src::SV(n)) => Op::Alu(o, dest, R(n)),
        (BinOp::Mul, Src::Imm(v)) => Op::MulImm(dest, v),
        (BinOp::Mul, Src::SR(n)) => Op::Mul(dest, R(n)),
        (BinOp::Mul, Src::SV(n)) => Op::Mul(dest, R(n)),
    }
}

/// The sequence for a binary operation: the first operand is moved to the
/// destination if it is not there, then the operation is applied.
pub open spec fn binary_ops(op: BinOp, dest: R, src1: R, src2: Src) -> Seq<Op> {
    then(Seq::empty(), src1 != dest, Op::Mov(dest, src1)).push(binary_op(op, dest, src2))
}

/// A binary operation computes `src1 op src2` into its destination and
/// changes nothing else, provided that the second operand is not the
/// destination, or that the first is too.
pub proof fn lemma_binary_computes(m: Machine, op: BinOp, dest: R, src1: R, src2: Src, i: Ins)
    requires
        m.wf(),
        known(dest),
        known(src1),
        known_src(src2),
        readable(dest, src1, src2),
        binary_bytes(op, dest, src1, src2, i) is Ok,
    ensures
        ops_bytes(binary_ops(op, dest, src1, src2)) == binary_bytes(op, dest, src1, src2, i).unwrap(),
        m.run(binary_ops(op, dest, src1, src2)) == Some(
            m.set(dest, binary(op, m.get(src1), value(m, src2))),
        ),
{
    let a = then(Seq::empty(), src1 != dest, Op::Mov(dest, src1));
    lemma_then(m, Seq::empty(), src1 != dest, Op::Mov(dest, src1));
    lemma_then(m, a, true, binary_op(op, dest, src2));
    let m1 = m.run(a).unwrap();
    let r = binary(op, m.get(src1), value(m, src2));
    assert(m1.exec(binary_op(op, dest, src2)).unwrap().regs =~= m.set(dest, r).regs);
    assert(ops_bytes(binary_ops(op, dest, src1, src2)) =~= binary_bytes(
        op,
        dest,
        src1,
        src2,
        i,
    ).unwrap());
}

/// The sequence for a unary operation.
pub open spec fn unary_ops(op: UnOp, dest: R, src: R) -> Seq<Op> {
    then(Seq::empty(), src != dest, Op::Mov(dest, src)).push(Op::Unary(op, dest))
}

/// A unary operation computes `op src` into its destination and changes
/// nothing else.
pub proof fn lemma_unary_computes(m: Machine, op: UnOp, dest: R, src: R, i: Ins)
    requires
        m.wf(),
        known(dest),
        known(src),
    ensures
        ops_bytes(unary_ops(op, dest, src)) == unary_bytes(op, dest, Src::SR(src.0), i).unwrap(),
        m.run(unary_ops(op, dest, src)) == Some(m.set(dest, unary(op, m.get(src)))),
{
    let a = then(Seq::empty(), src != dest, Op::Mov(dest, src));
    lemma_then(m, Seq::empty(), src != dest, Op::Mov(dest, src));
    lemma_then(m, a, true, Op::Unary(op, dest));
    let m1 = m.run(a).unwrap();
    assert(m1.exec(Op::Unary(op, dest)).unwrap().regs =~= m.set(
        dest,
        unary(op, m.get(src)),
    ).regs);
    assert(ops_bytes(unary_ops(op, dest, src)) =~= unary_bytes(
        op,
        dest,
        Src::SR(src.0),
        i,
    ).unwrap());
}

/// The plain sequence for a shift by a count in a register.
pub open spec fn shift_plain_ops(op: ShiftOp, dest: R, src1: R, count: R) -> Seq<Op> {
    let a = then(Seq::empty(), dest != R(RCX), Op::Push(R(RCX)));
    let b = then(a, src1 != dest, Op::Mov(dest, src1));
    let c = then(b, count != R(RCX), Op::Mov(R(RCX), count));
    let d = c.push(Op::Shift(op, dest));
    then(d, dest != R(RCX), Op::Pop(R(RCX)))
}

/// The sequence for a shift whose count is in its destination.
pub open spec fn shift_swapped_ops(op: ShiftOp, dest: R, src1: R) -> Seq<Op> {
    let a = seq![Op::Push(R(RCX))];
    let b = if src1 == R(RCX) {
        a.push(Op::Xchg(dest, R(RCX)))
    } else {
        a.push(Op::Mov(R(RCX), dest)).push(Op::Mov(dest, src1))
    };
    b.push(Op::Shift(op, dest)).push(Op::Pop(R(RCX)))
}

/// The sequence for a shift to `rcx`.
pub open spec fn shift_to_rcx_ops(op: ShiftOp, src1: R, count: R) -> Seq<Op> {
    let t = shift_temp(count);
    let a = seq![Op::Push(t)];
    let b = then(a, src1 != t, Op::Mov(t, src1));
    let c = then(b, count != R(RCX), Op::Mov(R(RCX), count));
    c.push(Op::Shift(op, t)).push(Op::Mov(R(RCX), t)).push(Op::Pop(t))
}

/// The sequence for a shift.
pub open spec fn shift_ops(op: ShiftOp, dest: R, src1: R, src2: Src) -> Seq<Op> {
    match src2 {
        Src::SR(n) => if shift_is_plain(dest, src1, R(n)) {
            shift_plain_ops(op, dest, src1, R(n))
        } else if dest != R(RCX) {
            shift_swapped_ops(op, dest, src1)
        } else {
            shift_to_rcx_ops(op, src1, R(n))
        },
        Src::Imm(v) => then(Seq::empty(), src1 != dest, Op::Mov(dest, src1)).push(
            Op::ShiftImm(op, dest, v),
        ),
        Src::SV(_) => Seq::empty(),
    }
}

/// What a sequence for a shift is to do: it has the bytes given, and it
/// leaves the shifted value in the destination and everything else as it
/// was.
pub open spec fn shifts(
    m: Machine,
    ops: Seq<Op>,
    bytes: Seq<u8>,
    op: ShiftOp,
    dest: R,
    a: u64,
    count: u64,
) -> bool {
    ops_bytes(ops) == bytes && m.run(ops) == Some(m.set(dest, shifted(op, a, count)))
}

/// The plain sequence computes the shift where neither operand is lost.
proof fn lemma_shift_plain(m: Machine, op: ShiftOp, dest: R, src1: R, count: R)
    requires
        m.wf(),
        known(dest),
        known(src1),
        known(count),
        shift_is_plain(dest, src1, count),
    ensures
        shifts(
            m,
            shift_plain_ops(op, dest, src1, count),
            shift_plain_bytes(op, dest, src1, count),
            op,
            dest,
            m.get(src1),
            m.get(count),
        ),
{
    let r = shifted(op, m.get(src1), m.get(count));
    let e = Seq::<Op>::empty();
    let a = then(e, dest != R(RCX), Op::Push(R(RCX)));
    let b = then(a, src1 != dest, Op::Mov(dest, src1));
    let c = then(b, count != R(RCX), Op::Mov(R(RCX), count));
    let d = c.push(Op::Shift(op, dest));
    let f = then(d, dest != R(RCX), Op::Pop(R(RCX)));
    lemma_then(m, e, dest != R(RCX), Op::Push(R(RCX)));
    lemma_then(m, a, src1 != dest, Op::Mov(dest, src1));
    lemma_then(m, b, count != R(RCX), Op::Mov(R(RCX), count));
    lemma_then(m, c, true, Op::Shift(op, dest));
    lemma_then(m, d, dest != R(RCX), Op::Pop(R(RCX)));
    let ma = m.run(a).unwrap();
    let mb = m.run(b).unwrap();
    let mc = m.run(c).unwrap();
    let md = m.run(d).unwrap();
    let mf = m.run(f).unwrap();
    assert(mb.get(dest) == m.get(src1));
    assert(mb.get(count) == m.get(count));
    assert(mc.get(R(RCX)) == m.get(count));
    assert(mc.get(dest) == m.get(src1));
    assert(md.get(dest) == r);
    assert(mf.regs =~= m.set(dest, r).regs);
    assert(mf.stack =~= m.stack);
    assert(ops_bytes(f) =~= shift_plain_bytes(op, dest, src1, count));
}

/// The sequence for a count in the destination computes the shift.
proof fn lemma_shift_swapped(m: Machine, op: ShiftOp, dest: R, src1: R)
    requires
        m.wf(),
        known(dest),
        known(src1),
        dest != R(RCX),
        src1 != dest,
    ensures
        shifts(
            m,
            shift_swapped_ops(op, dest, src1),
            shift_swapped_bytes(op, dest, src1),
            op,
            dest,
            m.get(src1),
            m.get(dest),
        ),
{
    let r = shifted(op, m.get(src1), m.get(dest));
    let e = Seq::<Op>::empty();
    let a = seq![Op::Push(R(RCX))];
    assert(a =~= e.push(Op::Push(R(RCX))));
    lemma_then(m, e, true, Op::Push(R(RCX)));
    let ma = m.run(a).unwrap();
    assert(ma == m.push(m.get(R(RCX))));
    if src1 == R(RCX) {
        let b = a.push(Op::Xchg(dest, R(RCX)));
        let d = b.push(Op::Shift(op, dest));
        let f = d.push(Op::Pop(R(RCX)));
        lemma_then(m, a, true, Op::Xchg(dest, R(RCX)));
        lemma_then(m, b, true, Op::Shift(op, dest));
        lemma_then(m, d, true, Op::Pop(R(RCX)));
        let mb = m.run(b).unwrap();
        assert(mb.get(dest) == m.get(src1));
        assert(mb.get(R(RCX)) == m.get(dest));
        let md = m.run(d).unwrap();
        assert(md.get(dest) == r);
        let mf = m.run(f).unwrap();
        assert(mf.regs =~= m.set(dest, r).regs);
        assert(mf.stack =~= m.stack);
        assert(ops_bytes(f) =~= shift_swapped_bytes(op, dest, src1));
    } else {
        let b0 = a.push(Op::Mov(R(RCX), dest));
        let b = b0.push(Op::Mov(dest, src1));
        let d = b.push(Op::Shift(op, dest));
        let f = d.push(Op::Pop(R(RCX)));
        lemma_then(m, a, true, Op::Mov(R(RCX), dest));
        lemma_then(m, b0, true, Op::Mov(dest, src1));
        lemma_then(m, b, true, Op::Shift(op, dest));
        lemma_then(m, d, true, Op::Pop(R(RCX)));
        let mb = m.run(b).unwrap();
        assert(mb.get(dest) == m.get(src1));
        assert(mb.get(R(RCX)) == m.get(dest));
        let md = m.run(d).unwrap();
        assert(md.get(dest) == r);
        let mf = m.run(f).unwrap();
        assert(mf.regs =~= m.set(dest, r).regs);
        assert(mf.stack =~= m.stack);
        assert(ops_bytes(f) =~= shift_swapped_bytes(op, dest, src1));
    }
}

/// The sequence for a shift to `rcx` computes the shift.
proof fn lemma_shift_to_rcx(m: Machine, op: ShiftOp, src1: R, count: R)
    requires
        m.wf(),
        known(src1),
        known(count),
        src1 != count,
    ensures
        shifts(
            m,
            shift_to_rcx_ops(op, src1, count),
            shift_to_rcx_bytes(op, src1, count),
            op,
            R(RCX),
            m.get(src1),
            m.get(count),
        ),
{
    let r = shifted(op, m.get(src1), m.get(count));
    let t = shift_temp(count);
    let e = Seq::<Op>::empty();
    let a = seq![Op::Push(t)];
    assert(a =~= e.push(Op::Push(t)));
    let b = then(a, src1 != t, Op::Mov(t, src1));
    let c = then(b, count != R(RCX), Op::Mov(R(RCX), count));
    let d = c.push(Op::Shift(op, t));
    let g = d.push(Op::Mov(R(RCX), t));
    let f = g.push(Op::Pop(t));
    lemma_then(m, e, true, Op::Push(t));
    lemma_then(m, a, src1 != t, Op::Mov(t, src1));
    lemma_then(m, b, count != R(RCX), Op::Mov(R(RCX), count));
    lemma_then(m, c, true, Op::Shift(op, t));
    lemma_then(m, d, true, Op::Mov(R(RCX), t));
    lemma_then(m, g, true, Op::Pop(t));
    let ma = m.run(a).unwrap();
    assert(ma == m.push(m.get(t)));
    let mb = m.run(b).unwrap();
    assert(mb.get(t) == m.get(src1));
    assert(mb.get(count) == m.get(count));
    let mc = m.run(c).unwrap();
    assert(mc.get(t) == m.get(src1));
    assert(mc.get(R(RCX)) == m.get(count));
    let md = m.run(d).unwrap();
    assert(md.get(t) == r);
    let mg = m.run(g).unwrap();
    assert(mg.get(R(RCX)) == r);
    let mf = m.run(f).unwrap();
    assert(mf.regs =~= m.set(R(RCX), r).regs);
    assert(mf.stack =~= m.stack);
    assert(ops_bytes(f) =~= shift_to_rcx_bytes(op, src1, count));
}

/// A shift computes `src1` shifted by `src2` into its destination and
/// changes nothing else, not `rcx` either unless it is the destination,
/// whatever registers the destination, the first operand and the count are.
pub proof fn lemma_shift_computes(m: Machine, op: ShiftOp, dest: R, src1: R, src2: Src, i: Ins)
    requires
        m.wf(),
        known(dest),
        known(src1),
        known_src(src2),
        shift_bytes(op, dest, src1, src2, i) is Ok,
    ensures
        ops_bytes(shift_ops(op, dest, src1, src2)) == shift_bytes(op, dest, src1, src2, i).unwrap(),
        m.run(shift_ops(op, dest, src1, src2)) == Some(
            m.set(dest, shifted(op, m.get(src1), value(m, src2))),
        ),
{
    let r = shifted(op, m.get(src1), value(m, src2));
    match src2 {
        Src::SR(n) => {
            if shift_is_plain(dest, src1, R(n)) {
                lemma_shift_plain(m, op, dest, src1, R(n));
            } else if dest != R(RCX) {
                lemma_shift_swapped(m, op, dest, src1);
            } else {
                lemma_shift_to_rcx(m, op, src1, R(n));
            }
        },
        Src::Imm(v) => {
            let a = then(Seq::empty(), src1 != dest, Op::Mov(dest, src1));
            lemma_then(m, Seq::empty(), src1 != dest, Op::Mov(dest, src1));
            lemma_then(m, a, true, Op::ShiftImm(op, dest, v));
            let m1 = m.run(a).unwrap();
            assert(m1.exec(Op::ShiftImm(op, dest, v)).unwrap().regs =~= m.set(dest, r).regs);
            assert(ops_bytes(shift_ops(op, dest, src1, src2)) =~= shift_bytes(
                op,
                dest,
                src1,
                src2,
                i,
            ).unwrap());
        },
        Src::SV(_) => {},
    }
}

/// The instruction that pushes an operand.
pub open spec fn push_op(src: Src) -> Op {
    match src {
        Src::Imm(v) => Op::PushImm(v),
        Src::SR(n) => Op::Push(R(n)),
        Src::SV(n) => Op::Push(R(n)),
    }
}

/// The instruction that prepares `rdx` for a division.
pub open spec fn extend_op(op: DivOp) -> Op {
    match op {
        DivOp::Unsigned => Op::MovImm(R(RDX), 0),
        DivOp::Signed => Op::Cqo,
    }
}

/// The instruction that divides by an operand, which is on top of the stack
/// if it had to be spilled.
pub open spec fn divide_op(op: DivOp, src2: Src) -> Op {
    match src2 {
        Src::SR(n) if !div_uses_stack(src2) => Op::Div(op, R(n)),
        _ => Op::DivTop(op),
    }
}

/// The instructions that save `rax` and `rdx`, each unless it is the
/// destination.
pub open spec fn div_save_ops(dest: R) -> Seq<Op> {
    then(then(Seq::empty(), dest != R(RAX), Op::Push(R(RAX))), dest != R(RDX), Op::Push(R(RDX)))
}

/// The instructions of the middle of a division, after those given: the
/// divisor is spilled if it must be, the dividend is moved to `rax` and
/// extended, the division is made, the quotient is moved to the destination,
/// and a spilled divisor is dropped.
pub open spec fn div_middle_ops(ops: Seq<Op>, op: DivOp, dest: R, src1: R, src2: Src) -> Seq<Op> {
    let c = then(ops, div_uses_stack(src2), push_op(src2));
    let d = then(c, src1 != R(RAX), Op::Mov(R(RAX), src1));
    let g = d.push(extend_op(op)).push(divide_op(op, src2));
    let h = then(g, dest != R(RAX), Op::Mov(dest, R(RAX)));
    then(h, div_uses_stack(src2), Op::Drop)
}

/// The instructions that restore `rdx` and `rax`, after those given.
pub open spec fn div_restore_ops(ops: Seq<Op>, dest: R) -> Seq<Op> {
    then(then(ops, dest != R(RDX), Op::Pop(R(RDX))), dest != R(RAX), Op::Pop(R(RAX)))
}

/// The sequence for a division: `rax` and `rdx` are saved unless they are
/// the destination, the divisor is spilled if it is an immediate, `rax` or
/// `rdx`, the dividend is moved to `rax` and extended into `rdx`, the
/// division is made, the quotient is moved to the destination, and the stack
/// is brought back to where it was.
pub open spec fn div_ops(op: DivOp, dest: R, src1: R, src2: Src) -> Seq<Op> {
    div_restore_ops(div_middle_ops(div_save_ops(dest), op, dest, src1, src2), dest)
}

/// A quotient rounded toward zero is no larger than its dividend, so that a
/// quadword holds it, but for the least number divided by -1.
pub proof fn lemma_truncated_bounds(n: int, d: int)
    requires
        d != 0,
        -0x8000_0000_0000_0000 <= n < 0x8000_0000_0000_0000,
        !(n == -0x8000_0000_0000_0000 && d == -1),
    ensures
        -0x8000_0000_0000_0000 <= truncated(n, d) < 0x8000_0000_0000_0000,
{
    let a = if n >= 0 {
        n
    } else {
        -n
    };
    let b = if d > 0 {
        d
    } else {
        -d
    };
    assert(0 <= a / b <= a) by (nonlinear_arith)
        requires
            0 <= a,
            1 <= b,
    ;
    if a == 0x8000_0000_0000_0000 && d < 0 {
        assert(a / b <= a / 2) by (nonlinear_arith)
            requires
                0 <= a,
                2 <= b,
        ;
    }
}

/// The machine after the division proper, when `rax` holds the dividend and
/// `rdx` its extension: `rax` holds the quotient.
proof fn lemma_divide(m: Machine, op: DivOp, a: u64, d: u64)
    requires
        m.wf(),
        divisible(op, a, d),
        m.get(R(RAX)) == a,
        m.exec(extend_op(op)) is Some,
    ensures
        m.exec(extend_op(op)).unwrap().divide(op, d) matches Some(n) && n.get(R(RAX)) == divided(
            op,
            a,
            d,
        ) && n.stack == m.stack && forall|k: int|
            0 <= k < 16 && k != RAX && k != RDX ==> n.regs[k] == m.regs[k],
{
    let e = m.exec(extend_op(op)).unwrap();
    match op {
        DivOp::Unsigned => {
            let x = a as int;
            let y = d as int;
            assert(0 <= x / y <= x) by (nonlinear_arith)
                requires
                    0 <= x,
                    1 <= y,
            ;
        },
        DivOp::Signed => {
            lemma_truncated_bounds(signed(a), signed(d));
        },
    }
}

/// The instructions that save `rax` and `rdx` have the bytes that the
/// backend emits for them.
proof fn lemma_div_save_bytes(dest: R)
    ensures
        ops_bytes(div_save_ops(dest)) == div_save_bytes(dest),
{
    let m = Machine { regs: Seq::empty(), stack: Seq::empty() };
    let a = then(Seq::empty(), dest != R(RAX), Op::Push(R(RAX)));
    let b = then(a, dest != R(RDX), Op::Push(R(RDX)));
    lemma_then(m, Seq::empty(), dest != R(RAX), Op::Push(R(RAX)));
    lemma_then(m, a, dest != R(RDX), Op::Push(R(RDX)));
    assert(ops_bytes(Seq::<Op>::empty()) =~= Seq::<u8>::empty());
    assert(ops_bytes(b) =~= div_save_bytes(dest));
}

/// The instructions of the middle of a division have the bytes that the
/// backend emits for them.
proof fn lemma_div_middle_bytes(ops: Seq<Op>, op: DivOp, dest: R, src1: R, src2: Src, i: Ins)
    requires
        div_core_bytes(op, dest, src1, src2, i) is Ok,
    ensures
        ops_bytes(div_middle_ops(ops, op, dest, src1, src2)) == ops_bytes(ops) + div_core_bytes(
            op,
            dest,
            src1,
            src2,
            i,
        ).unwrap(),
{
    let m = Machine { regs: Seq::empty(), stack: Seq::empty() };
    let spill = div_uses_stack(src2);
    let c = then(ops, spill, push_op(src2));
    let d = then(c, src1 != R(RAX), Op::Mov(R(RAX), src1));
    let f = d.push(extend_op(op));
    let g = f.push(divide_op(op, src2));
    let h = then(g, dest != R(RAX), Op::Mov(dest, R(RAX)));
    let j = then(h, spill, Op::Drop);
    lemma_then(m, ops, spill, push_op(src2));
    lemma_then(m, c, src1 != R(RAX), Op::Mov(R(RAX), src1));
    lemma_then(m, d, true, extend_op(op));
    lemma_then(m, f, true, divide_op(op, src2));
    lemma_then(m, g, dest != R(RAX), Op::Mov(dest, R(RAX)));
    lemma_then(m, h, spill, Op::Drop);
    let x = ops_bytes(ops);
    let q = mov_reg_bytes(R(RAX), src1);
    let r = div_extend_bytes(op);
    let t = div_divide_bytes(op, src2);
    let u = mov_reg_bytes(dest, R(RAX));
    assert(op_bytes(extend_op(op)) == r);
    assert(op_bytes(divide_op(op, src2)) == t);
    if spill {
        let p = op_bytes(push_op(src2));
        let v = div_release_bytes();
        assert(op_bytes(Op::Drop) == v);
        assert(push_bytes(src2, i) == Ok::<Seq<u8>, crate::error::Error>(p));
        lemma_regroup(x, p, q, r, t, u, v);
    } else {
        let n = Seq::<u8>::empty();
        lemma_regroup(x, n, q, r, t, u, n);
    }
}

/// Seven byte strings in a row are the first, then the rest; and an empty
/// string at either end of the rest can be left out.
proof fn lemma_regroup(
    x: Seq<u8>,
    p: Seq<u8>,
    q: Seq<u8>,
    r: Seq<u8>,
    t: Seq<u8>,
    u: Seq<u8>,
    v: Seq<u8>,
)
    ensures
        x + p + q + r + t + u + v == x + (p + (q + r + t + u) + v),
        p.len() == 0 && v.len() == 0 ==> p + (q + r + t + u) + v == q + r + t + u,
{
    assert(x + p + q + r + t + u + v =~= x + (p + (q + r + t + u) + v));
    if p.len() == 0 && v.len() == 0 {
        assert(p + (q + r + t + u) + v =~= q + r + t + u);
    }
}

/// The instructions that restore `rdx` and `rax` have the bytes that the
/// backend emits for them.
proof fn lemma_div_restore_bytes(ops: Seq<Op>, dest: R)
    ensures
        ops_bytes(div_restore_ops(ops, dest)) == ops_bytes(ops) + div_restore_bytes(dest),
{
    let m = Machine { regs: Seq::empty(), stack: Seq::empty() };
    let k = then(ops, dest != R(RDX), Op::Pop(R(RDX)));
    lemma_then(m, ops, dest != R(RDX), Op::Pop(R(RDX)));
    lemma_then(m, k, dest != R(RAX), Op::Pop(R(RAX)));
    assert(ops_bytes(div_restore_ops(ops, dest)) =~= ops_bytes(ops) + div_restore_bytes(dest));
}

/// The sequence for a division has the bytes that the backend emits.
pub proof fn lemma_div_ops_bytes(op: DivOp, dest: R, src1: R, src2: Src, i: Ins)
    requires
        div_bytes(op, dest, src1, src2, i) is Ok,
    ensures
        ops_bytes(div_ops(op, dest, src1, src2)) == div_bytes(op, dest, src1, src2, i).unwrap(),
{
    let b = div_save_ops(dest);
    let j = div_middle_ops(b, op, dest, src1, src2);
    lemma_div_save_bytes(dest);
    lemma_div_middle_bytes(b, op, dest, src1, src2, i);
    lemma_div_restore_bytes(j, dest);
}

/// The middle of a division, between the saving and the restoring: it leaves
/// the quotient in the destination and the stack as it was, and changes no
/// register but the destination, `rax` and `rdx`.
proof fn lemma_div_middle(
    m: Machine,
    ops: Seq<Op>,
    n: Machine,
    op: DivOp,
    dest: R,
    src1: R,
    src2: Src,
)
    requires
        m.run(ops) == Some(n),
        n.wf(),
        known(dest),
        known(src1),
        known_src(src2),
        divisible(op, n.get(src1), value(n, src2)),
    ensures
        m.run(div_middle_ops(ops, op, dest, src1, src2)) matches Some(x) && x.wf() && x.get(dest)
            == divided(op, n.get(src1), value(n, src2)) && x.stack == n.stack && forall|k: int|
            0 <= k < 16 && k != dest.0 && k != RAX && k != RDX ==> x.regs[k] == n.regs[k],
{
    let spill = div_uses_stack(src2);
    let v1 = n.get(src1);
    let v2 = value(n, src2);
    let c = then(ops, spill, push_op(src2));
    let d = then(c, src1 != R(RAX), Op::Mov(R(RAX), src1));
    let f = d.push(extend_op(op));
    let g = f.push(divide_op(op, src2));
    let h = then(g, dest != R(RAX), Op::Mov(dest, R(RAX)));
    let j = then(h, spill, Op::Drop);
    lemma_then(m, ops, spill, push_op(src2));
    lemma_then(m, c, src1 != R(RAX), Op::Mov(R(RAX), src1));
    lemma_then(m, d, true, extend_op(op));
    lemma_then(m, f, true, divide_op(op, src2));
    lemma_then(m, g, dest != R(RAX), Op::Mov(dest, R(RAX)));
    lemma_then(m, h, spill, Op::Drop);
    let mc = m.run(c).unwrap();
    assert(mc.regs == n.regs);
    assert(spill ==> mc.stack == n.stack.push(v2));
    assert(!spill ==> mc.stack == n.stack);
    let md = m.run(d).unwrap();
    assert(md.get(R(RAX)) == v1);
    assert(md.stack == mc.stack);
    assert(md.wf());
    assert(!spill ==> value(md, src2) == v2);
    lemma_divide(md, op, v1, v2);
    let mf = m.run(f).unwrap();
    assert(mf.stack == mc.stack);
    assert(!spill ==> value(mf, src2) == v2);
    let mg = m.run(g).unwrap();
    assert(mg == mf.divide(op, v2).unwrap());
    let mh = m.run(h).unwrap();
    assert(mh.stack == mc.stack);
    let mj = m.run(j).unwrap();
    assert(mj.regs == mh.regs);
    assert(spill ==> mj.stack =~= n.stack);
}

/// The saving of `rax` and `rdx` changes no register.
proof fn lemma_div_save(m: Machine, dest: R)
    requires
        m.wf(),
    ensures
        m.run(div_save_ops(dest)) matches Some(n) && n.regs == m.regs && n.stack == (if dest
            != R(RAX) {
            m.stack.push(m.get(R(RAX)))
        } else {
            m.stack
        }) + (if dest != R(RDX) {
            seq![m.get(R(RDX))]
        } else {
            Seq::empty()
        }),
{
    let e = Seq::<Op>::empty();
    let a = then(e, dest != R(RAX), Op::Push(R(RAX)));
    lemma_then(m, e, dest != R(RAX), Op::Push(R(RAX)));
    lemma_then(m, a, dest != R(RDX), Op::Push(R(RDX)));
    let n = m.run(div_save_ops(dest)).unwrap();
    assert(n.stack =~= (if dest != R(RAX) {
        m.stack.push(m.get(R(RAX)))
    } else {
        m.stack
    }) + (if dest != R(RDX) {
        seq![m.get(R(RDX))]
    } else {
        Seq::empty()
    }));
}

/// The restoring of `rdx` and `rax` takes from the stack what the saving
/// put there.
proof fn lemma_div_restore(m: Machine, ops: Seq<Op>, x: Machine, dest: R, stack: Seq<u64>, a: u64, d: u64)
    requires
        m.run(ops) == Some(x),
        x.wf(),
        known(dest),
        x.stack == (if dest != R(RAX) {
            stack.push(a)
        } else {
            stack
        }) + (if dest != R(RDX) {
            seq![d]
        } else {
            Seq::empty()
        }),
    ensures
        m.run(div_restore_ops(ops, dest)) matches Some(y) && y.stack == stack && y.get(dest)
            == x.get(dest) && (dest != R(RAX) ==> y.get(R(RAX)) == a) && (dest != R(RDX) ==> y.get(
            R(RDX),
        ) == d) && y.wf() && forall|k: int|
            0 <= k < 16 && k != RAX && k != RDX ==> y.regs[k] == x.regs[k],
{
    let k = then(ops, dest != R(RDX), Op::Pop(R(RDX)));
    lemma_then(m, ops, dest != R(RDX), Op::Pop(R(RDX)));
    lemma_then(m, k, dest != R(RAX), Op::Pop(R(RAX)));
    let saved = if dest != R(RAX) {
        stack.push(a)
    } else {
        stack
    };
    let mk = m.run(k).unwrap();
    assert(mk.stack =~= saved);
    let y = m.run(div_restore_ops(ops, dest)).unwrap();
    assert(y.stack =~= stack);
}

/// A division computes the quotient of `src1` by `src2` into its
/// destination and changes nothing else, not `rax`, `rdx` or the stack
/// either, whatever registers the destination and the operands are.
pub proof fn lemma_div_computes(m: Machine, op: DivOp, dest: R, src1: R, src2: Src, i: Ins)
    requires
        m.wf(),
        known(dest),
        known(src1),
        known_src(src2),
        divisible(op, m.get(src1), value(m, src2)),
        div_bytes(op, dest, src1, src2, i) is Ok,
    ensures
        ops_bytes(div_ops(op, dest, src1, src2)) == div_bytes(op, dest, src1, src2, i).unwrap(),
        m.run(div_ops(op, dest, src1, src2)) == Some(
            m.set(dest, divided(op, m.get(src1), value(m, src2))),
        ),
{
    lemma_div_ops_bytes(op, dest, src1, src2, i);
    let q = divided(op, m.get(src1), value(m, src2));
    let b = div_save_ops(dest);
    lemma_div_save(m, dest);
    let mb = m.run(b).unwrap();
    lemma_div_middle(m, b, mb, op, dest, src1, src2);
    let j = div_middle_ops(b, op, dest, src1, src2);
    let mj = m.run(j).unwrap();
    lemma_div_restore(m, j, mj, dest, m.stack, m.get(R(RAX)), m.get(R(RDX)));
    let y = m.run(div_ops(op, dest, src1, src2)).unwrap();
    assert(y.regs =~= m.set(dest, q).regs);
}

/// The instructions of the machine that stand for an instruction of integer
/// arithmetic or a move.
pub open spec fn arith_ops(i: Ins) -> Seq<Op> {
    match i {
        Ins::Add(d, s1, s2) => binary_ops(BinOp::Alu(Alu::Add), d, s1, s2),
        Ins::Sub(d, s1, s2) => binary_ops(BinOp::Alu(Alu::Sub), d, s1, s2),
        Ins::And(d, s1, s2) => binary_ops(BinOp::Alu(Alu::And), d, s1, s2),
        Ins::Or(d, s1, s2) => binary_ops(BinOp::Alu(Alu::Or), d, s1, s2),
        Ins::Xor(d, s1, s2) => binary_ops(BinOp::Alu(Alu::Xor), d, s1, s2),
        Ins::Mul(d, s1, s2) => binary_ops(BinOp::Mul, d, s1, s2),
        Ins::Cmp(s1, s2) => binary_ops(BinOp::Alu(Alu::Cmp), s1, s1, s2),
        Ins::Cmpi(s1, v) => binary_ops(BinOp::Alu(Alu::Cmp), s1, s1, Src::Imm(as_signed(v))),
        Ins::Shl(d, s1, s2) => shift_ops(ShiftOp::Shl, d, s1, s2),
        Ins::Shr(d, s1, s2) => shift_ops(ShiftOp::Shr, d, s1, s2),
        Ins::Sar(d, s1, s2) => shift_ops(ShiftOp::Sar, d, s1, s2),
        Ins::UDiv(d, s1, s2) => div_ops(DivOp::Unsigned, d, s1, s2),
        Ins::SDiv(d, s1, s2) => div_ops(DivOp::Signed, d, s1, s2),
        Ins::Not(d, Src::SR(n)) => unary_ops(UnOp::Not, d, R(n)),
        Ins::Neg(d, Src::SR(n)) => unary_ops(UnOp::Neg, d, R(n)),
        Ins::Mov(d, Src::SR(n)) => then(Seq::empty(), R(n) != d, Op::Mov(d, R(n))),
        Ins::Mov(d, Src::Imm(v)) => seq![Op::MovImm(d, v)],
        Ins::Movi(d, v) => seq![Op::MovImm(d, as_signed(v))],
        _ => Seq::empty(),
    }
}

/// The destination of an instruction of integer arithmetic or a move, and
/// the value that it is to get.
pub open spec fn arith_result(i: Ins, m: Machine) -> (R, u64) {
    match i {
        Ins::Add(d, s1, s2) => (d, binary(BinOp::Alu(Alu::Add), m.get(s1), value(m, s2))),
        Ins::Sub(d, s1, s2) => (d, binary(BinOp::Alu(Alu::Sub), m.get(s1), value(m, s2))),
        Ins::And(d, s1, s2) => (d, binary(BinOp::Alu(Alu::And), m.get(s1), value(m, s2))),
        Ins::Or(d, s1, s2) => (d, binary(BinOp::Alu(Alu::Or), m.get(s1), value(m, s2))),
        Ins::Xor(d, s1, s2) => (d, binary(BinOp::Alu(Alu::Xor), m.get(s1), value(m, s2))),
        Ins::Mul(d, s1, s2) => (d, binary(BinOp::Mul, m.get(s1), value(m, s2))),
        Ins::Shl(d, s1, s2) => (d, shifted(ShiftOp::Shl, m.get(s1), value(m, s2))),
        Ins::Shr(d, s1, s2) => (d, shifted(ShiftOp::Shr, m.get(s1), value(m, s2))),
        Ins::Sar(d, s1, s2) => (d, shifted(ShiftOp::Sar, m.get(s1), value(m, s2))),
        Ins::UDiv(d, s1, s2) => (d, divided(DivOp::Unsigned, m.get(s1), value(m, s2))),
        Ins::SDiv(d, s1, s2) => (d, divided(DivOp::Signed, m.get(s1), value(m, s2))),
        Ins::Not(d, s) => (d, unary(UnOp::Not, value(m, s))),
        Ins::Neg(d, s) => (d, unary(UnOp::Neg, value(m, s))),
        Ins::Mov(d, s) => (d, value(m, s)),
        Ins::Movi(d, v) => (d, v),
        Ins::Cmp(d, _) => (d, m.get(d)),
        Ins::Cmpi(d, _) => (d, m.get(d)),
        _ => (R(0), m.get(R(0))),
    }
}

/// Whether the model says what an instruction of integer arithmetic
/// computes on a machine: it knows the registers, a division has a quotient,
/// and the second operand of an addition, subtraction, multiplication or
/// bitwise operation can still be read once the first has been moved to the
/// destination.  Shifts and divisions compute whatever registers their
/// operands are.
pub open spec fn arith_defined(i: Ins, m: Machine) -> bool {
    match i {
        Ins::Add(d, s1, s2)
        | Ins::Sub(d, s1, s2)
        | Ins::And(d, s1, s2)
        | Ins::Or(d, s1, s2)
        | Ins::Xor(d, s1, s2)
        | Ins::Mul(d, s1, s2) => known(d) && known(s1) && known_src(s2) && readable(d, s1, s2),
        Ins::Shl(d, s1, s2) | Ins::Shr(d, s1, s2) | Ins::Sar(d, s1, s2) => known(d) && known(s1)
            && known_src(s2),
        Ins::UDiv(d, s1, s2) => known(d) && known(s1) && known_src(s2) && divisible(
            DivOp::Unsigned,
            m.get(s1),
            value(m, s2),
        ),
        Ins::SDiv(d, s1, s2) => known(d) && known(s1) && known_src(s2) && divisible(
            DivOp::Signed,
            m.get(s1),
            value(m, s2),
        ),
        Ins::Not(d, s) | Ins::Neg(d, s) | Ins::Mov(d, s) | Ins::Cmp(d, s) => known(d) && known_src(
            s,
        ),
        Ins::Movi(d, _) | Ins::Cmpi(d, _) => known(d),
        _ => false,
    }
}

/// What holds of an instruction once the model says what it computes.
pub open spec fn computes(i: Ins, level: CpuLevel, m: Machine) -> bool {
    &&& encode(i, level) == Ok::<Seq<u8>, Error>(ops_bytes(arith_ops(i)))
    &&& m.run(arith_ops(i)) == Some(m.set(arith_result(i, m).0, arith_result(i, m).1))
}

/// Additions, subtractions and the bitwise operations compute.
proof fn lemma_alu_computes(i: Ins, level: CpuLevel, m: Machine)
    requires
        m.wf(),
        arith_defined(i, m),
        encode(i, level) is Ok,
        i is Add || i is Sub || i is And || i is Or || i is Xor,
    ensures
        computes(i, level, m),
{
    reveal(arith_bytes);
    match i {
        Ins::Add(d, s1, s2) => lemma_binary_computes(m, BinOp::Alu(Alu::Add), d, s1, s2, i),
        Ins::Sub(d, s1, s2) => lemma_binary_computes(m, BinOp::Alu(Alu::Sub), d, s1, s2, i),
        Ins::And(d, s1, s2) => lemma_binary_computes(m, BinOp::Alu(Alu::And), d, s1, s2, i),
        Ins::Or(d, s1, s2) => lemma_binary_computes(m, BinOp::Alu(Alu::Or), d, s1, s2, i),
        Ins::Xor(d, s1, s2) => lemma_binary_computes(m, BinOp::Alu(Alu::Xor), d, s1, s2, i),
        _ => {},
    }
}

/// Multiplications and comparisons compute.
proof fn lemma_mul_compare_computes(i: Ins, level: CpuLevel, m: Machine)
    requires
        m.wf(),
        arith_defined(i, m),
        encode(i, level) is Ok,
        i is Mul || i is Cmp || i is Cmpi,
    ensures
        computes(i, level, m),
{
    reveal(arith_bytes);
    match i {
        Ins::Mul(d, s1, s2) => lemma_binary_computes(m, BinOp::Mul, d, s1, s2, i),
        Ins::Cmp(s1, s2) => {
            lemma_binary_computes(m, BinOp::Alu(Alu::Cmp), s1, s1, s2, i);
            assert(m.set(s1, m.get(s1)).regs =~= m.regs);
        },
        Ins::Cmpi(s1, v) => {
            lemma_binary_computes(m, BinOp::Alu(Alu::Cmp), s1, s1, Src::Imm(as_signed(v)), i);
            assert(m.set(s1, m.get(s1)).regs =~= m.regs);
        },
        _ => {},
    }
}

/// Shifts compute.
proof fn lemma_shifts_compute(i: Ins, level: CpuLevel, m: Machine)
    requires
        m.wf(),
        arith_defined(i, m),
        encode(i, level) is Ok,
        i is Shl || i is Shr || i is Sar,
    ensures
        computes(i, level, m),
{
    reveal(arith_bytes);
    match i {
        Ins::Shl(d, s1, s2) => lemma_shift_computes(m, ShiftOp::Shl, d, s1, s2, i),
        Ins::Shr(d, s1, s2) => lemma_shift_computes(m, ShiftOp::Shr, d, s1, s2, i),
        Ins::Sar(d, s1, s2) => lemma_shift_computes(m, ShiftOp::Sar, d, s1, s2, i),
        _ => {},
    }
}

/// Divisions compute.
proof fn lemma_divisions_compute(i: Ins, level: CpuLevel, m: Machine)
    requires
        m.wf(),
        arith_defined(i, m),
        encode(i, level) is Ok,
        i is UDiv || i is SDiv,
    ensures
        computes(i, level, m),
{
    reveal(arith_bytes);
    match i {
        Ins::UDiv(d, s1, s2) => lemma_div_computes(m, DivOp::Unsigned, d, s1, s2, i),
        Ins::SDiv(d, s1, s2) => lemma_div_computes(m, DivOp::Signed, d, s1, s2, i),
        _ => {},
    }
}

/// Unary operations compute.
proof fn lemma_unaries_compute(i: Ins, level: CpuLevel, m: Machine)
    requires
        m.wf(),
        arith_defined(i, m),
        encode(i, level) is Ok,
        i is Not || i is Neg,
    ensures
        computes(i, level, m),
{
    reveal(arith_bytes);
    match i {
        Ins::Not(d, Src::SR(n)) => lemma_unary_computes(m, UnOp::Not, d, R(n), i),
        Ins::Neg(d, Src::SR(n)) => lemma_unary_computes(m, UnOp::Neg, d, R(n), i),
        _ => {},
    }
}

/// A quadword read as a signed number and wrapped again is the quadword.
proof fn lemma_wrap_signed(v: u64)
    ensures
        wrap(as_signed(v) as int) == v,
{
}

/// Moves compute.
proof fn lemma_moves_compute(i: Ins, level: CpuLevel, m: Machine)
    requires
        m.wf(),
        arith_defined(i, m),
        encode(i, level) is Ok,
        i is Mov || i is Movi,
    ensures
        computes(i, level, m),
{
    reveal(arith_bytes);
    match i {
        Ins::Mov(d, s) => {
            lemma_move_computes(m, d, s, i);
        },
        Ins::Movi(d, v) => {
            lemma_move_computes(m, d, Src::Imm(as_signed(v)), i);
            lemma_wrap_signed(v);
        },
        _ => {},
    }
}

/// What the backend emits for an instruction of integer arithmetic or a
/// move are the bytes of instructions that compute, into the destination,
/// what the arithmetic of the processor gives for the operands, and that
/// leave every other register and the stack as they were.
pub proof fn lemma_arith_computes(i: Ins, level: CpuLevel, m: Machine)
    requires
        m.wf(),
        arith_defined(i, m),
        encode(i, level) is Ok,
    ensures
        encode(i, level) == Ok::<Seq<u8>, Error>(ops_bytes(arith_ops(i))),
        m.run(arith_ops(i)) == Some(m.set(arith_result(i, m).0, arith_result(i, m).1)),
{
    if i is Add || i is Sub || i is And || i is Or || i is Xor {
        lemma_alu_computes(i, level, m);
    } else if i is Mul || i is Cmp || i is Cmpi {
        lemma_mul_compare_computes(i, level, m);
    } else if i is Shl || i is Shr || i is Sar {
        lemma_shifts_compute(i, level, m);
    } else if i is UDiv || i is SDiv {
        lemma_divisions_compute(i, level, m);
    } else if i is Not || i is Neg {
        lemma_unaries_compute(i, level, m);
    } else {
        lemma_moves_compute(i, level, m);
    }
}

/// A move leaves the value of its operand in its destination and changes
/// nothing else.
proof fn lemma_move_computes(m: Machine, d: R, s: Src, i: Ins)
    requires
        m.wf(),
        known(d),
        known_src(s),
    ensures
        mov_bytes(d, s, i) == Ok::<Seq<u8>, Error>(
            ops_bytes(
                match s {
                    Src::SR(n) => then(Seq::empty(), R(n) != d, Op::Mov(d, R(n))),
                    Src::Imm(v) => seq![Op::MovImm(d, v)],
                    Src::SV(_) => Seq::empty(),
                },
            ),
        ),
        m.run(
            match s {
                Src::SR(n) => then(Seq::empty(), R(n) != d, Op::Mov(d, R(n))),
                Src::Imm(v) => seq![Op::MovImm(d, v)],
                Src::SV(_) => Seq::empty(),
            },
        ) == Some(m.set(d, value(m, s))),
{
    let e = Seq::<Op>::empty();
    match s {
        Src::SR(n) => {
            lemma_then(m, e, R(n) != d, Op::Mov(d, R(n)));
            assert(m.set(d, m.get(d)).regs =~= m.regs);
            assert(ops_bytes(then(e, R(n) != d, Op::Mov(d, R(n)))) =~= mov_reg_bytes(d, R(n)));
        },
        Src::Imm(v) => {
            lemma_then(m, e, true, Op::MovImm(d, v));
            assert(e.push(Op::MovImm(d, v)) =~= seq![Op::MovImm(d, v)]);
            assert(ops_bytes(seq![Op::MovImm(d, v)]) =~= mov_imm_bytes(d, v));
        },
        Src::SV(_) => {},
    }
}

} // verus!
