//! What the integer instructions that the backend emits do to the registers
//! and the stack.
//!
//! The model knows the general-purpose registers but the stack pointer, and
//! the quadwords that have been pushed.  It is enough to say what the
//! sequences for arithmetic, shifts and division compute, under every
//! aliasing of their operands with each other and with the registers that
//! the processor fixes for them.
use crate::bytes::{signed, wrap};
use crate::x86_64::regs::{RAX, RCX, RDX, RSP};
use crate::x86_64::scalar::{
    alu_reg_bytes,
    div_top_bytes,
    group_bytes,
    imm_form_bytes,
    mov_imm_bytes,
    mul_reg_bytes,
    pop_bytes,
    push_imm_bytes,
    push_reg_bytes,
    regreg_bytes,
    shift_imm_bytes,
    xchg_bytes,
    Alu,
    BinOp,
    DivOp,
    ShiftOp,
    UnOp,
};
use crate::ir::R;
use vstd::arithmetic::power2::pow2;
use vstd::prelude::*;

verus! {

/// The registers and the stack.
pub struct Machine {
    /// The values of the sixteen general-purpose registers.  That of the
    /// stack pointer is not used.
    pub regs: Seq<u64>,
    /// The quadwords on the stack, the last pushed last.
    pub stack: Seq<u64>,
}

/// An instruction on registers and the stack.
pub enum Op {
    /// `push r64`
    Push(R),
    /// `push imm`, sign-extended
    PushImm(i64),
    /// `pop r64`
    Pop(R),
    /// `mov dest, src`
    Mov(R, R),
    /// `mov dest, imm`, sign-extended
    MovImm(R, i64),
    /// `xchg a, b`
    Xchg(R, R),
    /// An operation of the arithmetic group, `dest op= src`
    Alu(Alu, R, R),
    /// An operation of the arithmetic group with an immediate, sign-extended
    AluImm(Alu, R, i64),
    /// `imul dest, src`
    Mul(R, R),
    /// `imul dest, dest, imm`
    MulImm(R, i64),
    /// `not` or `neg`
    Unary(UnOp, R),
    /// A shift by the count in `cl`
    Shift(ShiftOp, R),
    /// A shift by an immediate count
    ShiftImm(ShiftOp, R, i64),
    /// `cqo`: `rdx` becomes the sign of `rax`
    Cqo,
    /// `div` or `idiv` of `rdx:rax` by a register
    Div(DivOp, R),
    /// `div` or `idiv` of `rdx:rax` by the quadword on top of the stack
    DivTop(DivOp),
    /// `add rsp, 8`: the quadword on top of the stack is dropped
    Drop,
}

/// Whether the model knows a register: any but the stack pointer.
pub open spec fn known(r: R) -> bool {
    r.is_x86() && r != R(RSP)
}

/// What an operation of the arithmetic group leaves in its destination.  A
/// comparison leaves it as it is.
pub open spec fn alu(op: Alu, a: u64, b: u64) -> u64 {
    match op {
        Alu::Add => wrap(a + b),
        Alu::Sub => wrap(a - b),
        Alu::And => a & b,
        Alu::Or => a | b,
        Alu::Xor => a ^ b,
        Alu::Cmp => a,
    }
}

/// What a binary operation leaves in its destination.
pub open spec fn binary(op: BinOp, a: u64, b: u64) -> u64 {
    match op {
        BinOp::Alu(o) => alu(o, a, b),
        BinOp::Mul => wrap(a * b),
    }
}

/// What a unary operation leaves in its destination.
pub open spec fn unary(op: UnOp, a: u64) -> u64 {
    match op {
        UnOp::Not => wrap(-1 - signed(a)),
        UnOp::Neg => wrap(-signed(a)),
    }
}

/// What a shift leaves in its destination.  Only the low six bits of the
/// count are used.
pub open spec fn shifted(op: ShiftOp, a: u64, count: u64) -> u64 {
    let k = (count % 64) as nat;
    match op {
        ShiftOp::Shl => wrap(a as int * pow2(k) as int),
        ShiftOp::Shr => wrap(a as int / pow2(k) as int),
        ShiftOp::Sar => wrap(signed(a) / pow2(k) as int),
    }
}

/// The quotient of two numbers, rounded toward zero.
pub open spec fn truncated(n: int, d: int) -> int {
    if n >= 0 {
        if d > 0 {
            n / d
        } else {
            -(n / (-d))
        }
    } else {
        if d > 0 {
            -((-n) / d)
        } else {
            (-n) / (-d)
        }
    }
}

/// The quotient of two quadwords.
pub open spec fn divided(op: DivOp, a: u64, b: u64) -> u64 {
    match op {
        DivOp::Unsigned => wrap((a as int) / (b as int)),
        DivOp::Signed => wrap(truncated(signed(a), signed(b))),
    }
}

/// Whether a division of two quadwords has a quotient that a quadword holds.
pub open spec fn divisible(op: DivOp, a: u64, b: u64) -> bool {
    match op {
        DivOp::Unsigned => b != 0,
        DivOp::Signed => b != 0 && !(a == 0x8000_0000_0000_0000 && b == 0xffff_ffff_ffff_ffff),
    }
}

impl Machine {
    /// The value of a register.
    pub open spec fn get(self, r: R) -> u64 {
        self.regs[r.0 as int]
    }

    /// The machine with a register set.
    pub open spec fn set(self, r: R, v: u64) -> Machine {
        Machine { regs: self.regs.update(r.0 as int, v), ..self }
    }

    /// The machine with a quadword pushed.
    pub open spec fn push(self, v: u64) -> Machine {
        Machine { stack: self.stack.push(v), ..self }
    }

    /// The machine with the quadword on top of the stack dropped.
    pub open spec fn drop(self) -> Machine {
        Machine { stack: self.stack.drop_last(), ..self }
    }

    /// Whether the machine has its sixteen registers.
    pub open spec fn wf(self) -> bool {
        self.regs.len() == 16
    }

    /// The machine after the division of `rdx:rax` by `d`, with the quotient
    /// in `rax` and the remainder in `rdx`; none if the processor would
    /// fault, on a divisor of zero or a quotient that `rax` cannot hold.
    pub open spec fn divide(self, op: DivOp, d: u64) -> Option<Machine> {
        let hi = self.get(R(RDX));
        let lo = self.get(R(RAX));
        match op {
            DivOp::Unsigned => {
                let n = hi * 0x1_0000_0000_0000_0000 + lo;
                if d == 0 || n / (d as int) >= 0x1_0000_0000_0000_0000 {
                    None
                } else {
                    Some(
                        self.set(R(RAX), wrap(n / (d as int))).set(R(RDX), wrap(n % (d as int))),
                    )
                }
            },
            DivOp::Signed => {
                let n = signed(hi) * 0x1_0000_0000_0000_0000 + lo;
                let q = truncated(n, signed(d));
                if d == 0 || q < -0x8000_0000_0000_0000 || q >= 0x8000_0000_0000_0000 {
                    None
                } else {
                    Some(self.set(R(RAX), wrap(q)).set(R(RDX), wrap(n - q * signed(d))))
                }
            },
        }
    }

    /// The machine after an instruction; none if the processor would fault
    /// or the model does not know a register of the instruction.
    pub open spec fn exec(self, op: Op) -> Option<Machine> {
        match op {
            Op::Push(r) => if known(r) {
                Some(self.push(self.get(r)))
            } else {
                None
            },
            Op::PushImm(v) => Some(self.push(wrap(v as int))),
            Op::Pop(r) => if known(r) && self.stack.len() > 0 {
                Some(self.drop().set(r, self.stack.last()))
            } else {
                None
            },
            Op::Mov(d, s) => if known(d) && known(s) {
                Some(self.set(d, self.get(s)))
            } else {
                None
            },
            Op::MovImm(d, v) => if known(d) {
                Some(self.set(d, wrap(v as int)))
            } else {
                None
            },
            Op::Xchg(a, b) => if known(a) && known(b) {
                Some(self.set(a, self.get(b)).set(b, self.get(a)))
            } else {
                None
            },
            Op::Alu(o, d, s) => if known(d) && known(s) {
                Some(self.set(d, alu(o, self.get(d), self.get(s))))
            } else {
                None
            },
            Op::AluImm(o, d, v) => if known(d) {
                Some(self.set(d, alu(o, self.get(d), wrap(v as int))))
            } else {
                None
            },
            Op::Mul(d, s) => if known(d) && known(s) {
                Some(self.set(d, wrap(self.get(d) * self.get(s))))
            } else {
                None
            },
            Op::MulImm(d, v) => if known(d) {
                Some(self.set(d, wrap(self.get(d) * wrap(v as int))))
            } else {
                None
            },
            Op::Unary(o, d) => if known(d) {
                Some(self.set(d, unary(o, self.get(d))))
            } else {
                None
            },
            Op::Shift(o, d) => if known(d) {
                Some(self.set(d, shifted(o, self.get(d), self.get(R(RCX)))))
            } else {
                None
            },
            Op::ShiftImm(o, d, v) => if known(d) {
                Some(self.set(d, shifted(o, self.get(d), wrap(v as int))))
            } else {
                None
            },
            Op::Cqo => Some(
                self.set(
                    R(RDX),
                    if signed(self.get(R(RAX))) < 0 {
                        0xffff_ffff_ffff_ffffu64
                    } else {
                        0u64
                    },
                ),
            ),
            Op::Div(o, r) => if known(r) {
                self.divide(o, self.get(r))
            } else {
                None
            },
            Op::DivTop(o) => if self.stack.len() > 0 {
                self.divide(o, self.stack.last())
            } else {
                None
            },
            Op::Drop => if self.stack.len() > 0 {
                Some(self.drop())
            } else {
                None
            },
        }
    }

    /// The machine after a sequence of instructions.
    pub open spec fn run(self, ops: Seq<Op>) -> Option<Machine>
        decreases ops.len(),
    {
        if ops.len() == 0 {
            Some(self)
        } else {
            match self.run(ops.drop_last()) {
                Some(m) => m.exec(ops.last()),
                None => None,
            }
        }
    }
}

/// The bytes of an instruction.
pub open spec fn op_bytes(op: Op) -> Seq<u8> {
    match op {
        Op::Push(r) => push_reg_bytes(r),
        Op::PushImm(v) => push_imm_bytes(v),
        Op::Pop(r) => pop_bytes(r),
        Op::Mov(d, s) => regreg_bytes(0x89, d, s),
        Op::MovImm(d, v) => mov_imm_bytes(d, v),
        Op::Xchg(a, b) => xchg_bytes(a, b),
        Op::Alu(o, d, s) => alu_reg_bytes(o, d, s),
        Op::AluImm(o, d, v) => imm_form_bytes(BinOp::Alu(o), d, v),
        Op::Mul(d, s) => mul_reg_bytes(d, s),
        Op::MulImm(d, v) => imm_form_bytes(BinOp::Mul, d, v),
        Op::Unary(o, d) => group_bytes(0xf7, o.digit(), d),
        Op::Shift(o, d) => group_bytes(0xd3, o.digit(), d),
        Op::ShiftImm(o, d, v) => shift_imm_bytes(o, d, v),
        Op::Cqo => seq![0x48u8, 0x99u8],
        Op::Div(o, r) => group_bytes(0xf7, o.digit(), r),
        Op::DivTop(o) => div_top_bytes(o),
        Op::Drop => imm_form_bytes(BinOp::Alu(Alu::Add), R(RSP), 8),
    }
}

/// The bytes of a sequence of instructions.
pub open spec fn ops_bytes(ops: Seq<Op>) -> Seq<u8>
    decreases ops.len(),
{
    if ops.len() == 0 {
        Seq::empty()
    } else {
        ops_bytes(ops.drop_last()) + op_bytes(ops.last())
    }
}

/// A sequence with an instruction after it, if a condition holds.
pub open spec fn then(ops: Seq<Op>, c: bool, op: Op) -> Seq<Op> {
    if c {
        ops.push(op)
    } else {
        ops
    }
}

/// Running a sequence with one more instruction is running the sequence and
/// then the instruction; and so with its bytes.
pub proof fn lemma_then(m: Machine, ops: Seq<Op>, c: bool, op: Op)
    ensures
        m.run(then(ops, c, op)) == (match m.run(ops) {
            Some(n) => if c {
                n.exec(op)
            } else {
                Some(n)
            },
            None => None,
        }),
        ops_bytes(then(ops, c, op)) == ops_bytes(ops) + (if c {
            op_bytes(op)
        } else {
            Seq::empty()
        }),
{
    if c {
        assert(ops.push(op).drop_last() =~= ops);
    } else {
        assert(ops_bytes(ops) + Seq::<u8>::empty() =~= ops_bytes(ops));
    }
}

} // verus!
