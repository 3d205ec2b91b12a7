//! Whole programs for x86-64, and instructions under every combination of
//! registers that makes a difference.  The expected bytes are those that an
//! assembler gives for the instructions that the backend is to emit.
use ejit::x86_64::regs::{
    R10, R11, R12, R13, R14, R15, R8, R9, RAX, RBP, RBX, RCX, RDI, RDX, RSI, RSP,
};
use ejit::{Cond, Executable, Ins, Src, Type, R};

fn hex(bytes: &[u8]) -> String {
    let mut out = String::new();
    for (k, b) in bytes.iter().enumerate() {
        if k > 0 {
            out.push(' ');
        }
        out.push_str(&format!("{:02x}", b));
    }
    out
}

// Each of eleven operations on a pair of numbers that the first argument and
// the second point to, with the result stored over the first number.  Run on
// 100 + 1, 200 - 1, 15 & 3, 4 | 9, 1 ^ 9, -1 << 1, -1 >> 1 (logical and
// arithmetic), 123 * 100, -12300 / 100 (unsigned and signed), the code is
// to give what the arithmetic of the processor gives.
#[test]
fn arithmetic_between_registers() {
    let prog = Executable::from_ir(&[
        Ins::Ld(Type::U64, R(R9), R(RDI), 0),
        Ins::Ld(Type::U64, R(R10), R(RSI), 0),
        Ins::Add(R(R9), R(R9), Src::SR(R10)),
        Ins::St(Type::U64, R(R9), R(RDI), 0),
        Ins::Ld(Type::U64, R(R9), R(RDI), 8),
        Ins::Ld(Type::U64, R(R10), R(RSI), 8),
        Ins::Sub(R(R9), R(R9), Src::SR(R10)),
        Ins::St(Type::U64, R(R9), R(RDI), 8),
        Ins::Ld(Type::U64, R(R9), R(RDI), 16),
        Ins::Ld(Type::U64, R(R10), R(RSI), 16),
        Ins::And(R(R9), R(R9), Src::SR(R10)),
        Ins::St(Type::U64, R(R9), R(RDI), 16),
        Ins::Ld(Type::U64, R(R9), R(RDI), 24),
        Ins::Ld(Type::U64, R(R10), R(RSI), 24),
        Ins::Or(R(R9), R(R9), Src::SR(R10)),
        Ins::St(Type::U64, R(R9), R(RDI), 24),
        Ins::Ld(Type::U64, R(R9), R(RDI), 32),
        Ins::Ld(Type::U64, R(R10), R(RSI), 32),
        Ins::Xor(R(R9), R(R9), Src::SR(R10)),
        Ins::St(Type::U64, R(R9), R(RDI), 32),
        Ins::Ld(Type::U64, R(R9), R(RDI), 40),
        Ins::Ld(Type::U64, R(R10), R(RSI), 40),
        Ins::Shl(R(R9), R(R9), Src::SR(R10)),
        Ins::St(Type::U64, R(R9), R(RDI), 40),
        Ins::Ld(Type::U64, R(R9), R(RDI), 48),
        Ins::Ld(Type::U64, R(R10), R(RSI), 48),
        Ins::Shr(R(R9), R(R9), Src::SR(R10)),
        Ins::St(Type::U64, R(R9), R(RDI), 48),
        Ins::Ld(Type::U64, R(R9), R(RDI), 56),
        Ins::Ld(Type::U64, R(R10), R(RSI), 56),
        Ins::Sar(R(R9), R(R9), Src::SR(R10)),
        Ins::St(Type::U64, R(R9), R(RDI), 56),
        Ins::Ld(Type::U64, R(R9), R(RDI), 64),
        Ins::Ld(Type::U64, R(R10), R(RSI), 64),
        Ins::Mul(R(R9), R(R9), Src::SR(R10)),
        Ins::St(Type::U64, R(R9), R(RDI), 64),
        Ins::Ld(Type::U64, R(R9), R(RDI), 72),
        Ins::Ld(Type::U64, R(R10), R(RSI), 72),
        Ins::UDiv(R(R9), R(R9), Src::SR(R10)),
        Ins::St(Type::U64, R(R9), R(RDI), 72),
        Ins::Ld(Type::U64, R(R9), R(RDI), 80),
        Ins::Ld(Type::U64, R(R10), R(RSI), 80),
        Ins::SDiv(R(R9), R(R9), Src::SR(R10)),
        Ins::St(Type::U64, R(R9), R(RDI), 80),
        Ins::Ret,
    ])
    .unwrap();
    assert_eq!(
        hex(&prog.to_bytes()),
        "4c 8b 0f 4c 8b 16 4d 01 d1 4c 89 0f 4c 8b 4f 08 4c 8b 56 08 4d 29 d1 4c 89 4f 08 4c 8b \
         4f 10 4c 8b 56 10 4d 21 d1 4c 89 4f 10 4c 8b 4f 18 4c 8b 56 18 4d 09 d1 4c 89 4f 18 4c \
         8b 4f 20 4c 8b 56 20 4d 31 d1 4c 89 4f 20 4c 8b 4f 28 4c 8b 56 28 51 4c 89 d1 49 d3 e1 \
         59 4c 89 4f 28 4c 8b 4f 30 4c 8b 56 30 51 4c 89 d1 49 d3 e9 59 4c 89 4f 30 4c 8b 4f 38 \
         4c 8b 56 38 51 4c 89 d1 49 d3 f9 59 4c 89 4f 38 4c 8b 4f 40 4c 8b 56 40 4d 0f af ca 4c \
         89 4f 40 4c 8b 4f 48 4c 8b 56 48 50 52 4c 89 c8 48 c7 c2 00 00 00 00 49 f7 f2 49 89 c1 \
         5a 58 4c 89 4f 48 4c 8b 4f 50 4c 8b 56 50 50 52 4c 89 c8 48 99 49 f7 fa 49 89 c1 5a 58 \
         4c 89 4f 50 c3"
    );
}

// The same operations with the second number as an immediate.
#[test]
fn arithmetic_with_immediates() {
    let prog = Executable::from_ir(&[
        Ins::Ld(Type::U64, R(R9), R(RDI), 0),
        Ins::Add(R(R9), R(R9), Src::Imm(1)),
        Ins::St(Type::U64, R(R9), R(RDI), 0),
        Ins::Ld(Type::U64, R(R9), R(RDI), 8),
        Ins::Sub(R(R9), R(R9), Src::Imm(1)),
        Ins::St(Type::U64, R(R9), R(RDI), 8),
        Ins::Ld(Type::U64, R(R9), R(RDI), 16),
        Ins::And(R(R9), R(R9), Src::Imm(3)),
        Ins::St(Type::U64, R(R9), R(RDI), 16),
        Ins::Ld(Type::U64, R(R9), R(RDI), 24),
        Ins::Or(R(R9), R(R9), Src::Imm(9)),
        Ins::St(Type::U64, R(R9), R(RDI), 24),
        Ins::Ld(Type::U64, R(R9), R(RDI), 32),
        Ins::Xor(R(R9), R(R9), Src::Imm(9)),
        Ins::St(Type::U64, R(R9), R(RDI), 32),
        Ins::Ld(Type::U64, R(R9), R(RDI), 40),
        Ins::Shl(R(R9), R(R9), Src::Imm(1)),
        Ins::St(Type::U64, R(R9), R(RDI), 40),
        Ins::Ld(Type::U64, R(R9), R(RDI), 48),
        Ins::Shr(R(R9), R(R9), Src::Imm(1)),
        Ins::St(Type::U64, R(R9), R(RDI), 48),
        Ins::Ld(Type::U64, R(R9), R(RDI), 56),
        Ins::Sar(R(R9), R(R9), Src::Imm(1)),
        Ins::St(Type::U64, R(R9), R(RDI), 56),
        Ins::Ld(Type::U64, R(R9), R(RDI), 64),
        Ins::Mul(R(R9), R(R9), Src::Imm(100)),
        Ins::St(Type::U64, R(R9), R(RDI), 64),
        Ins::Ld(Type::U64, R(R9), R(RDI), 72),
        Ins::UDiv(R(R9), R(R9), Src::Imm(100)),
        Ins::St(Type::U64, R(R9), R(RDI), 72),
        Ins::Ld(Type::U64, R(R9), R(RDI), 80),
        Ins::SDiv(R(R9), R(R9), Src::Imm(100)),
        Ins::St(Type::U64, R(R9), R(RDI), 80),
        Ins::Ret,
    ])
    .unwrap();
    assert_eq!(
        hex(&prog.to_bytes()),
        "4c 8b 0f 49 83 c1 01 4c 89 0f 4c 8b 4f 08 49 83 e9 01 4c 89 4f 08 4c 8b 4f 10 49 83 e1 \
         03 4c 89 4f 10 4c 8b 4f 18 49 83 c9 09 4c 89 4f 18 4c 8b 4f 20 49 83 f1 09 4c 89 4f 20 \
         4c 8b 4f 28 49 c1 e1 01 4c 89 4f 28 4c 8b 4f 30 49 c1 e9 01 4c 89 4f 30 4c 8b 4f 38 49 \
         c1 f9 01 4c 89 4f 38 4c 8b 4f 40 4d 6b c9 64 4c 89 4f 40 4c 8b 4f 48 50 52 6a 64 4c 89 \
         c8 48 c7 c2 00 00 00 00 48 f7 34 24 49 89 c1 48 83 c4 08 5a 58 4c 89 4f 48 4c 8b 4f 50 \
         50 52 6a 64 4c 89 c8 48 99 48 f7 3c 24 49 89 c1 48 83 c4 08 5a 58 4c 89 4f 50 c3"
    );
}

// Three functions: one returns 123, one the sum of its arguments, one their
// difference.
#[test]
fn move_add_sub() {
    let prog = Executable::from_ir(&[
        Ins::Mov(R(RAX), Src::Imm(123)),
        Ins::Ret,
        Ins::Add(R(RAX), R(RDI), Src::SR(RSI)),
        Ins::Ret,
        Ins::Sub(R(RAX), R(RDI), Src::SR(RSI)),
        Ins::Ret,
    ])
    .unwrap();
    assert_eq!(hex(&prog.to_bytes()), "48 c7 c0 7b 00 00 00 c3 48 89 f8 48 01 f0 c3 48 89 f8 48 29 f0 c3");
}

// A loop that counts down from 10000 and adds the counter to a total, which it
// returns: 50005000.  The branch goes backward.
#[test]
fn countdown_loop() {
    let prog = Executable::from_ir(&[
        Ins::Mov(R(RAX), Src::Imm(10000)),
        Ins::Mov(R(RCX), Src::Imm(0)),
        Ins::Label(0),
        Ins::Add(R(RCX), R(RCX), Src::SR(RAX)),
        Ins::Sub(R(RAX), R(RAX), Src::Imm(1)),
        Ins::Cmp(R(RAX), Src::Imm(0)),
        Ins::B(Cond::Ne, 0),
        Ins::Mov(R(RAX), Src::SR(RCX)),
        Ins::Ret,
    ])
    .unwrap();
    assert_eq!(
        hex(&prog.to_bytes()),
        "48 c7 c0 10 27 00 00 48 c7 c1 00 00 00 00 48 01 c1 48 83 e8 01 48 83 f8 00 0f 85 ef ff \
         ff ff 48 89 c8 c3"
    );
}

#[test]
fn countdown_loop_with_immediate_instructions() {
    let prog = Executable::from_ir(&[
        Ins::Movi(R(RAX), 0x2710),
        Ins::Movi(R(RCX), 0x0),
        Ins::Movi(R(RDX), 0x1),
        Ins::Label(0),
        Ins::Add(R(RCX), R(RCX), Src::SR(RAX)),
        Ins::Sub(R(RAX), R(RAX), Src::SR(RDX)),
        Ins::Cmpi(R(RAX), 0x0),
        Ins::B(Cond::Ne, 0),
        Ins::Mov(R(RAX), Src::SR(RCX)),
        Ins::Ret,
    ])
    .unwrap();
    assert_eq!(
        hex(&prog.to_bytes()),
        "48 c7 c0 10 27 00 00 48 c7 c1 00 00 00 00 48 c7 c2 01 00 00 00 48 01 c1 48 29 d0 48 83 \
         f8 00 0f 85 f0 ff ff ff 48 89 c8 c3"
    );
}

// A function that returns 1 if a condition holds of its two arguments and 0 if
// not: one for each condition.  The branch goes forward.
#[test]
fn branch_if_eq() {
    let prog = Executable::from_ir(&[
        Ins::Cmp(R(RDI), Src::SR(RSI)),
        Ins::B(Cond::Eq, 1),
        Ins::Label(0),
        Ins::Mov(R(RAX), Src::Imm(0)),
        Ins::Ret,
        Ins::Label(1),
        Ins::Mov(R(RAX), Src::Imm(1)),
        Ins::Ret,
    ])
    .unwrap();
    assert_eq!(hex(&prog.to_bytes()), "48 39 f7 0f 84 08 00 00 00 48 c7 c0 00 00 00 00 c3 48 c7 c0 01 00 00 00 c3");
}

#[test]
fn branch_if_ne() {
    let prog = Executable::from_ir(&[
        Ins::Cmp(R(RDI), Src::SR(RSI)),
        Ins::B(Cond::Ne, 1),
        Ins::Label(0),
        Ins::Mov(R(RAX), Src::Imm(0)),
        Ins::Ret,
        Ins::Label(1),
        Ins::Mov(R(RAX), Src::Imm(1)),
        Ins::Ret,
    ])
    .unwrap();
    assert_eq!(hex(&prog.to_bytes()), "48 39 f7 0f 85 08 00 00 00 48 c7 c0 00 00 00 00 c3 48 c7 c0 01 00 00 00 c3");
}

#[test]
fn branch_if_sgt() {
    let prog = Executable::from_ir(&[
        Ins::Cmp(R(RDI), Src::SR(RSI)),
        Ins::B(Cond::Sgt, 1),
        Ins::Label(0),
        Ins::Mov(R(RAX), Src::Imm(0)),
        Ins::Ret,
        Ins::Label(1),
        Ins::Mov(R(RAX), Src::Imm(1)),
        Ins::Ret,
    ])
    .unwrap();
    assert_eq!(hex(&prog.to_bytes()), "48 39 f7 0f 8f 08 00 00 00 48 c7 c0 00 00 00 00 c3 48 c7 c0 01 00 00 00 c3");
}

#[test]
fn branch_if_sge() {
    let prog = Executable::from_ir(&[
        Ins::Cmp(R(RDI), Src::SR(RSI)),
        Ins::B(Cond::Sge, 1),
        Ins::Label(0),
        Ins::Mov(R(RAX), Src::Imm(0)),
        Ins::Ret,
        Ins::Label(1),
        Ins::Mov(R(RAX), Src::Imm(1)),
        Ins::Ret,
    ])
    .unwrap();
    assert_eq!(hex(&prog.to_bytes()), "48 39 f7 0f 8d 08 00 00 00 48 c7 c0 00 00 00 00 c3 48 c7 c0 01 00 00 00 c3");
}

#[test]
fn branch_if_slt() {
    let prog = Executable::from_ir(&[
        Ins::Cmp(R(RDI), Src::SR(RSI)),
        Ins::B(Cond::Slt, 1),
        Ins::Label(0),
        Ins::Mov(R(RAX), Src::Imm(0)),
        Ins::Ret,
        Ins::Label(1),
        Ins::Mov(R(RAX), Src::Imm(1)),
        Ins::Ret,
    ])
    .unwrap();
    assert_eq!(hex(&prog.to_bytes()), "48 39 f7 0f 8c 08 00 00 00 48 c7 c0 00 00 00 00 c3 48 c7 c0 01 00 00 00 c3");
}

#[test]
fn branch_if_sle() {
    let prog = Executable::from_ir(&[
        Ins::Cmp(R(RDI), Src::SR(RSI)),
        Ins::B(Cond::Sle, 1),
        Ins::Label(0),
        Ins::Mov(R(RAX), Src::Imm(0)),
        Ins::Ret,
        Ins::Label(1),
        Ins::Mov(R(RAX), Src::Imm(1)),
        Ins::Ret,
    ])
    .unwrap();
    assert_eq!(hex(&prog.to_bytes()), "48 39 f7 0f 8e 08 00 00 00 48 c7 c0 00 00 00 00 c3 48 c7 c0 01 00 00 00 c3");
}

#[test]
fn branch_if_ugt() {
    let prog = Executable::from_ir(&[
        Ins::Cmp(R(RDI), Src::SR(RSI)),
        Ins::B(Cond::Ugt, 1),
        Ins::Label(0),
        Ins::Mov(R(RAX), Src::Imm(0)),
        Ins::Ret,
        Ins::Label(1),
        Ins::Mov(R(RAX), Src::Imm(1)),
        Ins::Ret,
    ])
    .unwrap();
    assert_eq!(hex(&prog.to_bytes()), "48 39 f7 0f 87 08 00 00 00 48 c7 c0 00 00 00 00 c3 48 c7 c0 01 00 00 00 c3");
}

#[test]
fn branch_if_uge() {
    let prog = Executable::from_ir(&[
        Ins::Cmp(R(RDI), Src::SR(RSI)),
        Ins::B(Cond::Uge, 1),
        Ins::Label(0),
        Ins::Mov(R(RAX), Src::Imm(0)),
        Ins::Ret,
        Ins::Label(1),
        Ins::Mov(R(RAX), Src::Imm(1)),
        Ins::Ret,
    ])
    .unwrap();
    assert_eq!(hex(&prog.to_bytes()), "48 39 f7 0f 83 08 00 00 00 48 c7 c0 00 00 00 00 c3 48 c7 c0 01 00 00 00 c3");
}

#[test]
fn branch_if_ult() {
    let prog = Executable::from_ir(&[
        Ins::Cmp(R(RDI), Src::SR(RSI)),
        Ins::B(Cond::Ult, 1),
        Ins::Label(0),
        Ins::Mov(R(RAX), Src::Imm(0)),
        Ins::Ret,
        Ins::Label(1),
        Ins::Mov(R(RAX), Src::Imm(1)),
        Ins::Ret,
    ])
    .unwrap();
    assert_eq!(hex(&prog.to_bytes()), "48 39 f7 0f 82 08 00 00 00 48 c7 c0 00 00 00 00 c3 48 c7 c0 01 00 00 00 c3");
}

#[test]
fn branch_if_ule() {
    let prog = Executable::from_ir(&[
        Ins::Cmp(R(RDI), Src::SR(RSI)),
        Ins::B(Cond::Ule, 1),
        Ins::Label(0),
        Ins::Mov(R(RAX), Src::Imm(0)),
        Ins::Ret,
        Ins::Label(1),
        Ins::Mov(R(RAX), Src::Imm(1)),
        Ins::Ret,
    ])
    .unwrap();
    assert_eq!(hex(&prog.to_bytes()), "48 39 f7 0f 86 08 00 00 00 48 c7 c0 00 00 00 00 c3 48 c7 c0 01 00 00 00 c3");
}

// Two bytes are stored next to each other on the stack and loaded as one
// number of 16 bits: from 0x34 and 0x12 the function makes 0x1234.
#[test]
fn store_bytes_load_halfword() {
    let prog = Executable::from_ir(&[
        Ins::Enter(16),
        Ins::St(Type::U8, R(RDI), R(RSP), 6),
        Ins::St(Type::U8, R(RSI), R(RSP), 7),
        Ins::Ld(Type::U16, R(RAX), R(RSP), 6),
        Ins::Leave(16),
        Ins::Ret,
    ])
    .unwrap();
    assert_eq!(hex(&prog.to_bytes()), "48 83 ec 10 40 88 7c 24 06 40 88 74 24 07 66 48 0f b7 44 24 06 48 83 c4 10 c3");
}

// Division with each of rax, rdx, rbx and r9 as destination, dividend and
// divisor.
#[test]
fn unsigned_division_under_every_aliasing() {
    let prog = Executable::from_ir(&[
        Ins::UDiv(R(RAX), R(RAX), Src::SR(RAX)),
        Ins::UDiv(R(RAX), R(RAX), Src::SR(RDX)),
        Ins::UDiv(R(RAX), R(RAX), Src::SR(RBX)),
        Ins::UDiv(R(RAX), R(RAX), Src::SR(R9)),
        Ins::UDiv(R(RAX), R(RDX), Src::SR(RAX)),
        Ins::UDiv(R(RAX), R(RDX), Src::SR(RDX)),
        Ins::UDiv(R(RAX), R(RDX), Src::SR(RBX)),
        Ins::UDiv(R(RAX), R(RDX), Src::SR(R9)),
        Ins::UDiv(R(RAX), R(RBX), Src::SR(RAX)),
        Ins::UDiv(R(RAX), R(RBX), Src::SR(RDX)),
        Ins::UDiv(R(RAX), R(RBX), Src::SR(RBX)),
        Ins::UDiv(R(RAX), R(RBX), Src::SR(R9)),
        Ins::UDiv(R(RAX), R(R9), Src::SR(RAX)),
        Ins::UDiv(R(RAX), R(R9), Src::SR(RDX)),
        Ins::UDiv(R(RAX), R(R9), Src::SR(RBX)),
        Ins::UDiv(R(RAX), R(R9), Src::SR(R9)),
        Ins::UDiv(R(RDX), R(RAX), Src::SR(RAX)),
        Ins::UDiv(R(RDX), R(RAX), Src::SR(RDX)),
        Ins::UDiv(R(RDX), R(RAX), Src::SR(RBX)),
        Ins::UDiv(R(RDX), R(RAX), Src::SR(R9)),
        Ins::UDiv(R(RDX), R(RDX), Src::SR(RAX)),
        Ins::UDiv(R(RDX), R(RDX), Src::SR(RDX)),
        Ins::UDiv(R(RDX), R(RDX), Src::SR(RBX)),
        Ins::UDiv(R(RDX), R(RDX), Src::SR(R9)),
        Ins::UDiv(R(RDX), R(RBX), Src::SR(RAX)),
        Ins::UDiv(R(RDX), R(RBX), Src::SR(RDX)),
        Ins::UDiv(R(RDX), R(RBX), Src::SR(RBX)),
        Ins::UDiv(R(RDX), R(RBX), Src::SR(R9)),
        Ins::UDiv(R(RDX), R(R9), Src::SR(RAX)),
        Ins::UDiv(R(RDX), R(R9), Src::SR(RDX)),
        Ins::UDiv(R(RDX), R(R9), Src::SR(RBX)),
        Ins::UDiv(R(RDX), R(R9), Src::SR(R9)),
        Ins::UDiv(R(RBX), R(RAX), Src::SR(RAX)),
        Ins::UDiv(R(RBX), R(RAX), Src::SR(RDX)),
        Ins::UDiv(R(RBX), R(RAX), Src::SR(RBX)),
        Ins::UDiv(R(RBX), R(RAX), Src::SR(R9)),
        Ins::UDiv(R(RBX), R(RDX), Src::SR(RAX)),
        Ins::UDiv(R(RBX), R(RDX), Src::SR(RDX)),
        Ins::UDiv(R(RBX), R(RDX), Src::SR(RBX)),
        Ins::UDiv(R(RBX), R(RDX), Src::SR(R9)),
        Ins::UDiv(R(RBX), R(RBX), Src::SR(RAX)),
        Ins::UDiv(R(RBX), R(RBX), Src::SR(RDX)),
        Ins::UDiv(R(RBX), R(RBX), Src::SR(RBX)),
        Ins::UDiv(R(RBX), R(RBX), Src::SR(R9)),
        Ins::UDiv(R(RBX), R(R9), Src::SR(RAX)),
        Ins::UDiv(R(RBX), R(R9), Src::SR(RDX)),
        Ins::UDiv(R(RBX), R(R9), Src::SR(RBX)),
        Ins::UDiv(R(RBX), R(R9), Src::SR(R9)),
        Ins::UDiv(R(R9), R(RAX), Src::SR(RAX)),
        Ins::UDiv(R(R9), R(RAX), Src::SR(RDX)),
        Ins::UDiv(R(R9), R(RAX), Src::SR(RBX)),
        Ins::UDiv(R(R9), R(RAX), Src::SR(R9)),
        Ins::UDiv(R(R9), R(RDX), Src::SR(RAX)),
        Ins::UDiv(R(R9), R(RDX), Src::SR(RDX)),
        Ins::UDiv(R(R9), R(RDX), Src::SR(RBX)),
        Ins::UDiv(R(R9), R(RDX), Src::SR(R9)),
        Ins::UDiv(R(R9), R(RBX), Src::SR(RAX)),
        Ins::UDiv(R(R9), R(RBX), Src::SR(RDX)),
        Ins::UDiv(R(R9), R(RBX), Src::SR(RBX)),
        Ins::UDiv(R(R9), R(RBX), Src::SR(R9)),
        Ins::UDiv(R(R9), R(R9), Src::SR(RAX)),
        Ins::UDiv(R(R9), R(R9), Src::SR(RDX)),
        Ins::UDiv(R(R9), R(R9), Src::SR(RBX)),
        Ins::UDiv(R(R9), R(R9), Src::SR(R9)),
    ])
    .unwrap();
    assert_eq!(
        hex(&prog.to_bytes()),
        "52 50 48 c7 c2 00 00 00 00 48 f7 34 24 48 83 c4 08 5a 52 52 48 c7 c2 00 00 00 00 48 f7 \
         34 24 48 83 c4 08 5a 52 48 c7 c2 00 00 00 00 48 f7 f3 5a 52 48 c7 c2 00 00 00 00 49 f7 \
         f1 5a 52 50 48 89 d0 48 c7 c2 00 00 00 00 48 f7 34 24 48 83 c4 08 5a 52 52 48 89 d0 48 \
         c7 c2 00 00 00 00 48 f7 34 24 48 83 c4 08 5a 52 48 89 d0 48 c7 c2 00 00 00 00 48 f7 f3 \
         5a 52 48 89 d0 48 c7 c2 00 00 00 00 49 f7 f1 5a 52 50 48 89 d8 48 c7 c2 00 00 00 00 48 \
         f7 34 24 48 83 c4 08 5a 52 52 48 89 d8 48 c7 c2 00 00 00 00 48 f7 34 24 48 83 c4 08 5a \
         52 48 89 d8 48 c7 c2 00 00 00 00 48 f7 f3 5a 52 48 89 d8 48 c7 c2 00 00 00 00 49 f7 f1 \
         5a 52 50 4c 89 c8 48 c7 c2 00 00 00 00 48 f7 34 24 48 83 c4 08 5a 52 52 4c 89 c8 48 c7 \
         c2 00 00 00 00 48 f7 34 24 48 83 c4 08 5a 52 4c 89 c8 48 c7 c2 00 00 00 00 48 f7 f3 5a \
         52 4c 89 c8 48 c7 c2 00 00 00 00 49 f7 f1 5a 50 50 48 c7 c2 00 00 00 00 48 f7 34 24 48 \
         89 c2 48 83 c4 08 58 50 52 48 c7 c2 00 00 00 00 48 f7 34 24 48 89 c2 48 83 c4 08 58 50 \
         48 c7 c2 00 00 00 00 48 f7 f3 48 89 c2 58 50 48 c7 c2 00 00 00 00 49 f7 f1 48 89 c2 58 \
         50 50 48 89 d0 48 c7 c2 00 00 00 00 48 f7 34 24 48 89 c2 48 83 c4 08 58 50 52 48 89 d0 \
         48 c7 c2 00 00 00 00 48 f7 34 24 48 89 c2 48 83 c4 08 58 50 48 89 d0 48 c7 c2 00 00 00 \
         00 48 f7 f3 48 89 c2 58 50 48 89 d0 48 c7 c2 00 00 00 00 49 f7 f1 48 89 c2 58 50 50 48 \
         89 d8 48 c7 c2 00 00 00 00 48 f7 34 24 48 89 c2 48 83 c4 08 58 50 52 48 89 d8 48 c7 c2 \
         00 00 00 00 48 f7 34 24 48 89 c2 48 83 c4 08 58 50 48 89 d8 48 c7 c2 00 00 00 00 48 f7 \
         f3 48 89 c2 58 50 48 89 d8 48 c7 c2 00 00 00 00 49 f7 f1 48 89 c2 58 50 50 4c 89 c8 48 \
         c7 c2 00 00 00 00 48 f7 34 24 48 89 c2 48 83 c4 08 58 50 52 4c 89 c8 48 c7 c2 00 00 00 \
         00 48 f7 34 24 48 89 c2 48 83 c4 08 58 50 4c 89 c8 48 c7 c2 00 00 00 00 48 f7 f3 48 89 \
         c2 58 50 4c 89 c8 48 c7 c2 00 00 00 00 49 f7 f1 48 89 c2 58 50 52 50 48 c7 c2 00 00 00 \
         00 48 f7 34 24 48 89 c3 48 83 c4 08 5a 58 50 52 52 48 c7 c2 00 00 00 00 48 f7 34 24 48 \
         89 c3 48 83 c4 08 5a 58 50 52 48 c7 c2 00 00 00 00 48 f7 f3 48 89 c3 5a 58 50 52 48 c7 \
         c2 00 00 00 00 49 f7 f1 48 89 c3 5a 58 50 52 50 48 89 d0 48 c7 c2 00 00 00 00 48 f7 34 \
         24 48 89 c3 48 83 c4 08 5a 58 50 52 52 48 89 d0 48 c7 c2 00 00 00 00 48 f7 34 24 48 89 \
         c3 48 83 c4 08 5a 58 50 52 48 89 d0 48 c7 c2 00 00 00 00 48 f7 f3 48 89 c3 5a 58 50 52 \
         48 89 d0 48 c7 c2 00 00 00 00 49 f7 f1 48 89 c3 5a 58 50 52 50 48 89 d8 48 c7 c2 00 00 \
         00 00 48 f7 34 24 48 89 c3 48 83 c4 08 5a 58 50 52 52 48 89 d8 48 c7 c2 00 00 00 00 48 \
         f7 34 24 48 89 c3 48 83 c4 08 5a 58 50 52 48 89 d8 48 c7 c2 00 00 00 00 48 f7 f3 48 89 \
         c3 5a 58 50 52 48 89 d8 48 c7 c2 00 00 00 00 49 f7 f1 48 89 c3 5a 58 50 52 50 4c 89 c8 \
         48 c7 c2 00 00 00 00 48 f7 34 24 48 89 c3 48 83 c4 08 5a 58 50 52 52 4c 89 c8 48 c7 c2 \
         00 00 00 00 48 f7 34 24 48 89 c3 48 83 c4 08 5a 58 50 52 4c 89 c8 48 c7 c2 00 00 00 00 \
         48 f7 f3 48 89 c3 5a 58 50 52 4c 89 c8 48 c7 c2 00 00 00 00 49 f7 f1 48 89 c3 5a 58 50 \
         52 50 48 c7 c2 00 00 00 00 48 f7 34 24 49 89 c1 48 83 c4 08 5a 58 50 52 52 48 c7 c2 00 \
         00 00 00 48 f7 34 24 49 89 c1 48 83 c4 08 5a 58 50 52 48 c7 c2 00 00 00 00 48 f7 f3 49 \
         89 c1 5a 58 50 52 48 c7 c2 00 00 00 00 49 f7 f1 49 89 c1 5a 58 50 52 50 48 89 d0 48 c7 \
         c2 00 00 00 00 48 f7 34 24 49 89 c1 48 83 c4 08 5a 58 50 52 52 48 89 d0 48 c7 c2 00 00 \
         00 00 48 f7 34 24 49 89 c1 48 83 c4 08 5a 58 50 52 48 89 d0 48 c7 c2 00 00 00 00 48 f7 \
         f3 49 89 c1 5a 58 50 52 48 89 d0 48 c7 c2 00 00 00 00 49 f7 f1 49 89 c1 5a 58 50 52 50 \
         48 89 d8 48 c7 c2 00 00 00 00 48 f7 34 24 49 89 c1 48 83 c4 08 5a 58 50 52 52 48 89 d8 \
         48 c7 c2 00 00 00 00 48 f7 34 24 49 89 c1 48 83 c4 08 5a 58 50 52 48 89 d8 48 c7 c2 00 \
         00 00 00 48 f7 f3 49 89 c1 5a 58 50 52 48 89 d8 48 c7 c2 00 00 00 00 49 f7 f1 49 89 c1 \
         5a 58 50 52 50 4c 89 c8 48 c7 c2 00 00 00 00 48 f7 34 24 49 89 c1 48 83 c4 08 5a 58 50 \
         52 52 4c 89 c8 48 c7 c2 00 00 00 00 48 f7 34 24 49 89 c1 48 83 c4 08 5a 58 50 52 4c 89 \
         c8 48 c7 c2 00 00 00 00 48 f7 f3 49 89 c1 5a 58 50 52 4c 89 c8 48 c7 c2 00 00 00 00 49 \
         f7 f1 49 89 c1 5a 58"
    );
}

#[test]
fn signed_division_under_every_aliasing() {
    let prog = Executable::from_ir(&[
        Ins::SDiv(R(RAX), R(RAX), Src::SR(RAX)),
        Ins::SDiv(R(RAX), R(RAX), Src::SR(RDX)),
        Ins::SDiv(R(RAX), R(RAX), Src::SR(RBX)),
        Ins::SDiv(R(RAX), R(RAX), Src::SR(R9)),
        Ins::SDiv(R(RAX), R(RDX), Src::SR(RAX)),
        Ins::SDiv(R(RAX), R(RDX), Src::SR(RDX)),
        Ins::SDiv(R(RAX), R(RDX), Src::SR(RBX)),
        Ins::SDiv(R(RAX), R(RDX), Src::SR(R9)),
        Ins::SDiv(R(RAX), R(RBX), Src::SR(RAX)),
        Ins::SDiv(R(RAX), R(RBX), Src::SR(RDX)),
        Ins::SDiv(R(RAX), R(RBX), Src::SR(RBX)),
        Ins::SDiv(R(RAX), R(RBX), Src::SR(R9)),
        Ins::SDiv(R(RAX), R(R9), Src::SR(RAX)),
        Ins::SDiv(R(RAX), R(R9), Src::SR(RDX)),
        Ins::SDiv(R(RAX), R(R9), Src::SR(RBX)),
        Ins::SDiv(R(RAX), R(R9), Src::SR(R9)),
        Ins::SDiv(R(RDX), R(RAX), Src::SR(RAX)),
        Ins::SDiv(R(RDX), R(RAX), Src::SR(RDX)),
        Ins::SDiv(R(RDX), R(RAX), Src::SR(RBX)),
        Ins::SDiv(R(RDX), R(RAX), Src::SR(R9)),
        Ins::SDiv(R(RDX), R(RDX), Src::SR(RAX)),
        Ins::SDiv(R(RDX), R(RDX), Src::SR(RDX)),
        Ins::SDiv(R(RDX), R(RDX), Src::SR(RBX)),
        Ins::SDiv(R(RDX), R(RDX), Src::SR(R9)),
        Ins::SDiv(R(RDX), R(RBX), Src::SR(RAX)),
        Ins::SDiv(R(RDX), R(RBX), Src::SR(RDX)),
        Ins::SDiv(R(RDX), R(RBX), Src::SR(RBX)),
        Ins::SDiv(R(RDX), R(RBX), Src::SR(R9)),
        Ins::SDiv(R(RDX), R(R9), Src::SR(RAX)),
        Ins::SDiv(R(RDX), R(R9), Src::SR(RDX)),
        Ins::SDiv(R(RDX), R(R9), Src::SR(RBX)),
        Ins::SDiv(R(RDX), R(R9), Src::SR(R9)),
        Ins::SDiv(R(RBX), R(RAX), Src::SR(RAX)),
        Ins::SDiv(R(RBX), R(RAX), Src::SR(RDX)),
        Ins::SDiv(R(RBX), R(RAX), Src::SR(RBX)),
        Ins::SDiv(R(RBX), R(RAX), Src::SR(R9)),
        Ins::SDiv(R(RBX), R(RDX), Src::SR(RAX)),
        Ins::SDiv(R(RBX), R(RDX), Src::SR(RDX)),
        Ins::SDiv(R(RBX), R(RDX), Src::SR(RBX)),
        Ins::SDiv(R(RBX), R(RDX), Src::SR(R9)),
        Ins::SDiv(R(RBX), R(RBX), Src::SR(RAX)),
        Ins::SDiv(R(RBX), R(RBX), Src::SR(RDX)),
        Ins::SDiv(R(RBX), R(RBX), Src::SR(RBX)),
        Ins::SDiv(R(RBX), R(RBX), Src::SR(R9)),
        Ins::SDiv(R(RBX), R(R9), Src::SR(RAX)),
        Ins::SDiv(R(RBX), R(R9), Src::SR(RDX)),
        Ins::SDiv(R(RBX), R(R9), Src::SR(RBX)),
        Ins::SDiv(R(RBX), R(R9), Src::SR(R9)),
        Ins::SDiv(R(R9), R(RAX), Src::SR(RAX)),
        Ins::SDiv(R(R9), R(RAX), Src::SR(RDX)),
        Ins::SDiv(R(R9), R(RAX), Src::SR(RBX)),
        Ins::SDiv(R(R9), R(RAX), Src::SR(R9)),
        Ins::SDiv(R(R9), R(RDX), Src::SR(RAX)),
        Ins::SDiv(R(R9), R(RDX), Src::SR(RDX)),
        Ins::SDiv(R(R9), R(RDX), Src::SR(RBX)),
        Ins::SDiv(R(R9), R(RDX), Src::SR(R9)),
        Ins::SDiv(R(R9), R(RBX), Src::SR(RAX)),
        Ins::SDiv(R(R9), R(RBX), Src::SR(RDX)),
        Ins::SDiv(R(R9), R(RBX), Src::SR(RBX)),
        Ins::SDiv(R(R9), R(RBX), Src::SR(R9)),
        Ins::SDiv(R(R9), R(R9), Src::SR(RAX)),
        Ins::SDiv(R(R9), R(R9), Src::SR(RDX)),
        Ins::SDiv(R(R9), R(R9), Src::SR(RBX)),
        Ins::SDiv(R(R9), R(R9), Src::SR(R9)),
    ])
    .unwrap();
    assert_eq!(
        hex(&prog.to_bytes()),
        "52 50 48 99 48 f7 3c 24 48 83 c4 08 5a 52 52 48 99 48 f7 3c 24 48 83 c4 08 5a 52 48 99 \
         48 f7 fb 5a 52 48 99 49 f7 f9 5a 52 50 48 89 d0 48 99 48 f7 3c 24 48 83 c4 08 5a 52 52 \
         48 89 d0 48 99 48 f7 3c 24 48 83 c4 08 5a 52 48 89 d0 48 99 48 f7 fb 5a 52 48 89 d0 48 \
         99 49 f7 f9 5a 52 50 48 89 d8 48 99 48 f7 3c 24 48 83 c4 08 5a 52 52 48 89 d8 48 99 48 \
         f7 3c 24 48 83 c4 08 5a 52 48 89 d8 48 99 48 f7 fb 5a 52 48 89 d8 48 99 49 f7 f9 5a 52 \
         50 4c 89 c8 48 99 48 f7 3c 24 48 83 c4 08 5a 52 52 4c 89 c8 48 99 48 f7 3c 24 48 83 c4 \
         08 5a 52 4c 89 c8 48 99 48 f7 fb 5a 52 4c 89 c8 48 99 49 f7 f9 5a 50 50 48 99 48 f7 3c \
         24 48 89 c2 48 83 c4 08 58 50 52 48 99 48 f7 3c 24 48 89 c2 48 83 c4 08 58 50 48 99 48 \
         f7 fb 48 89 c2 58 50 48 99 49 f7 f9 48 89 c2 58 50 50 48 89 d0 48 99 48 f7 3c 24 48 89 \
         c2 48 83 c4 08 58 50 52 48 89 d0 48 99 48 f7 3c 24 48 89 c2 48 83 c4 08 58 50 48 89 d0 \
         48 99 48 f7 fb 48 89 c2 58 50 48 89 d0 48 99 49 f7 f9 48 89 c2 58 50 50 48 89 d8 48 99 \
         48 f7 3c 24 48 89 c2 48 83 c4 08 58 50 52 48 89 d8 48 99 48 f7 3c 24 48 89 c2 48 83 c4 \
         08 58 50 48 89 d8 48 99 48 f7 fb 48 89 c2 58 50 48 89 d8 48 99 49 f7 f9 48 89 c2 58 50 \
         50 4c 89 c8 48 99 48 f7 3c 24 48 89 c2 48 83 c4 08 58 50 52 4c 89 c8 48 99 48 f7 3c 24 \
         48 89 c2 48 83 c4 08 58 50 4c 89 c8 48 99 48 f7 fb 48 89 c2 58 50 4c 89 c8 48 99 49 f7 \
         f9 48 89 c2 58 50 52 50 48 99 48 f7 3c 24 48 89 c3 48 83 c4 08 5a 58 50 52 52 48 99 48 \
         f7 3c 24 48 89 c3 48 83 c4 08 5a 58 50 52 48 99 48 f7 fb 48 89 c3 5a 58 50 52 48 99 49 \
         f7 f9 48 89 c3 5a 58 50 52 50 48 89 d0 48 99 48 f7 3c 24 48 89 c3 48 83 c4 08 5a 58 50 \
         52 52 48 89 d0 48 99 48 f7 3c 24 48 89 c3 48 83 c4 08 5a 58 50 52 48 89 d0 48 99 48 f7 \
         fb 48 89 c3 5a 58 50 52 48 89 d0 48 99 49 f7 f9 48 89 c3 5a 58 50 52 50 48 89 d8 48 99 \
         48 f7 3c 24 48 89 c3 48 83 c4 08 5a 58 50 52 52 48 89 d8 48 99 48 f7 3c 24 48 89 c3 48 \
         83 c4 08 5a 58 50 52 48 89 d8 48 99 48 f7 fb 48 89 c3 5a 58 50 52 48 89 d8 48 99 49 f7 \
         f9 48 89 c3 5a 58 50 52 50 4c 89 c8 48 99 48 f7 3c 24 48 89 c3 48 83 c4 08 5a 58 50 52 \
         52 4c 89 c8 48 99 48 f7 3c 24 48 89 c3 48 83 c4 08 5a 58 50 52 4c 89 c8 48 99 48 f7 fb \
         48 89 c3 5a 58 50 52 4c 89 c8 48 99 49 f7 f9 48 89 c3 5a 58 50 52 50 48 99 48 f7 3c 24 \
         49 89 c1 48 83 c4 08 5a 58 50 52 52 48 99 48 f7 3c 24 49 89 c1 48 83 c4 08 5a 58 50 52 \
         48 99 48 f7 fb 49 89 c1 5a 58 50 52 48 99 49 f7 f9 49 89 c1 5a 58 50 52 50 48 89 d0 48 \
         99 48 f7 3c 24 49 89 c1 48 83 c4 08 5a 58 50 52 52 48 89 d0 48 99 48 f7 3c 24 49 89 c1 \
         48 83 c4 08 5a 58 50 52 48 89 d0 48 99 48 f7 fb 49 89 c1 5a 58 50 52 48 89 d0 48 99 49 \
         f7 f9 49 89 c1 5a 58 50 52 50 48 89 d8 48 99 48 f7 3c 24 49 89 c1 48 83 c4 08 5a 58 50 \
         52 52 48 89 d8 48 99 48 f7 3c 24 49 89 c1 48 83 c4 08 5a 58 50 52 48 89 d8 48 99 48 f7 \
         fb 49 89 c1 5a 58 50 52 48 89 d8 48 99 49 f7 f9 49 89 c1 5a 58 50 52 50 4c 89 c8 48 99 \
         48 f7 3c 24 49 89 c1 48 83 c4 08 5a 58 50 52 52 4c 89 c8 48 99 48 f7 3c 24 49 89 c1 48 \
         83 c4 08 5a 58 50 52 4c 89 c8 48 99 48 f7 fb 49 89 c1 5a 58 50 52 4c 89 c8 48 99 49 f7 \
         f9 49 89 c1 5a 58"
    );
}

#[test]
fn division_by_immediates() {
    let prog = Executable::from_ir(&[
        Ins::UDiv(R(RBX), R(RBX), Src::Imm(100)),
        Ins::SDiv(R(RAX), R(RCX), Src::Imm(-7)),
        Ins::UDiv(R(RDX), R(RAX), Src::Imm(1000)),
        Ins::SDiv(R(R15), R(R14), Src::Imm(2147483647)),
        Ins::UDiv(R(RAX), R(RAX), Src::Imm(-2147483648)),
    ])
    .unwrap();
    assert_eq!(
        hex(&prog.to_bytes()),
        "50 52 6a 64 48 89 d8 48 c7 c2 00 00 00 00 48 f7 34 24 48 89 c3 48 83 c4 08 5a 58 52 6a \
         f9 48 89 c8 48 99 48 f7 3c 24 48 83 c4 08 5a 50 68 e8 03 00 00 48 c7 c2 00 00 00 00 48 \
         f7 34 24 48 89 c2 48 83 c4 08 58 50 52 68 ff ff ff 7f 4c 89 f0 48 99 48 f7 3c 24 49 89 \
         c7 48 83 c4 08 5a 58 52 68 00 00 00 80 48 c7 c2 00 00 00 00 48 f7 34 24 48 83 c4 08 5a"
    );
}

#[test]
fn shifts_by_register_and_immediate() {
    let prog = Executable::from_ir(&[
        Ins::Shl(R(RAX), R(RAX), Src::SR(RCX)),
        Ins::Shl(R(RCX), R(RAX), Src::SR(RDX)),
        Ins::Shl(R(R9), R(R10), Src::SR(R11)),
        Ins::Shl(R(RDX), R(RCX), Src::SR(RCX)),
        Ins::Shl(R(RCX), R(RCX), Src::SR(R8)),
        Ins::Shl(R(RAX), R(RAX), Src::Imm(1)),
        Ins::Shl(R(R12), R(R12), Src::Imm(63)),
        Ins::Shl(R(RBX), R(RSI), Src::Imm(5)),
        Ins::Shl(R(RCX), R(RCX), Src::Imm(127)),
        Ins::Shl(R(RDX), R(RDX), Src::Imm(-128)),
        Ins::Shr(R(RAX), R(RAX), Src::SR(RCX)),
        Ins::Shr(R(RCX), R(RAX), Src::SR(RDX)),
        Ins::Shr(R(R9), R(R10), Src::SR(R11)),
        Ins::Shr(R(RDX), R(RCX), Src::SR(RCX)),
        Ins::Shr(R(RCX), R(RCX), Src::SR(R8)),
        Ins::Shr(R(RAX), R(RAX), Src::Imm(1)),
        Ins::Shr(R(R12), R(R12), Src::Imm(63)),
        Ins::Shr(R(RBX), R(RSI), Src::Imm(5)),
        Ins::Shr(R(RCX), R(RCX), Src::Imm(127)),
        Ins::Shr(R(RDX), R(RDX), Src::Imm(-128)),
        Ins::Sar(R(RAX), R(RAX), Src::SR(RCX)),
        Ins::Sar(R(RCX), R(RAX), Src::SR(RDX)),
        Ins::Sar(R(R9), R(R10), Src::SR(R11)),
        Ins::Sar(R(RDX), R(RCX), Src::SR(RCX)),
        Ins::Sar(R(RCX), R(RCX), Src::SR(R8)),
        Ins::Sar(R(RAX), R(RAX), Src::Imm(1)),
        Ins::Sar(R(R12), R(R12), Src::Imm(63)),
        Ins::Sar(R(RBX), R(RSI), Src::Imm(5)),
        Ins::Sar(R(RCX), R(RCX), Src::Imm(127)),
        Ins::Sar(R(RDX), R(RDX), Src::Imm(-128)),
    ])
    .unwrap();
    assert_eq!(
        hex(&prog.to_bytes()),
        "51 48 d3 e0 59 50 48 89 d1 48 d3 e0 48 89 c1 58 51 4d 89 d1 4c 89 d9 49 d3 e1 59 51 48 \
         89 ca 48 d3 e2 59 50 48 89 c8 4c 89 c1 48 d3 e0 48 89 c1 58 48 c1 e0 01 49 c1 e4 3f 48 \
         89 f3 48 c1 e3 05 48 c1 e1 7f 48 c1 e2 80 51 48 d3 e8 59 50 48 89 d1 48 d3 e8 48 89 c1 \
         58 51 4d 89 d1 4c 89 d9 49 d3 e9 59 51 48 89 ca 48 d3 ea 59 50 48 89 c8 4c 89 c1 48 d3 \
         e8 48 89 c1 58 48 c1 e8 01 49 c1 ec 3f 48 89 f3 48 c1 eb 05 48 c1 e9 7f 48 c1 ea 80 51 \
         48 d3 f8 59 50 48 89 d1 48 d3 f8 48 89 c1 58 51 4d 89 d1 4c 89 d9 49 d3 f9 59 51 48 89 \
         ca 48 d3 fa 59 50 48 89 c8 4c 89 c1 48 d3 f8 48 89 c1 58 48 c1 f8 01 49 c1 fc 3f 48 89 \
         f3 48 c1 fb 05 48 c1 f9 7f 48 c1 fa 80"
    );
}

// An immediate from -128 to 127 takes one byte; one step beyond, at 128 or
// -129, it takes four.
#[test]
fn immediates_around_the_byte_boundary() {
    let prog = Executable::from_ir(&[
        Ins::Add(R(RCX), R(RCX), Src::Imm(127)),
        Ins::Add(R(RCX), R(RCX), Src::Imm(128)),
        Ins::Add(R(RCX), R(RCX), Src::Imm(-128)),
        Ins::Add(R(RCX), R(RCX), Src::Imm(-129)),
        Ins::Or(R(RCX), R(RCX), Src::Imm(127)),
        Ins::Or(R(RCX), R(RCX), Src::Imm(128)),
        Ins::Or(R(RCX), R(RCX), Src::Imm(-128)),
        Ins::Or(R(RCX), R(RCX), Src::Imm(-129)),
        Ins::And(R(RCX), R(RCX), Src::Imm(127)),
        Ins::And(R(RCX), R(RCX), Src::Imm(128)),
        Ins::And(R(RCX), R(RCX), Src::Imm(-128)),
        Ins::And(R(RCX), R(RCX), Src::Imm(-129)),
        Ins::Sub(R(RCX), R(RCX), Src::Imm(127)),
        Ins::Sub(R(RCX), R(RCX), Src::Imm(128)),
        Ins::Sub(R(RCX), R(RCX), Src::Imm(-128)),
        Ins::Sub(R(RCX), R(RCX), Src::Imm(-129)),
        Ins::Xor(R(RCX), R(RCX), Src::Imm(127)),
        Ins::Xor(R(RCX), R(RCX), Src::Imm(128)),
        Ins::Xor(R(RCX), R(RCX), Src::Imm(-128)),
        Ins::Xor(R(RCX), R(RCX), Src::Imm(-129)),
        Ins::Mul(R(RCX), R(RCX), Src::Imm(127)),
        Ins::Mul(R(RCX), R(RCX), Src::Imm(128)),
        Ins::Mul(R(RCX), R(RCX), Src::Imm(-128)),
        Ins::Mul(R(RCX), R(RCX), Src::Imm(-129)),
        Ins::Cmp(R(R13), Src::Imm(127)),
        Ins::Cmp(R(R13), Src::Imm(128)),
        Ins::Cmp(R(R13), Src::Imm(-128)),
        Ins::Cmp(R(R13), Src::Imm(-129)),
        Ins::Add(R(R10), R(R11), Src::Imm(2147483647)),
        Ins::Sub(R(R10), R(R11), Src::Imm(-2147483648)),
    ])
    .unwrap();
    assert_eq!(
        hex(&prog.to_bytes()),
        "48 83 c1 7f 48 81 c1 80 00 00 00 48 83 c1 80 48 81 c1 7f ff ff ff 48 83 c9 7f 48 81 c9 \
         80 00 00 00 48 83 c9 80 48 81 c9 7f ff ff ff 48 83 e1 7f 48 81 e1 80 00 00 00 48 83 e1 \
         80 48 81 e1 7f ff ff ff 48 83 e9 7f 48 81 e9 80 00 00 00 48 83 e9 80 48 81 e9 7f ff ff \
         ff 48 83 f1 7f 48 81 f1 80 00 00 00 48 83 f1 80 48 81 f1 7f ff ff ff 48 6b c9 7f 48 69 \
         c9 80 00 00 00 48 6b c9 80 48 69 c9 7f ff ff ff 49 83 fd 7f 49 81 fd 80 00 00 00 49 83 \
         fd 80 49 81 fd 7f ff ff ff 4d 89 da 49 81 c2 ff ff ff 7f 4d 89 da 49 81 ea 00 00 00 80"
    );
}

// A move of an immediate takes four bytes for it where the immediate is in the
// signed 32 bit range, and eight elsewhere.
#[test]
fn moves_of_immediates() {
    let prog = Executable::from_ir(&[
        Ins::Mov(R(RAX), Src::Imm(0)),
        Ins::Mov(R(R8), Src::Imm(-1)),
        Ins::Mov(R(RCX), Src::Imm(2147483647)),
        Ins::Mov(R(RCX), Src::Imm(2147483648)),
        Ins::Mov(R(RDX), Src::Imm(-2147483648)),
        Ins::Mov(R(RDX), Src::Imm(-2147483649)),
        Ins::Mov(R(R15), Src::Imm(1311768467463790320)),
        Ins::Movi(R(RBX), 0xffffffffffffffff),
        Ins::Movi(R(RBX), 0xffffffff),
        Ins::Movi(R(R9), 0x8000000000000000),
        Ins::Cmpi(R(R9), 0xffffffffffffff80),
        Ins::Cmpi(R(RAX), 0x7fffffff),
    ])
    .unwrap();
    assert_eq!(
        hex(&prog.to_bytes()),
        "48 c7 c0 00 00 00 00 49 c7 c0 ff ff ff ff 48 c7 c1 ff ff ff 7f 48 b9 00 00 00 80 00 00 \
         00 00 48 c7 c2 00 00 00 80 48 ba ff ff ff 7f ff ff ff ff 49 bf f0 de bc 9a 78 56 34 12 \
         48 c7 c3 ff ff ff ff 48 bb ff ff ff ff 00 00 00 00 49 b9 00 00 00 00 00 00 00 80 49 83 \
         f9 80 48 81 f8 ff ff ff 7f"
    );
}

#[test]
fn not_and_neg() {
    let prog = Executable::from_ir(&[
        Ins::Not(R(RAX), Src::SR(RAX)),
        Ins::Not(R(RAX), Src::SR(RCX)),
        Ins::Not(R(R9), Src::SR(R10)),
        Ins::Neg(R(RAX), Src::SR(RAX)),
        Ins::Neg(R(R15), Src::SR(RDI)),
        Ins::Neg(R(RBX), Src::SR(R12)),
    ])
    .unwrap();
    assert_eq!(
        hex(&prog.to_bytes()),
        "48 f7 d0 48 89 c8 48 f7 d0 4d 89 d1 49 f7 d1 48 f7 d8 49 89 ff 49 f7 df 4c 89 e3 48 f7 \
         db"
    );
}

#[test]
fn select() {
    let prog = Executable::from_ir(&[
        Ins::Sel(Cond::Eq, R(RAX), R(RCX), R(RDX)),
        Ins::Sel(Cond::Ne, R(RAX), R(RCX), R(RAX)),
        Ins::Sel(Cond::Ult, R(R9), R(R10), R(R11)),
        Ins::Sel(Cond::Sge, R(R15), R(RAX), R(R15)),
        Ins::Sel(Cond::Ugt, R(RBX), R(RBX), R(RCX)),
        Ins::Sel(Cond::Sle, R(RSI), R(R8), R(RDI)),
    ])
    .unwrap();
    assert_eq!(
        hex(&prog.to_bytes()),
        "48 89 d0 48 0f 44 c1 48 0f 45 c1 4d 89 d9 4d 0f 42 ca 4c 0f 4d f8 48 0f 46 d9 48 89 fe \
         49 0f 4e f0"
    );
}

#[test]
fn indirect_calls_and_branches() {
    let prog = Executable::from_ir(&[
        Ins::Call(R(RAX)),
        Ins::Call(R(RCX)),
        Ins::Call(R(RDX)),
        Ins::Call(R(RBX)),
        Ins::Call(R(RSP)),
        Ins::Call(R(RBP)),
        Ins::Call(R(RSI)),
        Ins::Call(R(RDI)),
        Ins::Call(R(R8)),
        Ins::Call(R(R9)),
        Ins::Call(R(R10)),
        Ins::Call(R(R11)),
        Ins::Call(R(R12)),
        Ins::Call(R(R13)),
        Ins::Call(R(R14)),
        Ins::Call(R(R15)),
        Ins::Branch(R(RAX)),
        Ins::Branch(R(RCX)),
        Ins::Branch(R(RDX)),
        Ins::Branch(R(RBX)),
        Ins::Branch(R(RSP)),
        Ins::Branch(R(RBP)),
        Ins::Branch(R(RSI)),
        Ins::Branch(R(RDI)),
        Ins::Branch(R(R8)),
        Ins::Branch(R(R9)),
        Ins::Branch(R(R10)),
        Ins::Branch(R(R11)),
        Ins::Branch(R(R12)),
        Ins::Branch(R(R13)),
        Ins::Branch(R(R14)),
        Ins::Branch(R(R15)),
    ])
    .unwrap();
    assert_eq!(
        hex(&prog.to_bytes()),
        "ff d0 ff d1 ff d2 ff d3 ff d4 ff d5 ff d6 ff d7 41 ff d0 41 ff d1 41 ff d2 41 ff d3 41 \
         ff d4 41 ff d5 41 ff d6 41 ff d7 ff e0 ff e1 ff e2 ff e3 ff e4 ff e5 ff e6 ff e7 41 ff \
         e0 41 ff e1 41 ff e2 41 ff e3 41 ff e4 41 ff e5 41 ff e6 41 ff e7"
    );
}

// The address of a label is taken with a displacement from the end of the
// instruction, whether the label comes later or came before.
#[test]
fn address_of_labels_before_and_after() {
    let prog = Executable::from_ir(&[
        Ins::Addr(R(RAX), 1),
        Ins::Addr(R(R9), 1),
        Ins::Label(1),
        Ins::Ret,
        Ins::Addr(R(RCX), 1),
        Ins::Addr(R(R15), 2),
        Ins::D(Type::U64, 0x1122334455667788),
        Ins::Label(2),
        Ins::D(Type::U8, 0x1ff),
        Ins::D(Type::U16, 0x12345),
        Ins::D(Type::U32, 0x123456789),
    ])
    .unwrap();
    assert_eq!(
        hex(&prog.to_bytes()),
        "48 8d 05 07 00 00 00 4c 8d 0d 00 00 00 00 c3 48 8d 0d f8 ff ff ff 4c 8d 3d 08 00 00 00 \
         88 77 66 55 44 33 22 11 ff 45 23 89 67 45 23"
    );
}

// A branch to a label that comes later and one to a label that came before
// both get the displacement from their end to the label.
#[test]
fn jumps_before_and_after() {
    let prog = Executable::from_ir(&[
        Ins::J(1),
        Ins::B(Cond::Eq, 2),
        Ins::Label(1),
        Ins::Ret,
        Ins::Label(2),
        Ins::J(1),
        Ins::B(Cond::Ugt, 1),
        Ins::J(2),
        Ins::B(Cond::Sle, 3),
        Ins::Label(3),
    ])
    .unwrap();
    assert_eq!(
        hex(&prog.to_bytes()),
        "e9 06 00 00 00 0f 84 01 00 00 00 c3 e9 fa ff ff ff 0f 87 f4 ff ff ff e9 f0 ff ff ff 0f \
         8e 00 00 00 00"
    );
}

// A load extends what it loads to 64 bits: with zeros for an unsigned type, with
// the sign for a signed one.
#[test]
fn loads_of_every_type() {
    let prog = Executable::from_ir(&[
        Ins::Ld(Type::U8, R(RCX), R(RSI), 0),
        Ins::Ld(Type::U16, R(RCX), R(RSI), 0),
        Ins::Ld(Type::U32, R(RCX), R(RSI), 0),
        Ins::Ld(Type::U64, R(RCX), R(RSI), 0),
        Ins::Ld(Type::S8, R(RCX), R(RSI), 0),
        Ins::Ld(Type::S16, R(RCX), R(RSI), 0),
        Ins::Ld(Type::S32, R(RCX), R(RSI), 0),
        Ins::Ld(Type::S64, R(RCX), R(RSI), 0),
        Ins::Ld(Type::U8, R(R9), R(R12), -8),
        Ins::Ld(Type::U16, R(R9), R(R12), -8),
        Ins::Ld(Type::U32, R(R9), R(R12), -8),
        Ins::Ld(Type::U64, R(R9), R(R12), -8),
        Ins::Ld(Type::S8, R(R9), R(R12), -8),
        Ins::Ld(Type::S16, R(R9), R(R12), -8),
        Ins::Ld(Type::S32, R(R9), R(R12), -8),
        Ins::Ld(Type::S64, R(R9), R(R12), -8),
        Ins::Ld(Type::U8, R(RAX), R(RBP), 0),
        Ins::Ld(Type::U16, R(RAX), R(RBP), 0),
        Ins::Ld(Type::U32, R(RAX), R(RBP), 0),
        Ins::Ld(Type::U64, R(RAX), R(RBP), 0),
        Ins::Ld(Type::S8, R(RAX), R(RBP), 0),
        Ins::Ld(Type::S16, R(RAX), R(RBP), 0),
        Ins::Ld(Type::S32, R(RAX), R(RBP), 0),
        Ins::Ld(Type::S64, R(RAX), R(RBP), 0),
        Ins::Ld(Type::U8, R(R13), R(R13), 4096),
        Ins::Ld(Type::U16, R(R13), R(R13), 4096),
        Ins::Ld(Type::U32, R(R13), R(R13), 4096),
        Ins::Ld(Type::U64, R(R13), R(R13), 4096),
        Ins::Ld(Type::S8, R(R13), R(R13), 4096),
        Ins::Ld(Type::S16, R(R13), R(R13), 4096),
        Ins::Ld(Type::S32, R(R13), R(R13), 4096),
        Ins::Ld(Type::S64, R(R13), R(R13), 4096),
    ])
    .unwrap();
    assert_eq!(
        hex(&prog.to_bytes()),
        "48 0f b6 0e 66 48 0f b7 0e 40 8b 0e 48 8b 0e 48 0f be 0e 66 48 0f bf 0e 48 63 0e 48 8b \
         0e 4d 0f b6 4c 24 f8 66 4d 0f b7 4c 24 f8 45 8b 4c 24 f8 4d 8b 4c 24 f8 4d 0f be 4c 24 \
         f8 66 4d 0f bf 4c 24 f8 4d 63 4c 24 f8 4d 8b 4c 24 f8 48 0f b6 45 00 66 48 0f b7 45 00 \
         40 8b 45 00 48 8b 45 00 48 0f be 45 00 66 48 0f bf 45 00 48 63 45 00 48 8b 45 00 4d 0f \
         b6 ad 00 10 00 00 66 4d 0f b7 ad 00 10 00 00 45 8b ad 00 10 00 00 4d 8b ad 00 10 00 00 \
         4d 0f be ad 00 10 00 00 66 4d 0f bf ad 00 10 00 00 4d 63 ad 00 10 00 00 4d 8b ad 00 10 \
         00 00"
    );
}

#[test]
fn stores_of_every_type() {
    let prog = Executable::from_ir(&[
        Ins::St(Type::U8, R(RCX), R(RSI), 0),
        Ins::St(Type::U16, R(RCX), R(RSI), 0),
        Ins::St(Type::U32, R(RCX), R(RSI), 0),
        Ins::St(Type::U64, R(RCX), R(RSI), 0),
        Ins::St(Type::S8, R(RCX), R(RSI), 0),
        Ins::St(Type::S16, R(RCX), R(RSI), 0),
        Ins::St(Type::S32, R(RCX), R(RSI), 0),
        Ins::St(Type::S64, R(RCX), R(RSI), 0),
        Ins::St(Type::U8, R(R9), R(R12), -8),
        Ins::St(Type::U16, R(R9), R(R12), -8),
        Ins::St(Type::U32, R(R9), R(R12), -8),
        Ins::St(Type::U64, R(R9), R(R12), -8),
        Ins::St(Type::S8, R(R9), R(R12), -8),
        Ins::St(Type::S16, R(R9), R(R12), -8),
        Ins::St(Type::S32, R(R9), R(R12), -8),
        Ins::St(Type::S64, R(R9), R(R12), -8),
        Ins::St(Type::U8, R(RDI), R(RSP), 127),
        Ins::St(Type::U16, R(RDI), R(RSP), 127),
        Ins::St(Type::U32, R(RDI), R(RSP), 127),
        Ins::St(Type::U64, R(RDI), R(RSP), 127),
        Ins::St(Type::S8, R(RDI), R(RSP), 127),
        Ins::St(Type::S16, R(RDI), R(RSP), 127),
        Ins::St(Type::S32, R(RDI), R(RSP), 127),
        Ins::St(Type::S64, R(RDI), R(RSP), 127),
        Ins::St(Type::U8, R(R13), R(R13), 128),
        Ins::St(Type::U16, R(R13), R(R13), 128),
        Ins::St(Type::U32, R(R13), R(R13), 128),
        Ins::St(Type::U64, R(R13), R(R13), 128),
        Ins::St(Type::S8, R(R13), R(R13), 128),
        Ins::St(Type::S16, R(R13), R(R13), 128),
        Ins::St(Type::S32, R(R13), R(R13), 128),
        Ins::St(Type::S64, R(R13), R(R13), 128),
        Ins::St(Type::U8, R(RSI), R(RAX), -128),
        Ins::St(Type::U16, R(RSI), R(RAX), -128),
        Ins::St(Type::U32, R(RSI), R(RAX), -128),
        Ins::St(Type::U64, R(RSI), R(RAX), -128),
        Ins::St(Type::S8, R(RSI), R(RAX), -128),
        Ins::St(Type::S16, R(RSI), R(RAX), -128),
        Ins::St(Type::S32, R(RSI), R(RAX), -128),
        Ins::St(Type::S64, R(RSI), R(RAX), -128),
        Ins::St(Type::U8, R(RSI), R(RAX), -129),
        Ins::St(Type::U16, R(RSI), R(RAX), -129),
        Ins::St(Type::U32, R(RSI), R(RAX), -129),
        Ins::St(Type::U64, R(RSI), R(RAX), -129),
        Ins::St(Type::S8, R(RSI), R(RAX), -129),
        Ins::St(Type::S16, R(RSI), R(RAX), -129),
        Ins::St(Type::S32, R(RSI), R(RAX), -129),
        Ins::St(Type::S64, R(RSI), R(RAX), -129),
    ])
    .unwrap();
    assert_eq!(
        hex(&prog.to_bytes()),
        "40 88 0e 66 40 89 0e 40 89 0e 48 89 0e 40 88 0e 66 40 89 0e 40 89 0e 48 89 0e 45 88 4c \
         24 f8 66 45 89 4c 24 f8 45 89 4c 24 f8 4d 89 4c 24 f8 45 88 4c 24 f8 66 45 89 4c 24 f8 \
         45 89 4c 24 f8 4d 89 4c 24 f8 40 88 7c 24 7f 66 40 89 7c 24 7f 40 89 7c 24 7f 48 89 7c \
         24 7f 40 88 7c 24 7f 66 40 89 7c 24 7f 40 89 7c 24 7f 48 89 7c 24 7f 45 88 ad 80 00 00 \
         00 66 45 89 ad 80 00 00 00 45 89 ad 80 00 00 00 4d 89 ad 80 00 00 00 45 88 ad 80 00 00 \
         00 66 45 89 ad 80 00 00 00 45 89 ad 80 00 00 00 4d 89 ad 80 00 00 00 40 88 70 80 66 40 \
         89 70 80 40 89 70 80 48 89 70 80 40 88 70 80 66 40 89 70 80 40 89 70 80 48 89 70 80 40 \
         88 b0 7f ff ff ff 66 40 89 b0 7f ff ff ff 40 89 b0 7f ff ff ff 48 89 b0 7f ff ff ff 40 \
         88 b0 7f ff ff ff 66 40 89 b0 7f ff ff ff 40 89 b0 7f ff ff ff 48 89 b0 7f ff ff ff"
    );
}

#[test]
fn frames() {
    let prog = Executable::from_ir(&[
        Ins::Enter(0),
        Ins::Enter(16),
        Ins::Enter(112),
        Ins::Enter(128),
        Ins::Enter(2147483632),
        Ins::Leave(16),
        Ins::Leave(4096),
    ])
    .unwrap();
    assert_eq!(
        hex(&prog.to_bytes()),
        "48 83 ec 00 48 83 ec 10 48 83 ec 70 48 81 ec 80 00 00 00 48 81 ec f0 ff ff 7f 48 83 c4 \
         10 48 81 c4 00 10 00 00"
    );
}
