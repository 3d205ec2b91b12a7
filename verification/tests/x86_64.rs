//! The x86-64 backend, instruction by instruction: each program is assembled
//! and its bytes are compared with what an assembler gives for it.
use ejit::x86_64::regs::{
    R10, R11, R12, R13, R14, R15, R8, R9, RAX, RBP, RBX, RCX, RDI, RDX, RSI, RSP,
};
use ejit::{Executable, Ins, Src, Type, Vsize, R, V};

#[test]
fn tests_test_add() {
    let prog = Executable::from_ir(&[
        Ins::Add(R(RAX), R(RAX), Src::SR(RAX)),
        Ins::Add(R(RAX), R(RAX), Src::SR(RCX)),
        Ins::Add(R(RAX), R(RAX), Src::SR(RDX)),
        Ins::Add(R(RAX), R(RAX), Src::SR(RBX)),
        Ins::Add(R(RAX), R(RAX), Src::SR(RSP)),
        Ins::Add(R(RAX), R(RAX), Src::SR(RBP)),
        Ins::Add(R(RAX), R(RAX), Src::SR(RSI)),
        Ins::Add(R(RAX), R(RAX), Src::SR(RDI)),
        Ins::Add(R(RAX), R(RAX), Src::SR(R8)),
        Ins::Add(R(RAX), R(RAX), Src::SR(R9)),
        Ins::Add(R(RAX), R(RAX), Src::SR(R10)),
        Ins::Add(R(RAX), R(RAX), Src::SR(R11)),
        Ins::Add(R(RAX), R(RAX), Src::SR(R12)),
        Ins::Add(R(RAX), R(RAX), Src::SR(R13)),
        Ins::Add(R(RAX), R(RAX), Src::SR(R14)),
        Ins::Add(R(RAX), R(RAX), Src::SR(R15)),
        Ins::Add(R(RAX), R(RAX), Src::SR(RAX)),
        Ins::Add(R(RAX), R(RCX), Src::SR(RAX)),
        Ins::Add(R(RAX), R(RDX), Src::SR(RAX)),
        Ins::Add(R(RAX), R(RBX), Src::SR(RAX)),
        Ins::Add(R(RAX), R(RSP), Src::SR(RAX)),
        Ins::Add(R(RAX), R(RBP), Src::SR(RAX)),
        Ins::Add(R(RAX), R(RSI), Src::SR(RAX)),
        Ins::Add(R(RAX), R(RDI), Src::SR(RAX)),
        Ins::Add(R(RAX), R(R8), Src::SR(RAX)),
        Ins::Add(R(RAX), R(R9), Src::SR(RAX)),
        Ins::Add(R(RAX), R(R10), Src::SR(RAX)),
        Ins::Add(R(RAX), R(R11), Src::SR(RAX)),
        Ins::Add(R(RAX), R(R12), Src::SR(RAX)),
        Ins::Add(R(RAX), R(R13), Src::SR(RAX)),
        Ins::Add(R(RAX), R(R14), Src::SR(RAX)),
        Ins::Add(R(RAX), R(R15), Src::SR(RAX)),
        Ins::Add(R(RAX), R(RAX), Src::SR(RAX)),
        Ins::Add(R(RCX), R(RAX), Src::SR(RAX)),
        Ins::Add(R(RDX), R(RAX), Src::SR(RAX)),
        Ins::Add(R(RBX), R(RAX), Src::SR(RAX)),
        Ins::Add(R(RSP), R(RAX), Src::SR(RAX)),
        Ins::Add(R(RBP), R(RAX), Src::SR(RAX)),
        Ins::Add(R(RSI), R(RAX), Src::SR(RAX)),
        Ins::Add(R(RDI), R(RAX), Src::SR(RAX)),
        Ins::Add(R(R8), R(RAX), Src::SR(RAX)),
        Ins::Add(R(R9), R(RAX), Src::SR(RAX)),
        Ins::Add(R(R10), R(RAX), Src::SR(RAX)),
        Ins::Add(R(R11), R(RAX), Src::SR(RAX)),
        Ins::Add(R(R12), R(RAX), Src::SR(RAX)),
        Ins::Add(R(R13), R(RAX), Src::SR(RAX)),
        Ins::Add(R(R14), R(RAX), Src::SR(RAX)),
        Ins::Add(R(R15), R(RAX), Src::SR(RAX)),
    ])
    .unwrap();
    assert_eq!(
        prog.fmt_url(),
        "https://shell-storm.org/online/Online-Assembler-and-Disassembler/?opcodes=48+01+c0+48+01+c8+48+01+d0+48+01+d8+48+01+e0+48+01+e8+48+01+f0+48+01+f8+4c+01+c0+4c+01+c8+4c+01+d0+4c+01+d8+4c+01+e0+4c+01+e8+4c+01+f0+4c+01+f8+48+01+c0+48+89+c8+48+01+c0+48+89+d0+48+01+c0+48+89+d8+48+01+c0+48+89+e0+48+01+c0+48+89+e8+48+01+c0+48+89+f0+48+01+c0+48+89+f8+48+01+c0+4c+89+c0+48+01+c0+4c+89+c8+48+01+c0+4c+89+d0+48+01+c0+4c+89+d8+48+01+c0+4c+89+e0+48+01+c0+4c+89+e8+48+01+c0+4c+89+f0+48+01+c0+4c+89+f8+48+01+c0+48+01+c0+48+89+c1+48+01+c1+48+89+c2+48+01+c2+48+89+c3+48+01+c3+48+89+c4+48+01+c4+48+89+c5+48+01+c5+48+89+c6+48+01+c6+48+89+c7+48+01+c7+49+89+c0+49+01+c0+49+89+c1+49+01+c1+49+89+c2+49+01+c2+49+89+c3+49+01+c3+49+89+c4+49+01+c4+49+89+c5+49+01+c5+49+89+c6+49+01+c6+49+89+c7+49+01+c7&arch=x86-64&endianness=little&baddr=0x00000000&dis_with_addr=True&dis_with_raw=True&dis_with_ins=True#disassembly"
    );
}

#[test]
fn test_binary_regs() {
    let prog = Executable::from_ir(&[
        Ins::Sub(R(RAX), R(RAX), Src::SR(RAX)),
        Ins::Sub(R(RAX), R(RAX), Src::SR(RCX)),
        Ins::Sub(R(RAX), R(RAX), Src::SR(RDX)),
        Ins::Sub(R(RAX), R(RAX), Src::SR(RBX)),
        Ins::Sub(R(RAX), R(RAX), Src::SR(RSP)),
        Ins::Sub(R(RAX), R(RAX), Src::SR(RBP)),
        Ins::Sub(R(RAX), R(RAX), Src::SR(RSI)),
        Ins::Sub(R(RAX), R(RAX), Src::SR(RDI)),
        Ins::Sub(R(RAX), R(RAX), Src::SR(R8)),
        Ins::Sub(R(RAX), R(RAX), Src::SR(R9)),
        Ins::Sub(R(RAX), R(RAX), Src::SR(R10)),
        Ins::Sub(R(RAX), R(RAX), Src::SR(R11)),
        Ins::Sub(R(RAX), R(RAX), Src::SR(R12)),
        Ins::Sub(R(RAX), R(RAX), Src::SR(R13)),
        Ins::Sub(R(RAX), R(RAX), Src::SR(R14)),
        Ins::Sub(R(RAX), R(RAX), Src::SR(R15)),
        Ins::Sub(R(RAX), R(RAX), Src::SR(RAX)),
        Ins::Sub(R(RAX), R(RCX), Src::SR(RAX)),
        Ins::Sub(R(RAX), R(RDX), Src::SR(RAX)),
        Ins::Sub(R(RAX), R(RBX), Src::SR(RAX)),
        Ins::Sub(R(RAX), R(RSP), Src::SR(RAX)),
        Ins::Sub(R(RAX), R(RBP), Src::SR(RAX)),
        Ins::Sub(R(RAX), R(RSI), Src::SR(RAX)),
        Ins::Sub(R(RAX), R(RDI), Src::SR(RAX)),
        Ins::Sub(R(RAX), R(R8), Src::SR(RAX)),
        Ins::Sub(R(RAX), R(R9), Src::SR(RAX)),
        Ins::Sub(R(RAX), R(R10), Src::SR(RAX)),
        Ins::Sub(R(RAX), R(R11), Src::SR(RAX)),
        Ins::Sub(R(RAX), R(R12), Src::SR(RAX)),
        Ins::Sub(R(RAX), R(R13), Src::SR(RAX)),
        Ins::Sub(R(RAX), R(R14), Src::SR(RAX)),
        Ins::Sub(R(RAX), R(R15), Src::SR(RAX)),
        Ins::Sub(R(RAX), R(RAX), Src::SR(RAX)),
        Ins::Sub(R(RCX), R(RAX), Src::SR(RAX)),
        Ins::Sub(R(RDX), R(RAX), Src::SR(RAX)),
        Ins::Sub(R(RBX), R(RAX), Src::SR(RAX)),
        Ins::Sub(R(RSP), R(RAX), Src::SR(RAX)),
        Ins::Sub(R(RBP), R(RAX), Src::SR(RAX)),
        Ins::Sub(R(RSI), R(RAX), Src::SR(RAX)),
        Ins::Sub(R(RDI), R(RAX), Src::SR(RAX)),
        Ins::Sub(R(R8), R(RAX), Src::SR(RAX)),
        Ins::Sub(R(R9), R(RAX), Src::SR(RAX)),
        Ins::Sub(R(R10), R(RAX), Src::SR(RAX)),
        Ins::Sub(R(R11), R(RAX), Src::SR(RAX)),
        Ins::Sub(R(R12), R(RAX), Src::SR(RAX)),
        Ins::Sub(R(R13), R(RAX), Src::SR(RAX)),
        Ins::Sub(R(R14), R(RAX), Src::SR(RAX)),
        Ins::Sub(R(R15), R(RAX), Src::SR(RAX)),
    ])
    .unwrap();
    assert_eq!(
        prog.fmt_url(),
        "https://shell-storm.org/online/Online-Assembler-and-Disassembler/?opcodes=48+29+c0+48+29+c8+48+29+d0+48+29+d8+48+29+e0+48+29+e8+48+29+f0+48+29+f8+4c+29+c0+4c+29+c8+4c+29+d0+4c+29+d8+4c+29+e0+4c+29+e8+4c+29+f0+4c+29+f8+48+29+c0+48+89+c8+48+29+c0+48+89+d0+48+29+c0+48+89+d8+48+29+c0+48+89+e0+48+29+c0+48+89+e8+48+29+c0+48+89+f0+48+29+c0+48+89+f8+48+29+c0+4c+89+c0+48+29+c0+4c+89+c8+48+29+c0+4c+89+d0+48+29+c0+4c+89+d8+48+29+c0+4c+89+e0+48+29+c0+4c+89+e8+48+29+c0+4c+89+f0+48+29+c0+4c+89+f8+48+29+c0+48+29+c0+48+89+c1+48+29+c1+48+89+c2+48+29+c2+48+89+c3+48+29+c3+48+89+c4+48+29+c4+48+89+c5+48+29+c5+48+89+c6+48+29+c6+48+89+c7+48+29+c7+49+89+c0+49+29+c0+49+89+c1+49+29+c1+49+89+c2+49+29+c2+49+89+c3+49+29+c3+49+89+c4+49+29+c4+49+89+c5+49+29+c5+49+89+c6+49+29+c6+49+89+c7+49+29+c7&arch=x86-64&endianness=little&baddr=0x00000000&dis_with_addr=True&dis_with_raw=True&dis_with_ins=True#disassembly"
    );
}

// Where the destination is rcx and the first operand is not the count, the shift
// is made in another register; where the count is in the destination, it is
// moved to rcx before the first operand takes its place.
#[test]
fn test_shift_ecx() {
    let prog = Executable::from_ir(&[
        Ins::Shl(R(RAX), R(RAX), Src::SR(RAX)),
        Ins::Shl(R(RAX), R(RAX), Src::SR(RCX)),
        Ins::Shl(R(RAX), R(RCX), Src::SR(RAX)),
        Ins::Shl(R(RAX), R(RCX), Src::SR(RCX)),
        Ins::Shl(R(RCX), R(RAX), Src::SR(RAX)),
        Ins::Shl(R(RCX), R(RAX), Src::SR(RCX)),
        Ins::Shl(R(RCX), R(RCX), Src::SR(RAX)),
        Ins::Shl(R(RCX), R(RCX), Src::SR(RCX)),
    ])
    .unwrap();
    assert_eq!(
        prog.fmt_url(),
        "https://shell-storm.org/online/Online-Assembler-and-Disassembler/?opcodes=51+48+89+c1+48+d3+e0+59+51+48+d3+e0+59+51+48+87+c8+48+d3+e0+59+51+48+89+c8+48+d3+e0+59+48+89+c1+48+89+c1+48+d3+e1+50+48+d3+e0+48+89+c1+58+52+48+89+ca+48+89+c1+48+d3+e2+48+89+d1+5a+48+d3+e1&arch=x86-64&endianness=little&baddr=0x00000000&dis_with_addr=True&dis_with_raw=True&dis_with_ins=True#disassembly"
    );
}

// A divisor in rax or rdx is pushed before the dividend is moved to rax, and
// the division is by the quadword on the stack.
#[test]
fn test_div_eax() {
    let prog = Executable::from_ir(&[
        Ins::UDiv(R(RBX), R(RBX), Src::SR(RBX)),
        Ins::UDiv(R(RBX), R(RBX), Src::SR(RAX)),
        Ins::UDiv(R(RBX), R(RAX), Src::SR(RBX)),
        Ins::UDiv(R(RBX), R(RAX), Src::SR(RAX)),
        Ins::UDiv(R(RAX), R(RBX), Src::SR(RBX)),
        Ins::UDiv(R(RAX), R(RBX), Src::SR(RAX)),
        Ins::UDiv(R(RAX), R(RAX), Src::SR(RBX)),
        Ins::UDiv(R(RDX), R(RDX), Src::SR(RDX)),
        Ins::UDiv(R(RBX), R(RBX), Src::SR(RBX)),
        Ins::UDiv(R(RBX), R(RBX), Src::SR(RDX)),
        Ins::UDiv(R(RBX), R(RDX), Src::SR(RBX)),
        Ins::UDiv(R(RBX), R(RDX), Src::SR(RDX)),
        Ins::UDiv(R(RDX), R(RBX), Src::SR(RBX)),
        Ins::UDiv(R(RDX), R(RBX), Src::SR(RDX)),
        Ins::UDiv(R(RDX), R(RDX), Src::SR(RBX)),
        Ins::UDiv(R(RDX), R(RDX), Src::SR(RDX)),
    ])
    .unwrap();
    assert_eq!(
        prog.fmt_url(),
        "https://shell-storm.org/online/Online-Assembler-and-Disassembler/?opcodes=50+52+48+89+d8+48+c7+c2+00+00+00+00+48+f7+f3+48+89+c3+5a+58+50+52+50+48+89+d8+48+c7+c2+00+00+00+00+48+f7+34+24+48+89+c3+48+83+c4+08+5a+58+50+52+48+c7+c2+00+00+00+00+48+f7+f3+48+89+c3+5a+58+50+52+50+48+c7+c2+00+00+00+00+48+f7+34+24+48+89+c3+48+83+c4+08+5a+58+52+48+89+d8+48+c7+c2+00+00+00+00+48+f7+f3+5a+52+50+48+89+d8+48+c7+c2+00+00+00+00+48+f7+34+24+48+83+c4+08+5a+52+48+c7+c2+00+00+00+00+48+f7+f3+5a+50+52+48+89+d0+48+c7+c2+00+00+00+00+48+f7+34+24+48+89+c2+48+83+c4+08+58+50+52+48+89+d8+48+c7+c2+00+00+00+00+48+f7+f3+48+89+c3+5a+58+50+52+52+48+89+d8+48+c7+c2+00+00+00+00+48+f7+34+24+48+89+c3+48+83+c4+08+5a+58+50+52+48+89+d0+48+c7+c2+00+00+00+00+48+f7+f3+48+89+c3+5a+58+50+52+52+48+89+d0+48+c7+c2+00+00+00+00+48+f7+34+24+48+89+c3+48+83+c4+08+5a+58+50+48+89+d8+48+c7+c2+00+00+00+00+48+f7+f3+48+89+c2+58+50+52+48+89+d8+48+c7+c2+00+00+00+00+48+f7+34+24+48+89+c2+48+83+c4+08+58+50+48+89+d0+48+c7+c2+00+00+00+00+48+f7+f3+48+89+c2+58+50+52+48+89+d0+48+c7+c2+00+00+00+00+48+f7+34+24+48+89+c2+48+83+c4+08+58&arch=x86-64&endianness=little&baddr=0x00000000&dis_with_addr=True&dis_with_raw=True&dis_with_ins=True#disassembly"
    );
}

// Where the count is in the destination, it is moved to rcx before the first
// operand takes its place.
#[test]
fn test_shift_regs() {
    let prog = Executable::from_ir(&[
        Ins::Shl(R(RAX), R(RAX), Src::SR(RAX)),
        Ins::Shl(R(RAX), R(RAX), Src::SR(RDI)),
        Ins::Shl(R(RAX), R(RAX), Src::SR(R15)),
        Ins::Shl(R(RAX), R(RDI), Src::SR(RAX)),
        Ins::Shl(R(RAX), R(R15), Src::SR(RAX)),
        Ins::Shl(R(RDI), R(RAX), Src::SR(RAX)),
        Ins::Shl(R(R15), R(RAX), Src::SR(RAX)),
    ])
    .unwrap();
    assert_eq!(
        prog.fmt_url(),
        "https://shell-storm.org/online/Online-Assembler-and-Disassembler/?opcodes=51+48+89+c1+48+d3+e0+59+51+48+89+f9+48+d3+e0+59+51+4c+89+f9+48+d3+e0+59+51+48+89+c1+48+89+f8+48+d3+e0+59+51+48+89+c1+4c+89+f8+48+d3+e0+59+51+48+89+c7+48+89+c1+48+d3+e7+59+51+49+89+c7+48+89+c1+49+d3+e7+59&arch=x86-64&endianness=little&baddr=0x00000000&dis_with_addr=True&dis_with_raw=True&dis_with_ins=True#disassembly"
    );
}

// An addition is an add.  A divisor in rax is pushed and divided by from the
// stack.
#[test]
fn test_binary() {
    let prog = Executable::from_ir(&[
        Ins::Add(R(RAX), R(RAX), Src::SR(RAX)),
        Ins::Sub(R(RAX), R(RAX), Src::SR(RAX)),
        Ins::And(R(RAX), R(RAX), Src::SR(RAX)),
        Ins::Or(R(RAX), R(RAX), Src::SR(RAX)),
        Ins::Xor(R(RAX), R(RAX), Src::SR(RAX)),
        Ins::Shl(R(RAX), R(RAX), Src::SR(RAX)),
        Ins::Shr(R(RAX), R(RAX), Src::SR(RAX)),
        Ins::Sar(R(RAX), R(RAX), Src::SR(RAX)),
        Ins::Mul(R(RAX), R(RAX), Src::SR(RAX)),
        Ins::UDiv(R(RAX), R(RAX), Src::SR(RAX)),
        Ins::SDiv(R(RAX), R(RAX), Src::SR(RAX)),
    ])
    .unwrap();
    assert_eq!(
        prog.fmt_url(),
        "https://shell-storm.org/online/Online-Assembler-and-Disassembler/?opcodes=48+01+c0+48+29+c0+48+21+c0+48+09+c0+48+31+c0+51+48+89+c1+48+d3+e0+59+51+48+89+c1+48+d3+e8+59+51+48+89+c1+48+d3+f8+59+48+0f+af+c0+52+50+48+c7+c2+00+00+00+00+48+f7+34+24+48+83+c4+08+5a+52+50+48+99+48+f7+3c+24+48+83+c4+08+5a&arch=x86-64&endianness=little&baddr=0x00000000&dis_with_addr=True&dis_with_raw=True&dis_with_ins=True#disassembly"
    );
}

// Twelve loads, the last six of 256 bits.
#[test]
fn test_vld() {
    let prog = Executable::from_ir(&[
        Ins::Vld(Type::S8, Vsize::V128, V(0), R(RAX), 0),
        Ins::Vld(Type::S8, Vsize::V128, V(0), R(RCX), 0),
        Ins::Vld(Type::S8, Vsize::V128, V(1), R(RAX), 0),
        Ins::Vld(Type::S8, Vsize::V128, V(0), R(R8), 0),
        Ins::Vld(Type::S8, Vsize::V128, V(8), R(RAX), 0),
        Ins::Vld(Type::S8, Vsize::V128, V(9), R(R10), 0),
        Ins::Vld(Type::S8, Vsize::V256, V(0), R(RAX), 0),
        Ins::Vld(Type::S8, Vsize::V256, V(0), R(RCX), 0),
        Ins::Vld(Type::S8, Vsize::V256, V(1), R(RAX), 0),
        Ins::Vld(Type::S8, Vsize::V256, V(0), R(R8), 0),
        Ins::Vld(Type::S8, Vsize::V256, V(8), R(RAX), 0),
        Ins::Vld(Type::S8, Vsize::V256, V(9), R(R10), 0),
    ])
    .unwrap();
    assert_eq!(
        prog.fmt_url(),
        "https://shell-storm.org/online/Online-Assembler-and-Disassembler/?opcodes=c5+f8+10+80+00+00+00+00+c5+f8+10+81+00+00+00+00+c5+f8+10+88+00+00+00+00+c4+c1+78+10+80+00+00+00+00+c5+78+10+80+00+00+00+00+c4+41+78+10+8a+00+00+00+00+c5+fc+10+80+00+00+00+00+c5+fc+10+81+00+00+00+00+c5+fc+10+88+00+00+00+00+c4+c1+7c+10+80+00+00+00+00+c5+7c+10+80+00+00+00+00+c4+41+7c+10+8a+00+00+00+00&arch=x86-64&endianness=little&baddr=0x00000000&dis_with_addr=True&dis_with_raw=True&dis_with_ins=True#disassembly"
    );
}

#[test]
fn test_vst() {
    let prog = Executable::from_ir(&[
        Ins::Vst(Type::S8, Vsize::V128, V(0), R(RAX), 0),
        Ins::Vst(Type::S8, Vsize::V128, V(0), R(RCX), 0),
        Ins::Vst(Type::S8, Vsize::V128, V(1), R(RAX), 0),
        Ins::Vst(Type::S8, Vsize::V128, V(0), R(R8), 0),
        Ins::Vst(Type::S8, Vsize::V128, V(8), R(RAX), 0),
        Ins::Vst(Type::S8, Vsize::V128, V(9), R(R10), 0),
        Ins::Vst(Type::S8, Vsize::V256, V(0), R(RAX), 0),
        Ins::Vst(Type::S8, Vsize::V256, V(0), R(RCX), 0),
        Ins::Vst(Type::S8, Vsize::V256, V(1), R(RAX), 0),
        Ins::Vst(Type::S8, Vsize::V256, V(0), R(R8), 0),
        Ins::Vst(Type::S8, Vsize::V256, V(8), R(RAX), 0),
        Ins::Vst(Type::S8, Vsize::V256, V(9), R(R10), 0),
    ])
    .unwrap();
    assert_eq!(
        prog.fmt_url(),
        "https://shell-storm.org/online/Online-Assembler-and-Disassembler/?opcodes=c5+f8+11+80+00+00+00+00+c5+f8+11+81+00+00+00+00+c5+f8+11+88+00+00+00+00+c4+c1+78+11+80+00+00+00+00+c5+78+11+80+00+00+00+00+c4+41+78+11+8a+00+00+00+00+c5+fc+11+80+00+00+00+00+c5+fc+11+81+00+00+00+00+c5+fc+11+88+00+00+00+00+c4+c1+7c+11+80+00+00+00+00+c5+7c+11+80+00+00+00+00+c4+41+7c+11+8a+00+00+00+00&arch=x86-64&endianness=little&baddr=0x00000000&dis_with_addr=True&dis_with_raw=True&dis_with_ins=True#disassembly"
    );
}

// A store of a byte has a REX prefix without W.
#[test]
fn test_xxx() {
    let prog = Executable::from_ir(&[
        Ins::Enter(16),
        Ins::St(Type::U8, R(RDI), R(RSP), 6),
        Ins::St(Type::U8, R(RSI), R(RSP), 7),
        Ins::Ld(Type::U16, R(RAX), R(RSP), 6),
        Ins::Leave(16),
        Ins::Ret,
    ])
    .unwrap();
    assert_eq!(
        prog.fmt_url(),
        "https://shell-storm.org/online/Online-Assembler-and-Disassembler/?opcodes=48+83+ec+10+40+88+7c+24+06+40+88+74+24+07+66+48+0f+b7+44+24+06+48+83+c4+10+c3&arch=x86-64&endianness=little&baddr=0x00000000&dis_with_addr=True&dis_with_raw=True&dis_with_ins=True#disassembly"
    );
}

#[test]
fn test_modrm() {
    let prog = Executable::from_ir(&[
        Ins::St(Type::U8, R(RAX), R(RAX), 0),
        Ins::St(Type::U8, R(RAX), R(RSP), 0),
        Ins::St(Type::U8, R(RAX), R(RBP), 0),
        Ins::St(Type::U8, R(RAX), R(R12), 0),
        Ins::St(Type::U8, R(RAX), R(R13), 0),
        Ins::St(Type::U8, R(RAX), R(R15), 0),
        Ins::St(Type::U8, R(RAX), R(RAX), 0),
        Ins::St(Type::U8, R(RSP), R(RSP), 0),
        Ins::St(Type::U8, R(RBP), R(RBP), 0),
        Ins::St(Type::U8, R(R12), R(R12), 0),
        Ins::St(Type::U8, R(R13), R(R13), 0),
        Ins::St(Type::U8, R(R15), R(R15), 0),
        Ins::Ret,
    ])
    .unwrap();
    assert_eq!(
        prog.fmt_url(),
        "https://shell-storm.org/online/Online-Assembler-and-Disassembler/?opcodes=40+88+00+40+88+04+24+40+88+45+00+41+88+04+24+41+88+45+00+41+88+07+40+88+00+40+88+24+24+40+88+6d+00+45+88+24+24+45+88+6d+00+45+88+3f+c3&arch=x86-64&endianness=little&baddr=0x00000000&dis_with_addr=True&dis_with_raw=True&dis_with_ins=True#disassembly"
    );
    let prog = Executable::from_ir(&[
        Ins::St(Type::U8, R(RAX), R(RAX), 1),
        Ins::St(Type::U8, R(RAX), R(RSP), 1),
        Ins::St(Type::U8, R(RAX), R(RBP), 1),
        Ins::St(Type::U8, R(RAX), R(R12), 1),
        Ins::St(Type::U8, R(RAX), R(R13), 1),
        Ins::St(Type::U8, R(RAX), R(R15), 1),
        Ins::St(Type::U8, R(RAX), R(RAX), 1),
        Ins::St(Type::U8, R(RSP), R(RSP), 1),
        Ins::St(Type::U8, R(RBP), R(RBP), 1),
        Ins::St(Type::U8, R(R12), R(R12), 1),
        Ins::St(Type::U8, R(R13), R(R13), 1),
        Ins::St(Type::U8, R(R15), R(R15), 1),
        Ins::Ret,
    ])
    .unwrap();
    assert_eq!(
        prog.fmt_url(),
        "https://shell-storm.org/online/Online-Assembler-and-Disassembler/?opcodes=40+88+40+01+40+88+44+24+01+40+88+45+01+41+88+44+24+01+41+88+45+01+41+88+47+01+40+88+40+01+40+88+64+24+01+40+88+6d+01+45+88+64+24+01+45+88+6d+01+45+88+7f+01+c3&arch=x86-64&endianness=little&baddr=0x00000000&dis_with_addr=True&dis_with_raw=True&dis_with_ins=True#disassembly"
    );
    let prog = Executable::from_ir(&[
        Ins::St(Type::U8, R(RAX), R(RAX), 128),
        Ins::St(Type::U8, R(RAX), R(RSP), 128),
        Ins::St(Type::U8, R(RAX), R(RBP), 128),
        Ins::St(Type::U8, R(RAX), R(R12), 128),
        Ins::St(Type::U8, R(RAX), R(R13), 128),
        Ins::St(Type::U8, R(RAX), R(R15), 128),
        Ins::St(Type::U8, R(RAX), R(RAX), 128),
        Ins::St(Type::U8, R(RSP), R(RSP), 128),
        Ins::St(Type::U8, R(RBP), R(RBP), 128),
        Ins::St(Type::U8, R(R12), R(R12), 128),
        Ins::St(Type::U8, R(R13), R(R13), 128),
        Ins::St(Type::U8, R(R15), R(R15), 128),
        Ins::Ret,
    ])
    .unwrap();
    assert_eq!(
        prog.fmt_url(),
        "https://shell-storm.org/online/Online-Assembler-and-Disassembler/?opcodes=40+88+80+80+00+00+00+40+88+84+24+80+00+00+00+40+88+85+80+00+00+00+41+88+84+24+80+00+00+00+41+88+85+80+00+00+00+41+88+87+80+00+00+00+40+88+80+80+00+00+00+40+88+a4+24+80+00+00+00+40+88+ad+80+00+00+00+45+88+a4+24+80+00+00+00+45+88+ad+80+00+00+00+45+88+bf+80+00+00+00+c3&arch=x86-64&endianness=little&baddr=0x00000000&dis_with_addr=True&dis_with_raw=True&dis_with_ins=True#disassembly"
    );
}

#[test]
fn test_stb() {
    let prog = Executable::from_ir(&[
        Ins::St(Type::U8, R(RAX), R(RAX), 0),
        Ins::St(Type::U8, R(RAX), R(RSP), 0),
        Ins::St(Type::U8, R(RAX), R(RBP), 0),
        Ins::St(Type::U8, R(RAX), R(R12), 0),
        Ins::St(Type::U8, R(RAX), R(R13), 0),
        Ins::St(Type::U8, R(RAX), R(R15), 0),
        Ins::St(Type::U8, R(RAX), R(RAX), 0),
        Ins::St(Type::U8, R(RSP), R(RSP), 0),
        Ins::St(Type::U8, R(RBP), R(RBP), 0),
        Ins::St(Type::U8, R(R12), R(R12), 0),
        Ins::St(Type::U8, R(R13), R(R13), 0),
        Ins::St(Type::U8, R(R15), R(R15), 0),
        Ins::Ret,
    ])
    .unwrap();
    assert_eq!(
        prog.fmt_url(),
        "https://shell-storm.org/online/Online-Assembler-and-Disassembler/?opcodes=40+88+00+40+88+04+24+40+88+45+00+41+88+04+24+41+88+45+00+41+88+07+40+88+00+40+88+24+24+40+88+6d+00+45+88+24+24+45+88+6d+00+45+88+3f+c3&arch=x86-64&endianness=little&baddr=0x00000000&dis_with_addr=True&dis_with_raw=True&dis_with_ins=True#disassembly"
    );
}

#[test]
fn test_stw() {
    let prog = Executable::from_ir(&[
        Ins::St(Type::U16, R(RAX), R(RAX), 0),
        Ins::St(Type::U16, R(RAX), R(RSP), 0),
        Ins::St(Type::U16, R(RAX), R(RBP), 0),
        Ins::St(Type::U16, R(RAX), R(R12), 0),
        Ins::St(Type::U16, R(RAX), R(R13), 0),
        Ins::St(Type::U16, R(RAX), R(R15), 0),
        Ins::St(Type::U16, R(RAX), R(RAX), 0),
        Ins::St(Type::U16, R(RSP), R(RSP), 0),
        Ins::St(Type::U16, R(RBP), R(RBP), 0),
        Ins::St(Type::U16, R(R12), R(R12), 0),
        Ins::St(Type::U16, R(R13), R(R13), 0),
        Ins::St(Type::U16, R(R15), R(R15), 0),
        Ins::Ret,
    ])
    .unwrap();
    assert_eq!(
        prog.fmt_url(),
        "https://shell-storm.org/online/Online-Assembler-and-Disassembler/?opcodes=66+40+89+00+66+40+89+04+24+66+40+89+45+00+66+41+89+04+24+66+41+89+45+00+66+41+89+07+66+40+89+00+66+40+89+24+24+66+40+89+6d+00+66+45+89+24+24+66+45+89+6d+00+66+45+89+3f+c3&arch=x86-64&endianness=little&baddr=0x00000000&dis_with_addr=True&dis_with_raw=True&dis_with_ins=True#disassembly"
    );
}

#[test]
fn test_std() {
    let prog = Executable::from_ir(&[
        Ins::St(Type::U32, R(RAX), R(RAX), 0),
        Ins::St(Type::U32, R(RAX), R(RSP), 0),
        Ins::St(Type::U32, R(RAX), R(RBP), 0),
        Ins::St(Type::U32, R(RAX), R(R12), 0),
        Ins::St(Type::U32, R(RAX), R(R13), 0),
        Ins::St(Type::U32, R(RAX), R(R15), 0),
        Ins::St(Type::U32, R(RAX), R(RAX), 0),
        Ins::St(Type::U32, R(RSP), R(RSP), 0),
        Ins::St(Type::U32, R(RBP), R(RBP), 0),
        Ins::St(Type::U32, R(R12), R(R12), 0),
        Ins::St(Type::U32, R(R13), R(R13), 0),
        Ins::St(Type::U32, R(R15), R(R15), 0),
        Ins::Ret,
    ])
    .unwrap();
    assert_eq!(
        prog.fmt_url(),
        "https://shell-storm.org/online/Online-Assembler-and-Disassembler/?opcodes=40+89+00+40+89+04+24+40+89+45+00+41+89+04+24+41+89+45+00+41+89+07+40+89+00+40+89+24+24+40+89+6d+00+45+89+24+24+45+89+6d+00+45+89+3f+c3&arch=x86-64&endianness=little&baddr=0x00000000&dis_with_addr=True&dis_with_raw=True&dis_with_ins=True#disassembly"
    );
}

#[test]
fn test_stq() {
    let prog = Executable::from_ir(&[
        Ins::St(Type::U64, R(RAX), R(RAX), 0),
        Ins::St(Type::U64, R(RAX), R(RSP), 0),
        Ins::St(Type::U64, R(RAX), R(RBP), 0),
        Ins::St(Type::U64, R(RAX), R(R12), 0),
        Ins::St(Type::U64, R(RAX), R(R13), 0),
        Ins::St(Type::U64, R(RAX), R(R15), 0),
        Ins::St(Type::U64, R(RAX), R(RAX), 0),
        Ins::St(Type::U64, R(RSP), R(RSP), 0),
        Ins::St(Type::U64, R(RBP), R(RBP), 0),
        Ins::St(Type::U64, R(R12), R(R12), 0),
        Ins::St(Type::U64, R(R13), R(R13), 0),
        Ins::St(Type::U64, R(R15), R(R15), 0),
        Ins::Ret,
    ])
    .unwrap();
    assert_eq!(
        prog.fmt_url(),
        "https://shell-storm.org/online/Online-Assembler-and-Disassembler/?opcodes=48+89+00+48+89+04+24+48+89+45+00+49+89+04+24+49+89+45+00+49+89+07+48+89+00+48+89+24+24+48+89+6d+00+4d+89+24+24+4d+89+6d+00+4d+89+3f+c3&arch=x86-64&endianness=little&baddr=0x00000000&dis_with_addr=True&dis_with_raw=True&dis_with_ins=True#disassembly"
    );
}

// A load that extends to 64 bits has REX.W, whatever it loads.
#[test]
fn test_ld() {
    let prog = Executable::from_ir(&[
        Ins::Ld(Type::U8, R(RCX), R(RSI), 0),
        Ins::Ld(Type::U16, R(RCX), R(RSI), 0),
        Ins::Ld(Type::U32, R(RCX), R(RSI), 0),
        Ins::Ld(Type::U64, R(RCX), R(RAX), 0),
        Ins::Ld(Type::S8, R(RCX), R(RSI), 0),
        Ins::Ld(Type::S16, R(RCX), R(RSI), 0),
        Ins::Ld(Type::S32, R(RCX), R(RSI), 0),
        Ins::Ld(Type::S64, R(RCX), R(RAX), 0),
        Ins::Ret,
    ])
    .unwrap();
    assert_eq!(
        prog.fmt_url(),
        "https://shell-storm.org/online/Online-Assembler-and-Disassembler/?opcodes=48+0f+b6+0e+66+48+0f+b7+0e+40+8b+0e+48+8b+08+48+0f+be+0e+66+48+0f+bf+0e+48+63+0e+48+8b+08+c3&arch=x86-64&endianness=little&baddr=0x00000000&dis_with_addr=True&dis_with_raw=True&dis_with_ins=True#disassembly"
    );
}

#[test]
fn test_vpadd() {
    let prog = Executable::from_ir(&[
        Ins::Vadd(Type::U8, Vsize::V128, V(0), V(0), V(0)),
        Ins::Vadd(Type::U16, Vsize::V128, V(0), V(0), V(0)),
        Ins::Vadd(Type::U32, Vsize::V128, V(0), V(0), V(0)),
        Ins::Vadd(Type::U64, Vsize::V128, V(0), V(0), V(0)),
        Ins::Vadd(Type::F32, Vsize::V128, V(0), V(0), V(0)),
        Ins::Vadd(Type::F64, Vsize::V128, V(0), V(0), V(0)),
        Ins::Vadd(Type::U8, Vsize::V128, V(0), V(0), V(0)),
        Ins::Vadd(Type::U8, Vsize::V128, V(15), V(0), V(0)),
        Ins::Vadd(Type::U8, Vsize::V128, V(0), V(15), V(0)),
        Ins::Vadd(Type::U8, Vsize::V128, V(0), V(0), V(15)),
        Ins::Vadd(Type::U8, Vsize::V128, V(1), V(2), V(3)),
        Ins::Vadd(Type::U8, Vsize::V256, V(0), V(0), V(0)),
        Ins::Vadd(Type::U8, Vsize::V256, V(0), V(0), V(15)),
        Ins::Ret,
    ])
    .unwrap();
    assert_eq!(
        prog.fmt_url(),
        "https://shell-storm.org/online/Online-Assembler-and-Disassembler/?opcodes=c5+f9+fc+c0+c5+f9+fd+c0+c5+f9+fe+c0+c5+f9+d4+c0+c5+f8+58+c0+c5+f9+58+c0+c5+f9+fc+c0+c5+79+fc+f8+c5+81+fc+c0+c4+c1+79+fc+c7+c5+e9+fc+cb+c5+fd+fc+c0+c4+c1+7d+fc+c7+c3&arch=x86-64&endianness=little&baddr=0x00000000&dis_with_addr=True&dis_with_raw=True&dis_with_ins=True#disassembly"
    );
}

#[test]
fn test_vpsub() {
    let prog = Executable::from_ir(&[
        Ins::Vsub(Type::U8, Vsize::V128, V(0), V(0), V(0)),
        Ins::Vsub(Type::U16, Vsize::V128, V(0), V(0), V(0)),
        Ins::Vsub(Type::U32, Vsize::V128, V(0), V(0), V(0)),
        Ins::Vsub(Type::U64, Vsize::V128, V(0), V(0), V(0)),
        Ins::Vsub(Type::F32, Vsize::V128, V(0), V(0), V(0)),
        Ins::Vsub(Type::F64, Vsize::V128, V(0), V(0), V(0)),
        Ins::Vsub(Type::U8, Vsize::V128, V(0), V(0), V(0)),
        Ins::Vsub(Type::U8, Vsize::V128, V(15), V(0), V(0)),
        Ins::Vsub(Type::U8, Vsize::V128, V(0), V(15), V(0)),
        Ins::Vsub(Type::U8, Vsize::V128, V(0), V(0), V(15)),
        Ins::Vsub(Type::U8, Vsize::V128, V(1), V(2), V(3)),
        Ins::Vsub(Type::U8, Vsize::V256, V(0), V(0), V(0)),
        Ins::Vsub(Type::U8, Vsize::V256, V(0), V(0), V(15)),
        Ins::Ret,
    ])
    .unwrap();
    assert_eq!(
        prog.fmt_url(),
        "https://shell-storm.org/online/Online-Assembler-and-Disassembler/?opcodes=c5+f9+f8+c0+c5+f9+f9+c0+c5+f9+fa+c0+c5+f9+fb+c0+c5+f8+5c+c0+c5+f9+5c+c0+c5+f9+f8+c0+c5+79+f8+f8+c5+81+f8+c0+c4+c1+79+f8+c7+c5+e9+f8+cb+c5+fd+f8+c0+c4+c1+7d+f8+c7+c3&arch=x86-64&endianness=little&baddr=0x00000000&dis_with_addr=True&dis_with_raw=True&dis_with_ins=True#disassembly"
    );
}

// vpand, vpor and vpxor.
#[test]
fn test_vandorxor() {
    let prog = Executable::from_ir(&[
        Ins::Vand(Type::U8, Vsize::V128, V(1), V(2), V(3)),
        Ins::Vor(Type::U8, Vsize::V128, V(1), V(2), V(3)),
        Ins::Vxor(Type::U8, Vsize::V128, V(1), V(2), V(3)),
        Ins::Ret,
    ])
    .unwrap();
    assert_eq!(
        prog.fmt_url(),
        "https://shell-storm.org/online/Online-Assembler-and-Disassembler/?opcodes=c5+e9+db+cb+c5+e9+eb+cb+c5+e9+ef+cb+c3&arch=x86-64&endianness=little&baddr=0x00000000&dis_with_addr=True&dis_with_raw=True&dis_with_ins=True#disassembly"
    );
}

// vpslld, vpsrad and vpsrld, at both widths.
#[test]
fn test_vshift() {
    let prog = Executable::from_ir(&[
        Ins::Vshl(Type::U32, Vsize::V128, V(1), V(2), V(3)),
        Ins::Vshr(Type::S32, Vsize::V128, V(1), V(2), V(3)),
        Ins::Vshr(Type::U32, Vsize::V128, V(1), V(2), V(3)),
        Ins::Vshl(Type::U32, Vsize::V256, V(1), V(2), V(3)),
        Ins::Vshr(Type::S32, Vsize::V256, V(1), V(2), V(3)),
        Ins::Vshr(Type::U32, Vsize::V256, V(1), V(2), V(3)),
        Ins::Ret,
    ])
    .unwrap();
    assert_eq!(
        prog.fmt_url(),
        "https://shell-storm.org/online/Online-Assembler-and-Disassembler/?opcodes=c5+e9+f2+cb+c5+e9+e2+cb+c5+e9+d2+cb+c5+ed+f2+cb+c5+ed+e2+cb+c5+ed+d2+cb+c3&arch=x86-64&endianness=little&baddr=0x00000000&dis_with_addr=True&dis_with_raw=True&dis_with_ins=True#disassembly"
    );
}

#[test]
fn test_vmul() {
    let prog = Executable::from_ir(&[
        Ins::Vmul(Type::F32, Vsize::V128, V(1), V(2), V(3)),
        Ins::Vmul(Type::F64, Vsize::V128, V(1), V(2), V(3)),
        Ins::Vmul(Type::F32, Vsize::V256, V(1), V(2), V(3)),
        Ins::Vmul(Type::F64, Vsize::V256, V(1), V(2), V(3)),
        Ins::Ret,
    ])
    .unwrap();
    assert_eq!(
        prog.fmt_url(),
        "https://shell-storm.org/online/Online-Assembler-and-Disassembler/?opcodes=c5+e8+59+cb+c5+e9+59+cb+c5+ec+59+cb+c5+ed+59+cb+c3&arch=x86-64&endianness=little&baddr=0x00000000&dis_with_addr=True&dis_with_raw=True&dis_with_ins=True#disassembly"
    );
}

// Four loads from the constant pool, which follows the code.
#[test]
fn test_vmovi() {
    let prog = Executable::from_ir(&[
        Ins::Vmovi(Type::U8, Vsize::V128, V(0), 0x12),
        Ins::Vmovi(Type::U16, Vsize::V128, V(0), 0x1234),
        Ins::Vmovi(Type::U32, Vsize::V128, V(0), 0x12345678),
        Ins::Vmovi(Type::U64, Vsize::V128, V(0), 0x123456789abcdef0),
        Ins::Ret,
    ])
    .unwrap();
    assert_eq!(
        prog.fmt_url(),
        "https://shell-storm.org/online/Online-Assembler-and-Disassembler/?opcodes=c5+f8+10+05+19+00+00+00+c5+f8+10+05+21+00+00+00+c5+f8+10+05+29+00+00+00+c5+f8+10+05+31+00+00+00+c3+12+12+12+12+12+12+12+12+12+12+12+12+12+12+12+12+34+12+34+12+34+12+34+12+34+12+34+12+34+12+34+12+78+56+34+12+78+56+34+12+78+56+34+12+78+56+34+12+f0+de+bc+9a+78+56+34+12+f0+de+bc+9a+78+56+34+12&arch=x86-64&endianness=little&baddr=0x00000000&dis_with_addr=True&dis_with_raw=True&dis_with_ins=True#disassembly"
    );
}

#[test]
fn test_vnot() {
    let prog = Executable::from_ir(&[
        Ins::Vnot(Type::U8, Vsize::V128, V(0), V(0)),
        Ins::Vnot(Type::U16, Vsize::V128, V(0), V(0)),
        Ins::Vnot(Type::U32, Vsize::V128, V(0), V(0)),
        Ins::Vnot(Type::U64, Vsize::V128, V(0), V(0)),
        Ins::Ret,
    ])
    .unwrap();
    assert_eq!(
        prog.fmt_url(),
        "https://shell-storm.org/online/Online-Assembler-and-Disassembler/?opcodes=c5+f9+ef+05+19+00+00+00+c5+f9+ef+05+11+00+00+00+c5+f9+ef+05+09+00+00+00+c5+f9+ef+05+01+00+00+00+c3+ff+ff+ff+ff+ff+ff+ff+ff+ff+ff+ff+ff+ff+ff+ff+ff&arch=x86-64&endianness=little&baddr=0x00000000&dis_with_addr=True&dis_with_raw=True&dis_with_ins=True#disassembly"
    );
}

#[test]
fn test_vmov() {
    let prog = Executable::from_ir(&[
        Ins::Vmov(Type::U8, Vsize::V128, V(0), V(0)),
        Ins::Vmov(Type::U16, Vsize::V128, V(0), V(0)),
        Ins::Vmov(Type::U32, Vsize::V128, V(0), V(0)),
        Ins::Vmov(Type::U64, Vsize::V128, V(0), V(0)),
        Ins::Vmov(Type::U8, Vsize::V128, V(1), V(2)),
        Ins::Vmov(Type::U8, Vsize::V128, V(2), V(4)),
        Ins::Vmov(Type::U8, Vsize::V128, V(3), V(6)),
        Ins::Vmov(Type::U8, Vsize::V128, V(4), V(8)),
        Ins::Vmov(Type::U8, Vsize::V128, V(5), V(10)),
        Ins::Ret,
    ])
    .unwrap();
    assert_eq!(
        prog.fmt_url(),
        "https://shell-storm.org/online/Online-Assembler-and-Disassembler/?opcodes=c5+f8+10+c0+c5+f8+10+c0+c5+f8+10+c0+c5+f8+10+c0+c5+f8+10+ca+c5+f8+10+d4+c5+f8+10+de+c4+c1+78+10+e0+c4+c1+78+10+ea+c3&arch=x86-64&endianness=little&baddr=0x00000000&dis_with_addr=True&dis_with_raw=True&dis_with_ins=True#disassembly"
    );
}
