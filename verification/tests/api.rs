//! The parts of the library around the backends.
use ejit::bytes::{le_i32, le_i64, le_i8, le_u16, le_u32, le_u64, le_u8, to_signed};
use ejit::x86_64::regs::{ALL, ARG, RAX, RDI, RES, SAVE, SC, SP};
use ejit::{
    cpu_level, Arch, Cond, CpuFeatures, CpuLevel, Executable, Fixup, Imm, Ins, Scale, Src, State,
    Type, Vsize, R, V,
};

#[test]
fn operands() {
    assert_eq!(Src::from(R(3)), Src::SR(3));
    assert_eq!(Src::from(&R(4)), Src::SR(4));
    assert_eq!(Src::from(V(5)), Src::SV(5));
    assert_eq!(Src::from(-6_i64), Src::Imm(-6));
    let s: Src = R(RDI).into();
    assert_eq!(s.as_reg(), Some(R(7)));
    assert_eq!(s.as_vreg(), None);
    assert_eq!(s.as_imm64(), None);
    assert_eq!(Src::SV(2).as_vreg(), Some(V(2)));
    assert_eq!(Src::SV(2).as_reg(), None);
    assert_eq!(Src::Imm(i64::MIN).as_imm64(), Some(i64::MIN));
    assert_eq!(Src::Imm(i64::MIN).as_imm32(), None);
    assert_eq!(Src::Imm(0x7fff_ffff).as_imm32(), Some(i32::MAX));
    assert_eq!(Src::Imm(0x8000_0000).as_imm32(), None);
    assert_eq!(Src::Imm(-0x8000_0000).as_imm32(), Some(i32::MIN));
    assert_eq!(Src::Imm(-0x8000_0001).as_imm32(), None);
    assert_eq!(Src::Imm(127).as_imm8(), Some(127));
    assert_eq!(Src::Imm(128).as_imm8(), None);
    assert_eq!(Src::Imm(-128).as_imm8(), Some(-128));
    assert_eq!(Src::Imm(-129).as_imm8(), None);
    assert_eq!(Src::SR(1).as_imm8(), None);
    assert_eq!(Imm(7), Imm(7));
}

#[test]
fn widths() {
    assert_eq!(
        [Type::U8, Type::U16, Type::U32, Type::U64, Type::U128, Type::U256].map(|t| t.bits()),
        [8, 16, 32, 64, 128, 256]
    );
    assert_eq!(
        [Type::S8, Type::S16, Type::S32, Type::S64, Type::S128, Type::S256].map(|t| t.bits()),
        [8, 16, 32, 64, 128, 256]
    );
    assert_eq!(
        [Type::F8, Type::F16, Type::F32, Type::F64, Type::F128, Type::F256].map(|t| t.bits()),
        [8, 16, 32, 64, 128, 256]
    );
    assert_eq!(
        [
            Vsize::V8,
            Vsize::V16,
            Vsize::V32,
            Vsize::V64,
            Vsize::V128,
            Vsize::V256,
            Vsize::V512,
            Vsize::V1024,
            Vsize::V2048
        ]
        .map(|v| v.bits()),
        [8, 16, 32, 64, 128, 256, 512, 1024, 2048]
    );
    assert_eq!(
        [CpuLevel::Scalar, CpuLevel::Simd128, CpuLevel::Simd256, CpuLevel::Simd512]
            .map(|l| l.max_vbits()),
        [64, 128, 256, 512]
    );
    assert!(CpuLevel::Scalar < CpuLevel::Simd128);
    assert!(CpuLevel::Simd256 < CpuLevel::Simd512);
}

#[test]
fn register_fields() {
    assert_eq!((R(0).to_x86_low(), R(0).to_x86_high()), (0, 0));
    assert_eq!((R(7).to_x86_low(), R(7).to_x86_high()), (7, 0));
    assert_eq!((R(8).to_x86_low(), R(8).to_x86_high()), (0, 1));
    assert_eq!((R(13).to_x86_low(), R(13).to_x86_high()), (5, 1));
    assert_eq!((V(15).to_x86(), V(15).to_x86_low(), V(15).to_x86_high()), (15, 7, 1));
    assert_eq!((V(3).to_x86(), V(3).to_x86_low(), V(3).to_x86_high()), (3, 3, 0));
    assert_eq!(R(31).to_aarch64(), 31);
    assert!(R(15).is_x86() && !R(16).is_x86());
    assert!(V(15).is_x86() && !V(16).is_x86());
    assert!(R(31).is_aarch64() && !R(32).is_aarch64());
    assert_eq!(
        [
            Cond::Eq,
            Cond::Ne,
            Cond::Sgt,
            Cond::Sge,
            Cond::Slt,
            Cond::Sle,
            Cond::Ugt,
            Cond::Uge,
            Cond::Ult,
            Cond::Ule
        ]
        .map(|c| (c.cc(), c.a64())),
        [
            (0x4, 0x0),
            (0x5, 0x1),
            (0xf, 0xc),
            (0xd, 0xa),
            (0xc, 0xb),
            (0xe, 0xd),
            (0x7, 0x8),
            (0x3, 0x2),
            (0x2, 0x3),
            (0x6, 0x9)
        ]
    );
    assert_eq!([Scale::X1, Scale::X2, Scale::X4, Scale::X8].map(|s| s.to_sib()), [0, 1, 2, 3]);
    assert_eq!(ejit::x86_64::fields::rex(1, 0, 1, 1), 0x4d);
    assert_eq!(ejit::x86_64::fields::rex(0, 1, 0, 0), 0x42);
    assert_eq!(ejit::x86_64::fields::modrm(2, 5, 4), 0xac);
    assert_eq!(ejit::x86_64::fields::modr(&R(9), &R(2)), 0xca);
    assert_eq!(ARG, [7, 6, 2, 1, 8, 9]);
    assert_eq!(RES, [0, 2]);
    assert_eq!(SAVE, [3, 5, 12, 13, 14, 15]);
    assert_eq!(SC, [0, 1, 2, 8, 9, 10, 11]);
    assert_eq!(ALL.len(), 15);
    assert!(!ALL.contains(&SP));
    assert_eq!(ejit::aarch64::regs::ARG, [0, 1, 2, 3, 4, 5, 6, 7]);
    assert_eq!(ejit::aarch64::regs::RES, [0, 1]);
    assert_eq!(ejit::aarch64::regs::SP, 31);
}

#[test]
fn little_endian_bytes() {
    assert_eq!(le_u8(0xab), [0xab]);
    assert_eq!(le_u16(0x1234), [0x34, 0x12]);
    assert_eq!(le_u32(0x1234_5678), [0x78, 0x56, 0x34, 0x12]);
    assert_eq!(le_u32(u32::MAX), [0xff; 4]);
    assert_eq!(le_u64(0x0102_0304_0506_0708), [8, 7, 6, 5, 4, 3, 2, 1]);
    assert_eq!(le_u64(u64::MAX), [0xff; 8]);
    assert_eq!(le_i8(-1), [0xff]);
    assert_eq!(le_i8(-128), [0x80]);
    assert_eq!(le_i8(127), [0x7f]);
    assert_eq!(le_i32(-2), [0xfe, 0xff, 0xff, 0xff]);
    assert_eq!(le_i32(i32::MIN), [0, 0, 0, 0x80]);
    assert_eq!(le_i32(i32::MAX), [0xff, 0xff, 0xff, 0x7f]);
    assert_eq!(le_i32(0x0102_0304), [4, 3, 2, 1]);
    assert_eq!(le_i64(-2), [0xfe, 0xff, 0xff, 0xff, 0xff, 0xff, 0xff, 0xff]);
    assert_eq!(le_i64(i64::MIN), [0, 0, 0, 0, 0, 0, 0, 0x80]);
    assert_eq!(le_i64(i64::MAX), [0xff, 0xff, 0xff, 0xff, 0xff, 0xff, 0xff, 0x7f]);
    assert_eq!(to_signed(0), 0);
    assert_eq!(to_signed(0x7fff_ffff_ffff_ffff), i64::MAX);
    assert_eq!(to_signed(0x8000_0000_0000_0000), i64::MIN);
    assert_eq!(to_signed(u64::MAX), -1);
    for v in [0_i64, 1, -1, 255, 256, -256, 0x1234_5678_9abc_def0, -0x1234_5678_9abc_def0] {
        assert_eq!(to_signed(v as u64), v);
        assert_eq!(le_i64(v), v.to_le_bytes());
        assert_eq!(le_u64(v as u64), v.to_le_bytes());
        assert_eq!(le_i32(v as i32), (v as i32).to_le_bytes());
        assert_eq!(le_i8(v as i8), (v as i8).to_le_bytes());
    }
}

#[test]
fn constant_pool() {
    let mut state = State::new(CpuLevel::Simd512);
    assert_eq!(state.constant(&[1, 2, 3, 4]), 0);
    assert_eq!(state.constants, vec![1, 2, 3, 4]);
    // What the pool holds is found, at its first occurrence and anywhere.
    assert_eq!(state.constant(&[1, 2, 3, 4]), 0);
    assert_eq!(state.constant(&[2, 3]), 1);
    assert_eq!(state.constant(&[4]), 3);
    assert_eq!(state.constants, vec![1, 2, 3, 4]);
    // What it does not hold is appended, whole.
    assert_eq!(state.constant(&[3, 4, 5]), 4);
    assert_eq!(state.constants, vec![1, 2, 3, 4, 3, 4, 5]);
    assert_eq!(state.constant(&[3, 4]), 2);
    assert_eq!(state.constant(&[3, 4, 5]), 4);
    assert_eq!(state.constant(&[1, 2, 3, 4, 3, 4, 5, 6]), 7);
    assert_eq!(state.constants.len(), 15);
    assert_eq!(state.constant(&[]), 0);
    assert_eq!(state.constants.len(), 15);
}

#[test]
fn encoder_state() {
    let mut state = State::new(CpuLevel::Simd128);
    assert_eq!(state.cpu_level, CpuLevel::Simd128);
    state.emit(&[1, 2, 3]);
    state.label(9);
    state.fixup(2, Fixup::J(9));
    state.emit(&[4]);
    state.label(8);
    state.fixup(0, Fixup::Const(5, 4));
    assert_eq!(state.code, vec![1, 2, 3, 4]);
    assert_eq!(state.labels, vec![(9, 3), (8, 4)]);
    assert_eq!(state.fixups, vec![(5, Fixup::J(9)), (4, Fixup::Const(5, 4))]);
    assert!(state.constants.is_empty());
}

#[test]
fn executables() {
    let prog = Executable::from_ir(&[
        Ins::Label(3),
        Ins::Ret,
        Ins::Label(4),
        Ins::Label(5),
        Ins::D(Type::U32, 0xdead_beef),
        Ins::Label(3),
    ])
    .unwrap();
    assert_eq!(prog.arch(), Arch::X86_64);
    assert_eq!(prog.len(), 5);
    assert_eq!(prog.to_bytes(), vec![0xc3, 0xef, 0xbe, 0xad, 0xde]);
    assert_eq!(prog.label_offset(3), Some(0));
    assert_eq!(prog.label_offset(4), Some(1));
    assert_eq!(prog.label_offset(5), Some(1));
    assert_eq!(prog.label_offset(6), None);
    // Words of four bytes; the byte that is left over is not shown.
    assert_eq!(prog.fmt_32(), "c3efbead");
    assert_eq!(
        prog.fmt_url(),
        "https://shell-storm.org/online/Online-Assembler-and-Disassembler/?opcodes=c3+ef+be+ad+de&arch=x86-64&endianness=little&baddr=0x00000000&dis_with_addr=True&dis_with_raw=True&dis_with_ins=True#disassembly"
    );
    let prog = Executable::from_ir_aarch64(&[Ins::Ret, Ins::Ret, Ins::D(Type::U16, 0x0102)]).unwrap();
    assert_eq!(prog.arch(), Arch::Aarch64);
    assert_eq!(prog.len(), 10);
    assert_eq!(prog.fmt_32(), "c0035fd6 c0035fd6");
    assert_eq!(
        prog.fmt_url(),
        "https://shell-storm.org/online/Online-Assembler-and-Disassembler/?opcodes=c0035fd6+c0035fd6&arch=arm64&endianness=little&baddr=0x00000000&dis_with_addr=True&dis_with_raw=True&dis_with_ins=True#disassembly"
    );
    let empty = Executable::from_ir(&[]).unwrap();
    assert_eq!(empty.len(), 0);
    assert_eq!(empty.fmt_32(), "");
    let data = Executable::from_ir_aarch64(&[
        Ins::D(Type::U32, 0xffa0_0f00),
        Ins::Label(1),
        Ins::D(Type::U8, 0x09),
    ])
    .unwrap();
    assert_eq!(data.fmt_32(), "000fa0ff");
    assert_eq!(data.to_bytes(), vec![0x00, 0x0f, 0xa0, 0xff, 0x09]);
    assert_eq!(data.label_offset(1), Some(4));
}

fn features(n: usize) -> CpuFeatures {
    // The first `n` features in the order of the levels.
    let has = |k: usize| k < n;
    CpuFeatures {
        sse: has(0),
        sse2: has(1),
        sse3: has(2),
        ssse3: has(3),
        sse4_1: has(4),
        sse4_2: has(5),
        sse4a: has(6),
        avx: has(7),
        avx2: has(8),
        bmi1: has(9),
        bmi2: has(10),
        f16c: has(11),
        fma: has(12),
        lzcnt: has(13),
        movbe: has(14),
        avx512f: has(15),
        avx512bw: has(16),
        avx512cd: has(17),
        avx512dq: has(18),
    }
}

#[test]
fn cpu_levels() {
    for n in 0..7 {
        assert_eq!(cpu_level(&features(n)), CpuLevel::Scalar);
    }
    for n in 7..15 {
        assert_eq!(cpu_level(&features(n)), CpuLevel::Simd128);
    }
    for n in 15..19 {
        assert_eq!(cpu_level(&features(n)), CpuLevel::Simd256);
    }
    assert_eq!(cpu_level(&features(19)), CpuLevel::Simd512);
    // A feature of a lower level that is missing holds the level down.
    let mut f = features(19);
    f.sse4a = false;
    assert_eq!(cpu_level(&f), CpuLevel::Scalar);
    let mut f = features(19);
    f.movbe = false;
    assert_eq!(cpu_level(&f), CpuLevel::Simd128);
    let mut f = features(19);
    f.avx512cd = false;
    assert_eq!(cpu_level(&f), CpuLevel::Simd256);
    assert_eq!(RAX, 0);
}
