//! Laws of the x86-64 backend that hold of every program.
use crate::bytes::{
    fits_i32,
    le_bytes,
    le_i32_value,
    lemma_le_bytes_len,
    lemma_le_i32_round_trip,
};
use crate::executable::{assembled, lemma_lookup_from, lookup, ExecutableView};
use crate::state::{Fixup, StateView};
use crate::error::Error;
use crate::executable::Executable;
use crate::ir::{CpuLevel, Ins, Src, R};
use crate::x86_64::encode::{arith_bytes, encode};
use crate::x86_64::assemble::{assemble, lemma_run_wf, run};
use crate::program::{declares, reference};
use crate::x86_64::layout::{
    fixups_before,
    lemma_fixup_origin,
    lemma_fixups_before_grows,
    lemma_label_offset,
    lemma_reference_fixup,
    lemma_run_prefix,
    offset_of,
};
use crate::x86_64::size::{bounded, lemma_run_bounded};
use crate::x86_64::resolve::{
    displacement,
    lemma_patch_len,
    lemma_resolve_len,
    lemma_resolved_site,
    patch_bytes,
    patch_skip,
    resolve,
    resolve_upto,
    site_len,
    wf,
};
use crate::x86_64::fields::{lemma_modrm_fields, lemma_rex_fields, modrm_byte};
use crate::x86_64::memory::{disp_bytes, disp_mode};
use crate::x86_64::scalar::{group_bytes, immediate_bytes, regreg_bytes, Alu, BinOp};
use crate::x86_64::vector::{vex2_byte, vex3_byte1, vex3_byte2};
use vstd::prelude::*;

verus! {

/// Assembling is deterministic: whatever two assemblies of the same program
/// under the same ceiling return, they return the same, byte for byte and
/// label for label, or the same error.
pub proof fn lemma_deterministic(
    ins: Seq<Ins>,
    level: CpuLevel,
    first: Result<Executable, Error>,
    second: Result<Executable, Error>,
)
    requires
        assembled(first, assemble(ins, level)),
        assembled(second, assemble(ins, level)),
    ensures
        match (first, second) {
            (Ok(a), Ok(b)) => a@.bytes == b@.bytes && a@.labels == b@.labels && a@ == b@,
            (Err(x), Err(y)) => x == y,
            _ => false,
        },
{
}

/// The registers of a register-to-register form stand at the same bits
/// whatever registers they are: the destination in bit 0 of the first byte
/// and bits 0 to 2 of the third, the source in bit 2 of the first byte and
/// bits 3 to 5 of the third.  All other bits are those of the operation.
pub proof fn lemma_regreg_fields(op: u8, dest: R, src: R)
    requires
        dest.is_x86(),
        src.is_x86(),
    ensures
        regreg_bytes(op, dest, src).len() == 3,
        (regreg_bytes(op, dest, src)[0] & 1) * 8 + (regreg_bytes(op, dest, src)[2] & 7) == dest.0,
        ((regreg_bytes(op, dest, src)[0] >> 2) & 1) * 8 + ((regreg_bytes(op, dest, src)[2] >> 3)
            & 7) == src.0,
        regreg_bytes(op, dest, src)[0] & 0xfa == 0x48,
        regreg_bytes(op, dest, src)[1] == op,
        regreg_bytes(op, dest, src)[2] & 0xc0 == 0xc0,
{
    lemma_rex_fields(1, src.to_x86_high(), 0, dest.to_x86_high());
    lemma_modrm_fields(3, src.to_x86_low(), dest.to_x86_low());
    let b0 = regreg_bytes(op, dest, src)[0];
    let b2 = regreg_bytes(op, dest, src)[2];
    assert(b0 & 0xfa == 0x48) by (bit_vector)
        requires
            b0 & 0xf0 == 0x40,
            (b0 >> 3) & 1 == 1,
            (b0 >> 1) & 1 == 0,
    ;
    assert(b2 & 0xc0 == 0xc0) by (bit_vector)
        requires
            b2 >> 6 == 3,
    ;
}

/// An operation of the arithmetic group on a register, with the register as
/// its destination and first operand.
pub open spec fn alu_ins(op: Alu, d: R, s: Src) -> Ins {
    match op {
        Alu::Add => Ins::Add(d, d, s),
        Alu::Or => Ins::Or(d, d, s),
        Alu::And => Ins::And(d, d, s),
        Alu::Sub => Ins::Sub(d, d, s),
        Alu::Xor => Ins::Xor(d, d, s),
        Alu::Cmp => Ins::Cmp(d, s),
    }
}

/// For a given operation of the arithmetic group, whatever the two
/// registers, the instruction is three bytes with the registers at the same
/// bits, and every other bit is that of the operation.
pub proof fn lemma_alu_register_fields(op: Alu, d: R, s: R, level: CpuLevel)
    requires
        d.is_x86(),
        s.is_x86(),
    ensures
        encode(alu_ins(op, d, Src::SR(s.0)), level) matches Ok(b) && b.len() == 3 && (b[0] & 1) * 8
            + (b[2] & 7) == d.0 && ((b[0] >> 2) & 1) * 8 + ((b[2] >> 3) & 7) == s.0 && b[0] & 0xfa
            == 0x48 && b[1] == 8 * op.digit() + 1 && b[2] & 0xc0 == 0xc0,
{
    reveal(arith_bytes);
    lemma_regreg_fields((8 * op.digit() + 1) as u8, d, s);
    let i = alu_ins(op, d, Src::SR(s.0));
    assert(encode(i, level).unwrap() =~= regreg_bytes((8 * op.digit() + 1) as u8, d, s));
}

/// The register of a form with the operation in the `reg` field stands at
/// the same bits whatever register it is: bit 0 of the first byte and bits 0
/// to 2 of the third.  All other bits are those of the operation.
pub proof fn lemma_group_fields(op: u8, digit: u8, rm: R)
    requires
        digit < 8,
        rm.is_x86(),
    ensures
        group_bytes(op, digit, rm).len() == 3,
        (group_bytes(op, digit, rm)[0] & 1) * 8 + (group_bytes(op, digit, rm)[2] & 7) == rm.0,
        group_bytes(op, digit, rm)[0] & 0xfe == 0x48,
        group_bytes(op, digit, rm)[1] == op,
        group_bytes(op, digit, rm)[2] & 0xf8 == modrm_byte(3, digit, 0),
{
    lemma_rex_fields(1, 0, 0, rm.to_x86_high());
    lemma_modrm_fields(3, digit, rm.to_x86_low());
    let b0 = group_bytes(op, digit, rm)[0];
    let b2 = group_bytes(op, digit, rm)[2];
    let lo = rm.to_x86_low();
    let m0 = modrm_byte(3, digit, 0);
    assert(b0 & 0xfe == 0x48) by (bit_vector)
        requires
            b0 & 0xf0 == 0x40,
            (b0 >> 3) & 1 == 1,
            (b0 >> 2) & 1 == 0,
            (b0 >> 1) & 1 == 0,
    ;
    assert(b2 & 0xf8 == m0) by (bit_vector)
        requires
            digit < 8,
            lo < 8,
            b2 == (3 * 0x40 + digit * 8 + lo) as u8,
            m0 == (3 * 0x40 + digit * 8 + 0) as u8,
    ;
}

/// The fields of a VEX prefix stand at the same bits whatever their values,
/// inverted where the encoding wants them so: the prefix can be taken apart
/// again.
pub proof fn lemma_vex_fields(r: u8, x: u8, b: u8, w: u8, m: u8, v: u8, l: u8, p: u8)
    requires
        r < 2,
        x < 2,
        b < 2,
        w < 2,
        m < 32,
        v < 16,
        l < 2,
        p < 4,
    ensures
        (vex2_byte(r, v, l, p) >> 7) == 1 - r,
        (vex2_byte(r, v, l, p) >> 3) & 15 == 15 - v,
        (vex2_byte(r, v, l, p) >> 2) & 1 == l,
        vex2_byte(r, v, l, p) & 3 == p,
        (vex3_byte1(r, x, b, m) >> 7) == 1 - r,
        (vex3_byte1(r, x, b, m) >> 6) & 1 == 1 - x,
        (vex3_byte1(r, x, b, m) >> 5) & 1 == 1 - b,
        vex3_byte1(r, x, b, m) & 31 == m,
        (vex3_byte2(w, v, l, p) >> 7) == w,
        (vex3_byte2(w, v, l, p) >> 3) & 15 == 15 - v,
        (vex3_byte2(w, v, l, p) >> 2) & 1 == l,
        vex3_byte2(w, v, l, p) & 3 == p,
{
    let a: u8 = ((1 - r) * 0x80 + (15 - v) * 8 + l * 4 + p) as u8;
    assert((a >> 7) == 1 - r && (a >> 3) & 15 == 15 - v && (a >> 2) & 1 == l && a & 3 == p)
        by (bit_vector)
        requires
            r < 2 && v < 16 && l < 2 && p < 4,
            a == ((1 - r) * 0x80 + (15 - v) * 8 + l * 4 + p) as u8,
    ;
    let c: u8 = ((1 - r) * 0x80 + (1 - x) * 0x40 + (1 - b) * 0x20 + m) as u8;
    assert((c >> 7) == 1 - r && (c >> 6) & 1 == 1 - x && (c >> 5) & 1 == 1 - b && c & 31 == m)
        by (bit_vector)
        requires
            r < 2 && x < 2 && b < 2 && m < 32,
            c == ((1 - r) * 0x80 + (1 - x) * 0x40 + (1 - b) * 0x20 + m) as u8,
    ;
    let d: u8 = (w * 0x80 + (15 - v) * 8 + l * 4 + p) as u8;
    assert((d >> 7) == w && (d >> 3) & 15 == 15 - v && (d >> 2) & 1 == l && d & 3 == p)
        by (bit_vector)
        requires
            w < 2 && v < 16 && l < 2 && p < 4,
            d == (w * 0x80 + (15 - v) * 8 + l * 4 + p) as u8,
    ;
}

/// An immediate takes the narrow form, with one byte, exactly if it is in
/// the range of a signed byte, from -128 to 127; any other immediate in the
/// signed 32 bit range takes the wide form, with four bytes; and no other
/// immediate can be encoded.
pub proof fn lemma_immediate_boundary(op: BinOp, dest: R, v: i64, i: Ins)
    ensures
        -128 <= v <= 127 ==> (immediate_bytes(op, dest, v, i) matches Ok(b) && b.len() == 4 && b[1]
            == (if op is Mul {
            0x6bu8
        } else {
            0x83u8
        })),
        (-0x8000_0000 <= v < -128 || 127 < v <= 0x7fff_ffff) ==> (immediate_bytes(
            op,
            dest,
            v,
            i,
        ) matches Ok(b) && b.len() == 7 && b[1] == (if op is Mul {
            0x69u8
        } else {
            0x81u8
        })),
        (v < -0x8000_0000 || 0x7fff_ffff < v) ==> immediate_bytes(op, dest, v, i) == Err::<
            Seq<u8>,
            Error,
        >(Error::InvalidImmediate(i)),
{
    lemma_le_bytes_len(v as int, 1);
    lemma_le_bytes_len(v as int, 4);
}

/// An operation of the arithmetic group with an immediate is an instruction
/// of four bytes, the last of them the immediate, exactly if the immediate is
/// from -128 to 127; of seven bytes, the last four of them the immediate, for
/// any other immediate in the signed 32 bit range; and cannot be assembled
/// for an immediate outside that range.
#[verifier::rlimit(30)]
pub proof fn lemma_alu_immediate_boundary(op: Alu, d: R, v: i64, level: CpuLevel)
    requires
        d.is_x86(),
    ensures
        ({
            let i = alu_ins(op, d, Src::Imm(v));
            if -128 <= v <= 127 {
                encode(i, level) matches Ok(b) && b.len() == 4 && b[1] == 0x83 && b.subrange(3, 4)
                    == le_bytes(v as int, 1)
            } else if -0x8000_0000 <= v <= 0x7fff_ffff {
                encode(i, level) matches Ok(b) && b.len() == 7 && b[1] == 0x81 && b.subrange(3, 7)
                    == le_bytes(v as int, 4)
            } else {
                encode(i, level) == Err::<Seq<u8>, Error>(Error::InvalidImmediate(i))
            }
        }),
{
    reveal(arith_bytes);
    lemma_le_bytes_len(v as int, 1);
    lemma_le_bytes_len(v as int, 4);
    let i = alu_ins(op, d, Src::Imm(v));
    if -128 <= v <= 127 {
        let b = encode(i, level).unwrap();
        assert(b =~= group_bytes(0x83, op.digit(), d) + le_bytes(v as int, 1));
        assert(b.subrange(3, 4) =~= le_bytes(v as int, 1));
    } else if -0x8000_0000 <= v <= 0x7fff_ffff {
        let b = encode(i, level).unwrap();
        assert(b =~= group_bytes(0x81, op.digit(), d) + le_bytes(v as int, 4));
        assert(b.subrange(3, 7) =~= le_bytes(v as int, 4));
    }
}

/// A displacement takes one byte exactly if it is in the range of a signed
/// byte and is not a zero that can be left out; any other takes four.
pub proof fn lemma_displacement_boundary(base: R, disp: i32)
    ensures
        disp_bytes(disp_mode(base, disp), disp).len() == (if disp == 0 && base.to_x86_low() != 5 {
            0int
        } else if -128 <= disp <= 127 {
            1int
        } else {
            4int
        }),
{
    lemma_le_bytes_len(disp as int, 1);
    lemma_le_bytes_len(disp as int, 4);
}

/// Where an instruction refers to a label, the final bytes hold what the
/// resolver wrote for the displacement to that label.
proof fn lemma_site_holds(ins: Seq<Ins>, level: CpuLevel, b: int)
    requires
        assemble(ins, level) is Ok,
        0 <= b < ins.len(),
        reference(ins[b]) is Some,
    ensures
        ({
            let s = run(level, ins).unwrap();
            let bytes = assemble(ins, level).unwrap().bytes;
            let f = reference(ins[b]).unwrap().1;
            let loc = offset_of(ins, level, b);
            &&& 0 <= loc <= usize::MAX
            &&& loc + site_len(f) <= bytes.len()
            &&& displacement(s.labels, s.code.len() as int, loc as usize, f) matches Some(d)
                && fits_i32(d) && bytes.subrange(loc + patch_skip(f), loc + site_len(f))
                == patch_bytes(f, d)
        }),
{
    let s = run(level, ins).unwrap();
    let f = reference(ins[b]).unwrap().1;
    let all = s.code + s.constants;
    let cbase = s.code.len() as int;
    lemma_run_wf(level, ins);
    lemma_reference_fixup(ins, level, b);
    lemma_run_prefix(ins, level, b + 1);
    assert(ins.take(b + 1).drop_last() =~= ins.take(b));
    assert(ins.take(b + 1).last() == ins[b]);
    let m = run(level, ins.take(b)).unwrap().fixups.len() as int;
    assert(s.fixups[m].0 + site_len(s.fixups[m].1) <= s.code.len());
    lemma_resolved_site(all, s.labels, cbase, s.fixups, s.fixups.len(), m);
    lemma_resolve_len(all, s.labels, cbase, s.fixups, s.fixups.len());
}

/// A reference to a label resolves to the label, wherever the label is
/// declared, before the reference or after it.
///
/// In the final bytes, the displacement of the referring instruction, which
/// is its last four bytes, leads from the end of that instruction to the
/// offset of the label's first declaration; and a branch has got its opcode.
#[verifier::rlimit(30)]
pub proof fn lemma_reference_resolves(ins: Seq<Ins>, level: CpuLevel, b: int, t: int)
    requires
        assemble(ins, level) is Ok,
        0 <= b < ins.len(),
        0 <= t < ins.len(),
        reference(ins[b]) matches Some(r) && ins[t] == Ins::Label(r.0),
        forall|j: int| 0 <= j < t ==> ins[j] != ins[t],
    ensures
        ({
            let bytes = assemble(ins, level).unwrap().bytes;
            let end = offset_of(ins, level, b) + site_len(reference(ins[b]).unwrap().1);
            &&& 5 <= end <= bytes.len()
            &&& end + le_i32_value(bytes.subrange(end - 4, end)) == offset_of(ins, level, t)
            &&& ins[b] matches Ins::B(c, _) ==> bytes[end - 6] == 0x0f && bytes[end - 5] == 0x80
                + c.cc()
            &&& ins[b] is J ==> bytes[end - 5] == 0xe9
        }),
{
    let s = run(level, ins).unwrap();
    let bytes = assemble(ins, level).unwrap().bytes;
    let (l, f) = reference(ins[b]).unwrap();
    let loc = offset_of(ins, level, b);
    lemma_site_holds(ins, level, b);
    lemma_label_offset(ins, level, l);
    let off = lookup(s.labels, l).unwrap();
    assert(off == offset_of(ins, level, t));
    let d = displacement(s.labels, s.code.len() as int, loc as usize, f).unwrap();
    lemma_le_i32_round_trip(d);
    lemma_patch_len(f, d);
    let end = loc + site_len(f);
    let written = bytes.subrange(loc + patch_skip(f), end);
    assert(written == patch_bytes(f, d));
    assert(bytes.subrange(end - 4, end) =~= written.subrange(
        written.len() - 4,
        written.len() as int,
    ));
    assert(written.subrange(written.len() - 4, written.len() as int) =~= le_bytes(d, 4));
    match ins[b] {
        Ins::B(c, _) => {
            assert(bytes[end - 6] == written[0]);
            assert(bytes[end - 5] == written[1]);
        },
        Ins::J(_) => {
            assert(bytes[end - 5] == written[0]);
        },
        _ => {},
    }
}

/// A displacement always fits its four bytes: the code and the constant pool
/// of an assembly cannot grow beyond what 32 bits reach.
pub proof fn lemma_displacement_fits(s: StateView, m: int)
    requires
        wf(s),
        bounded(s),
        0 <= m < s.fixups.len(),
    ensures
        displacement(s.labels, s.code.len() as int, s.fixups[m].0, s.fixups[m].1) matches Some(d)
            ==> fits_i32(d),
{
    let (loc, f) = s.fixups[m];
    assert(s.fixups[m].0 + site_len(s.fixups[m].1) <= s.code.len());
    match f {
        Fixup::Adr(_, l) => lemma_label_inside(s, l),
        Fixup::B(_, l) => lemma_label_inside(s, l),
        Fixup::J(l) => lemma_label_inside(s, l),
        Fixup::Const(pos, delta) => {},
    }
}

/// A label points inside the code or to its end.
proof fn lemma_label_inside(s: StateView, l: u32)
    requires
        wf(s),
    ensures
        lookup(s.labels, l) matches Some(off) ==> off <= s.code.len(),
{
    lemma_lookup_from(s.labels, l, 0);
    if lookup(s.labels, l) is Some {
        let off = lookup(s.labels, l).unwrap();
        let k = choose|k: int|
            0 <= k < s.labels.len() && s.labels[k] == (l, off) && forall|j: int|
                0 <= j < k ==> s.labels[j].0 != l;
        assert(s.labels[k].1 <= s.code.len());
    }
}

/// The resolver fails on nothing but a reference to a label that is not
/// declared, and then with the missing-label error for that label.
pub proof fn lemma_resolve_error(s: StateView, n: nat)
    requires
        wf(s),
        bounded(s),
        n <= s.fixups.len(),
        resolve_upto(s.code + s.constants, s.labels, s.code.len() as int, s.fixups, n) is Err,
    ensures
        resolve_upto(
            s.code + s.constants,
            s.labels,
            s.code.len() as int,
            s.fixups,
            n,
        ) matches Err(Error::MissingLabel(l)) && lookup(s.labels, l) is None,
    decreases n,
{
    let all = s.code + s.constants;
    let cbase = s.code.len() as int;
    if n > 0 {
        if resolve_upto(all, s.labels, cbase, s.fixups, (n - 1) as nat) is Err {
            lemma_resolve_error(s, (n - 1) as nat);
        } else {
            lemma_displacement_fits(s, n - 1);
        }
    }
}

/// A reference to a label that the program never declares makes the assembly
/// fail: a program whose instructions can all be encoded, and which refers
/// to such a label, gives no executable but the missing-label error for a
/// label that it does not declare.
pub proof fn lemma_missing_label(ins: Seq<Ins>, level: CpuLevel, b: int)
    requires
        run(level, ins) is Ok,
        0 <= b < ins.len(),
        reference(ins[b]) matches Some(r) && !declares(ins, r.0),
    ensures
        assemble(ins, level) matches Err(Error::MissingLabel(l)) && !declares(ins, l),
{
    let s = run(level, ins).unwrap();
    let (l, f) = reference(ins[b]).unwrap();
    lemma_run_wf(level, ins);
    lemma_run_bounded(level, ins);
    if resolve(s) is Ok {
        lemma_site_holds(ins, level, b);
        lemma_label_offset(ins, level, l);
        assert(false);
    }
    lemma_resolve_error(s, s.fixups.len());
    let m = resolve(s)->Err_0->MissingLabel_0;
    lemma_label_offset(ins, level, m);
}

/// A program that declares every label to which it refers, and whose
/// instructions can all be encoded, assembles.
pub proof fn lemma_declared_labels_resolve(ins: Seq<Ins>, level: CpuLevel)
    requires
        run(level, ins) is Ok,
        forall|b: int|
            0 <= b < ins.len() ==> (reference(#[trigger] ins[b]) matches Some(r) ==> declares(
                ins,
                r.0,
            )),
    ensures
        assemble(ins, level) is Ok,
{
    let s = run(level, ins).unwrap();
    lemma_run_wf(level, ins);
    lemma_run_bounded(level, ins);
    if resolve(s) is Err {
        lemma_resolve_error(s, s.fixups.len());
        let l = resolve(s)->Err_0->MissingLabel_0;
        lemma_label_offset(ins, level, l);
        lemma_missing_origin(ins, level, s.fixups.len(), l);
    }
}

/// A label that the resolver misses is referred to by an instruction.
proof fn lemma_missing_origin(ins: Seq<Ins>, level: CpuLevel, n: nat, l: u32)
    requires
        run(level, ins) is Ok,
        n <= run(level, ins).unwrap().fixups.len(),
        resolve_upto(
            run(level, ins).unwrap().code + run(level, ins).unwrap().constants,
            run(level, ins).unwrap().labels,
            run(level, ins).unwrap().code.len() as int,
            run(level, ins).unwrap().fixups,
            n,
        ) == Err::<Seq<u8>, Error>(Error::MissingLabel(l)),
    ensures
        exists|b: int|
            0 <= b < ins.len() && #[trigger] fixups_before(ins, level, b) < n && (reference(
                ins[b],
            ) matches Some(r) && r.0 == l),
    decreases n,
{
    let s = run(level, ins).unwrap();
    let all = s.code + s.constants;
    let cbase = s.code.len() as int;
    if n > 0 {
        if resolve_upto(all, s.labels, cbase, s.fixups, (n - 1) as nat) is Err {
            lemma_missing_origin(ins, level, (n - 1) as nat, l);
        } else {
            lemma_fixup_origin(ins, level, n - 1);
        }
    }
}

/// The missing-label error is that of the first reference, in the order of
/// the program, to a label that the program never declares.
pub proof fn lemma_first_missing_label(ins: Seq<Ins>, level: CpuLevel, b: int)
    requires
        run(level, ins) is Ok,
        0 <= b < ins.len(),
        reference(ins[b]) matches Some(r) && !declares(ins, r.0),
        forall|j: int|
            0 <= j < b ==> (reference(#[trigger] ins[j]) matches Some(r) ==> declares(ins, r.0)),
    ensures
        assemble(ins, level) == Err::<ExecutableView, Error>(
            Error::MissingLabel(reference(ins[b]).unwrap().0),
        ),
{
    let s = run(level, ins).unwrap();
    lemma_reference_fixup(ins, level, b);
    lemma_first_failure(ins, level, b, s.fixups.len());
}

/// The resolver gets as far as the fixup of the first reference to a label
/// that is not declared, and fails there.
proof fn lemma_first_failure(ins: Seq<Ins>, level: CpuLevel, b: int, n: nat)
    requires
        run(level, ins) is Ok,
        0 <= b < ins.len(),
        reference(ins[b]) matches Some(r) && !declares(ins, r.0),
        forall|j: int|
            0 <= j < b ==> (reference(#[trigger] ins[j]) matches Some(r) ==> declares(ins, r.0)),
        n <= run(level, ins).unwrap().fixups.len(),
    ensures
        ({
            let s = run(level, ins).unwrap();
            let r = resolve_upto(s.code + s.constants, s.labels, s.code.len() as int, s.fixups, n);
            if n <= fixups_before(ins, level, b) {
                r is Ok
            } else {
                r == Err::<Seq<u8>, Error>(Error::MissingLabel(reference(ins[b]).unwrap().0))
            }
        }),
    decreases n,
{
    let s = run(level, ins).unwrap();
    let all = s.code + s.constants;
    let cbase = s.code.len() as int;
    let mb = fixups_before(ins, level, b);
    lemma_run_wf(level, ins);
    lemma_run_bounded(level, ins);
    lemma_reference_fixup(ins, level, b);
    if n > 0 {
        lemma_first_failure(ins, level, b, (n - 1) as nat);
        if n - 1 < mb {
            // An earlier fixup: its label is declared, and it is in reach.
            lemma_fixup_origin(ins, level, n - 1);
            let j = choose|j: int|
                0 <= j < ins.len() && #[trigger] fixups_before(ins, level, j) <= n - 1 && (
                s.fixups[n - 1].1 is Const || (reference(ins[j]) matches Some(r) && r.1
                    == s.fixups[n - 1].1 && fixups_before(ins, level, j) == n - 1));
            if j >= b {
                lemma_fixups_before_grows(ins, level, b, j);
            }
            if !(s.fixups[n - 1].1 is Const) {
                lemma_label_offset(ins, level, reference(ins[j]).unwrap().0);
            }
            lemma_displacement_fits(s, n - 1);
        } else if n - 1 == mb {
            lemma_label_offset(ins, level, reference(ins[b]).unwrap().0);
        }
    }
}

} // verus!
