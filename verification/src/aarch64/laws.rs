//! Laws of the AArch64 backend that hold of every program.
use crate::aarch64::assemble::{assemble, lemma_run_wf, run};
use crate::aarch64::encode::{encode, regs_ok, step, three_reg, three_reg_op, word};
use crate::aarch64::layout::{
    fixups_before,
    lemma_label_offset,
    lemma_reference_fixup,
    lemma_run_prefix,
    offset_of,
};
use crate::aarch64::resolve::{
    lemma_resolve_err,
    lemma_resolve_len,
    lemma_resolved_site,
    resolve_upto,
    resolve_word,
    word_field,
};
use crate::bytes::{le_u32_value, lemma_le_u32_round_trip};
use crate::error::Error;
use crate::executable::{
    assembled,
    lemma_lookup_from,
    lookup,
    Arch,
    Executable,
    ExecutableView,
};
use crate::ir::{CpuLevel, Ins, Src, R};
use crate::program::{declares, reference};
use crate::state::{Fixup, StateView};
use vstd::prelude::*;

verus! {

/// Assembling is deterministic: whatever two assemblies of the same program
/// return, they return the same, byte for byte and label for label, or the
/// same error.
pub proof fn lemma_deterministic(
    ins: Seq<Ins>,
    first: Result<Executable, Error>,
    second: Result<Executable, Error>,
)
    requires
        assembled(first, assemble(ins)),
        assembled(second, assemble(ins)),
    ensures
        match (first, second) {
            (Ok(a), Ok(b)) => a@.bytes == b@.bytes && a@.labels == b@.labels && a@ == b@,
            (Err(x), Err(y)) => x == y,
            _ => false,
        },
{
}

/// The registers of an operation between three registers stand at the same
/// bits whatever registers they are: the destination in bits 0 to 4, the
/// first source in bits 5 to 9, the second in bits 16 to 20.  All other bits
/// are those of the operation.
pub proof fn lemma_three_reg_fields(op: u32, d: R, n: R, m: R)
    requires
        op & 0x001f_03ff == 0,
        d.is_aarch64(),
        n.is_aarch64(),
        m.is_aarch64(),
    ensures
        three_reg(op, d, n, m) & 0x1f == d.0,
        (three_reg(op, d, n, m) >> 5) & 0x1f == n.0,
        (three_reg(op, d, n, m) >> 16) & 0x1f == m.0,
        three_reg(op, d, n, m) & 0xffe0_fc00 == op,
{
    let a = d.to_aarch64();
    let b = n.to_aarch64();
    let c = m.to_aarch64();
    let w = op | a | b << 5 | c << 16;
    assert(w & 0x1f == a && (w >> 5) & 0x1f == b && (w >> 16) & 0x1f == c && w & 0xffe0_fc00 == op)
        by (bit_vector)
        requires
            op & 0x001f_03ff == 0,
            a < 32,
            b < 32,
            c < 32,
            w == op | a | b << 5 | c << 16,
    ;
}

/// The three registers of an operation between three registers.
pub open spec fn three_registers(i: Ins) -> Option<(R, R, R)> {
    match i {
        Ins::Add(d, n, Src::SR(m))
        | Ins::Sub(d, n, Src::SR(m))
        | Ins::And(d, n, Src::SR(m))
        | Ins::Or(d, n, Src::SR(m))
        | Ins::Xor(d, n, Src::SR(m))
        | Ins::Mul(d, n, Src::SR(m))
        | Ins::UDiv(d, n, Src::SR(m))
        | Ins::SDiv(d, n, Src::SR(m))
        | Ins::Shl(d, n, Src::SR(m))
        | Ins::Shr(d, n, Src::SR(m))
        | Ins::Sar(d, n, Src::SR(m)) => Some((d, n, R(m))),
        _ => None,
    }
}

/// For a given operation between three registers, whatever the registers,
/// the instruction is one word with the registers at the same bits, and
/// every other bit is that of the operation.
pub proof fn lemma_operation_register_fields(i: Ins)
    requires
        three_registers(i) is Some,
        regs_ok(i),
    ensures
        ({
            let (d, n, m) = three_registers(i).unwrap();
            let w = three_reg(three_reg_op(i), d, n, m);
            &&& encode(i) == Ok::<Seq<u8>, Error>(word(w))
            &&& w & 0x1f == d.0
            &&& (w >> 5) & 0x1f == n.0
            &&& (w >> 16) & 0x1f == m.0
            &&& w & 0xffe0_fc00 == three_reg_op(i)
        }),
{
    let (d, n, m) = three_registers(i).unwrap();
    let op = three_reg_op(i);
    assert(op & 0x001f_03ff == 0) by (bit_vector)
        requires
            op == 0xab00_0000 || op == 0xeb00_0000 || op == 0x8a00_0000 || op == 0xaa00_0000 || op
                == 0xca00_0000 || op == 0x9b00_7c00 || op == 0x9ac0_0800 || op == 0x9ac0_0c00 || op
                == 0x9ac0_2000 || op == 0x9ac0_2400 || op == 0x9ac0_2800,
    ;
    lemma_three_reg_fields(op, d, n, m);
}

/// A program of one operation between three registers assembles to one
/// word, with the registers at the same bits whatever they are, and every
/// other bit that of the operation.
pub proof fn lemma_single_operation(i: Ins)
    requires
        three_registers(i) is Some,
        regs_ok(i),
    ensures
        ({
            let (d, n, m) = three_registers(i).unwrap();
            let w = three_reg(three_reg_op(i), d, n, m);
            &&& assemble(seq![i]) == Ok::<ExecutableView, Error>(
                ExecutableView { arch: Arch::Aarch64, bytes: word(w), labels: Seq::empty() },
            )
            &&& word(w).len() == 4
            &&& le_u32_value(word(w)) == w
            &&& w & 0x1f == d.0
            &&& (w >> 5) & 0x1f == n.0
            &&& (w >> 16) & 0x1f == m.0
            &&& w & 0xffe0_fc00 == three_reg_op(i)
        }),
{
    let (d, n, m) = three_registers(i).unwrap();
    let w = three_reg(three_reg_op(i), d, n, m);
    lemma_operation_register_fields(i);
    lemma_le_u32_round_trip(w as int);
    let ins = seq![i];
    assert(ins.drop_last() =~= Seq::<Ins>::empty());
    assert(ins.last() == i);
    let s0 = StateView::start(CpuLevel::Scalar);
    assert(run(ins.drop_last()) == Ok::<StateView, Error>(s0));
    assert(run(ins) == step(s0, i));
    let s = run(ins).unwrap();
    assert(s.code =~= word(w));
    assert(s.fixups =~= Seq::<(usize, Fixup)>::empty());
    assert(s.labels =~= Seq::<(u32, usize)>::empty());
}

/// A field of a word read as a number in two's complement, where `modulus`
/// is two to the number of its bits.
pub open spec fn signed_field(x: int, modulus: int) -> int {
    if 2 * x >= modulus {
        x - modulus
    } else {
        x
    }
}

/// The displacement in bytes that a word which refers to a label holds:
/// twenty-one bits in `adr`, nineteen bits of words in a conditional branch,
/// twenty-six bits of words in an unconditional one.
pub open spec fn reference_delta(f: Fixup, w: u32) -> int {
    match f {
        Fixup::Adr(_, _) => signed_field(
            ((w >> 5) & 0x7_ffff) * 4 + ((w >> 29) & 3),
            0x20_0000,
        ),
        Fixup::B(_, _) => 4 * signed_field(((w >> 5) & 0x7_ffff) as int, 0x8_0000),
        Fixup::J(_) => 4 * signed_field((w & 0x3ff_ffff) as int, 0x400_0000),
        Fixup::Const(_, _) => 0,
    }
}

/// The word that the resolver makes for a displacement holds that
/// displacement.
pub proof fn lemma_resolve_word_delta(f: Fixup, delta: int)
    requires
        resolve_word(f, delta) is Ok,
        f matches Fixup::Adr(d, _) ==> d.is_aarch64(),
    ensures
        reference_delta(f, resolve_word(f, delta).unwrap()) == delta,
{
    let w = resolve_word(f, delta).unwrap();
    match f {
        Fixup::Adr(d, _) => {
            let lo = (delta % 4) as u32;
            let hi = word_field(delta, 19);
            let r = d.to_aarch64();
            assert((w >> 5) & 0x7_ffff == hi && (w >> 29) & 3 == lo) by (bit_vector)
                requires
                    lo < 4,
                    hi < 0x8_0000,
                    r < 32,
                    w == 0x1000_0000u32 | lo << 29 | hi << 5 | r,
            ;
        },
        Fixup::B(c, _) => {
            let hi = word_field(delta, 19);
            let cc = c.a64();
            assert((w >> 5) & 0x7_ffff == hi) by (bit_vector)
                requires
                    hi < 0x8_0000,
                    cc < 16,
                    w == 0x5400_0000u32 | cc | hi << 5,
            ;
        },
        Fixup::J(_) => {
            let hi = word_field(delta, 26);
            assert(w & 0x3ff_ffff == hi) by (bit_vector)
                requires
                    hi < 0x400_0000,
                    w == 0x1400_0000u32 | hi,
            ;
        },
        Fixup::Const(_, _) => {},
    }
}

/// A reference to a label resolves to the label, wherever the label is
/// declared, before the reference or after it.
///
/// In the final bytes, the word of the referring instruction holds the
/// displacement that leads from that instruction to the offset of the
/// label's first declaration.
pub proof fn lemma_reference_resolves(ins: Seq<Ins>, b: int, t: int)
    requires
        assemble(ins) is Ok,
        0 <= b < ins.len(),
        0 <= t < ins.len(),
        reference(ins[b]) matches Some(r) && ins[t] == Ins::Label(r.0),
        forall|j: int| 0 <= j < t ==> ins[j] != ins[t],
    ensures
        ({
            let bytes = assemble(ins).unwrap().bytes;
            let site = offset_of(ins, b);
            let w = le_u32_value(bytes.subrange(site, site + 4));
            &&& 0 <= site && site + 4 <= bytes.len()
            &&& 0 <= w <= u32::MAX
            &&& site + reference_delta(reference(ins[b]).unwrap().1, w as u32) == offset_of(ins, t)
        }),
{
    let s = run(ins).unwrap();
    let bytes = assemble(ins).unwrap().bytes;
    let (l, f) = reference(ins[b]).unwrap();
    lemma_run_wf(ins);
    lemma_reference_fixup(ins, b);
    lemma_run_prefix(ins, b + 1);
    assert(ins.take(b + 1).drop_last() =~= ins.take(b));
    assert(ins.take(b + 1).last() == ins[b]);
    let m = run(ins.take(b)).unwrap().fixups.len() as int;
    let loc = s.fixups[m].0;
    assert(loc == offset_of(ins, b));
    assert(s.fixups[m].0 + 4 <= s.code.len());
    lemma_resolved_site(s.code, s.labels, s.fixups, s.fixups.len(), m);
    lemma_resolve_len(s.code, s.labels, s.fixups, s.fixups.len());
    lemma_label_offset(ins, l);
    let off = lookup(s.labels, l).unwrap();
    assert(off == offset_of(ins, t));
    let w = resolve_word(f, off - loc).unwrap();
    lemma_le_u32_round_trip(w as int);
    assert(regs_ok(ins[b]));
    lemma_resolve_word_delta(f, off - loc);
}

/// A reference to a label that the program never declares makes the assembly
/// fail: a program that refers to such a label gives no executable.
pub proof fn lemma_missing_label(ins: Seq<Ins>, b: int)
    requires
        0 <= b < ins.len(),
        reference(ins[b]) matches Some(r) && !declares(ins, r.0),
    ensures
        assemble(ins) is Err,
{
    if assemble(ins) is Ok {
        let s = run(ins).unwrap();
        let (l, f) = reference(ins[b]).unwrap();
        lemma_run_wf(ins);
        lemma_reference_fixup(ins, b);
        let m = run(ins.take(b)).unwrap().fixups.len() as int;
        assert(s.fixups[m].0 + 4 <= s.code.len());
        lemma_resolved_site(s.code, s.labels, s.fixups, s.fixups.len(), m);
        lemma_label_offset(ins, l);
    }
}

/// Unless a reference before it cannot be resolved, a reference to a label
/// that the program never declares fails the assembly with the missing-label
/// error for that label.
pub proof fn lemma_first_missing_label(ins: Seq<Ins>, b: int)
    requires
        run(ins) is Ok,
        0 <= b < ins.len(),
        reference(ins[b]) matches Some(r) && !declares(ins, r.0),
        resolve_upto(
            run(ins).unwrap().code,
            run(ins).unwrap().labels,
            run(ins).unwrap().fixups,
            fixups_before(ins, b) as nat,
        ) is Ok,
    ensures
        assemble(ins) == Err::<ExecutableView, Error>(
            Error::MissingLabel(reference(ins[b]).unwrap().0),
        ),
{
    let s = run(ins).unwrap();
    let l = reference(ins[b]).unwrap().0;
    let m = fixups_before(ins, b);
    lemma_reference_fixup(ins, b);
    lemma_label_offset(ins, l);
    assert(resolve_upto(s.code, s.labels, s.fixups, (m + 1) as nat) == Err::<Seq<u8>, Error>(
        Error::MissingLabel(l),
    ));
    lemma_resolve_err(s.code, s.labels, s.fixups, (m + 1) as nat, s.fixups.len());
}

/// The missing-label error is never for a label that the program declares.
pub proof fn lemma_missing_is_undeclared(ins: Seq<Ins>, n: nat)
    requires
        run(ins) is Ok,
        n <= run(ins).unwrap().fixups.len(),
    ensures
        resolve_upto(
            run(ins).unwrap().code,
            run(ins).unwrap().labels,
            run(ins).unwrap().fixups,
            n,
        ) matches Err(Error::MissingLabel(l)) ==> !declares(ins, l),
    decreases n,
{
    let s = run(ins).unwrap();
    if n > 0 {
        lemma_missing_is_undeclared(ins, (n - 1) as nat);
        if resolve_upto(s.code, s.labels, s.fixups, (n - 1) as nat) is Ok {
            match resolve_upto(s.code, s.labels, s.fixups, n) {
                Err(Error::MissingLabel(l)) => {
                    lemma_label_offset(ins, l);
                },
                _ => {},
            }
        }
    }
}

/// Every label of an executable points inside its code or to its end: an
/// executable can be entered at any of its labels but one at the very end.
pub proof fn lemma_labels_inside(ins: Seq<Ins>, l: u32)
    requires
        assemble(ins) is Ok,
    ensures
        lookup(assemble(ins).unwrap().labels, l) matches Some(off) ==> off <= assemble(
            ins,
        ).unwrap().bytes.len(),
{
    let s = run(ins).unwrap();
    lemma_run_wf(ins);
    lemma_resolve_len(s.code, s.labels, s.fixups, s.fixups.len());
    lemma_lookup_from(s.labels, l, 0);
    if lookup(s.labels, l) is Some {
        let off = lookup(s.labels, l).unwrap();
        let k = choose|k: int|
            0 <= k < s.labels.len() && s.labels[k] == (l, off) && forall|j: int|
                0 <= j < k ==> s.labels[j].0 != l;
        assert(s.labels[k].1 <= s.code.len());
    }
}

} // verus!
