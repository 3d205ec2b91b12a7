//! How the state of an assembly follows the program: where each instruction
//! starts, where each label points, and which fixup each reference leaves.
use crate::executable::lookup;
use crate::program::{
    declares,
    is_prefix,
    lemma_lookup_prefix,
    lemma_lookup_push,
    reference,
};
use crate::ir::Ins;
use crate::state::StateView;
use crate::aarch64::assemble::{lemma_run_err, run};
use crate::aarch64::encode::{encode, record, step};
use vstd::prelude::*;

verus! {

/// The offset in the code at which instruction `k` of a program starts.
pub open spec fn offset_of(ins: Seq<Ins>, k: int) -> int {
    run(ins.take(k)).unwrap().code.len() as int
}

/// A program whose instructions can all be assembled is one whose every
/// beginning can be.
pub proof fn lemma_run_prefix(ins: Seq<Ins>, k: int)
    requires
        run(ins) is Ok,
        0 <= k <= ins.len(),
    ensures
        run(ins.take(k)) is Ok,
{
    if run(ins.take(k)) is Err {
        lemma_run_err(ins, k);
    }
}

/// An instruction only adds to the code, the labels and the fixups.
pub proof fn lemma_step_grows(s: StateView, i: Ins)
    requires
        step(s, i) is Ok,
    ensures
        is_prefix(s.code, step(s, i).unwrap().code),
        is_prefix(s.labels, step(s, i).unwrap().labels),
        is_prefix(s.fixups, step(s, i).unwrap().fixups),
{
    let t = step(s, i).unwrap();
    let b = encode(i).unwrap();
    let r = record(s, i);
    assert(r.code == s.code);
    assert(t.code.subrange(0, s.code.len() as int) =~= s.code);
    assert(t.labels.subrange(0, s.labels.len() as int) =~= s.labels);
    assert(t.fixups.subrange(0, s.fixups.len() as int) =~= s.fixups);
}

/// The state after a beginning of a program is a beginning of the state
/// after the program.
#[verifier::rlimit(30)]
pub proof fn lemma_run_grows(ins: Seq<Ins>, k: int)
    requires
        run(ins) is Ok,
        0 <= k <= ins.len(),
    ensures
        run(ins.take(k)) is Ok,
        is_prefix(run(ins.take(k)).unwrap().code, run(ins).unwrap().code),
        is_prefix(run(ins.take(k)).unwrap().labels, run(ins).unwrap().labels),
        is_prefix(run(ins.take(k)).unwrap().fixups, run(ins).unwrap().fixups),
    decreases ins.len() - k,
{
    lemma_run_prefix(ins, k);
    let s = run(ins).unwrap();
    if k == ins.len() {
        assert(ins.take(k) =~= ins);
        assert(s.code.subrange(0, s.code.len() as int) =~= s.code);
        assert(s.labels.subrange(0, s.labels.len() as int) =~= s.labels);
        assert(s.fixups.subrange(0, s.fixups.len() as int) =~= s.fixups);
    } else {
        lemma_run_grows(ins, k + 1);
        let a = run(ins.take(k)).unwrap();
        let b = run(ins.take(k + 1)).unwrap();
        assert(ins.take(k + 1).drop_last() =~= ins.take(k));
        assert(ins.take(k + 1).last() == ins[k]);
        lemma_step_grows(a, ins[k]);
        assert(s.code.subrange(0, a.code.len() as int) =~= b.code.subrange(
            0,
            a.code.len() as int,
        ));
        assert(s.labels.subrange(0, a.labels.len() as int) =~= b.labels.subrange(
            0,
            a.labels.len() as int,
        ));
        assert(s.fixups.subrange(0, a.fixups.len() as int) =~= b.fixups.subrange(
            0,
            a.fixups.len() as int,
        ));
    }
}

/// A label points to where the instruction after its first declaration
/// starts, and a label that the program does not declare points nowhere.
pub proof fn lemma_label_offset(ins: Seq<Ins>, l: u32)
    requires
        run(ins) is Ok,
    ensures
        match lookup(run(ins).unwrap().labels, l) {
            Some(off) => exists|t: int|
                0 <= t < ins.len() && ins[t] == Ins::Label(l) && off == offset_of(ins, t)
                    && forall|j: int| 0 <= j < t ==> ins[j] != Ins::Label(l),
            None => !declares(ins, l),
        },
    decreases ins.len(),
{
    if ins.len() > 0 {
        let init = ins.drop_last();
        let last = ins.last();
        let a = run(init).unwrap();
        let s = run(ins).unwrap();
        lemma_label_offset(init, l);
        lemma_step_grows(a, last);
        match lookup(a.labels, l) {
            Some(off) => {
                lemma_lookup_prefix(a.labels, s.labels, l, 0);
                let t = choose|t: int|
                    0 <= t < init.len() && init[t] == Ins::Label(l) && off == offset_of(init, t) && forall|j: int| 0 <= j < t ==> init[j] != Ins::Label(l);
                assert(init.take(t) =~= ins.take(t));
                assert(ins[t] == init[t]);
                assert forall|j: int| 0 <= j < t implies ins[j] != Ins::Label(l) by {
                    assert(ins[j] == init[j]);
                }
            },
            None => {
                assert forall|j: int| 0 <= j < init.len() implies ins[j] != Ins::Label(l) by {
                    assert(ins[j] == init[j]);
                }
                match last {
                    Ins::Label(m) => {
                        lemma_lookup_push(a.labels, (m, a.code.len() as usize), l, 0);
                        if m == l {
                            let t = ins.len() - 1;
                            assert(ins.take(t) =~= init);
                            assert(ins[t] == Ins::Label(l));
                        }
                    },
                    _ => {
                        assert(s.labels == a.labels);
                    },
                }
            },
        }
    } else {
        assert(lookup(run(ins).unwrap().labels, l) is None);
    }
}

/// An instruction that refers to a label leaves its fixup, with the offset
/// at which the instruction starts, behind the fixups of the instructions
/// before it.
pub proof fn lemma_reference_fixup(ins: Seq<Ins>, b: int)
    requires
        run(ins) is Ok,
        0 <= b < ins.len(),
        reference(ins[b]) is Some,
    ensures
        run(ins.take(b)) is Ok,
        run(ins.take(b)).unwrap().fixups.len() < run(ins).unwrap().fixups.len(),
        run(ins).unwrap().fixups[run(ins.take(b)).unwrap().fixups.len() as int] == (
            offset_of(ins, b) as usize,
            reference(ins[b]).unwrap().1,
        ),
{
    lemma_run_grows(ins, b);
    lemma_run_grows(ins, b + 1);
    let a = run(ins.take(b)).unwrap();
    let c = run(ins.take(b + 1)).unwrap();
    let s = run(ins).unwrap();
    assert(ins.take(b + 1).drop_last() =~= ins.take(b));
    assert(ins.take(b + 1).last() == ins[b]);
    let m = a.fixups.len() as int;
    assert(c.fixups.len() == m + 1);
    assert(s.fixups.subrange(0, c.fixups.len() as int)[m] == s.fixups[m]);
}

/// The number of fixups that the instructions before instruction `k` leave.
pub open spec fn fixups_before(ins: Seq<Ins>, k: int) -> int {
    run(ins.take(k)).unwrap().fixups.len() as int
}

} // verus!
