//! The entry point of the AArch64 backend.
use crate::aarch64::encode::{encode, gen_ins, record, step, MAX_CODE};
use crate::aarch64::resolve::{lemma_resolve_len, resolve, resolve_all, wf};
use crate::bytes::lemma_le_bytes_len;
use crate::error::Error;
use crate::executable::{assembled, Arch, Executable, ExecutableView};
use crate::ir::{CpuLevel, Ins};
use crate::state::{State, StateView};
use vstd::prelude::*;

verus! {

/// The state after a sequence of instructions, or the error of the first
/// instruction that cannot be assembled.
pub open spec fn run(ins: Seq<Ins>) -> Result<StateView, Error>
    decreases ins.len(),
{
    if ins.len() == 0 {
        Ok(StateView::start(CpuLevel::Scalar))
    } else {
        match run(ins.drop_last()) {
            Err(e) => Err(e),
            Ok(s) => step(s, ins.last()),
        }
    }
}

/// What a program assembles to: the final bytes and the label table, or the
/// first error.
///
/// The instructions are encoded in order, then the fixups are resolved in
/// the order in which they were recorded.
pub open spec fn assemble(ins: Seq<Ins>) -> Result<ExecutableView, Error> {
    match run(ins) {
        Err(e) => Err(e),
        Ok(s) => match resolve(s) {
            Err(e) => Err(e),
            Ok(bytes) => Ok(ExecutableView { arch: Arch::Aarch64, bytes, labels: s.labels }),
        },
    }
}

/// Once an instruction cannot be assembled, the error stays.
pub proof fn lemma_run_err(ins: Seq<Ins>, n: int)
    requires
        0 <= n <= ins.len(),
        run(ins.take(n)) is Err,
    ensures
        run(ins) == run(ins.take(n)),
    decreases ins.len() - n,
{
    if n < ins.len() {
        assert(ins.take(n + 1).drop_last() =~= ins.take(n));
        lemma_run_err(ins, n + 1);
    } else {
        assert(ins.take(n) =~= ins);
    }
}

/// An instruction that refers to a label is one word.
pub proof fn lemma_encode_site(i: Ins)
    requires
        encode(i) is Ok,
        i is Addr || i is B || i is J,
    ensures
        encode(i).unwrap().len() == 4,
{
    lemma_le_bytes_len(0x1000_0000, 4);
    lemma_le_bytes_len(0x1400_0000, 4);
}

/// Recording an instruction and appending its bytes leaves the state in a
/// form on which the resolver can work.
pub proof fn lemma_record_wf(s: StateView, i: Ins, b: Seq<u8>)
    requires
        wf(s),
        s.code.len() <= MAX_CODE,
        i is Addr || i is B || i is J ==> b.len() >= 4,
    ensures
        wf(record(s, i).emit(b)),
{
    let r = record(s, i);
    let t = r.emit(b);
    assert(r.code == s.code);
    assert(t.code.len() == s.code.len() + b.len());
    match i {
        Ins::Label(l) => {
            assert(t.fixups == s.fixups);
        },
        Ins::Addr(d, l) => {
            assert(t.labels == s.labels);
        },
        Ins::B(c, l) => {
            assert(t.labels == s.labels);
        },
        Ins::J(l) => {
            assert(t.labels == s.labels);
        },
        _ => {
            assert(r == s);
        },
    }
}

/// An instruction leaves the state in a form on which the resolver can work.
pub proof fn lemma_step_wf(s: StateView, i: Ins)
    requires
        wf(s),
        step(s, i) is Ok,
    ensures
        wf(step(s, i).unwrap()),
{
    if i is Addr || i is B || i is J {
        lemma_encode_site(i);
    }
    lemma_record_wf(s, i, encode(i).unwrap());
}

/// Every state that a program reaches is one on which the resolver can work.
pub proof fn lemma_run_wf(ins: Seq<Ins>)
    requires
        run(ins) is Ok,
    ensures
        wf(run(ins).unwrap()),
    decreases ins.len(),
{
    if ins.len() > 0 {
        lemma_run_wf(ins.drop_last());
        lemma_step_wf(run(ins.drop_last()).unwrap(), ins.last());
    }
}

impl Executable {
    /// Assembles a program for AArch64.
    ///
    /// Returns the executable that `assemble` describes, or the error of the
    /// first instruction that cannot be encoded, or else of the first fixup
    /// that cannot be resolved.
    pub fn from_ir_aarch64(ins: &[Ins]) -> (r: Result<Executable, Error>)
        ensures
            assembled(r, assemble(ins@)),
    {
        let mut state = State::new(CpuLevel::Scalar);
        let mut n: usize = 0;
        assert(ins@.take(0) =~= Seq::<Ins>::empty());
        while n < ins.len()
            invariant
                n <= ins.len(),
                run(ins@.take(n as int)) == Ok::<StateView, Error>(state@),
                wf(state@),
            decreases ins.len() - n,
        {
            let i = ins[n];
            proof {
                assert(ins@.take(n + 1).drop_last() =~= ins@.take(n as int));
                assert(ins@.take(n + 1).last() == i);
                if step(state@, i) is Ok {
                    lemma_step_wf(state@, i);
                } else {
                    lemma_run_err(ins@, n + 1);
                }
            }
            gen_ins(&mut state, i)?;
            n += 1;
        }
        assert(ins@.take(n as int) =~= ins@);
        let ghost s = state@;
        let State { mut code, labels, constants: _, fixups, cpu_level: _ } = state;
        resolve_all(&mut code, &labels, &fixups)?;
        proof {
            lemma_resolve_len(s.code, s.labels, s.fixups, s.fixups.len());
        }
        Ok(Executable::new(Arch::Aarch64, code.as_slice(), labels))
    }
}

} // verus!
