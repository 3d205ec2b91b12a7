//! The entry points of the x86-64 backend.
use crate::error::Error;
use crate::executable::{assembled, Arch, Executable, ExecutableView};
use crate::ir::{CpuLevel, Ins};
use crate::state::{
    lemma_find_from,
    lemma_pool_holds,
    pool_position,
    pool_with,
    State,
    StateView,
};
use crate::x86_64::encode::{encode, gen_ins, record, step, MAX_CODE};
use crate::x86_64::resolve::{lemma_resolve_len, resolve, resolve_all, wf};
use crate::x86_64::vector::{is_float, vimm_constant, vneg_constant};
use vstd::prelude::*;

verus! {

/// The state after a sequence of instructions, or the error of the first
/// instruction that cannot be assembled.
pub open spec fn run(level: CpuLevel, ins: Seq<Ins>) -> Result<StateView, Error>
    decreases ins.len(),
{
    if ins.len() == 0 {
        Ok(StateView::start(level))
    } else {
        match run(level, ins.drop_last()) {
            Err(e) => Err(e),
            Ok(s) => step(s, ins.last()),
        }
    }
}

/// What a program assembles to under a capability ceiling: the final bytes
/// and the label table, or the first error.
///
/// The instructions are encoded in order, the constant pool is appended, and
/// the fixups are resolved in the order in which they were recorded.
pub open spec fn assemble(ins: Seq<Ins>, level: CpuLevel) -> Result<ExecutableView, Error> {
    match run(level, ins) {
        Err(e) => Err(e),
        Ok(s) => match resolve(s) {
            Err(e) => Err(e),
            Ok(bytes) => Ok(ExecutableView { arch: Arch::X86_64, bytes, labels: s.labels }),
        },
    }
}

/// Once an instruction cannot be assembled, the error stays.
pub proof fn lemma_run_err(level: CpuLevel, ins: Seq<Ins>, n: int)
    requires
        0 <= n <= ins.len(),
        run(level, ins.take(n)) is Err,
    ensures
        run(level, ins) == run(level, ins.take(n)),
    decreases ins.len() - n,
{
    if n < ins.len() {
        assert(ins.take(n + 1).drop_last() =~= ins.take(n));
        lemma_run_err(level, ins, n + 1);
    } else {
        assert(ins.take(n) =~= ins);
    }
}

/// The least number of bytes that an instruction with a site must have.
pub open spec fn site_bytes(i: Ins) -> nat {
    match i {
        Ins::Addr(_, _) => 7,
        Ins::B(_, _) => 6,
        Ins::J(_) => 5,
        Ins::Vmovi(_, _, _, _) | Ins::Vnot(_, _, _, _) => 8,
        Ins::Vneg(ty, _, _, _) => if is_float(ty) {
            8
        } else {
            16
        },
        _ => 0,
    }
}

/// A constant is found inside the pool that holds it.
pub proof fn lemma_pool_position(pool: Seq<u8>, c: Seq<u8>)
    ensures
        0 <= pool_position(pool, c) <= pool_with(pool, c).len(),
        pool_with(pool, c).len() >= pool.len(),
        pool_with(pool, c).len() <= pool.len() + c.len(),
{
    lemma_find_from(pool, c, 0);
}

/// An instruction with a site has the bytes that the site takes.
pub proof fn lemma_encode_site(i: Ins, level: CpuLevel)
    requires
        encode(i, level) is Ok,
    ensures
        encode(i, level).unwrap().len() >= site_bytes(i),
{
    match i {
        Ins::Addr(_, _) => {},
        Ins::B(_, _) => {},
        Ins::J(_) => {},
        Ins::Vmovi(_, _, _, _) => {},
        Ins::Vnot(_, _, _, _) => {},
        Ins::Vneg(_, _, _, _) => {},
        _ => {},
    }
}

/// Recording an instruction and appending its bytes leaves the state in a
/// form on which the resolver can work.
pub proof fn lemma_record_wf(s: StateView, i: Ins, b: Seq<u8>)
    requires
        wf(s),
        s.code.len() <= MAX_CODE,
        s.constants.len() <= MAX_CODE,
        b.len() >= site_bytes(i),
    ensures
        wf(record(s, i).emit(b)),
        record(s, i).emit(b).cpu_level == s.cpu_level,
{
    let r = record(s, i);
    let t = r.emit(b);
    assert(r.code == s.code);
    assert(t.code.len() == s.code.len() + b.len());
    match i {
        Ins::Label(l) => {
            assert(t.fixups == s.fixups);
        },
        Ins::Addr(d, l) => {
            assert(t.labels == s.labels);
        },
        Ins::B(c, l) => {
            assert(t.labels == s.labels);
        },
        Ins::J(l) => {
            assert(t.labels == s.labels);
        },
        Ins::Vmovi(ty, vsize, v, imm) => {
            assert(t.labels == s.labels);
            lemma_pool_position(s.constants, vimm_constant(ty, vsize, imm));
        },
        Ins::Vnot(ty, vsize, v, v1) => {
            assert(t.labels == s.labels);
            lemma_pool_position(s.constants, vimm_constant(ty, vsize, 0xffff_ffff_ffff_ffff));
        },
        Ins::Vneg(ty, vsize, v, v1) => {
            let c = vneg_constant(ty, vsize);
            assert(t.labels == s.labels);
            lemma_pool_position(s.constants, c);
            lemma_pool_holds(s.constants, c);
            lemma_find_from(pool_with(s.constants, c), c, 0);
            lemma_pool_position(pool_with(s.constants, c), c);
        },
        _ => {
            assert(r == s);
        },
    }
}

/// An instruction leaves the state in a form on which the resolver can work.
pub proof fn lemma_step_wf(s: StateView, i: Ins)
    requires
        wf(s),
        step(s, i) is Ok,
    ensures
        wf(step(s, i).unwrap()),
        step(s, i).unwrap().cpu_level == s.cpu_level,
{
    lemma_encode_site(i, s.cpu_level);
    lemma_record_wf(s, i, encode(i, s.cpu_level).unwrap());
}

/// Every state that a program reaches is one on which the resolver can work.
pub proof fn lemma_run_wf(level: CpuLevel, ins: Seq<Ins>)
    requires
        run(level, ins) is Ok,
    ensures
        wf(run(level, ins).unwrap()),
        run(level, ins).unwrap().cpu_level == level,
    decreases ins.len(),
{
    if ins.len() > 0 {
        lemma_run_wf(level, ins.drop_last());
        lemma_step_wf(run(level, ins.drop_last()).unwrap(), ins.last());
    }
}

impl Executable {
    /// Assembles a program for x86-64, with every vector width allowed that
    /// the backend can encode.
    pub fn from_ir(ins: &[Ins]) -> (r: Result<Executable, Error>)
        ensures
            assembled(r, assemble(ins@, CpuLevel::Simd512)),
    {
        Self::from_ir_and_level(ins, CpuLevel::Simd512)
    }

    /// Assembles a program for x86-64 under a capability ceiling.
    ///
    /// Returns the executable that `assemble` describes, or the error of the
    /// first instruction that cannot be encoded, or else of the first fixup
    /// that cannot be resolved.
    pub fn from_ir_and_level(ins: &[Ins], cpu_level: CpuLevel) -> (r: Result<Executable, Error>)
        ensures
            assembled(r, assemble(ins@, cpu_level)),
    {
        let mut state = State::new(cpu_level);
        let mut n: usize = 0;
        assert(ins@.take(0) =~= Seq::<Ins>::empty());
        while n < ins.len()
            invariant
                n <= ins.len(),
                run(cpu_level, ins@.take(n as int)) == Ok::<StateView, Error>(state@),
                wf(state@),
            decreases ins.len() - n,
        {
            let i = ins[n];
            proof {
                assert(ins@.take(n + 1).drop_last() =~= ins@.take(n as int));
                assert(ins@.take(n + 1).last() == i);
                if step(state@, i) is Ok {
                    lemma_step_wf(state@, i);
                } else {
                    lemma_run_err(cpu_level, ins@, n + 1);
                }
            }
            gen_ins(&mut state, i)?;
            n += 1;
        }
        assert(ins@.take(n as int) =~= ins@);
        let cbase = state.code.len();
        let ghost s = state@;
        let State { mut code, labels, constants, fixups, cpu_level: _ } = state;
        code.extend_from_slice(constants.as_slice());
        assert(code@ =~= s.code + s.constants);
        resolve_all(&mut code, &labels, cbase, &fixups)?;
        proof {
            lemma_resolve_len(s.code + s.constants, s.labels, cbase as int, s.fixups, s.fixups.len());
        }
        Ok(Executable::new(Arch::X86_64, code.as_slice(), labels))
    }
}

} // verus!
