//! The fixup resolver: the second pass, which writes every displacement once
//! the layout is final.
use crate::bytes::{fits_i32, le_bytes, le_i32, lemma_le_bytes_len};
use crate::error::Error;
use crate::executable::{find_label, lookup};
use crate::state::{patch, write_at, Fixup, StateView};
use vstd::prelude::*;

verus! {

/// The number of bytes that a site holds, from the offset recorded for it.
pub open spec fn site_len(f: Fixup) -> nat {
    match f {
        Fixup::Adr(_, _) => 7,
        Fixup::B(_, _) => 6,
        Fixup::J(_) => 5,
        Fixup::Const(_, _) => 4,
    }
}

/// Whether every site lies inside the first `len` bytes.
pub open spec fn sites_inside(fixups: Seq<(usize, Fixup)>, len: nat) -> bool {
    forall|k: int|
        0 <= k < fixups.len() ==> (#[trigger] fixups[k]).0 + site_len(fixups[k].1) <= len
}

/// Whether the sites follow one another without overlap.
pub open spec fn sites_ordered(fixups: Seq<(usize, Fixup)>) -> bool {
    forall|j: int, k: int|
        0 <= j < k < fixups.len() ==> (#[trigger] fixups[j]).0 + site_len(fixups[j].1) <= (
        #[trigger] fixups[k]).0
}

/// Whether every reference to the constant pool points into a pool of `len`
/// bytes, from a field at the end of its instruction.
pub open spec fn pool_sites(fixups: Seq<(usize, Fixup)>, len: nat) -> bool {
    forall|k: int|
        0 <= k < fixups.len() ==> ((#[trigger] fixups[k]).1 matches Fixup::Const(pos, delta)
            ==> pos <= len && delta == 4)
}

/// Whether the resolver can work on a state: every site lies inside the code,
/// the sites follow one another without overlap, every label lies inside
/// the code or at its end, and every reference to the constant pool points
/// into the pool.
pub open spec fn wf(s: StateView) -> bool {
    &&& sites_inside(s.fixups, s.code.len())
    &&& sites_ordered(s.fixups)
    &&& forall|k: int| 0 <= k < s.labels.len() ==> (#[trigger] s.labels[k]).1 <= s.code.len()
    &&& pool_sites(s.fixups, s.constants.len())
}

/// The displacement of a reference: the distance from the end of the
/// referring instruction to the target.
///
/// The instruction of an address-of-label is 7 bytes, of a conditional branch
/// 6 and of an unconditional one 5; a reference to the constant pool says
/// itself how far its field is from the end of its instruction, and the pool
/// starts at `cbase`.  `None` if the label is not declared.
pub open spec fn displacement(
    labels: Seq<(u32, usize)>,
    cbase: int,
    loc: usize,
    f: Fixup,
) -> Option<int> {
    match f {
        Fixup::Adr(_, l) => match lookup(labels, l) {
            Some(off) => Some(off - loc - 7),
            None => None,
        },
        Fixup::B(_, l) => match lookup(labels, l) {
            Some(off) => Some(off - loc - 6),
            None => None,
        },
        Fixup::J(l) => match lookup(labels, l) {
            Some(off) => Some(off - loc - 5),
            None => None,
        },
        Fixup::Const(pos, delta) => Some(cbase + pos - loc - delta),
    }
}

/// The error for a reference to a label that is not declared.
pub open spec fn missing(f: Fixup) -> Error {
    match f {
        Fixup::Adr(_, l) => Error::MissingLabel(l),
        Fixup::B(_, l) => Error::MissingLabel(l),
        Fixup::J(l) => Error::MissingLabel(l),
        Fixup::Const(_, _) => Error::CodeTooBig,
    }
}

/// The error for a displacement that does not fit 32 bits.
pub open spec fn out_of_range(f: Fixup) -> Error {
    match f {
        Fixup::Adr(_, l) => Error::OffsetToLarge(l),
        Fixup::B(_, l) => Error::BranchOutOfRange(l),
        Fixup::J(l) => Error::BranchOutOfRange(l),
        Fixup::Const(_, _) => Error::CodeTooBig,
    }
}

/// Where in a site the bytes of the resolver go: an address-of-label keeps
/// its first three bytes.
pub open spec fn patch_skip(f: Fixup) -> int {
    match f {
        Fixup::Adr(_, _) => 3,
        _ => 0,
    }
}

/// The bytes that the resolver writes for a displacement `d`: the opcode of
/// a branch, and the displacement in four bytes.
pub open spec fn patch_bytes(f: Fixup, d: int) -> Seq<u8> {
    match f {
        Fixup::Adr(_, _) => le_bytes(d, 4),
        Fixup::B(c, _) => seq![0x0fu8, (0x80 + c.cc()) as u8] + le_bytes(d, 4),
        Fixup::J(_) => seq![0xe9u8] + le_bytes(d, 4),
        Fixup::Const(_, _) => le_bytes(d, 4),
    }
}

/// The code after one fixup is resolved, or the reason why it cannot be.
pub open spec fn resolve_one(
    code: Seq<u8>,
    labels: Seq<(u32, usize)>,
    cbase: int,
    loc: usize,
    f: Fixup,
) -> Result<Seq<u8>, Error> {
    match displacement(labels, cbase, loc, f) {
        None => Err(missing(f)),
        Some(d) => if fits_i32(d) {
            Ok(patch(code, loc + patch_skip(f), patch_bytes(f, d)))
        } else {
            Err(out_of_range(f))
        },
    }
}

/// The code after the first `n` fixups are resolved in order, or the reason
/// why the first one that cannot be resolved cannot be.
pub open spec fn resolve_upto(
    code: Seq<u8>,
    labels: Seq<(u32, usize)>,
    cbase: int,
    fixups: Seq<(usize, Fixup)>,
    n: nat,
) -> Result<Seq<u8>, Error>
    decreases n,
{
    if n == 0 {
        Ok(code)
    } else {
        match resolve_upto(code, labels, cbase, fixups, (n - 1) as nat) {
            Err(e) => Err(e),
            Ok(c) => resolve_one(c, labels, cbase, fixups[n - 1].0, fixups[n - 1].1),
        }
    }
}

/// The final bytes of an assembly: the code with the constant pool at its
/// end and every fixup resolved.
pub open spec fn resolve(s: StateView) -> Result<Seq<u8>, Error> {
    resolve_upto(
        s.code + s.constants,
        s.labels,
        s.code.len() as int,
        s.fixups,
        s.fixups.len(),
    )
}

/// Once a fixup cannot be resolved, the error stays.
pub proof fn lemma_resolve_err(
    code: Seq<u8>,
    labels: Seq<(u32, usize)>,
    cbase: int,
    fixups: Seq<(usize, Fixup)>,
    n: nat,
    m: nat,
)
    requires
        n <= m,
        resolve_upto(code, labels, cbase, fixups, n) is Err,
    ensures
        resolve_upto(code, labels, cbase, fixups, m) == resolve_upto(code, labels, cbase, fixups, n),
    decreases m - n,
{
    if n < m {
        lemma_resolve_err(code, labels, cbase, fixups, n, (m - 1) as nat);
    }
}

/// The bytes that the resolver writes for a fixup fill its site from where
/// they start.
pub proof fn lemma_patch_len(f: Fixup, d: int)
    ensures
        patch_bytes(f, d).len() + patch_skip(f) == site_len(f),
{
    lemma_le_bytes_len(d, 4);
}

/// Once every fixup is resolved, every site holds what the resolver wrote
/// for it: no later fixup has touched it.
pub proof fn lemma_resolved_site(
    code: Seq<u8>,
    labels: Seq<(u32, usize)>,
    cbase: int,
    fixups: Seq<(usize, Fixup)>,
    n: nat,
    j: int,
)
    requires
        sites_inside(fixups, code.len()),
        sites_ordered(fixups),
        0 <= j < n <= fixups.len(),
        resolve_upto(code, labels, cbase, fixups, n) is Ok,
    ensures
        displacement(labels, cbase, fixups[j].0, fixups[j].1) matches Some(d) && fits_i32(d)
            && resolve_upto(code, labels, cbase, fixups, n).unwrap().subrange(
            fixups[j].0 + patch_skip(fixups[j].1),
            fixups[j].0 + site_len(fixups[j].1),
        ) == patch_bytes(fixups[j].1, d),
    decreases n,
{
    let c = resolve_upto(code, labels, cbase, fixups, n).unwrap();
    let before = resolve_upto(code, labels, cbase, fixups, (n - 1) as nat).unwrap();
    let (loc, f) = fixups[n - 1];
    let d = displacement(labels, cbase, loc, f).unwrap();
    lemma_resolve_len(code, labels, cbase, fixups, (n - 1) as nat);
    lemma_patch_len(f, d);
    let at = loc + patch_skip(f);
    assert(c == patch(before, at, patch_bytes(f, d)));
    assert(fixups[n - 1].0 + site_len(fixups[n - 1].1) <= code.len());
    if j == n - 1 {
        assert(c.subrange(at, loc + site_len(f)) =~= patch_bytes(f, d));
    } else {
        lemma_resolved_site(code, labels, cbase, fixups, (n - 1) as nat, j);
        let (lj, fj) = fixups[j];
        assert(fixups[j].0 + site_len(fixups[j].1) <= fixups[n - 1].0);
        assert(c.subrange(lj + patch_skip(fj), lj + site_len(fj)) =~= before.subrange(
            lj + patch_skip(fj),
            lj + site_len(fj),
        ));
    }
}

/// Resolving keeps the length of the code.
pub proof fn lemma_resolve_len(
    code: Seq<u8>,
    labels: Seq<(u32, usize)>,
    cbase: int,
    fixups: Seq<(usize, Fixup)>,
    n: nat,
)
    ensures
        resolve_upto(code, labels, cbase, fixups, n) matches Ok(c) ==> c.len() == code.len(),
    decreases n,
{
    if n > 0 {
        lemma_resolve_len(code, labels, cbase, fixups, (n - 1) as nat);
    }
}

/// Resolves one fixup in place.
pub fn resolve_fixup(
    code: &mut Vec<u8>,
    labels: &Vec<(u32, usize)>,
    cbase: usize,
    loc: usize,
    f: Fixup,
) -> (r: Result<(), Error>)
    requires
        loc + site_len(f) <= old(code)@.len(),
    ensures
        match resolve_one(old(code)@, labels@, cbase as int, loc, f) {
            Ok(c) => r == Ok::<(), Error>(()) && final(code)@ == c,
            Err(e) => r == Err::<(), Error>(e) && final(code)@ == old(code)@,
        },
{
    let total = code.len();
    match f {
        Fixup::Adr(_, label) => {
            let Some(offset) = find_label(labels, label) else {
                return Err(Error::MissingLabel(label));
            };
            let delta: i128 = offset as i128 - loc as i128 - 7;
            if delta < -0x8000_0000 || delta > 0x7fff_ffff {
                return Err(Error::OffsetToLarge(label));
            }
            write_at(code, loc + 3, &le_i32(delta as i32));
        },
        Fixup::B(cond, label) => {
            let Some(offset) = find_label(labels, label) else {
                return Err(Error::MissingLabel(label));
            };
            let delta: i128 = offset as i128 - loc as i128 - 6;
            if delta < -0x8000_0000 || delta > 0x7fff_ffff {
                return Err(Error::BranchOutOfRange(label));
            }
            let op = cond.cc() + 0x80;
            let imm = le_i32(delta as i32);
            let b: [u8; 6] = [0x0f, op, imm[0], imm[1], imm[2], imm[3]];
            assert(b@ =~= patch_bytes(f, delta as int));
            write_at(code, loc, &b);
        },
        Fixup::J(label) => {
            let Some(offset) = find_label(labels, label) else {
                return Err(Error::MissingLabel(label));
            };
            let delta: i128 = offset as i128 - loc as i128 - 5;
            if delta < -0x8000_0000 || delta > 0x7fff_ffff {
                return Err(Error::BranchOutOfRange(label));
            }
            let imm = le_i32(delta as i32);
            let b: [u8; 5] = [0xe9, imm[0], imm[1], imm[2], imm[3]];
            assert(b@ =~= patch_bytes(f, delta as int));
            write_at(code, loc, &b);
        },
        Fixup::Const(pos, delta) => {
            let offset: i128 = cbase as i128 + pos as i128 - loc as i128 - delta as i128;
            if offset < -0x8000_0000 || offset > 0x7fff_ffff {
                return Err(Error::CodeTooBig);
            }
            write_at(code, loc, &le_i32(offset as i32));
        },
    }
    Ok(())
}

/// Resolves every fixup in place, in the order in which they were recorded.
pub fn resolve_all(
    code: &mut Vec<u8>,
    labels: &Vec<(u32, usize)>,
    cbase: usize,
    fixups: &Vec<(usize, Fixup)>,
) -> (r: Result<(), Error>)
    requires
        sites_inside(fixups@, old(code)@.len()),
    ensures
        match resolve_upto(old(code)@, labels@, cbase as int, fixups@, fixups@.len()) {
            Ok(c) => r == Ok::<(), Error>(()) && final(code)@ == c,
            Err(e) => r == Err::<(), Error>(e),
        },
{
    let mut k: usize = 0;
    while k < fixups.len()
        invariant
            k <= fixups.len(),
            sites_inside(fixups@, old(code)@.len()),
            code@.len() == old(code)@.len(),
            resolve_upto(old(code)@, labels@, cbase as int, fixups@, k as nat) == Ok::<
                Seq<u8>,
                Error,
            >(code@),
        decreases fixups.len() - k,
    {
        let (loc, f) = fixups[k];
        proof {
            assert(fixups@[k as int].0 + site_len(fixups@[k as int].1) <= code@.len());
            let next = resolve_upto(old(code)@, labels@, cbase as int, fixups@, (k + 1) as nat);
            assert(next == resolve_one(code@, labels@, cbase as int, loc, f));
            if next is Err {
                lemma_resolve_err(
                    old(code)@,
                    labels@,
                    cbase as int,
                    fixups@,
                    (k + 1) as nat,
                    fixups@.len(),
                );
            }
        }
        resolve_fixup(code, labels, cbase, loc, f)?;
        k += 1;
    }
    Ok(())
}

} // verus!
