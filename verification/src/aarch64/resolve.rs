//! The fixup resolver of the AArch64 backend: the second pass, which writes
//! every word that refers to a label once the layout is final.
use crate::aarch64::encode::word;
use crate::bytes::{le_u32, lemma_le_bytes_len};
use crate::error::Error;
use crate::executable::{find_label, lookup};
use crate::state::{patch, write_at, Fixup, StateView};
use vstd::prelude::*;

verus! {

/// Whether every site, which is one word, lies inside the first `len` bytes.
pub open spec fn sites_inside(fixups: Seq<(usize, Fixup)>, len: nat) -> bool {
    forall|k: int| 0 <= k < fixups.len() ==> (#[trigger] fixups[k]).0 + 4 <= len
}

/// Whether the sites follow one another without overlap.
pub open spec fn sites_ordered(fixups: Seq<(usize, Fixup)>) -> bool {
    forall|j: int, k: int|
        0 <= j < k < fixups.len() ==> (#[trigger] fixups[j]).0 + 4 <= (#[trigger] fixups[k]).0
}

/// Whether the resolver can work on a state: every site lies inside the code,
/// the sites follow one another without overlap, and every label lies inside
/// the code or at its end.
pub open spec fn wf(s: StateView) -> bool {
    &&& sites_inside(s.fixups, s.code.len())
    &&& sites_ordered(s.fixups)
    &&& forall|k: int| 0 <= k < s.labels.len() ==> (#[trigger] s.labels[k]).1 <= s.code.len()
}

/// The label that a fixup refers to.
pub open spec fn label_of(f: Fixup) -> Option<u32> {
    match f {
        Fixup::Adr(_, l) => Some(l),
        Fixup::B(_, l) => Some(l),
        Fixup::J(l) => Some(l),
        Fixup::Const(_, _) => None,
    }
}

/// The field of `bits` bits that holds a displacement in words: the
/// displacement divided by four, in two's complement.
pub open spec fn word_field(delta: int, bits: int) -> u32 {
    if bits == 19 {
        ((delta / 4) % 0x8_0000) as u32
    } else {
        ((delta / 4) % 0x400_0000) as u32
    }
}

/// The word of a reference whose target is `delta` bytes after it.
///
/// `adr` reaches one megabyte either way and any byte: the two low bits of
/// the displacement are in bits 29 and 30, the other nineteen from bit 5.  A
/// branch reaches whole words: a conditional one has nineteen bits from bit 5
/// for the displacement in words, an unconditional one twenty-six from bit 0.
pub open spec fn resolve_word(f: Fixup, delta: int) -> Result<u32, Error> {
    match f {
        Fixup::Adr(d, l) => if -0x10_0000 <= delta < 0x10_0000 {
            Ok(
                0x1000_0000u32 | ((delta % 4) as u32) << 29 | word_field(delta, 19) << 5
                    | d.to_aarch64(),
            )
        } else {
            Err(Error::OffsetToLarge(l))
        },
        Fixup::B(c, l) => if delta % 4 != 0 {
            Err(Error::BranchNotMod4(l))
        } else if !(-0x10_0000 <= delta < 0x10_0000) {
            Err(Error::BranchOutOfRange(l))
        } else {
            Ok(0x5400_0000u32 | c.a64() | word_field(delta, 19) << 5)
        },
        Fixup::J(l) => if delta % 4 != 0 {
            Err(Error::BranchNotMod4(l))
        } else if !(-0x800_0000 <= delta < 0x800_0000) {
            Err(Error::BranchOutOfRange(l))
        } else {
            Ok(0x1400_0000u32 | word_field(delta, 26))
        },
        Fixup::Const(_, _) => Err(Error::CodeTooBig),
    }
}

/// The code after one fixup is resolved, or the reason why it cannot be.
pub open spec fn resolve_one(code: Seq<u8>, labels: Seq<(u32, usize)>, loc: usize, f: Fixup) -> Result<
    Seq<u8>,
    Error,
> {
    match label_of(f) {
        None => Err(Error::CodeTooBig),
        Some(l) => match lookup(labels, l) {
            None => Err(Error::MissingLabel(l)),
            Some(off) => match resolve_word(f, off - loc) {
                Ok(w) => Ok(patch(code, loc as int, word(w))),
                Err(e) => Err(e),
            },
        },
    }
}

/// The code after the first `n` fixups are resolved in order, or the reason
/// why the first one that cannot be resolved cannot be.
pub open spec fn resolve_upto(
    code: Seq<u8>,
    labels: Seq<(u32, usize)>,
    fixups: Seq<(usize, Fixup)>,
    n: nat,
) -> Result<Seq<u8>, Error>
    decreases n,
{
    if n == 0 {
        Ok(code)
    } else {
        match resolve_upto(code, labels, fixups, (n - 1) as nat) {
            Err(e) => Err(e),
            Ok(c) => resolve_one(c, labels, fixups[n - 1].0, fixups[n - 1].1),
        }
    }
}

/// The final bytes of an assembly: the code with every fixup resolved.
pub open spec fn resolve(s: StateView) -> Result<Seq<u8>, Error> {
    resolve_upto(s.code, s.labels, s.fixups, s.fixups.len())
}

/// Once a fixup cannot be resolved, the error stays.
pub proof fn lemma_resolve_err(
    code: Seq<u8>,
    labels: Seq<(u32, usize)>,
    fixups: Seq<(usize, Fixup)>,
    n: nat,
    m: nat,
)
    requires
        n <= m,
        resolve_upto(code, labels, fixups, n) is Err,
    ensures
        resolve_upto(code, labels, fixups, m) == resolve_upto(code, labels, fixups, n),
    decreases m - n,
{
    if n < m {
        lemma_resolve_err(code, labels, fixups, n, (m - 1) as nat);
    }
}

/// Resolving keeps the length of the code.
pub proof fn lemma_resolve_len(
    code: Seq<u8>,
    labels: Seq<(u32, usize)>,
    fixups: Seq<(usize, Fixup)>,
    n: nat,
)
    ensures
        resolve_upto(code, labels, fixups, n) matches Ok(c) ==> c.len() == code.len(),
    decreases n,
{
    if n > 0 {
        lemma_resolve_len(code, labels, fixups, (n - 1) as nat);
    }
}

/// Once every fixup is resolved, every site holds the word that the resolver
/// wrote for it: no later fixup has touched it.
pub proof fn lemma_resolved_site(
    code: Seq<u8>,
    labels: Seq<(u32, usize)>,
    fixups: Seq<(usize, Fixup)>,
    n: nat,
    j: int,
)
    requires
        sites_inside(fixups, code.len()),
        sites_ordered(fixups),
        0 <= j < n <= fixups.len(),
        resolve_upto(code, labels, fixups, n) is Ok,
    ensures
        label_of(fixups[j].1) matches Some(l) && lookup(labels, l) matches Some(off)
            && resolve_word(fixups[j].1, off - fixups[j].0) matches Ok(w) && resolve_upto(
            code,
            labels,
            fixups,
            n,
        ).unwrap().subrange(fixups[j].0 as int, fixups[j].0 + 4) == word(w),
    decreases n,
{
    let c = resolve_upto(code, labels, fixups, n).unwrap();
    let before = resolve_upto(code, labels, fixups, (n - 1) as nat).unwrap();
    let (loc, f) = fixups[n - 1];
    lemma_resolve_len(code, labels, fixups, (n - 1) as nat);
    let l = label_of(f).unwrap();
    let off = lookup(labels, l).unwrap();
    let w = resolve_word(f, off - loc).unwrap();
    lemma_le_bytes_len(w as int, 4);
    assert(c == patch(before, loc as int, word(w)));
    assert(fixups[n - 1].0 + 4 <= code.len());
    if j == n - 1 {
        assert(c.subrange(loc as int, loc + 4) =~= word(w));
    } else {
        lemma_resolved_site(code, labels, fixups, (n - 1) as nat, j);
        let lj = fixups[j].0;
        assert(fixups[j].0 + 4 <= fixups[n - 1].0);
        assert(c.subrange(lj as int, lj + 4) =~= before.subrange(lj as int, lj + 4));
    }
}

/// The field that holds a displacement in words.
fn word_field_of(delta: i128, bits: u32) -> (w: u32)
    requires
        -0x800_0000 <= delta < 0x800_0000,
        bits == 19 || bits == 26,
    ensures
        w == word_field(delta as int, bits as int),
{
    let biased: u64 = (delta + 0x1_0000_0000) as u64;
    let q: u64 = biased / 4;
    assert(q == delta / 4 + 0x4000_0000);
    if bits == 19 {
        (q % 0x8_0000) as u32
    } else {
        (q % 0x400_0000) as u32
    }
}

/// The word of a reference whose target is `delta` bytes after it.
pub fn resolve_word_of(f: Fixup, delta: i128) -> (r: Result<u32, Error>)
    ensures
        r == resolve_word(f, delta as int),
{
    match f {
        Fixup::Adr(dest, label) => {
            if delta < -0x10_0000 || delta >= 0x10_0000 {
                return Err(Error::OffsetToLarge(label));
            }
            let low: u32 = ((delta + 0x1_0000_0000) as u64 % 4) as u32;
            Ok(0x1000_0000_u32 | low << 29 | word_field_of(delta, 19) << 5 | dest.to_aarch64())
        },
        Fixup::B(cond, label) => {
            if delta % 4 != 0 {
                return Err(Error::BranchNotMod4(label));
            }
            if delta < -0x10_0000 || delta >= 0x10_0000 {
                return Err(Error::BranchOutOfRange(label));
            }
            Ok(0x5400_0000_u32 | cond.a64() | word_field_of(delta, 19) << 5)
        },
        Fixup::J(label) => {
            if delta % 4 != 0 {
                return Err(Error::BranchNotMod4(label));
            }
            if delta < -0x800_0000 || delta >= 0x800_0000 {
                return Err(Error::BranchOutOfRange(label));
            }
            Ok(0x1400_0000_u32 | word_field_of(delta, 26))
        },
        Fixup::Const(_, _) => Err(Error::CodeTooBig),
    }
}

/// Resolves one fixup in place.
pub fn resolve_fixup(code: &mut Vec<u8>, labels: &Vec<(u32, usize)>, loc: usize, f: Fixup) -> (r:
    Result<(), Error>)
    requires
        loc + 4 <= old(code)@.len(),
    ensures
        match resolve_one(old(code)@, labels@, loc, f) {
            Ok(c) => r == Ok::<(), Error>(()) && final(code)@ == c,
            Err(e) => r == Err::<(), Error>(e) && final(code)@ == old(code)@,
        },
{
    let label = match f {
        Fixup::Adr(_, l) => l,
        Fixup::B(_, l) => l,
        Fixup::J(l) => l,
        Fixup::Const(_, _) => {
            return Err(Error::CodeTooBig);
        },
    };
    let Some(offset) = find_label(labels, label) else {
        return Err(Error::MissingLabel(label));
    };
    let delta: i128 = offset as i128 - loc as i128;
    let opcode = resolve_word_of(f, delta)?;
    write_at(code, loc, &le_u32(opcode));
    Ok(())
}

/// Resolves every fixup in place, in the order in which they were recorded.
pub fn resolve_all(code: &mut Vec<u8>, labels: &Vec<(u32, usize)>, fixups: &Vec<(usize, Fixup)>) -> (r:
    Result<(), Error>)
    requires
        sites_inside(fixups@, old(code)@.len()),
    ensures
        match resolve_upto(old(code)@, labels@, fixups@, fixups@.len()) {
            Ok(c) => r == Ok::<(), Error>(()) && final(code)@ == c,
            Err(e) => r == Err::<(), Error>(e),
        },
{
    let mut k: usize = 0;
    while k < fixups.len()
        invariant
            k <= fixups.len(),
            sites_inside(fixups@, old(code)@.len()),
            code@.len() == old(code)@.len(),
            resolve_upto(old(code)@, labels@, fixups@, k as nat) == Ok::<Seq<u8>, Error>(code@),
        decreases fixups.len() - k,
    {
        let (loc, f) = fixups[k];
        proof {
            assert(fixups@[k as int].0 + 4 <= code@.len());
            let next = resolve_upto(old(code)@, labels@, fixups@, (k + 1) as nat);
            assert(next == resolve_one(code@, labels@, loc, f));
            if next is Err {
                lemma_resolve_err(old(code)@, labels@, fixups@, (k + 1) as nat, fixups@.len());
            }
        }
        resolve_fixup(code, labels, loc, f)?;
        k += 1;
    }
    Ok(())
}

} // verus!
