//! What a comparison leaves in the flags, and what the condition codes make
//! of them.
use crate::bytes::{signed, wrap};
use crate::ir::{Cond, R};
use crate::x86_64::encode::{cmov_bytes, inverse_cc, sel_bytes};
use crate::x86_64::machine::{known, Machine};
use crate::x86_64::scalar::regreg_bytes;
use vstd::prelude::*;

verus! {

/// The flags that the conditions read.
pub struct Flags {
    /// Zero: the result was zero.
    pub zf: bool,
    /// Sign: the result was negative when read as a signed number.
    pub sf: bool,
    /// Carry: the subtraction had to borrow.
    pub cf: bool,
    /// Overflow: the signed result did not fit.
    pub of: bool,
}

/// The flags after `cmp a, b`, which subtracts `b` from `a`.
pub open spec fn compare_flags(a: u64, b: u64) -> Flags {
    Flags {
        zf: a == b,
        sf: signed(wrap(a - b)) < 0,
        cf: a < b,
        of: signed(a) - signed(b) < -0x8000_0000_0000_0000 || signed(a) - signed(b)
            > 0x7fff_ffff_ffff_ffff,
    }
}

/// Whether a condition code holds of the flags, for the codes that read no
/// other flag than these.
pub open spec fn cc_holds(cc: u8, f: Flags) -> Option<bool> {
    if cc == 0x0 {
        Some(f.of)
    } else if cc == 0x1 {
        Some(!f.of)
    } else if cc == 0x2 {
        Some(f.cf)
    } else if cc == 0x3 {
        Some(!f.cf)
    } else if cc == 0x4 {
        Some(f.zf)
    } else if cc == 0x5 {
        Some(!f.zf)
    } else if cc == 0x6 {
        Some(f.cf || f.zf)
    } else if cc == 0x7 {
        Some(!f.cf && !f.zf)
    } else if cc == 0x8 {
        Some(f.sf)
    } else if cc == 0x9 {
        Some(!f.sf)
    } else if cc == 0xc {
        Some(f.sf != f.of)
    } else if cc == 0xd {
        Some(f.sf == f.of)
    } else if cc == 0xe {
        Some(f.zf || f.sf != f.of)
    } else if cc == 0xf {
        Some(!f.zf && f.sf == f.of)
    } else {
        None
    }
}

/// After a comparison of `a` with `b`, the condition code of each condition
/// holds exactly if the condition holds of `a` and `b`: a branch on the
/// condition is taken, and a select on it selects, exactly then.
pub proof fn lemma_condition_codes(c: Cond, a: u64, b: u64)
    ensures
        cc_holds(c.cc(), compare_flags(a, b)) == Some(c.holds(a, b)),
{
    let d = signed(a) - signed(b);
    let r = wrap(a - b);
    assert(d == a - b || d == a - b + 0x1_0000_0000_0000_0000 || d == a - b
        - 0x1_0000_0000_0000_0000);
    assert(r == a - b || r == a - b + 0x1_0000_0000_0000_0000);
}

/// A move between registers that a select is made of.
pub enum Move {
    /// `mov dest, src`
    Always(R, R),
    /// `cmovcc dest, src`: a move that is made if the condition code holds
    If(u8, R, R),
}

/// The bytes of a move.
pub open spec fn move_bytes(mv: Move) -> Seq<u8> {
    match mv {
        Move::Always(d, s) => regreg_bytes(0x89, d, s),
        Move::If(cc, d, s) => cmov_bytes(cc, d, s),
    }
}

/// The machine after a move, under given flags; none if the model does not
/// know a register or the condition code.
pub open spec fn move_exec(m: Machine, fl: Flags, mv: Move) -> Option<Machine> {
    match mv {
        Move::Always(d, s) => if known(d) && known(s) {
            Some(m.set(d, m.get(s)))
        } else {
            None
        },
        Move::If(cc, d, s) => if known(d) && known(s) {
            match cc_holds(cc, fl) {
                Some(true) => Some(m.set(d, m.get(s))),
                Some(false) => Some(m),
                None => None,
            }
        } else {
            None
        },
    }
}

/// The moves of a select, of which there are two at most.
pub open spec fn sel_moves(cc: u8, dest: R, t: R, f: R) -> (Option<Move>, Option<Move>) {
    if dest == t {
        if f != dest {
            (None, Some(Move::If(inverse_cc(cc), dest, f)))
        } else {
            (None, None)
        }
    } else if f != dest {
        (Some(Move::Always(dest, f)), Some(Move::If(cc, dest, t)))
    } else {
        (None, Some(Move::If(cc, dest, t)))
    }
}

/// The bytes of a move that may be left out.
pub open spec fn maybe_bytes(mv: Option<Move>) -> Seq<u8> {
    match mv {
        Some(x) => move_bytes(x),
        None => Seq::empty(),
    }
}

/// The machine after a move that may be left out.
pub open spec fn maybe_exec(m: Option<Machine>, fl: Flags, mv: Option<Move>) -> Option<Machine> {
    match (m, mv) {
        (Some(x), Some(y)) => move_exec(x, fl, y),
        (Some(x), None) => Some(x),
        (None, _) => None,
    }
}

/// Each condition code holds exactly where its inverse does not.
pub proof fn lemma_inverse_code(c: Cond, fl: Flags)
    ensures
        cc_holds(c.cc(), fl) matches Some(h) && cc_holds(inverse_cc(c.cc()), fl) == Some(!h),
{
}

/// A select leaves in its destination the value for a condition that holds
/// if the condition code holds in the flags, the other value if not, and
/// changes nothing else, whatever registers the destination and the two
/// values are; and its moves have the bytes that the backend emits.
pub proof fn lemma_sel_computes(m: Machine, fl: Flags, c: Cond, dest: R, t: R, f: R)
    requires
        m.wf(),
        known(dest),
        known(t),
        known(f),
    ensures
        ({
            let (first, second) = sel_moves(c.cc(), dest, t, f);
            &&& maybe_bytes(first) + maybe_bytes(second) == sel_bytes(c.cc(), dest, t, f)
            &&& maybe_exec(maybe_exec(Some(m), fl, first), fl, second) == Some(
                m.set(
                    dest,
                    if cc_holds(c.cc(), fl) == Some(true) {
                        m.get(t)
                    } else {
                        m.get(f)
                    },
                ),
            )
        }),
{
    let (first, second) = sel_moves(c.cc(), dest, t, f);
    lemma_inverse_code(c, fl);
    assert(maybe_bytes(first) + maybe_bytes(second) =~= sel_bytes(c.cc(), dest, t, f));
    let n = maybe_exec(maybe_exec(Some(m), fl, first), fl, second).unwrap();
    let v = if cc_holds(c.cc(), fl) == Some(true) {
        m.get(t)
    } else {
        m.get(f)
    };
    assert(n.regs =~= m.set(dest, v).regs);
}

/// After a comparison of `a` with `b`, a select leaves in its destination
/// the value for a condition that holds if the condition holds of `a` and
/// `b`, and the other value if not.
pub proof fn lemma_sel_after_compare(m: Machine, c: Cond, a: u64, b: u64, dest: R, t: R, f: R)
    requires
        m.wf(),
        known(dest),
        known(t),
        known(f),
    ensures
        ({
            let (first, second) = sel_moves(c.cc(), dest, t, f);
            maybe_exec(maybe_exec(Some(m), compare_flags(a, b), first), compare_flags(a, b), second)
                == Some(
                m.set(
                    dest,
                    if c.holds(a, b) {
                        m.get(t)
                    } else {
                        m.get(f)
                    },
                ),
            )
        }),
{
    lemma_condition_codes(c, a, b);
    lemma_sel_computes(m, compare_flags(a, b), c, dest, t, f);
}

} // verus!
