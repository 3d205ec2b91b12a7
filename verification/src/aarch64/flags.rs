//! What a comparison leaves in the flags, and what the condition codes make
//! of them.
use crate::bytes::{signed, wrap};
use crate::ir::Cond;
use vstd::prelude::*;

verus! {

/// The condition flags.
pub struct Flags {
    /// Negative: the result was negative when read as a signed number.
    pub n: bool,
    /// Zero: the result was zero.
    pub z: bool,
    /// Carry: the subtraction did not have to borrow.
    pub c: bool,
    /// Overflow: the signed result did not fit.
    pub v: bool,
}

/// The flags after `cmp a, b`, which subtracts `b` from `a`.
pub open spec fn compare_flags(a: u64, b: u64) -> Flags {
    Flags {
        n: signed(wrap(a - b)) < 0,
        z: a == b,
        c: a >= b,
        v: signed(a) - signed(b) < -0x8000_0000_0000_0000 || signed(a) - signed(b)
            > 0x7fff_ffff_ffff_ffff,
    }
}

/// Whether a condition code holds of the flags.
pub open spec fn code_holds(code: u32, f: Flags) -> bool {
    if code == 0x0 {
        f.z
    } else if code == 0x1 {
        !f.z
    } else if code == 0x2 {
        f.c
    } else if code == 0x3 {
        !f.c
    } else if code == 0x4 {
        f.n
    } else if code == 0x5 {
        !f.n
    } else if code == 0x6 {
        f.v
    } else if code == 0x7 {
        !f.v
    } else if code == 0x8 {
        f.c && !f.z
    } else if code == 0x9 {
        !f.c || f.z
    } else if code == 0xa {
        f.n == f.v
    } else if code == 0xb {
        f.n != f.v
    } else if code == 0xc {
        !f.z && f.n == f.v
    } else if code == 0xd {
        f.z || f.n != f.v
    } else {
        true
    }
}

/// After a comparison of `a` with `b`, the condition code of each condition
/// holds exactly if the condition holds of `a` and `b`: a branch on the
/// condition is taken, and a select on it selects, exactly then.
pub proof fn lemma_condition_codes(c: Cond, a: u64, b: u64)
    ensures
        code_holds(c.a64(), compare_flags(a, b)) == c.holds(a, b),
{
    let d = signed(a) - signed(b);
    let r = wrap(a - b);
    assert(d == a - b || d == a - b + 0x1_0000_0000_0000_0000 || d == a - b
        - 0x1_0000_0000_0000_0000);
    assert(r == a - b || r == a - b + 0x1_0000_0000_0000_0000);
}

} // verus!
