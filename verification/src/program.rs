//! What holds of a program whatever it is assembled for: which labels it
//! declares and to which it refers.
use crate::executable::lookup_from;
use crate::ir::Ins;
use crate::state::Fixup;
use vstd::prelude::*;

verus! {

/// The label that an instruction refers to, and the fixup that it leaves.
pub open spec fn reference(i: Ins) -> Option<(u32, Fixup)> {
    match i {
        Ins::Addr(d, l) => Some((l, Fixup::Adr(d, l))),
        Ins::B(c, l) => Some((l, Fixup::B(c, l))),
        Ins::J(l) => Some((l, Fixup::J(l))),
        _ => None,
    }
}

/// Whether a program declares a label.
pub open spec fn declares(ins: Seq<Ins>, l: u32) -> bool {
    exists|t: int| 0 <= t < ins.len() && ins[t] == Ins::Label(l)
}

/// Whether `a` is the beginning of `b`.
pub open spec fn is_prefix<T>(a: Seq<T>, b: Seq<T>) -> bool {
    a.len() <= b.len() && b.subrange(0, a.len() as int) == a
}

/// Looking a label up in a longer table finds what the shorter table has.
pub proof fn lemma_lookup_prefix(a: Seq<(u32, usize)>, b: Seq<(u32, usize)>, l: u32, from: int)
    requires
        is_prefix(a, b),
        0 <= from,
        lookup_from(a, l, from) is Some,
    ensures
        lookup_from(b, l, from) == lookup_from(a, l, from),
    decreases a.len() - from,
{
    if from < a.len() {
        assert(b.subrange(0, a.len() as int)[from] == b[from]);
        if a[from].0 != l {
            lemma_lookup_prefix(a, b, l, from + 1);
        }
    }
}

/// Looking a label up in a table with one more entry finds that entry if the
/// table had none for the label.
pub proof fn lemma_lookup_push(a: Seq<(u32, usize)>, x: (u32, usize), l: u32, from: int)
    requires
        0 <= from <= a.len(),
        lookup_from(a, l, from) is None,
    ensures
        lookup_from(a.push(x), l, from) == (if x.0 == l {
            Some(x.1)
        } else {
            None
        }),
    decreases a.len() - from,
{
    if from < a.len() {
        assert(a.push(x)[from] == a[from]);
        lemma_lookup_push(a, x, l, from + 1);
    } else {
        assert(a.push(x)[from] == x);
        assert(lookup_from(a.push(x), l, from + 1) is None);
    }
}

} // verus!
