//! The encoder state: what a backend has emitted so far and what it still
//! has to patch.
use crate::error::Error;
use crate::ir::{Cond, CpuLevel, R};
use vstd::prelude::*;

verus! {

/// A pending relocation: a place in the code whose final bytes depend on an
/// offset that is only known once the whole program has been emitted.
#[derive(Clone, Copy, Debug, PartialEq, Structural)]
pub enum Fixup {
    /// Load the address of a label into a register.
    Adr(R, u32),
    /// Branch to a label if a condition holds.
    B(Cond, u32),
    /// Branch to a label.
    J(u32),
    /// Refer to the constant pool: the position in the pool, and the distance
    /// from the displacement field to the end of its instruction.
    Const(usize, isize),
}

/// The state of one assembly.
pub struct State {
    /// The bytes emitted so far.
    pub code: Vec<u8>,
    /// The labels declared so far, each with its offset in `code`.
    pub labels: Vec<(u32, usize)>,
    /// The constant pool, which is appended to the code at the end.
    pub constants: Vec<u8>,
    /// The pending relocations, each with the offset of its site in `code`.
    pub fixups: Vec<(usize, Fixup)>,
    /// The capability ceiling.
    pub cpu_level: CpuLevel,
}

/// The mathematical value of a [`State`].
pub struct StateView {
    pub code: Seq<u8>,
    pub labels: Seq<(u32, usize)>,
    pub constants: Seq<u8>,
    pub fixups: Seq<(usize, Fixup)>,
    pub cpu_level: CpuLevel,
}

impl View for State {
    type V = StateView;

    open spec fn view(&self) -> StateView {
        StateView {
            code: self.code@,
            labels: self.labels@,
            constants: self.constants@,
            fixups: self.fixups@,
            cpu_level: self.cpu_level,
        }
    }
}

impl StateView {
    /// The empty state under a capability ceiling.
    pub open spec fn start(cpu_level: CpuLevel) -> StateView {
        StateView {
            code: Seq::empty(),
            labels: Seq::empty(),
            constants: Seq::empty(),
            fixups: Seq::empty(),
            cpu_level,
        }
    }

    /// The state after appending `bytes` to the code.
    pub open spec fn emit(self, bytes: Seq<u8>) -> StateView {
        StateView { code: self.code + bytes, ..self }
    }

    /// The state after declaring `label` at the current end of the code.
    pub open spec fn label(self, label: u32) -> StateView {
        StateView { labels: self.labels.push((label, self.code.len() as usize)), ..self }
    }

    /// The state after recording `fixup` for the site that starts `skip`
    /// bytes after the current end of the code.
    pub open spec fn fixup(self, skip: nat, fixup: Fixup) -> StateView {
        StateView {
            fixups: self.fixups.push(((self.code.len() + skip) as usize, fixup)),
            ..self
        }
    }

    /// The state after making sure that the pool holds `c`.
    pub open spec fn intern(self, c: Seq<u8>) -> StateView {
        StateView { constants: pool_with(self.constants, c), ..self }
    }
}

/// What an emitter has done, given the bytes that its instruction stands
/// for: it has appended them and returned `Ok`, or, where the instruction
/// has no encoding, it has returned the error and left the state as it was.
pub open spec fn emitted(
    before: StateView,
    r: Result<(), Error>,
    after: StateView,
    bytes: Result<Seq<u8>, Error>,
) -> bool {
    match bytes {
        Ok(b) => r == Ok::<(), Error>(()) && after == before.emit(b),
        Err(e) => r == Err::<(), Error>(e) && after == before,
    }
}

/// What an emitter that also records labels and fixups has done, given the
/// state that its instruction leads to: on an error it has left the state as
/// it was.
pub open spec fn stepped(
    before: StateView,
    r: Result<(), Error>,
    after: StateView,
    next: Result<StateView, Error>,
) -> bool {
    match next {
        Ok(s) => r == Ok::<(), Error>(()) && after == s,
        Err(e) => r == Err::<(), Error>(e) && after == before,
    }
}

/// `bytes` if `c` holds, nothing otherwise.
pub open spec fn bytes_if(c: bool, bytes: Seq<u8>) -> Seq<u8> {
    if c {
        bytes
    } else {
        Seq::empty()
    }
}

/// Whether `c` stands in `pool` at position `p`.
pub open spec fn occurs_at(pool: Seq<u8>, c: Seq<u8>, p: int) -> bool {
    0 <= p && p + c.len() <= pool.len() && pool.subrange(p, p + c.len()) == c
}

/// The first position at or after `from` at which `c` stands in `pool`.
pub open spec fn find_from(pool: Seq<u8>, c: Seq<u8>, from: int) -> Option<int>
    decreases pool.len() + 1 - from,
{
    if from < 0 || from + c.len() > pool.len() {
        None
    } else if occurs_at(pool, c, from) {
        Some(from)
    } else {
        find_from(pool, c, from + 1)
    }
}

/// Where `c` is found in the pool once the pool holds it: at its first
/// occurrence, or at the end if it does not occur yet.
pub open spec fn pool_position(pool: Seq<u8>, c: Seq<u8>) -> int {
    match find_from(pool, c, 0) {
        Some(p) => p,
        None => pool.len() as int,
    }
}

/// The pool once it holds `c`: unchanged if `c` occurs in it, else with `c`
/// appended.
pub open spec fn pool_with(pool: Seq<u8>, c: Seq<u8>) -> Seq<u8> {
    match find_from(pool, c, 0) {
        Some(_) => pool,
        None => pool + c,
    }
}

/// `find_from` finds the least occurrence, and finds one whenever there is
/// one.
pub proof fn lemma_find_from(pool: Seq<u8>, c: Seq<u8>, from: int)
    requires
        0 <= from,
    ensures
        match find_from(pool, c, from) {
            Some(p) => from <= p && occurs_at(pool, c, p) && forall|q: int|
                from <= q < p ==> !occurs_at(pool, c, q),
            None => forall|q: int| from <= q ==> !occurs_at(pool, c, q),
        },
    decreases pool.len() + 1 - from,
{
    if from + c.len() > pool.len() {
    } else if occurs_at(pool, c, from) {
    } else {
        lemma_find_from(pool, c, from + 1);
    }
}

/// After interning, the constant stands in the pool at the position given,
/// and what the pool held before is still where it was.
pub proof fn lemma_pool_holds(pool: Seq<u8>, c: Seq<u8>)
    ensures
        occurs_at(pool_with(pool, c), c, pool_position(pool, c)),
        pool_with(pool, c).len() >= pool.len(),
        pool_with(pool, c).subrange(0, pool.len() as int) == pool,
{
    lemma_find_from(pool, c, 0);
    match find_from(pool, c, 0) {
        Some(p) => {
            assert(pool.subrange(0, pool.len() as int) =~= pool);
        },
        None => {
            assert((pool + c).subrange(pool.len() as int, (pool.len() + c.len()) as int) =~= c);
            assert((pool + c).subrange(0, pool.len() as int) =~= pool);
        },
    }
}

impl State {
    /// The empty state under a capability ceiling.
    pub fn new(cpu_level: CpuLevel) -> (s: State)
        ensures
            s@ == StateView::start(cpu_level),
    {
        State {
            code: Vec::new(),
            labels: Vec::new(),
            constants: Vec::new(),
            fixups: Vec::new(),
            cpu_level,
        }
    }

    /// Appends `bytes` to the code.
    pub fn emit(&mut self, bytes: &[u8])
        ensures
            final(self)@ == old(self)@.emit(bytes@),
    {
        self.code.extend_from_slice(bytes);
        assert(self.code@ =~= old(self).code@ + bytes@);
    }

    /// Declares `label` at the current end of the code.
    pub fn label(&mut self, label: u32)
        ensures
            final(self)@ == old(self)@.label(label),
    {
        let at = self.code.len();
        self.labels.push((label, at));
    }

    /// Records `fixup` for the site that starts `skip` bytes after the
    /// current end of the code.
    pub fn fixup(&mut self, skip: usize, fixup: Fixup)
        requires
            old(self).code.len() + skip <= usize::MAX,
        ensures
            final(self)@ == old(self)@.fixup(skip as nat, fixup),
    {
        let at = self.code.len() + skip;
        self.fixups.push((at, fixup));
    }

    /// Whether `c` stands in the pool at position `p`.
    fn occurs_at(&self, c: &[u8], p: usize) -> (r: bool)
        requires
            p + c@.len() <= self.constants@.len(),
        ensures
            r == occurs_at(self.constants@, c@, p as int),
    {
        let n = c.len();
        let m = self.constants.len();
        let mut k: usize = 0;
        while k < n
            invariant
                n == c@.len(),
                m == self.constants@.len(),
                k <= n,
                p + n <= m,
                forall|j: int| 0 <= j < k ==> self.constants@[p + j] == c@[j],
            decreases n - k,
        {
            if self.constants[p + k] != c[k] {
                proof {
                    let w = self.constants@.subrange(p as int, p + n);
                    assert(w[k as int] != c@[k as int]);
                }
                return false;
            }
            k += 1;
        }
        assert(self.constants@.subrange(p as int, p + n) =~= c@);
        true
    }

    /// Makes sure that the pool holds `c` and returns where: at its first
    /// occurrence, or at the end, where it is appended if it did not occur.
    pub fn constant(&mut self, c: &[u8]) -> (pos: usize)
        ensures
            final(self)@ == old(self)@.intern(c@),
            pos == pool_position(old(self).constants@, c@),
    {
        let n = c.len();
        let m = self.constants.len();
        if n == 0 {
            assert(self.constants@.subrange(0, 0) =~= c@);
            return 0;
        }
        let mut p: usize = 0;
        while n <= m && p <= m - n
            invariant
                0 < n == c@.len(),
                m == self.constants@.len(),
                *self == *old(self),
                find_from(self.constants@, c@, 0) == find_from(self.constants@, c@, p as int),
            decreases m + 1 - p,
        {
            if self.occurs_at(c, p) {
                return p;
            }
            p += 1;
        }
        self.constants.extend_from_slice(c);
        assert(self.constants@ =~= old(self).constants@ + c@);
        m
    }
}

/// `code` with `bytes` written over it from offset `at`.
pub open spec fn patch(code: Seq<u8>, at: int, bytes: Seq<u8>) -> Seq<u8> {
    Seq::new(
        code.len(),
        |k: int|
            if at <= k < at + bytes.len() {
                bytes[k - at]
            } else {
                code[k]
            },
    )
}

/// Writes `bytes` over `code` from offset `at`.
pub fn write_at(code: &mut Vec<u8>, at: usize, bytes: &[u8])
    requires
        at + bytes@.len() <= old(code)@.len(),
    ensures
        final(code)@ == patch(old(code)@, at as int, bytes@),
{
    let n = bytes.len();
    let total = code.len();
    let mut k: usize = 0;
    while k < n
        invariant
            n == bytes@.len(),
            k <= n,
            at + n <= total,
            code@.len() == total == old(code)@.len(),
            forall|j: int|
                0 <= j < code@.len() ==> code@[j] == (if at <= j < at + k {
                    bytes@[j - at]
                } else {
                    old(code)@[j]
                }),
        decreases n - k,
    {
        code[at + k] = bytes[k];
        k += 1;
    }
    assert(code@ =~= patch(old(code)@, at as int, bytes@));
}

} // verus!
