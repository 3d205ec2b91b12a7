//! The finished artifact of an assembly.
use crate::error::Error;
use crate::hex::{hex_join, push_hex};
use vstd::prelude::*;
use vstd::string::StringExecFns;

verus! {

/// A target architecture.
#[derive(Clone, Copy, Debug, PartialEq, Structural)]
pub enum Arch {
    X86_64,
    Aarch64,
}

/// The result of assembling a program: the machine code, with every label
/// reference resolved and the constant pool at its end, and the offset of
/// each label, at which the code can be entered.
#[derive(Debug)]
pub struct Executable {
    arch: Arch,
    bytes: Vec<u8>,
    labels: Vec<(u32, usize)>,
}

/// The mathematical value of an [`Executable`].
pub struct ExecutableView {
    /// The architecture that the code is for.
    pub arch: Arch,
    /// The machine code.
    pub bytes: Seq<u8>,
    /// The labels in the order of their declaration, each with its offset.
    pub labels: Seq<(u32, usize)>,
}

impl ExecutableView {
    /// Whether every label points inside the code or to its end.
    pub open spec fn wf(self) -> bool {
        forall|k: int| 0 <= k < self.labels.len() ==> (#[trigger] self.labels[k]).1 <= self.bytes.len()
    }
}

impl View for Executable {
    type V = ExecutableView;

    closed spec fn view(&self) -> ExecutableView {
        ExecutableView { arch: self.arch, bytes: self.bytes@, labels: self.labels@ }
    }
}

/// What an entry point has returned, given what the program assembles to.
pub open spec fn assembled(r: Result<Executable, Error>, a: Result<ExecutableView, Error>) -> bool {
    match a {
        Ok(v) => r matches Ok(e) && e@ == v,
        Err(x) => r matches Err(e) && e == x,
    }
}

/// The address of the page that disassembles the instructions given in its
/// query.
pub open spec fn url_head() -> Seq<char> {
    "https://shell-storm.org/online/Online-Assembler-and-Disassembler/?opcodes="@
}

/// The rest of the query, which names the architecture.
pub open spec fn url_tail(arch: Arch) -> Seq<char> {
    match arch {
        Arch::X86_64 => "&arch=x86-64&endianness=little&baddr=0x00000000&dis_with_addr=True&dis_with_raw=True&dis_with_ins=True#disassembly"@,
        Arch::Aarch64 => "&arch=arm64&endianness=little&baddr=0x00000000&dis_with_addr=True&dis_with_raw=True&dis_with_ins=True#disassembly"@,
    }
}

/// The number of bytes that one instruction word takes in a listing: four on
/// AArch64, whose instructions are all of that size, one on x86-64.
pub open spec fn word_size(arch: Arch) -> int {
    match arch {
        Arch::X86_64 => 1,
        Arch::Aarch64 => 4,
    }
}

/// The offset of the first declaration of `label` at or after position `from`
/// of the label table.
pub open spec fn lookup_from(labels: Seq<(u32, usize)>, label: u32, from: int) -> Option<usize>
    decreases labels.len() - from,
{
    if from < 0 || from >= labels.len() {
        None
    } else if labels[from].0 == label {
        Some(labels[from].1)
    } else {
        lookup_from(labels, label, from + 1)
    }
}

/// The offset of a label: that of its first declaration.
pub open spec fn lookup(labels: Seq<(u32, usize)>, label: u32) -> Option<usize> {
    lookup_from(labels, label, 0)
}

/// A label has an offset exactly if it is declared, and the offset is that
/// of its first declaration.
pub proof fn lemma_lookup_from(labels: Seq<(u32, usize)>, label: u32, from: int)
    requires
        0 <= from,
    ensures
        match lookup_from(labels, label, from) {
            Some(off) => exists|k: int|
                from <= k < labels.len() && labels[k] == (label, off) && forall|j: int|
                    from <= j < k ==> labels[j].0 != label,
            None => forall|k: int| from <= k < labels.len() ==> labels[k].0 != label,
        },
    decreases labels.len() - from,
{
    if from >= labels.len() {
    } else if labels[from].0 == label {
        assert(labels[from] == (label, labels[from].1));
    } else {
        lemma_lookup_from(labels, label, from + 1);
    }
}

/// Finds the offset of a label in a label table.
pub fn find_label(labels: &Vec<(u32, usize)>, label: u32) -> (r: Option<usize>)
    ensures
        r == lookup(labels@, label),
{
    let mut k: usize = 0;
    while k < labels.len()
        invariant
            k <= labels.len(),
            lookup(labels@, label) == lookup_from(labels@, label, k as int),
        decreases labels.len() - k,
    {
        if labels[k].0 == label {
            return Some(labels[k].1);
        }
        k += 1;
    }
    None
}

impl Executable {
    /// Every label of an executable points inside its code or to its end.
    #[verifier::type_invariant]
    closed spec fn inv(self) -> bool {
        self@.wf()
    }

    /// An executable for `arch` that holds a copy of `code`.
    pub(crate) fn new(arch: Arch, code: &[u8], labels: Vec<(u32, usize)>) -> (e: Executable)
        requires
            (ExecutableView { arch, bytes: code@, labels: labels@ }).wf(),
        ensures
            e@ == (ExecutableView { arch, bytes: code@, labels: labels@ }),
    {
        let mut bytes: Vec<u8> = Vec::new();
        bytes.extend_from_slice(code);
        assert(bytes@ =~= code@);
        Executable { arch, bytes, labels }
    }

    /// The architecture that the code is for.
    pub fn arch(&self) -> (a: Arch)
        ensures
            a == self@.arch,
    {
        self.arch
    }

    /// A copy of the machine code.
    pub fn to_bytes(&self) -> (b: Vec<u8>)
        ensures
            b@ == self@.bytes,
    {
        let mut b: Vec<u8> = Vec::new();
        b.extend_from_slice(self.bytes.as_slice());
        assert(b@ =~= self.bytes@);
        b
    }

    /// The code in words of four bytes, each as eight hexadecimal digits in
    /// the order of its bytes, with a space between words.
    pub fn fmt_32(&self) -> (s: String)
        ensures
            s@ == hex_join(self@.bytes, 4, ' '),
    {
        let mut s = String::new();
        proof {
            reveal_strlit(" ");
        }
        push_hex(&mut s, self.bytes.as_slice(), 4, " ");
        assert(s@ =~= hex_join(self@.bytes, 4, ' '));
        s
    }

    /// The address of a page that disassembles the code: the code goes into
    /// the query in hexadecimal, word by word with `+` between words.
    pub fn fmt_url(&self) -> (s: String)
        ensures
            s@ == url_head() + hex_join(self@.bytes, word_size(self@.arch), '+') + url_tail(
                self@.arch,
            ),
    {
        let mut s = String::from_str(
            "https://shell-storm.org/online/Online-Assembler-and-Disassembler/?opcodes=",
        );
        proof {
            reveal_strlit("+");
        }
        match self.arch {
            Arch::X86_64 => {
                push_hex(&mut s, self.bytes.as_slice(), 1, "+");
                s.append(
                    "&arch=x86-64&endianness=little&baddr=0x00000000&dis_with_addr=True&dis_with_raw=True&dis_with_ins=True#disassembly",
                );
            },
            Arch::Aarch64 => {
                push_hex(&mut s, self.bytes.as_slice(), 4, "+");
                s.append(
                    "&arch=arm64&endianness=little&baddr=0x00000000&dis_with_addr=True&dis_with_raw=True&dis_with_ins=True#disassembly",
                );
            },
        }
        s
    }

    /// The number of bytes of machine code.
    pub fn len(&self) -> (n: usize)
        ensures
            n == self@.bytes.len(),
    {
        self.bytes.len()
    }

    /// The offset of a label, which is inside the code or at its end: where
    /// the code can be entered.
    pub fn label_offset(&self, label: u32) -> (r: Option<usize>)
        ensures
            r == lookup(self@.labels, label),
            r matches Some(off) ==> off <= self@.bytes.len(),
    {
        proof {
            use_type_invariant(self);
            lemma_lookup_from(self.labels@, label, 0);
        }
        find_label(&self.labels, label)
    }

    /// Checks an invocation before it is made: the entry offset must be inside
    /// the code, and an entry point takes at most two integer arguments.
    pub fn check_call(&self, offset: usize, iargs: &[u64]) -> (r: Result<(), Error>)
        ensures
            r == (if offset >= self@.bytes.len() {
                Err::<(), Error>(Error::InvalidOffset)
            } else if iargs@.len() > 2 {
                Err::<(), Error>(Error::InvalidArgs)
            } else {
                Ok::<(), Error>(())
            }),
    {
        if offset >= self.bytes.len() {
            return Err(Error::InvalidOffset);
        }
        if iargs.len() > 2 {
            return Err(Error::InvalidArgs);
        }
        Ok(())
    }
}

} // verus!
