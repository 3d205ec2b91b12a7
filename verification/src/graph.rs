//! A program as a graph of nodes: functions made of basic blocks, basic
//! blocks made of nodes, and nodes that take the values of earlier nodes.
use crate::bytes::{le_bytes, le_u32};
use vstd::prelude::*;
use vstd::slice::slice_to_vec;
use vstd::std_specs::convert::TryFromSpecImpl;
use vstd::string::StringExecFns;

verus! {

/// A failure to build a graph.
#[derive(Clone, Copy, Debug, PartialEq, Structural)]
pub enum Error {
    BadNodeRef,
    /// A size that sixteen bits cannot hold.
    SizeTooBig,
    /// More nodes in a function than sixteen bits can number.
    TooManyNodes,
    /// More basic blocks in a function than sixteen bits can number.
    TooManyBBs,
    /// More functions than sixteen bits can number.
    TooManyFunctions,
}

/// The size of a value in bytes.
#[derive(Debug, Clone, Copy)]
pub struct Size(pub u16);

/// The number of a node in its function.
#[derive(Debug, Clone, Copy)]
pub struct NodeRef(pub u16);

/// The number of a basic block in its function.
#[derive(Debug, Clone, Copy)]
pub struct BBRef(pub u16);

/// The number of a function.
#[derive(Debug, Clone, Copy)]
pub struct FuncRef(pub u16);

impl TryFrom<usize> for Size {
    type Error = Error;

    fn try_from(value: usize) -> (r: Result<Self, Self::Error>) {
        if value <= 0xffff {
            Ok(Self(value as u16))
        } else {
            Err(Error::SizeTooBig)
        }
    }
}

impl TryFromSpecImpl<usize> for Size {
    open spec fn obeys_try_from_spec() -> bool {
        true
    }

    open spec fn try_from_spec(value: usize) -> Result<Self, Self::Error> {
        if value <= 0xffff {
            Ok(Size(value as u16))
        } else {
            Err(Error::SizeTooBig)
        }
    }
}

impl TryFrom<usize> for NodeRef {
    type Error = Error;

    fn try_from(value: usize) -> (r: Result<Self, Self::Error>) {
        if value <= 0xffff {
            Ok(Self(value as u16))
        } else {
            Err(Error::TooManyNodes)
        }
    }
}

impl TryFromSpecImpl<usize> for NodeRef {
    open spec fn obeys_try_from_spec() -> bool {
        true
    }

    open spec fn try_from_spec(value: usize) -> Result<Self, Self::Error> {
        if value <= 0xffff {
            Ok(NodeRef(value as u16))
        } else {
            Err(Error::TooManyNodes)
        }
    }
}

impl TryFrom<usize> for BBRef {
    type Error = Error;

    fn try_from(value: usize) -> (r: Result<Self, Self::Error>) {
        if value <= 0xffff {
            Ok(Self(value as u16))
        } else {
            Err(Error::TooManyBBs)
        }
    }
}

impl TryFromSpecImpl<usize> for BBRef {
    open spec fn obeys_try_from_spec() -> bool {
        true
    }

    open spec fn try_from_spec(value: usize) -> Result<Self, Self::Error> {
        if value <= 0xffff {
            Ok(BBRef(value as u16))
        } else {
            Err(Error::TooManyBBs)
        }
    }
}

impl TryFrom<usize> for FuncRef {
    type Error = Error;

    fn try_from(value: usize) -> (r: Result<Self, Self::Error>) {
        if value <= 0xffff {
            Ok(Self(value as u16))
        } else {
            Err(Error::TooManyFunctions)
        }
    }
}

impl TryFromSpecImpl<usize> for FuncRef {
    open spec fn obeys_try_from_spec() -> bool {
        true
    }

    open spec fn try_from_spec(value: usize) -> Result<Self, Self::Error> {
        if value <= 0xffff {
            Ok(FuncRef(value as u16))
        } else {
            Err(Error::TooManyFunctions)
        }
    }
}

/// A node of the graph: an operation on the values of earlier nodes.
#[derive(Clone)]
#[allow(inconsistent_fields)]
pub enum Node {
    Nop,
    Const { bytes: Vec<u8> },
    Not { size: Size, params: [NodeRef; 1] },
    Load { size: Size, params: [NodeRef; 1] },
    StackAlloc { size: Size, params: [NodeRef; 1] },
    HeapAlloc { size: Size, params: [NodeRef; 1] },
    HeapFree { size: Size, params: [NodeRef; 1] },
    Ret { size: Size, params: [NodeRef; 1] },
    Add { size: Size, params: [NodeRef; 2] },
    Store { size: Size, params: [NodeRef; 2] },
}

impl Node {
    /// Whether the size of the node's value can be told: a constant must not
    /// be longer than sixteen bits can say.
    pub open spec fn sized(&self) -> bool {
        self matches Node::Const { bytes } ==> bytes@.len() <= 0xffff
    }

    /// The size of the node's value: nothing for `Nop`, the number of its
    /// bytes for a constant, the size given for any other node.
    pub open spec fn spec_size(&self) -> Size {
        match *self {
            Node::Nop => Size(0),
            Node::Const { bytes } => Size(bytes@.len() as u16),
            Node::Add { size, .. }
            | Node::Not { size, .. }
            | Node::Load { size, .. }
            | Node::Store { size, .. }
            | Node::StackAlloc { size, .. }
            | Node::HeapAlloc { size, .. }
            | Node::HeapFree { size, .. }
            | Node::Ret { size, .. } => size,
        }
    }

    /// The nodes whose values the node takes.
    pub open spec fn spec_params(&self) -> Seq<NodeRef> {
        match *self {
            Node::Nop | Node::Const { .. } => Seq::empty(),
            Node::Add { params, .. } | Node::Store { params, .. } => params@,
            Node::Not { params, .. }
            | Node::Load { params, .. }
            | Node::StackAlloc { params, .. }
            | Node::HeapAlloc { params, .. }
            | Node::HeapFree { params, .. }
            | Node::Ret { params, .. } => params@,
        }
    }

    /// The name of the node's operation.
    pub open spec fn spec_op(&self) -> Seq<char> {
        match *self {
            Node::Nop => "Nop"@,
            Node::Const { .. } => "Const"@,
            Node::Add { .. } => "Add"@,
            Node::Not { .. } => "Not"@,
            Node::Load { .. } => "Load"@,
            Node::Store { .. } => "Store"@,
            Node::StackAlloc { .. } => "StackAlloc"@,
            Node::HeapAlloc { .. } => "HeapAlloc"@,
            Node::HeapFree { .. } => "HeapFree"@,
            Node::Ret { .. } => "Ret"@,
        }
    }

    /// The size of the node's value.
    pub fn size(&self, func: &Func) -> (res: Size)
        requires
            self.sized(),
        ensures
            res == self.spec_size(),
    {
        match self {
            Node::Nop => Size(0),
            Node::Const { bytes } => Size(bytes.len() as u16),
            Node::Add { size, .. }
            | Node::Not { size, .. }
            | Node::Load { size, .. }
            | Node::Store { size, .. }
            | Node::StackAlloc { size, .. }
            | Node::HeapAlloc { size, .. }
            | Node::HeapFree { size, .. }
            | Node::Ret { size, .. } => *size,
        }
    }

    /// The nodes whose values the node takes.
    pub fn params(&self, func: &Func) -> (res: &[NodeRef])
        ensures
            res@ == self.spec_params(),
    {
        match self {
            Node::Nop | Node::Const { .. } => {
                let none: &[NodeRef; 0] = &[];
                none.as_slice()
            },
            Node::Add { params, .. } | Node::Store { params, .. } => params.as_slice(),
            Node::Not { params, .. }
            | Node::Load { params, .. }
            | Node::StackAlloc { params, .. }
            | Node::HeapAlloc { params, .. }
            | Node::HeapFree { params, .. }
            | Node::Ret { params, .. } => params.as_slice(),
        }
    }

    /// The name of the node's operation.
    pub fn op(&self) -> (res: &'static str)
        ensures
            res@ == self.spec_op(),
    {
        match self {
            Node::Nop => "Nop",
            Node::Const { .. } => "Const",
            Node::Add { .. } => "Add",
            Node::Not { .. } => "Not",
            Node::Load { .. } => "Load",
            Node::Store { .. } => "Store",
            Node::StackAlloc { .. } => "StackAlloc",
            Node::HeapAlloc { .. } => "HeapAlloc",
            Node::HeapFree { .. } => "HeapFree",
            Node::Ret { .. } => "Ret",
        }
    }
}

/// A basic block: the nodes that it holds, in order.
#[derive(Clone, Default)]
pub struct BB {
    noderefs: Vec<NodeRef>,
}

impl View for BB {
    type V = Seq<NodeRef>;

    closed spec fn view(&self) -> Seq<NodeRef> {
        self.noderefs@
    }
}

impl BB {
    /// An empty basic block.
    pub fn new() -> (bb: Self)
        ensures
            bb@ == Seq::<NodeRef>::empty(),
    {
        Self { noderefs: Vec::new() }
    }

    /// The nodes of the block, looked up in their function.
    pub fn nodes<'func, 's: 'func>(&'s self, func: &'func Func) -> (res: Vec<&'func Node>)
        requires
            forall|k: int| 0 <= k < self@.len() ==> (#[trigger] self@[k]).0 < func@.nodes.len(),
        ensures
            res@.len() == self@.len(),
            forall|k: int| 0 <= k < self@.len() ==> *res@[k] == func@.nodes[self@[k].0 as int],
    {
        let mut res: Vec<&'func Node> = Vec::new();
        let mut k: usize = 0;
        while k < self.noderefs.len()
            invariant
                k <= self.noderefs.len(),
                forall|j: int| 0 <= j < self@.len() ==> (#[trigger] self@[j]).0 < func@.nodes.len(),
                res@.len() == k,
                forall|j: int| 0 <= j < k ==> *res@[j] == func@.nodes[self@[j].0 as int],
            decreases self.noderefs.len() - k,
        {
            assert(self@[k as int].0 < func@.nodes.len());
            res.push(func.node(self.noderefs[k]));
            k += 1;
        }
        res
    }

    /// The numbers of the nodes of the block.
    pub fn noderefs(&self) -> (res: &[NodeRef])
        ensures
            res@ == self@,
    {
        self.noderefs.as_slice()
    }
}

/// A function: its nodes, and the basic blocks among which they are divided.
#[derive(Clone, Default)]
pub struct Func {
    name: String,
    bbs: Vec<BB>,
    nodes: Vec<Node>,
    bbrefs: Vec<BBRef>,
}

/// The mathematical value of a [`Func`].
pub struct FuncView {
    pub name: Seq<char>,
    /// The basic blocks, each the numbers of its nodes.
    pub blocks: Seq<Seq<NodeRef>>,
    pub nodes: Seq<Node>,
    /// The basic blocks in the order in which they are laid out.
    pub order: Seq<BBRef>,
}

impl View for Func {
    type V = FuncView;

    closed spec fn view(&self) -> FuncView {
        FuncView {
            name: self.name@,
            blocks: Seq::new(self.bbs@.len(), |k: int| self.bbs@[k]@),
            nodes: self.nodes@,
            order: self.bbrefs@,
        }
    }
}

impl FuncView {
    /// Whether the function is well formed: it has a basic block, every block
    /// in the layout exists, and every node of a block exists.
    pub open spec fn wf(self) -> bool {
        &&& self.blocks.len() > 0
        &&& forall|k: int| 0 <= k < self.order.len() ==> (#[trigger] self.order[k]).0 < self.blocks.len()
        &&& forall|b: int, k: int|
            0 <= b < self.blocks.len() && 0 <= k < self.blocks[b].len() ==> (
            #[trigger] self.blocks[b][k]).0 < self.nodes.len()
    }

    /// The function with a node added to its last basic block.
    pub open spec fn with_node(self, node: Node) -> FuncView {
        FuncView {
            blocks: self.blocks.update(
                self.blocks.len() - 1,
                self.blocks.last().push(NodeRef(self.nodes.len() as u16)),
            ),
            nodes: self.nodes.push(node),
            ..self
        }
    }

    /// The function with a new, empty basic block after its last.
    pub open spec fn with_block(self) -> FuncView {
        FuncView { blocks: self.blocks.push(Seq::empty()), ..self }
    }
}

impl Func {
    /// A function of the given name with one empty basic block and no nodes.
    pub fn new(name: &str) -> (f: Self)
        ensures
            f@ == (FuncView {
                name: name@,
                blocks: seq![Seq::<NodeRef>::empty()],
                nodes: Seq::<Node>::empty(),
                order: seq![BBRef(0)],
            }),
            f@.wf(),
    {
        let mut bbs: Vec<BB> = Vec::new();
        bbs.push(BB::new());
        let mut bbrefs: Vec<BBRef> = Vec::new();
        bbrefs.push(BBRef(0));
        let f = Func { name: String::from_str(name), bbs, nodes: Vec::new(), bbrefs };
        assert(f@.blocks =~= seq![Seq::<NodeRef>::empty()]);
        assert(f@.order =~= seq![BBRef(0)]);
        f
    }

    /// Adds a node to the last basic block and returns its number, unless
    /// the function has as many nodes as sixteen bits can number.
    pub fn add_node(&mut self, node: Node) -> (r: Result<NodeRef, Error>)
        requires
            old(self)@.wf(),
        ensures
            final(self)@.wf(),
            match r {
                Ok(n) => old(self)@.nodes.len() <= 0xffff && n == NodeRef(
                    old(self)@.nodes.len() as u16,
                ) && final(self)@ == old(self)@.with_node(node),
                Err(e) => e == Error::TooManyNodes && old(self)@.nodes.len() > 0xffff && final(self)@ == old(self)@,
            },
    {
        let count = self.nodes.len();
        if count > 0xffff {
            return Err(Error::TooManyNodes);
        }
        let noderef = NodeRef(count as u16);
        let last = self.bbs.len() - 1;
        let mut bb = BB::new();
        core::mem::swap(&mut bb, &mut self.bbs[last]);
        bb.noderefs.push(noderef);
        core::mem::swap(&mut bb, &mut self.bbs[last]);
        self.nodes.push(node);
        proof {
            assert(self@.blocks =~= old(self)@.with_node(node).blocks);
            assert forall|b: int, k: int|
                0 <= b < self@.blocks.len() && 0 <= k < self@.blocks[b].len() implies (
            #[trigger] self@.blocks[b][k]).0 < self@.nodes.len() by {
                if b == last && k == self@.blocks[b].len() - 1 {
                } else {
                    assert(self@.blocks[b][k] == old(self)@.blocks[b][k]);
                }
            }
        }
        Ok(noderef)
    }

    /// Adds a constant of four bytes: `val`, least significant byte first.
    pub fn u32_le(&mut self, val: u32) -> (r: Result<NodeRef, Error>)
        requires
            old(self)@.wf(),
        ensures
            final(self)@.wf(),
            match r {
                Ok(n) => old(self)@.nodes.len() <= 0xffff && n == NodeRef(
                    old(self)@.nodes.len() as u16,
                ) && final(self)@.nodes.len() == old(self)@.nodes.len() + 1 && (final(self)@.nodes.last() matches Node::Const { bytes } && bytes@ == le_bytes(val as int, 4))
                    && final(self)@ == old(self)@.with_node(final(self)@.nodes.last()),
                Err(e) => e == Error::TooManyNodes && old(self)@.nodes.len() > 0xffff && final(self)@ == old(self)@,
            },
    {
        let le = le_u32(val);
        let bytes = slice_to_vec(le.as_slice());
        self.add_node(Node::Const { bytes })
    }

    /// Adds a return of the value of a node, which ends the basic block: a
    /// new, empty block follows.
    pub fn ret(&mut self, value: NodeRef) -> (r: Result<NodeRef, Error>)
        requires
            old(self)@.wf(),
            value.0 < old(self)@.nodes.len(),
            old(self)@.nodes[value.0 as int].sized(),
        ensures
            final(self)@.wf(),
            match r {
                Ok(n) => old(self)@.nodes.len() <= 0xffff && n == NodeRef(
                    old(self)@.nodes.len() as u16,
                ) && final(self)@ == old(self)@.with_node(
                    Node::Ret {
                        size: old(self)@.nodes[value.0 as int].spec_size(),
                        params: [value],
                    },
                ).with_block(),
                Err(e) => e == Error::TooManyNodes && old(self)@.nodes.len() > 0xffff && final(self)@ == old(self)@.with_block(),
            },
    {
        let size = self.node(value).size(self);
        let res = self.add_node(Node::Ret { size, params: [value] });
        let ghost mid = self@;
        self.bbs.push(BB::new());
        proof {
            assert(self@.blocks =~= mid.with_block().blocks);
            assert forall|b: int, k: int|
                0 <= b < self@.blocks.len() && 0 <= k < self@.blocks[b].len() implies (
            #[trigger] self@.blocks[b][k]).0 < self@.nodes.len() by {
                assert(self@.blocks[b][k] == mid.blocks[b][k]);
            }
        }
        res
    }

    /// Whether the function is well formed.  One that this library has built
    /// is; the default function, which has no basic block, is not.
    pub fn is_wf(&self) -> (b: bool)
        ensures
            b == self@.wf(),
    {
        if self.bbs.len() == 0 {
            return false;
        }
        let mut k: usize = 0;
        while k < self.bbrefs.len()
            invariant
                k <= self.bbrefs.len(),
                forall|j: int| 0 <= j < k ==> (#[trigger] self@.order[j]).0 < self@.blocks.len(),
            decreases self.bbrefs.len() - k,
        {
            if self.bbrefs[k].0 as usize >= self.bbs.len() {
                assert(!(self@.order[k as int].0 < self@.blocks.len()));
                return false;
            }
            k += 1;
        }
        let mut b: usize = 0;
        while b < self.bbs.len()
            invariant
                b <= self.bbs.len(),
                forall|i: int, j: int|
                    0 <= i < b && 0 <= j < self@.blocks[i].len() ==> (
                    #[trigger] self@.blocks[i][j]).0 < self@.nodes.len(),
            decreases self.bbs.len() - b,
        {
            let refs = self.bbs[b].noderefs();
            assert(refs@ == self@.blocks[b as int]);
            let mut j: usize = 0;
            while j < refs.len()
                invariant
                    b < self.bbs.len(),
                    refs@ == self@.blocks[b as int],
                    j <= refs.len(),
                    forall|i: int| 0 <= i < j ==> (#[trigger] refs@[i]).0 < self@.nodes.len(),
                decreases refs.len() - j,
            {
                if refs[j].0 as usize >= self.nodes.len() {
                    assert(!(self@.blocks[b as int][j as int].0 < self@.nodes.len()));
                    return false;
                }
                j += 1;
            }
            b += 1;
        }
        true
    }

    /// The name of the function.
    pub fn name(&self) -> (s: &str)
        ensures
            s@ == self@.name,
    {
        self.name.as_str()
    }

    /// The node of a given number.
    pub fn node(&self, noderef: NodeRef) -> (n: &Node)
        requires
            noderef.0 < self@.nodes.len(),
        ensures
            *n == self@.nodes[noderef.0 as int],
    {
        &self.nodes[noderef.0 as usize]
    }

    /// The basic block of a given number.
    pub fn bb(&self, bbref: BBRef) -> (b: &BB)
        requires
            bbref.0 < self@.blocks.len(),
        ensures
            b@ == self@.blocks[bbref.0 as int],
    {
        &self.bbs[bbref.0 as usize]
    }

    /// The machine code of the function: none yet, whatever the function.
    pub fn compile(&self) -> (r: Result<Vec<u8>, Error>)
        ensures
            r matches Ok(code) && code@ == Seq::<u8>::empty(),
    {
        Ok(Vec::new())
    }

    /// The basic blocks in the order in which they are laid out.
    pub fn bbs(&self) -> (res: Vec<&BB>)
        requires
            self@.wf(),
        ensures
            res@.len() == self@.order.len(),
            forall|k: int|
                0 <= k < res@.len() ==> res@[k]@ == self@.blocks[self@.order[k].0 as int],
    {
        let mut res: Vec<&BB> = Vec::new();
        let mut k: usize = 0;
        while k < self.bbrefs.len()
            invariant
                self@.wf(),
                k <= self.bbrefs.len(),
                res@.len() == k,
                forall|j: int| 0 <= j < k ==> res@[j]@ == self@.blocks[self@.order[j].0 as int],
            decreases self.bbrefs.len() - k,
        {
            assert(self@.order[k as int].0 < self@.blocks.len());
            res.push(self.bb(self.bbrefs[k]));
            k += 1;
        }
        res
    }

    /// The numbers of the basic blocks in the order in which they are laid
    /// out.
    pub fn bbrefs(&self) -> (res: &[BBRef])
        ensures
            res@ == self@.order,
    {
        self.bbrefs.as_slice()
    }
}

/// A set of functions to compile.
#[derive(Clone)]
pub struct EJit {
    functions: Vec<Func>,
}

impl View for EJit {
    type V = Seq<FuncView>;

    closed spec fn view(&self) -> Seq<FuncView> {
        Seq::new(self.functions@.len(), |k: int| self.functions@[k]@)
    }
}

impl EJit {
    /// No functions.
    pub fn new() -> (e: Self)
        ensures
            e@ == Seq::<FuncView>::empty(),
    {
        let e = EJit { functions: Vec::new() };
        assert(e@ =~= Seq::<FuncView>::empty());
        e
    }

    /// The machine code of the functions: none yet, whatever the functions.
    pub fn compile(&self) -> (r: Result<Vec<u8>, Error>)
        ensures
            r matches Ok(code) && code@ == Seq::<u8>::empty(),
    {
        let mut k: usize = 0;
        while k < self.functions.len()
            invariant
                k <= self.functions.len(),
            decreases self.functions.len() - k,
        {
            match self.functions[k].compile() {
                Ok(_) => {},
                Err(e) => {
                    return Err(e);
                },
            }
            k += 1;
        }
        Ok(Vec::new())
    }

    /// Adds a function after those that are there.
    pub fn add_func(&mut self, func: Func)
        ensures
            final(self)@ == old(self)@.push(func@),
    {
        self.functions.push(func);
        assert(self@ =~= old(self)@.push(func@));
    }
}

} // verus!
