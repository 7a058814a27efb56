//! The library's model of a completed parse: an append-only node arena, a
//! block arena, and the source byte buffer, all held as plain values.
//!
//! A node refers to other nodes by index into the node arena.  The upstream
//! parser appends a node only after the nodes it refers to, so in a
//! well-formed arena every reference points strictly below the referring
//! node; that ordering is what `ParseData::wf` captures and what makes the
//! recursive tree conversion terminate.

use vstd::prelude::*;

verus! {

/// The literal and identifier node kinds: their text is read from the
/// source buffer via the node's span.
#[derive(Clone, Copy, Debug, PartialEq, Eq, Structural)]
pub enum LeafKind {
    Int,
    Float,
    Str,
    Name,
    Variable,
    True,
    False,
}

/// The operator node kinds that carry a canonical label.
#[derive(Clone, Copy, Debug, PartialEq, Eq, Structural)]
pub enum OpKind {
    Plus,
    Minus,
    Multiply,
    Divide,
    Equal,
    NotEqual,
    LessThan,
    GreaterThan,
    And,
    Or,
}

/// One node of the arena, with its references into the node and block
/// arenas held as plain indices.
pub enum NodeData {
    /// A literal, identifier or boolean node.
    Leaf(LeafKind),
    /// An operator node with a canonical label.
    Operator(OpKind),
    /// A let-binding: variable name, optional type annotation, initializer.
    Let { var: usize, ty: Option<usize>, init: usize, mutable: bool },
    /// A definition: name, parameters, optional return type, body block.
    Def { name: usize, params: usize, ret: Option<usize>, body: usize },
    /// A binary operation; `op` refers to the operator node.
    BinaryOp { lhs: usize, op: usize, rhs: usize },
    /// A list of items, in source order.
    List(Vec<usize>),
    /// A reference into the block arena.
    Block(usize),
    /// A conditional: condition, then-block, optional else-branch.
    If { cond: usize, then_block: usize, else_block: Option<usize> },
    /// A call: head first, then the arguments, in source order.
    Call(Vec<usize>),
    /// Any node kind the conversion does not recognise, carrying the
    /// parser's own textual dump of it.
    Other(String),
}

/// One arena node together with its span: the byte range
/// `[start, end)` of its literal text in the source buffer.
pub struct Node {
    pub kind: NodeData,
    pub start: usize,
    pub end: usize,
}

/// A completed parse, read-only to the conversion: the node arena, the
/// block arena (each block an ordered statement list of node indices),
/// and the original source bytes.
pub struct ParseData {
    pub nodes: Vec<Node>,
    pub blocks: Vec<Vec<usize>>,
    pub source: Vec<u8>,
}

impl ParseData {
    /// Every reference of node `i` resolves, and points strictly below `i`.
    pub open spec fn refs_ok(self, i: int) -> bool {
        match self.nodes@[i].kind {
            NodeData::Leaf(_) => true,
            NodeData::Operator(_) => true,
            NodeData::Other(_) => true,
            NodeData::Let { var, ty, init, mutable: _ } => {
                var < i && (ty matches Some(t) ==> t < i) && init < i
            },
            NodeData::Def { name, params, ret, body } => {
                name < i && params < i && (ret matches Some(r) ==> r < i) && body < i
            },
            NodeData::BinaryOp { lhs, op, rhs } => lhs < i && op < i && rhs < i,
            NodeData::List(items) => {
                forall|j: int| 0 <= j < items@.len() ==> #[trigger] items@[j] < i
            },
            NodeData::Block(b) => {
                b < self.blocks@.len() && forall|j: int|
                    0 <= j < self.blocks@[b as int]@.len() ==> #[trigger] self.blocks@[b as int]@[j] < i
            },
            NodeData::If { cond, then_block, else_block } => {
                cond < i && then_block < i && (else_block matches Some(e) ==> e < i)
            },
            NodeData::Call(parts) => {
                forall|j: int| 0 <= j < parts@.len() ==> #[trigger] parts@[j] < i
            },
        }
    }

    /// The span of node `i` is an in-bounds range of the source buffer.
    pub open spec fn span_ok(self, i: int) -> bool {
        self.nodes@[i].start <= self.nodes@[i].end <= self.source@.len()
    }

    /// Well-formedness of the whole arena: every node's references point
    /// strictly below it and its span lies within the source buffer.
    pub open spec fn wf(self) -> bool {
        forall|i: int| 0 <= i < self.nodes@.len() ==> #[trigger] self.refs_ok(i) && self.span_ok(i)
    }
}

/// True iff every index of `items` is strictly below `bound`.
fn ids_below(items: &Vec<usize>, bound: usize) -> (ok: bool)
    ensures
        ok == forall|j: int| 0 <= j < items@.len() ==> #[trigger] items@[j] < bound,
{
    let mut j: usize = 0;
    while j < items.len()
        invariant
            j <= items@.len(),
            forall|k: int| 0 <= k < j ==> #[trigger] items@[k] < bound,
        decreases items@.len() - j,
    {
        if items[j] >= bound {
            return false;
        }
        j += 1;
    }
    true
}

impl ParseData {
    /// Decides well-formedness of the arena at run time.
    pub fn check_wf(&self) -> (ok: bool)
        ensures
            ok == self.wf(),
    {
        let mut i: usize = 0;
        while i < self.nodes.len()
            invariant
                i <= self.nodes@.len(),
                forall|k: int| 0 <= k < i ==> #[trigger] self.refs_ok(k),
                forall|k: int| 0 <= k < i ==> #[trigger] self.span_ok(k),
            decreases self.nodes@.len() - i,
        {
            let node = &self.nodes[i];
            if !(node.start <= node.end && node.end <= self.source.len()) {
                assert(self.wf() ==> self.refs_ok(i as int) && self.span_ok(i as int));
                return false;
            }
            let refs_ok = match &node.kind {
                NodeData::Leaf(_) => true,
                NodeData::Operator(_) => true,
                NodeData::Other(_) => true,
                NodeData::Let { var, ty, init, mutable: _ } => {
                    *var < i && (match ty {
                        Some(t) => *t < i,
                        None => true,
                    }) && *init < i
                },
                NodeData::Def { name, params, ret, body } => {
                    *name < i && *params < i && (match ret {
                        Some(r) => *r < i,
                        None => true,
                    }) && *body < i
                },
                NodeData::BinaryOp { lhs, op, rhs } => *lhs < i && *op < i && *rhs < i,
                NodeData::List(items) => ids_below(items, i),
                NodeData::Block(b) => {
                    *b < self.blocks.len() && ids_below(&self.blocks[*b], i)
                },
                NodeData::If { cond, then_block, else_block } => {
                    *cond < i && *then_block < i && (match else_block {
                        Some(e) => *e < i,
                        None => true,
                    })
                },
                NodeData::Call(parts) => ids_below(parts, i),
            };
            if !refs_ok {
                assert(!self.refs_ok(i as int));
                assert(self.wf() ==> self.refs_ok(i as int) && self.span_ok(i as int));
                return false;
            }
            assert(self.refs_ok(i as int) && self.span_ok(i as int));
            i += 1;
        }
        true
    }
}

} // verus!
