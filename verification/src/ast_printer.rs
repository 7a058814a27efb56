//! The conversion core: classifies each arena node, extracts literal text,
//! and recursively builds the generic output tree.
//!
//! `spec_node` is the mathematical statement of the whole conversion: every
//! executable path is proved to return exactly that tree.

use vstd::prelude::*;

use crate::arena::{LeafKind, NodeData, OpKind, ParseData};
use crate::text::{decode_span, span_text, strip_outer_quotes, strip_quotes};

verus! {

/// The closed set of output type tags.
#[derive(Clone, Copy, Debug, PartialEq, Eq, Structural)]
pub enum NodeType {
    Integer,
    Float,
    String,
    Name,
    Variable,
    Boolean,
    Let,
    MutableLet,
    Definition,
    BinaryOp,
    List,
    Block,
    If,
    Call,
    Unknown,
}

/// One record of the output tree: a type tag, an optional name, an optional
/// literal value, and the ordered children.
#[derive(Debug)]
pub struct AstOutput {
    pub node_type: NodeType,
    pub name: Option<String>,
    pub value: Option<String>,
    pub children: Vec<AstOutput>,
}

/// The mathematical form of an output record, with text as character
/// sequences and children as a sequence of trees.
#[verifier::ext_equal]
pub ghost struct TreeV {
    pub node_type: NodeType,
    pub name: Option<Seq<char>>,
    pub value: Option<Seq<char>>,
    pub children: Seq<TreeV>,
}

impl AstOutput {
    /// The tree this record represents, all text abstracted to sequences.
    pub open spec fn deep(self) -> TreeV
        decreases self,
    {
        TreeV {
            node_type: self.node_type,
            name: match self.name {
                Some(s) => Some(s@),
                None => None,
            },
            value: match self.value {
                Some(s) => Some(s@),
                None => None,
            },
            children: deep_seq(self.children@),
        }
    }
}

/// The trees that a sequence of output records represents, in order.
pub open spec fn deep_seq(s: Seq<AstOutput>) -> Seq<TreeV>
    decreases s,
{
    if s.len() == 0 {
        Seq::empty()
    } else {
        deep_seq(s.drop_last()).push(s.last().deep())
    }
}

pub proof fn lemma_deep_seq_push(s: Seq<AstOutput>, x: AstOutput)
    ensures
        deep_seq(s.push(x)) == deep_seq(s).push(x.deep()),
{
    assert(s.push(x).drop_last() =~= s);
    assert(s.push(x).last() == x);
}

/// The tree of an empty program: a Block record with no children.
pub open spec fn empty_block_tree() -> TreeV {
    TreeV { node_type: NodeType::Block, name: None, value: None, children: Seq::empty() }
}

/// The type tag of a literal, identifier or boolean node.
pub open spec fn leaf_type(l: LeafKind) -> NodeType {
    match l {
        LeafKind::Int => NodeType::Integer,
        LeafKind::Float => NodeType::Float,
        LeafKind::Str => NodeType::String,
        LeafKind::Name => NodeType::Name,
        LeafKind::Variable => NodeType::Variable,
        LeafKind::True => NodeType::Boolean,
        LeafKind::False => NodeType::Boolean,
    }
}

/// The canonical label of an operator.
pub open spec fn op_label(o: OpKind) -> Seq<char> {
    match o {
        OpKind::Plus => "Add"@,
        OpKind::Minus => "Subtract"@,
        OpKind::Multiply => "Multiply"@,
        OpKind::Divide => "Divide"@,
        OpKind::Equal => "Equal"@,
        OpKind::NotEqual => "NotEqual"@,
        OpKind::LessThan => "LessThan"@,
        OpKind::GreaterThan => "GreaterThan"@,
        OpKind::And => "And"@,
        OpKind::Or => "Or"@,
    }
}

/// The parser's textual dump of a bare operator node, used as the name of
/// the Unknown record such a node degrades to.
pub open spec fn op_dump(o: OpKind) -> Seq<char> {
    match o {
        OpKind::Plus => "Plus"@,
        OpKind::Minus => "Minus"@,
        OpKind::Multiply => "Multiply"@,
        OpKind::Divide => "Divide"@,
        OpKind::Equal => "Equal"@,
        OpKind::NotEqual => "NotEqual"@,
        OpKind::LessThan => "LessThan"@,
        OpKind::GreaterThan => "GreaterThan"@,
        OpKind::And => "And"@,
        OpKind::Or => "Or"@,
    }
}

/// The BinaryOp name derived from the operator node's kind: the canonical
/// label for a recognised operator, and a silent fallback otherwise.
pub open spec fn binop_label(k: NodeData) -> Seq<char> {
    match k {
        NodeData::Operator(o) => op_label(o),
        _ => "UnknownOp"@,
    }
}

/// The literal text of node `id`: its span's byte range of the source
/// buffer, lossily decoded.
pub open spec fn node_text(data: ParseData, id: int) -> Seq<char> {
    span_text(data.source@, data.nodes@[id].start as int, data.nodes@[id].end as int)
}

/// The literal value stored for leaf node `id`: its span's text, with the
/// outer quotes stripped when the node is a string literal.
pub open spec fn leaf_value(data: ParseData, id: int, l: LeafKind) -> Seq<char> {
    if l == LeafKind::Str {
        strip_quotes(node_text(data, id))
    } else {
        node_text(data, id)
    }
}

/// The tree that converting node `id` of a well-formed arena yields.
pub open spec fn spec_node(data: ParseData, id: int) -> TreeV
    decreases id, 1int, 0int
        when data.wf() && 0 <= id < data.nodes@.len()
{
    proof {
        assert(data.refs_ok(id));
    }
    match data.nodes@[id].kind {
        NodeData::Leaf(l) => TreeV {
            node_type: leaf_type(l),
            name: None,
            value: Some(leaf_value(data, id, l)),
            children: Seq::empty(),
        },
        NodeData::Operator(o) => TreeV {
            node_type: NodeType::Unknown,
            name: Some(op_dump(o)),
            value: None,
            children: Seq::empty(),
        },
        NodeData::Other(s) => TreeV {
            node_type: NodeType::Unknown,
            name: Some(s@),
            value: None,
            children: Seq::empty(),
        },
        NodeData::Let { var, ty, init, mutable } => TreeV {
            node_type: if mutable {
                NodeType::MutableLet
            } else {
                NodeType::Let
            },
            name: None,
            value: None,
            children: match ty {
                Some(t) => seq![
                    spec_node(data, var as int),
                    spec_node(data, t as int),
                    spec_node(data, init as int),
                ],
                None => seq![spec_node(data, var as int), spec_node(data, init as int)],
            },
        },
        NodeData::Def { name, params, ret, body } => TreeV {
            node_type: NodeType::Definition,
            name: None,
            value: None,
            children: match ret {
                Some(rt) => seq![
                    spec_node(data, name as int),
                    spec_node(data, params as int),
                    spec_node(data, rt as int),
                    spec_node(data, body as int),
                ],
                None => seq![
                    spec_node(data, name as int),
                    spec_node(data, params as int),
                    spec_node(data, body as int),
                ],
            },
        },
        NodeData::BinaryOp { lhs, op, rhs } => TreeV {
            node_type: NodeType::BinaryOp,
            name: Some(binop_label(data.nodes@[op as int].kind)),
            value: None,
            children: seq![spec_node(data, lhs as int), spec_node(data, rhs as int)],
        },
        NodeData::List(items) => TreeV {
            node_type: NodeType::List,
            name: None,
            value: None,
            children: spec_children(data, items@, id),
        },
        NodeData::Block(b) => TreeV {
            node_type: NodeType::Block,
            name: None,
            value: None,
            children: spec_children(data, data.blocks@[b as int]@, id),
        },
        NodeData::If { cond, then_block, else_block } => TreeV {
            node_type: NodeType::If,
            name: None,
            value: None,
            children: match else_block {
                Some(e) => seq![
                    spec_node(data, cond as int),
                    spec_node(data, then_block as int),
                    spec_node(data, e as int),
                ],
                None => seq![
                    spec_node(data, cond as int),
                    spec_node(data, then_block as int),
                ],
            },
        },
        NodeData::Call(parts) => TreeV {
            node_type: NodeType::Call,
            name: None,
            value: None,
            children: spec_children(data, parts@, id),
        },
    }
}

/// The trees of the given child nodes, in order; every id lies strictly
/// below `bound`, the index of the parent node.
pub open spec fn spec_children(data: ParseData, ids: Seq<usize>, bound: int) -> Seq<TreeV>
    decreases bound, 0int, ids.len()
        when data.wf() && 0 <= bound <= data.nodes@.len() && (forall|j: int|
            0 <= j < ids.len() ==> #[trigger] ids[j] < bound)
{
    if ids.len() == 0 {
        Seq::empty()
    } else {
        spec_children(data, ids.drop_last(), bound).push(spec_node(data, ids.last() as int))
    }
}

pub proof fn lemma_spec_children_push(data: ParseData, ids: Seq<usize>, x: usize, bound: int)
    requires
        data.wf(),
        0 <= bound <= data.nodes@.len(),
        forall|j: int| 0 <= j < ids.len() ==> #[trigger] ids[j] < bound,
        x < bound,
    ensures
        spec_children(data, ids.push(x), bound) == spec_children(data, ids, bound).push(
            spec_node(data, x as int),
        ),
{
    assert(forall|j: int| 0 <= j < ids.push(x).len() ==> #[trigger] ids.push(x)[j] < bound);
    assert(ids.push(x).drop_last() =~= ids);
    assert(ids.push(x).last() == x);
}

impl AstOutput {
    /// A record with the given tag and no name, value or children.
    pub fn new(node_type: NodeType) -> (out: Self)
        ensures
            out.node_type == node_type,
            out.name is None,
            out.value is None,
            out.children@ == Seq::<AstOutput>::empty(),
    {
        AstOutput { node_type, name: None, value: None, children: Vec::new() }
    }

    /// The same record with its name set.
    pub fn with_name(self, name: String) -> (out: Self)
        ensures
            out.node_type == self.node_type,
            out.name == Some(name),
            out.value == self.value,
            out.children == self.children,
    {
        AstOutput { node_type: self.node_type, name: Some(name), value: self.value, children: self.children }
    }

    /// The same record with its literal value set.
    pub fn with_value(self, value: String) -> (out: Self)
        ensures
            out.node_type == self.node_type,
            out.name == self.name,
            out.value == Some(value),
            out.children == self.children,
    {
        AstOutput { node_type: self.node_type, name: self.name, value: Some(value), children: self.children }
    }

    /// The same record with its children replaced.
    pub fn with_children(self, children: Vec<AstOutput>) -> (out: Self)
        ensures
            out.node_type == self.node_type,
            out.name == self.name,
            out.value == self.value,
            out.children == children,
    {
        AstOutput { node_type: self.node_type, name: self.name, value: self.value, children }
    }
}

proof fn lemma_deep_seq2(a: AstOutput, b: AstOutput)
    ensures
        deep_seq(seq![a, b]) == seq![a.deep(), b.deep()],
{
    reveal_with_fuel(deep_seq, 3);
    assert(seq![a, b].drop_last() =~= seq![a]);
    assert(seq![a].drop_last() =~= Seq::<AstOutput>::empty());
    assert(deep_seq(seq![a, b]) =~= seq![a.deep(), b.deep()]);
}

proof fn lemma_deep_seq3(a: AstOutput, b: AstOutput, c: AstOutput)
    ensures
        deep_seq(seq![a, b, c]) == seq![a.deep(), b.deep(), c.deep()],
{
    assert(seq![a, b, c].drop_last() =~= seq![a, b]);
    lemma_deep_seq2(a, b);
    assert(deep_seq(seq![a, b, c]) =~= seq![a.deep(), b.deep(), c.deep()]);
}

proof fn lemma_deep_seq4(a: AstOutput, b: AstOutput, c: AstOutput, d: AstOutput)
    ensures
        deep_seq(seq![a, b, c, d]) == seq![a.deep(), b.deep(), c.deep(), d.deep()],
{
    assert(seq![a, b, c, d].drop_last() =~= seq![a, b, c]);
    lemma_deep_seq3(a, b, c);
    assert(deep_seq(seq![a, b, c, d]) =~= seq![a.deep(), b.deep(), c.deep(), d.deep()]);
}

/// The canonical label of an operator, as a string.
fn op_label_str(o: OpKind) -> (r: String)
    ensures
        r@ == op_label(o),
{
    match o {
        OpKind::Plus => "Add".to_owned(),
        OpKind::Minus => "Subtract".to_owned(),
        OpKind::Multiply => "Multiply".to_owned(),
        OpKind::Divide => "Divide".to_owned(),
        OpKind::Equal => "Equal".to_owned(),
        OpKind::NotEqual => "NotEqual".to_owned(),
        OpKind::LessThan => "LessThan".to_owned(),
        OpKind::GreaterThan => "GreaterThan".to_owned(),
        OpKind::And => "And".to_owned(),
        OpKind::Or => "Or".to_owned(),
    }
}

/// The parser's dump of a bare operator node, as a string.
fn op_dump_str(o: OpKind) -> (r: String)
    ensures
        r@ == op_dump(o),
{
    match o {
        OpKind::Plus => "Plus".to_owned(),
        OpKind::Minus => "Minus".to_owned(),
        OpKind::Multiply => "Multiply".to_owned(),
        OpKind::Divide => "Divide".to_owned(),
        OpKind::Equal => "Equal".to_owned(),
        OpKind::NotEqual => "NotEqual".to_owned(),
        OpKind::LessThan => "LessThan".to_owned(),
        OpKind::GreaterThan => "GreaterThan".to_owned(),
        OpKind::And => "And".to_owned(),
        OpKind::Or => "Or".to_owned(),
    }
}

/// Walks a completed parse and builds the output tree for any of its nodes.
pub struct AstPrinter<'a> {
    pub data: &'a ParseData,
}

impl<'a> AstPrinter<'a> {
    pub fn new(data: &'a ParseData) -> (p: Self)
        ensures
            p.data == data,
    {
        AstPrinter { data }
    }

    /// Converts node `node_id`: the returned record is exactly the tree
    /// that `spec_node` states for it.
    pub fn process_node(&self, node_id: usize) -> (out: AstOutput)
        requires
            self.data.wf(),
            node_id < self.data.nodes@.len(),
        ensures
            out.deep() == spec_node(*self.data, node_id as int),
        decreases node_id as int, 2int, 0int,
    {
        proof {
            assert(self.data.refs_ok(node_id as int));
        }
        let node = &self.data.nodes[node_id];
        match &node.kind {
            NodeData::Leaf(l) => match l {
                LeafKind::True | LeafKind::False => self.process_boolean_node(node_id, *l),
                _ => self.process_literal_node(node_id, *l),
            },
            NodeData::Operator(o) => {
                let out = AstOutput::new(NodeType::Unknown).with_name(op_dump_str(*o));
                proof {
                    assert(out.deep() =~= spec_node(*self.data, node_id as int));
                }
                out
            },
            NodeData::Other(s) => {
                let out = AstOutput::new(NodeType::Unknown).with_name(s.clone());
                proof {
                    assert(out.deep() =~= spec_node(*self.data, node_id as int));
                }
                out
            },
            NodeData::Let { var, ty, init, mutable } => {
                self.process_let_node(*var, *ty, *init, *mutable, Ghost(node_id))
            },
            NodeData::Def { name, params, ret, body } => {
                self.process_def_node(*name, *params, *ret, *body, Ghost(node_id))
            },
            NodeData::BinaryOp { lhs, op, rhs } => {
                self.process_binary_op(*lhs, *op, *rhs, Ghost(node_id))
            },
            NodeData::List(items) => self.process_list_node(items, Ghost(node_id)),
            NodeData::Block(b) => self.process_block_node(*b, Ghost(node_id)),
            NodeData::If { cond, then_block, else_block } => {
                self.process_if_node(*cond, *then_block, *else_block, Ghost(node_id))
            },
            NodeData::Call(parts) => self.process_call_node(parts, Ghost(node_id)),
        }
    }

    /// The literal text of the node's span, lossily decoded.
    fn get_node_value(&self, node_id: usize) -> (s: String)
        requires
            self.data.wf(),
            node_id < self.data.nodes@.len(),
        ensures
            s@ == span_text(
                self.data.source@,
                self.data.nodes@[node_id as int].start as int,
                self.data.nodes@[node_id as int].end as int,
            ),
    {
        proof {
            assert(self.data.refs_ok(node_id as int) && self.data.span_ok(node_id as int));
        }
        let node = &self.data.nodes[node_id];
        decode_span(&self.data.source, node.start, node.end)
    }

    /// Converts a literal or identifier node, stripping the outer quotes
    /// of a string literal.
    fn process_literal_node(&self, node_id: usize, l: LeafKind) -> (out: AstOutput)
        requires
            self.data.wf(),
            node_id < self.data.nodes@.len(),
            self.data.nodes@[node_id as int].kind == NodeData::Leaf(l),
        ensures
            out.deep() == spec_node(*self.data, node_id as int),
    {
        let raw = self.get_node_value(node_id);
        let node_type = match l {
            LeafKind::Int => NodeType::Integer,
            LeafKind::Float => NodeType::Float,
            LeafKind::Str => NodeType::String,
            LeafKind::Name => NodeType::Name,
            LeafKind::Variable => NodeType::Variable,
            LeafKind::True => NodeType::Boolean,
            LeafKind::False => NodeType::Boolean,
        };
        let value = if let LeafKind::Str = l {
            strip_outer_quotes(raw.as_str())
        } else {
            raw
        };
        let out = AstOutput::new(node_type).with_value(value);
        proof {
            assert(out.deep() =~= spec_node(*self.data, node_id as int));
        }
        out
    }

    /// Converts a boolean node: its value is the literal source text.
    fn process_boolean_node(&self, node_id: usize, l: LeafKind) -> (out: AstOutput)
        requires
            self.data.wf(),
            node_id < self.data.nodes@.len(),
            self.data.nodes@[node_id as int].kind == NodeData::Leaf(l),
            l == LeafKind::True || l == LeafKind::False,
        ensures
            out.deep() == spec_node(*self.data, node_id as int),
    {
        let value = self.get_node_value(node_id);
        let out = AstOutput::new(NodeType::Boolean).with_value(value);
        proof {
            assert(out.deep() =~= spec_node(*self.data, node_id as int));
        }
        out
    }

    /// Converts a let-binding: variable name, optional type annotation,
    /// then the initializer.
    fn process_let_node(
        &self,
        variable_name: usize,
        ty: Option<usize>,
        initializer: usize,
        is_mutable: bool,
        id: Ghost<usize>,
    ) -> (out: AstOutput)
        requires
            self.data.wf(),
            id@ < self.data.nodes@.len(),
            self.data.nodes@[id@ as int].kind == (NodeData::Let {
                var: variable_name,
                ty,
                init: initializer,
                mutable: is_mutable,
            }),
        ensures
            out.deep() == spec_node(*self.data, id@ as int),
        decreases id@ as int, 1int, 0int,
    {
        proof {
            assert(self.data.refs_ok(id@ as int));
        }
        let mut children: Vec<AstOutput> = Vec::new();
        let c_var = self.process_node(variable_name);
        let ghost g_var = c_var;
        children.push(c_var);
        let ghost mut g_ty: Option<AstOutput> = None;
        if let Some(type_node) = ty {
            let c_ty = self.process_node(type_node);
            proof {
                g_ty = Some(c_ty);
            }
            children.push(c_ty);
        }
        let c_init = self.process_node(initializer);
        let ghost g_init = c_init;
        children.push(c_init);
        let node_type = if is_mutable {
            NodeType::MutableLet
        } else {
            NodeType::Let
        };
        let out = AstOutput::new(node_type).with_children(children);
        proof {
            match g_ty {
                Some(g) => {
                    assert(out.children@ =~= seq![g_var, g, g_init]);
                    lemma_deep_seq3(g_var, g, g_init);
                },
                None => {
                    assert(out.children@ =~= seq![g_var, g_init]);
                    lemma_deep_seq2(g_var, g_init);
                },
            }
            assert(out.deep() =~= spec_node(*self.data, id@ as int));
        }
        out
    }

    /// Converts a definition: name, parameters, optional return type, then
    /// the body block.
    fn process_def_node(
        &self,
        name: usize,
        params: usize,
        return_ty: Option<usize>,
        block: usize,
        id: Ghost<usize>,
    ) -> (out: AstOutput)
        requires
            self.data.wf(),
            id@ < self.data.nodes@.len(),
            self.data.nodes@[id@ as int].kind == (NodeData::Def {
                name,
                params,
                ret: return_ty,
                body: block,
            }),
        ensures
            out.deep() == spec_node(*self.data, id@ as int),
        decreases id@ as int, 1int, 0int,
    {
        proof {
            assert(self.data.refs_ok(id@ as int));
        }
        let mut children: Vec<AstOutput> = Vec::new();
        let c_name = self.process_node(name);
        let ghost g_name = c_name;
        children.push(c_name);
        let c_params = self.process_node(params);
        let ghost g_params = c_params;
        children.push(c_params);
        let ghost mut g_ret: Option<AstOutput> = None;
        if let Some(ret_ty) = return_ty {
            let c_ret = self.process_node(ret_ty);
            proof {
                g_ret = Some(c_ret);
            }
            children.push(c_ret);
        }
        let c_body = self.process_node(block);
        let ghost g_body = c_body;
        children.push(c_body);
        let out = AstOutput::new(NodeType::Definition).with_children(children);
        proof {
            match g_ret {
                Some(g) => {
                    assert(out.children@ =~= seq![g_name, g_params, g, g_body]);
                    lemma_deep_seq4(g_name, g_params, g, g_body);
                },
                None => {
                    assert(out.children@ =~= seq![g_name, g_params, g_body]);
                    lemma_deep_seq3(g_name, g_params, g_body);
                },
            }
            assert(out.deep() =~= spec_node(*self.data, id@ as int));
        }
        out
    }

    /// The BinaryOp name derived from the operator node.
    fn binop_label_str(&self, op: usize) -> (r: String)
        requires
            op < self.data.nodes@.len(),
        ensures
            r@ == binop_label(self.data.nodes@[op as int].kind),
    {
        match &self.data.nodes[op].kind {
            NodeData::Operator(o) => op_label_str(*o),
            _ => "UnknownOp".to_owned(),
        }
    }

    /// Converts a binary operation: the operator's label becomes the name,
    /// its operands the two children; the operator node itself is not
    /// emitted as a child.
    fn process_binary_op(&self, lhs: usize, op: usize, rhs: usize, id: Ghost<usize>) -> (out:
        AstOutput)
        requires
            self.data.wf(),
            id@ < self.data.nodes@.len(),
            self.data.nodes@[id@ as int].kind == (NodeData::BinaryOp { lhs, op, rhs }),
        ensures
            out.deep() == spec_node(*self.data, id@ as int),
        decreases id@ as int, 1int, 0int,
    {
        proof {
            assert(self.data.refs_ok(id@ as int));
        }
        let op_name = self.binop_label_str(op);
        let mut children: Vec<AstOutput> = Vec::new();
        let c_l = self.process_node(lhs);
        let ghost g_l = c_l;
        children.push(c_l);
        let c_r = self.process_node(rhs);
        let ghost g_r = c_r;
        children.push(c_r);
        let out = AstOutput::new(NodeType::BinaryOp).with_name(op_name).with_children(children);
        proof {
            assert(out.children@ =~= seq![g_l, g_r]);
            lemma_deep_seq2(g_l, g_r);
            assert(out.deep() =~= spec_node(*self.data, id@ as int));
        }
        out
    }

    /// Converts a list node: one child per item, in source order.
    fn process_list_node(&self, items: &Vec<usize>, id: Ghost<usize>) -> (out: AstOutput)
        requires
            self.data.wf(),
            id@ < self.data.nodes@.len(),
            self.data.nodes@[id@ as int].kind matches NodeData::List(its) && its@ == items@,
        ensures
            out.deep() == spec_node(*self.data, id@ as int),
        decreases id@ as int, 1int, 0int,
    {
        proof {
            assert(self.data.refs_ok(id@ as int));
        }
        let children = self.process_children(items, Ghost(id@));
        let out = AstOutput::new(NodeType::List).with_children(children);
        proof {
            assert(out.deep() =~= spec_node(*self.data, id@ as int));
        }
        out
    }

    /// Converts a block reference: one child per statement of the block,
    /// in source order.
    fn process_block_node(&self, block_id: usize, id: Ghost<usize>) -> (out: AstOutput)
        requires
            self.data.wf(),
            id@ < self.data.nodes@.len(),
            self.data.nodes@[id@ as int].kind == NodeData::Block(block_id),
        ensures
            out.deep() == spec_node(*self.data, id@ as int),
        decreases id@ as int, 1int, 0int,
    {
        proof {
            assert(self.data.refs_ok(id@ as int));
        }
        let stmts = &self.data.blocks[block_id];
        let children = self.process_children(stmts, Ghost(id@));
        let out = AstOutput::new(NodeType::Block).with_children(children);
        proof {
            assert(out.deep() =~= spec_node(*self.data, id@ as int));
        }
        out
    }

    /// Converts a conditional: condition, then-block, and the else-branch
    /// if there is one.
    fn process_if_node(
        &self,
        condition: usize,
        then_block: usize,
        else_block: Option<usize>,
        id: Ghost<usize>,
    ) -> (out: AstOutput)
        requires
            self.data.wf(),
            id@ < self.data.nodes@.len(),
            self.data.nodes@[id@ as int].kind == (NodeData::If {
                cond: condition,
                then_block,
                else_block,
            }),
        ensures
            out.deep() == spec_node(*self.data, id@ as int),
        decreases id@ as int, 1int, 0int,
    {
        proof {
            assert(self.data.refs_ok(id@ as int));
        }
        let mut children: Vec<AstOutput> = Vec::new();
        let c_cond = self.process_node(condition);
        let ghost g_cond = c_cond;
        children.push(c_cond);
        let c_then = self.process_node(then_block);
        let ghost g_then = c_then;
        children.push(c_then);
        let ghost mut g_else: Option<AstOutput> = None;
        if let Some(else_node) = else_block {
            let c_else = self.process_node(else_node);
            proof {
                g_else = Some(c_else);
            }
            children.push(c_else);
        }
        let out = AstOutput::new(NodeType::If).with_children(children);
        proof {
            match g_else {
                Some(g) => {
                    assert(out.children@ =~= seq![g_cond, g_then, g]);
                    lemma_deep_seq3(g_cond, g_then, g);
                },
                None => {
                    assert(out.children@ =~= seq![g_cond, g_then]);
                    lemma_deep_seq2(g_cond, g_then);
                },
            }
            assert(out.deep() =~= spec_node(*self.data, id@ as int));
        }
        out
    }

    /// Converts a call: one child per part, head first, in source order.
    fn process_call_node(&self, parts: &Vec<usize>, id: Ghost<usize>) -> (out: AstOutput)
        requires
            self.data.wf(),
            id@ < self.data.nodes@.len(),
            self.data.nodes@[id@ as int].kind matches NodeData::Call(ps) && ps@ == parts@,
        ensures
            out.deep() == spec_node(*self.data, id@ as int),
        decreases id@ as int, 1int, 0int,
    {
        proof {
            assert(self.data.refs_ok(id@ as int));
        }
        let children = self.process_children(parts, Ghost(id@));
        let out = AstOutput::new(NodeType::Call).with_children(children);
        proof {
            assert(out.deep() =~= spec_node(*self.data, id@ as int));
        }
        out
    }

    /// Converts each listed child node, in order.
    fn process_children(&self, ids: &Vec<usize>, bound: Ghost<usize>) -> (outs: Vec<AstOutput>)
        requires
            self.data.wf(),
            bound@ <= self.data.nodes@.len(),
            forall|j: int| 0 <= j < ids@.len() ==> #[trigger] ids@[j] < bound@,
        ensures
            deep_seq(outs@) == spec_children(*self.data, ids@, bound@ as int),
            outs@.len() == ids@.len(),
        decreases bound@ as int, 0int, ids@.len(),
    {
        let mut outs: Vec<AstOutput> = Vec::new();
        let mut j: usize = 0;
        while j < ids.len()
            invariant
                self.data.wf(),
                bound@ <= self.data.nodes@.len(),
                forall|k: int| 0 <= k < ids@.len() ==> #[trigger] ids@[k] < bound@,
                j <= ids@.len(),
                outs@.len() == j,
                deep_seq(outs@) == spec_children(*self.data, ids@.take(j as int), bound@ as int),
            decreases ids@.len() - j,
        {
            let child = self.process_node(ids[j]);
            let ghost g_child = child;
            let ghost pre = outs@;
            outs.push(child);
            proof {
                lemma_deep_seq_push(pre, g_child);
                lemma_spec_children_push(
                    *self.data,
                    ids@.take(j as int),
                    ids@[j as int],
                    bound@ as int,
                );
                assert(ids@.take(j as int).push(ids@[j as int]) =~= ids@.take(j + 1));
            }
            j += 1;
        }
        proof {
            assert(ids@.take(ids@.len() as int) =~= ids@);
        }
        outs
    }
}

} // verus!
