//! The stated properties of the conversion, proved over `spec_node`:
//! totality of the classification, determinism, order preservation,
//! quote stripping, and the field-presence invariant of output records.

use vstd::prelude::*;

use crate::arena::{LeafKind, NodeData, ParseData};
use crate::ast_printer::{
    node_text, spec_children, spec_node, AstOutput, NodeType, TreeV,
};
use crate::text::has_outer_quotes;

verus! {

/// The tags whose records carry a literal value: the literal, identifier
/// and boolean leaves.
pub open spec fn is_leaf_tag(t: NodeType) -> bool {
    ||| t == NodeType::Integer
    ||| t == NodeType::Float
    ||| t == NodeType::String
    ||| t == NodeType::Name
    ||| t == NodeType::Variable
    ||| t == NodeType::Boolean
}

/// The field-presence invariant of an output tree: a name is present iff
/// the record is a BinaryOp or an Unknown; a value is present iff it is a
/// literal or boolean leaf; leaf and Unknown records have no children; and
/// the same holds of every child.
pub open spec fn output_wf(t: TreeV) -> bool
    decreases t,
{
    &&& (t.name is Some <==> (t.node_type == NodeType::BinaryOp || t.node_type
        == NodeType::Unknown))
    &&& (t.value is Some <==> is_leaf_tag(t.node_type))
    &&& ((is_leaf_tag(t.node_type) || t.node_type == NodeType::Unknown) ==> t.children.len() == 0)
    &&& (forall|j: int| 0 <= j < t.children.len() ==> output_wf(#[trigger] t.children[j]))
}

/// Order preservation, elementwise: converting a child list yields one
/// tree per listed node, in the same order.
pub proof fn lemma_spec_children_pointwise(data: ParseData, ids: Seq<usize>, bound: int)
    requires
        data.wf(),
        0 <= bound <= data.nodes@.len(),
        forall|j: int| 0 <= j < ids.len() ==> #[trigger] ids[j] < bound,
    ensures
        spec_children(data, ids, bound).len() == ids.len(),
        forall|j: int| 0 <= j < ids.len() ==> #[trigger] spec_children(data, ids, bound)[j]
            == spec_node(data, ids[j] as int),
    decreases ids.len(),
{
    if ids.len() > 0 {
        lemma_spec_children_pointwise(data, ids.drop_last(), bound);
        assert(forall|j: int| 0 <= j < ids.len() - 1 ==> #[trigger] ids.drop_last()[j] == ids[j]);
    }
}

/// Order preservation: the children of a List, Block or Call record are
/// the conversions of its listed nodes, one each, in source order.
pub proof fn lemma_order_preservation(data: ParseData, id: int)
    requires
        data.wf(),
        0 <= id < data.nodes@.len(),
    ensures
        data.nodes@[id].kind matches NodeData::List(items) ==> spec_node(data, id).children.len()
            == items@.len() && (forall|j: int| 0 <= j < items@.len() ==> #[trigger] spec_node(
            data,
            id,
        ).children[j] == spec_node(data, items@[j] as int)),
        data.nodes@[id].kind matches NodeData::Call(parts) ==> spec_node(data, id).children.len()
            == parts@.len() && (forall|j: int| 0 <= j < parts@.len() ==> #[trigger] spec_node(
            data,
            id,
        ).children[j] == spec_node(data, parts@[j] as int)),
        data.nodes@[id].kind matches NodeData::Block(b) ==> spec_node(data, id).children.len()
            == data.blocks@[b as int]@.len() && (forall|j: int|
            0 <= j < data.blocks@[b as int]@.len() ==> #[trigger] spec_node(data, id).children[j]
                == spec_node(data, data.blocks@[b as int]@[j] as int)),
{
    assert(data.refs_ok(id));
    match data.nodes@[id].kind {
        NodeData::List(items) => {
            lemma_spec_children_pointwise(data, items@, id);
        },
        NodeData::Call(parts) => {
            lemma_spec_children_pointwise(data, parts@, id);
        },
        NodeData::Block(b) => {
            lemma_spec_children_pointwise(data, data.blocks@[b as int]@, id);
        },
        _ => {},
    }
}

/// Determinism: the conversion contract pins the whole tree, so any two
/// records converted from the same node of the same parse represent the
/// same tree.
pub proof fn lemma_convert_deterministic(data: ParseData, id: int, a: AstOutput, b: AstOutput)
    requires
        data.wf(),
        0 <= id < data.nodes@.len(),
        a.deep() == spec_node(data, id),
        b.deep() == spec_node(data, id),
    ensures
        a.deep() == b.deep(),
{
}

/// Totality of the classification: a node kind outside the recognised set
/// degrades to an Unknown record rather than failing.
pub proof fn lemma_unknown_total(data: ParseData, id: int)
    requires
        data.wf(),
        0 <= id < data.nodes@.len(),
        data.nodes@[id].kind matches NodeData::Other(_) || data.nodes@[id].kind
            matches NodeData::Operator(_),
    ensures
        spec_node(data, id).node_type == NodeType::Unknown,
        spec_node(data, id).name is Some,
{
}

/// Quote stripping: a string literal's stored value is its span's text
/// with the outermost quote pair removed when one is present — exactly
/// once, whatever quote characters the inner text still holds — and the
/// text unchanged otherwise.
pub proof fn lemma_quote_stripping(data: ParseData, id: int)
    requires
        data.wf(),
        0 <= id < data.nodes@.len(),
        data.nodes@[id].kind == NodeData::Leaf(LeafKind::Str),
    ensures
        has_outer_quotes(node_text(data, id)) ==> spec_node(data, id).value == Some(
            node_text(data, id).subrange(1, node_text(data, id).len() - 1),
        ),
        !has_outer_quotes(node_text(data, id)) ==> spec_node(data, id).value == Some(
            node_text(data, id),
        ),
{
}

/// The field-presence invariant holds of every converted tree.
pub proof fn lemma_output_wf(data: ParseData, id: int)
    requires
        data.wf(),
        0 <= id < data.nodes@.len(),
    ensures
        output_wf(spec_node(data, id)),
    decreases id,
{
    assert(data.refs_ok(id));
    let t = spec_node(data, id);
    match data.nodes@[id].kind {
        NodeData::Leaf(_) => {},
        NodeData::Operator(_) => {},
        NodeData::Other(_) => {},
        NodeData::Let { var, ty, init, mutable: _ } => {
            lemma_output_wf(data, var as int);
            if let Some(ty_node) = ty {
                lemma_output_wf(data, ty_node as int);
            }
            lemma_output_wf(data, init as int);
        },
        NodeData::Def { name, params, ret, body } => {
            lemma_output_wf(data, name as int);
            lemma_output_wf(data, params as int);
            if let Some(rt) = ret {
                lemma_output_wf(data, rt as int);
            }
            lemma_output_wf(data, body as int);
        },
        NodeData::BinaryOp { lhs, op: _, rhs } => {
            lemma_output_wf(data, lhs as int);
            lemma_output_wf(data, rhs as int);
        },
        NodeData::List(items) => {
            lemma_spec_children_pointwise(data, items@, id);
            assert forall|j: int| 0 <= j < t.children.len() implies output_wf(
                #[trigger] t.children[j],
            ) by {
                lemma_output_wf(data, items@[j] as int);
            }
        },
        NodeData::Block(b) => {
            lemma_spec_children_pointwise(data, data.blocks@[b as int]@, id);
            assert forall|j: int| 0 <= j < t.children.len() implies output_wf(
                #[trigger] t.children[j],
            ) by {
                lemma_output_wf(data, data.blocks@[b as int]@[j] as int);
            }
        },
        NodeData::If { cond, then_block, else_block } => {
            lemma_output_wf(data, cond as int);
            lemma_output_wf(data, then_block as int);
            if let Some(e) = else_block {
                lemma_output_wf(data, e as int);
            }
        },
        NodeData::Call(parts) => {
            lemma_spec_children_pointwise(data, parts@, id);
            assert forall|j: int| 0 <= j < t.children.len() implies output_wf(
                #[trigger] t.children[j],
            ) by {
                lemma_output_wf(data, parts@[j] as int);
            }
        },
    }
}

} // verus!
