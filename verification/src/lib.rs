//! A conversion layer that maps a completed parse of nushell source — a node
//! arena, a block arena and the source buffer, held as plain values — into a
//! generic serializable tree of uniform records (a type tag, an optional
//! name, an optional literal value, and an ordered list of children).

mod arena;
mod ast_printer;
mod error;
mod laws;
mod text;

pub use arena::{LeafKind, NodeData, Node, OpKind, ParseData};
pub use ast_printer::{
    binop_label, deep_seq, empty_block_tree, leaf_type, leaf_value, node_text, op_dump, op_label,
    spec_children, spec_node, AstOutput, AstPrinter, NodeType, TreeV,
};
pub use error::AstPrinterError;
pub use laws::{
    is_leaf_tag, lemma_convert_deterministic, lemma_order_preservation, lemma_output_wf,
    lemma_quote_stripping, lemma_spec_children_pointwise, lemma_unknown_total, output_wf,
};
pub use text::{has_outer_quotes, joined_msgs, lossy_utf8, span_text, strip_quotes};

use vstd::prelude::*;

verus! {

/// Converts a completed parse into its output tree.
///
/// If the parser reported any errors, the conversion fails with one
/// aggregated parse failure and no tree.  An error-free parse with no
/// nodes yields a childless Block.  Otherwise the root — the node at the
/// highest index of the arena — is converted; an arena whose references
/// do not resolve is rejected as invalid.
pub fn convert_parse_result(errors: &Vec<String>, data: &ParseData) -> (r: Result<
    AstOutput,
    AstPrinterError,
>)
    ensures
        errors@.len() > 0 ==> (r matches Err(e) && e matches AstPrinterError::ParserError(m)
            && m@ == joined_msgs(errors@.map_values(|s: String| s@))),
        errors@.len() == 0 && data.nodes@.len() == 0 ==> (r matches Ok(out) && out.deep()
            == empty_block_tree()),
        errors@.len() == 0 && data.nodes@.len() > 0 && data.wf() ==> (r matches Ok(out)
            && out.deep() == spec_node(*data, data.nodes@.len() - 1)),
        errors@.len() == 0 && data.nodes@.len() > 0 && !data.wf() ==> (r matches Err(e)
            && e matches AstPrinterError::InvalidNode(_)),
{
    if errors.len() > 0 {
        return Err(AstPrinterError::from_messages(errors));
    }
    if data.nodes.len() == 0 {
        let out = AstOutput::new(NodeType::Block);
        proof {
            assert(out.deep() =~= empty_block_tree());
        }
        return Ok(out);
    }
    if !data.check_wf() {
        return Err(
            AstPrinterError::InvalidNode("a node or block reference does not resolve".to_owned()),
        );
    }
    let printer = AstPrinter::new(data);
    let root_node_id = data.nodes.len() - 1;
    Ok(printer.process_node(root_node_id))
}

} // verus!
