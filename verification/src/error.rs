//! The error cases of the conversion: a failed parse, surfaced as one
//! aggregated message, and an arena whose references do not resolve.

use vstd::prelude::*;

use crate::text::{join_lines, joined_msgs};

verus! {

/// Why a conversion failed.  A parse failure carries the parser's
/// messages joined into one text, one per line; an invalid node means a
/// node or block reference of the arena does not resolve.
#[derive(Debug)]
pub enum AstPrinterError {
    ParserError(String),
    InvalidNode(String),
}

impl AstPrinterError {
    /// The parse-failure error that aggregates the given messages,
    /// joined with one message per line.
    pub fn from_messages(errors: &Vec<String>) -> (e: Self)
        ensures
            e matches AstPrinterError::ParserError(m) && m@ == joined_msgs(
                errors@.map_values(|s: String| s@),
            ),
    {
        AstPrinterError::ParserError(join_lines(errors))
    }
}

} // verus!
