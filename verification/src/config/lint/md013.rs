//! The length that lines may have, and whether code blocks and tables are held to it.

use vstd::prelude::*;

verus! {

/// The parameters of the rule MD013.
#[derive(Debug, Clone, Copy, PartialEq, Eq)]
pub struct MD013 {
    /// The length in bytes that a line may have.
    pub line_length: usize,
    /// Whether lines in code blocks are held to the length.
    pub code_blocks: bool,
    /// Whether lines in tables are held to the length.
    pub tables: bool,
}

impl Default for MD013 {
    fn default() -> (config: Self)
        ensures
            config.line_length == 80,
            config.code_blocks,
            config.tables,
    {
        MD013 { line_length: 80, code_blocks: true, tables: true }
    }
}

} // verus!
