//! The level that the heading at the start of a document is to have.

use vstd::prelude::*;

verus! {

/// The parameters of the rule MD041.
#[derive(Debug, Clone, Copy, PartialEq, Eq)]
pub struct MD041 {
    /// The level that the heading at the start of a document is to have.
    pub level: u8,
}

impl Default for MD041 {
    fn default() -> (config: Self)
        ensures
            config.level == 1,
    {
        MD041 { level: 1 }
    }
}

} // verus!
