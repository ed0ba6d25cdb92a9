//! The width by which list items are to be indented.

use vstd::prelude::*;

verus! {

/// The parameters of the rule MD007.
#[derive(Debug, Clone, Copy, PartialEq, Eq)]
pub struct MD007 {
    /// The width by multiples of which list items are to be indented.
    pub indent: usize,
}

impl Default for MD007 {
    fn default() -> (config: Self)
        ensures
            config.indent == 4,
    {
        MD007 { indent: 4 }
    }
}

} // verus!
