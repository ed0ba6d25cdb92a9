//! The level that the first heading is to have.

use vstd::prelude::*;

verus! {

/// The parameters of the rule MD002.
#[derive(Debug, Clone, Copy, PartialEq, Eq)]
pub struct MD002 {
    /// The level that the first heading is to have.
    pub level: u8,
}

impl Default for MD002 {
    fn default() -> (config: Self)
        ensures
            config.level == 1,
    {
        MD002 { level: 1 }
    }
}

} // verus!
