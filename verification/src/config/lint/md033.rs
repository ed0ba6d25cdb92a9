//! The elements of raw HTML that are let through.

use vstd::prelude::*;

verus! {

/// The parameters of the rule MD033.
#[derive(Debug, Clone, PartialEq, Eq)]
pub struct MD033 {
    /// The names of the elements that are let through.
    pub allowed_elements: Vec<String>,
}

impl Default for MD033 {
    fn default() -> (config: Self)
        ensures
            config.allowed_elements@.len() == 0,
    {
        MD033 { allowed_elements: Vec::new() }
    }
}

} // verus!
