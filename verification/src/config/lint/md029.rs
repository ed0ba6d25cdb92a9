//! The way in which the items of numbered lists are to be numbered.

use vstd::prelude::*;

use crate::rule::md029::OrderedListStyle;

verus! {

/// The parameters of the rule MD029.
#[derive(Debug, Clone, Copy, PartialEq, Eq)]
pub struct MD029 {
    /// The way in which the items of numbered lists are to be numbered.
    pub style: OrderedListStyle,
}

impl Default for MD029 {
    fn default() -> (config: Self)
        ensures
            config.style == OrderedListStyle::One,
    {
        MD029 { style: OrderedListStyle::One }
    }
}

} // verus!
