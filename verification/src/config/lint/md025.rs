//! The level of which a document is to have one heading.

use vstd::prelude::*;
use vstd::std_specs::convert::FromSpecImpl;

use crate::rule;

verus! {

/// The parameters of the rule MD025.
#[derive(Debug, Clone, Copy, PartialEq, Eq)]
pub struct MD025 {
    /// The level of which a document is to have one heading.
    pub level: u8,
}

impl Default for MD025 {
    fn default() -> (config: Self)
        ensures
            config.level == 1,
    {
        MD025 { level: 1 }
    }
}

impl<'a> From<&'a MD025> for rule::MD025 {
    /// The rule with these parameters.
    fn from(config: &'a MD025) -> (rule: rule::MD025) {
        rule::MD025::new(config.level)
    }
}

impl<'a> FromSpecImpl<&'a MD025> for rule::MD025 {
    open spec fn obeys_from_spec() -> bool {
        true
    }

    open spec fn from_spec(config: &'a MD025) -> rule::MD025 {
        rule::MD025 { level: config.level }
    }
}

} // verus!
