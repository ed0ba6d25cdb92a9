//! The characters that keep emphasis from reading as a heading.

use vstd::prelude::*;
use vstd::std_specs::convert::FromSpecImpl;

use crate::rule;

verus! {

/// The parameters of the rule MD036.
#[derive(Debug, Clone, PartialEq, Eq)]
pub struct MD036 {
    /// The characters that keep emphasis from reading as a heading.
    pub punctuation: String,
}

impl Default for MD036 {
    fn default() -> (config: Self)
        ensures
            config.punctuation@ == ".,;:!?"@,
    {
        MD036 { punctuation: ".,;:!?".to_owned() }
    }
}

impl<'a> From<&'a MD036> for rule::MD036 {
    /// The rule with these parameters.
    fn from(config: &'a MD036) -> (rule: rule::MD036) {
        rule::MD036::new(config.punctuation.clone())
    }
}

impl<'a> FromSpecImpl<&'a MD036> for rule::MD036 {
    open spec fn obeys_from_spec() -> bool {
        true
    }

    open spec fn from_spec(config: &'a MD036) -> rule::MD036 {
        rule::MD036 { punctuation: config.punctuation }
    }
}

} // verus!
