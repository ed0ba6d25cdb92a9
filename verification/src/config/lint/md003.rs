//! The style in which headings are to be written.

use vstd::prelude::*;
use vstd::std_specs::convert::FromSpecImpl;

use crate::rule;
use crate::rule::md003::HeadingStyle;

verus! {

/// The parameters of the rule MD003.
#[derive(Debug, Clone, Copy, PartialEq, Eq)]
pub struct MD003 {
    /// The style in which headings are to be written.
    pub style: HeadingStyle,
}

impl Default for MD003 {
    fn default() -> (config: Self)
        ensures
            config.style == HeadingStyle::Consistent,
    {
        MD003 { style: HeadingStyle::Consistent }
    }
}

impl<'a> From<&'a MD003> for rule::MD003 {
    /// The rule with these parameters.
    fn from(config: &'a MD003) -> (rule: rule::MD003) {
        rule::MD003::new(config.style)
    }
}

impl<'a> FromSpecImpl<&'a MD003> for rule::MD003 {
    open spec fn obeys_from_spec() -> bool {
        true
    }

    open spec fn from_spec(config: &'a MD003) -> rule::MD003 {
        rule::MD003 { style: config.style }
    }
}

} // verus!
