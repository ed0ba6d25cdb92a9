//! The way in which horizontal rules are to be written.

use vstd::prelude::*;
use vstd::std_specs::convert::FromSpecImpl;

use crate::rule;
use crate::rule::md035::HorizontalRuleStyle;

verus! {

/// The parameters of the rule MD035.
#[derive(Debug, Clone, PartialEq, Eq)]
pub struct MD035 {
    /// The way in which horizontal rules are to be written.
    pub style: HorizontalRuleStyle,
}

impl Default for MD035 {
    fn default() -> (config: Self)
        ensures
            config.style == HorizontalRuleStyle::Consistent,
    {
        MD035 { style: HorizontalRuleStyle::Consistent }
    }
}

impl<'a> From<&'a MD035> for rule::MD035 {
    /// The rule with these parameters.
    fn from(config: &'a MD035) -> (rule: rule::MD035) {
        rule::MD035::new(config.style.duplicate())
    }
}

impl<'a> FromSpecImpl<&'a MD035> for rule::MD035 {
    open spec fn obeys_from_spec() -> bool {
        true
    }

    open spec fn from_spec(config: &'a MD035) -> rule::MD035 {
        rule::MD035 { style: config.style }
    }
}

} // verus!
