//! The style in which code blocks are to be written.

use vstd::prelude::*;
use vstd::std_specs::convert::FromSpecImpl;

use crate::rule;
use crate::rule::md046::CodeBlockStyle;

verus! {

/// The parameters of the rule MD046.
#[derive(Debug, Clone, Copy, PartialEq, Eq)]
pub struct MD046 {
    /// The style in which code blocks are to be written.
    pub style: CodeBlockStyle,
}

impl Default for MD046 {
    fn default() -> (config: Self)
        ensures
            config.style == CodeBlockStyle::Fenced,
    {
        MD046 { style: CodeBlockStyle::Fenced }
    }
}

impl<'a> From<&'a MD046> for rule::MD046 {
    /// The rule with these parameters.
    fn from(config: &'a MD046) -> (rule: rule::MD046) {
        rule::MD046::new(config.style)
    }
}

impl<'a> FromSpecImpl<&'a MD046> for rule::MD046 {
    open spec fn obeys_from_spec() -> bool {
        true
    }

    open spec fn from_spec(config: &'a MD046) -> rule::MD046 {
        rule::MD046 { style: config.style }
    }
}

} // verus!
