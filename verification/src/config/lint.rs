//! Which rules run, with which parameters, and how findings are written.

use vstd::prelude::*;

use crate::output::Format;
use crate::rule::md003::HeadingStyle;
use crate::rule::md029::OrderedListStyle;
use crate::rule::md035::HorizontalRuleStyle;
use crate::rule::md046::CodeBlockStyle;

pub mod md002;
pub mod md003;
pub mod md007;
pub mod md013;
pub mod md025;
pub mod md026;
pub mod md029;
pub mod md033;
pub mod md035;
pub mod md036;
pub mod md041;
pub mod md046;

pub use md002::MD002;
pub use md003::MD003;
pub use md007::MD007;
pub use md013::MD013;
pub use md025::MD025;
pub use md026::MD026;
pub use md029::MD029;
pub use md033::MD033;
pub use md035::MD035;
pub use md036::MD036;
pub use md041::MD041;
pub use md046::MD046;

verus! {

/// The name of a rule.
#[derive(Debug, Clone, Copy, PartialEq, Eq, Structural, Hash)]
#[non_exhaustive]
pub enum RuleSet {
    MD001,
    MD002,
    MD003,
    MD005,
    MD007,
    MD010,
    MD012,
    MD013,
    MD014,
    MD018,
    MD019,
    MD020,
    MD021,
    MD022,
    MD023,
    MD024,
    MD025,
    MD026,
    MD029,
    MD033,
    MD034,
    MD035,
    MD036,
    MD038,
    MD039,
    MD041,
    MD046,
}

/// The settings of a run: the output format, the rules that are enabled,
/// in the order in which they run, and the parameters of each rule that
/// has some.
#[derive(Debug, Clone, PartialEq, Eq)]
pub struct Lint {
    /// The style in which findings are written.
    pub output_format: Format,
    /// The rules that are enabled, in the order in which they run.
    pub rules: Vec<RuleSet>,
    /// The parameters of the rule MD002.
    pub md002: MD002,
    /// The parameters of the rule MD003.
    pub md003: MD003,
    /// The parameters of the rule MD007.
    pub md007: MD007,
    /// The parameters of the rule MD013.
    pub md013: MD013,
    /// The parameters of the rule MD025.
    pub md025: MD025,
    /// The parameters of the rule MD026.
    pub md026: MD026,
    /// The parameters of the rule MD029.
    pub md029: MD029,
    /// The parameters of the rule MD033.
    pub md033: MD033,
    /// The parameters of the rule MD035.
    pub md035: MD035,
    /// The parameters of the rule MD036.
    pub md036: MD036,
    /// The parameters of the rule MD041.
    pub md041: MD041,
    /// The parameters of the rule MD046.
    pub md046: MD046,
}

/// Every rule, in the order of their names.
pub open spec fn all_rules() -> Seq<RuleSet> {
    seq![
        RuleSet::MD001,
        RuleSet::MD002,
        RuleSet::MD003,
        RuleSet::MD005,
        RuleSet::MD007,
        RuleSet::MD010,
        RuleSet::MD012,
        RuleSet::MD013,
        RuleSet::MD014,
        RuleSet::MD018,
        RuleSet::MD019,
        RuleSet::MD020,
        RuleSet::MD021,
        RuleSet::MD022,
        RuleSet::MD023,
        RuleSet::MD024,
        RuleSet::MD025,
        RuleSet::MD026,
        RuleSet::MD029,
        RuleSet::MD033,
        RuleSet::MD034,
        RuleSet::MD035,
        RuleSet::MD036,
        RuleSet::MD038,
        RuleSet::MD039,
        RuleSet::MD041,
        RuleSet::MD046,
    ]
}

/// `lint` is the default: findings are written concisely, every rule is
/// enabled, and every rule has its default parameters.
pub open spec fn is_default(lint: Lint) -> bool {
    &&& lint.output_format == Format::Concise
    &&& lint.rules@ == all_rules()
    &&& lint.md002.level == 1
    &&& lint.md003.style == HeadingStyle::Consistent
    &&& lint.md007.indent == 4
    &&& lint.md013.line_length == 80
    &&& lint.md013.code_blocks
    &&& lint.md013.tables
    &&& lint.md025.level == 1
    &&& lint.md026.punctuation@ == ".,;:!?"@
    &&& lint.md029.style == OrderedListStyle::One
    &&& lint.md033.allowed_elements@.len() == 0
    &&& lint.md035.style == HorizontalRuleStyle::Consistent
    &&& lint.md036.punctuation@ == ".,;:!?"@
    &&& lint.md041.level == 1
    &&& lint.md046.style == CodeBlockStyle::Fenced
}

impl Default for Lint {
    fn default() -> (lint: Self)
        ensures
            is_default(lint),
    {
        let rules = vec![
            RuleSet::MD001,
            RuleSet::MD002,
            RuleSet::MD003,
            RuleSet::MD005,
            RuleSet::MD007,
            RuleSet::MD010,
            RuleSet::MD012,
            RuleSet::MD013,
            RuleSet::MD014,
            RuleSet::MD018,
            RuleSet::MD019,
            RuleSet::MD020,
            RuleSet::MD021,
            RuleSet::MD022,
            RuleSet::MD023,
            RuleSet::MD024,
            RuleSet::MD025,
            RuleSet::MD026,
            RuleSet::MD029,
            RuleSet::MD033,
            RuleSet::MD034,
            RuleSet::MD035,
            RuleSet::MD036,
            RuleSet::MD038,
            RuleSet::MD039,
            RuleSet::MD041,
            RuleSet::MD046,
        ];
        Lint {
            output_format: Format::Concise,
            rules,
            md002: MD002::default(),
            md003: MD003::default(),
            md007: MD007::default(),
            md013: MD013::default(),
            md025: MD025::default(),
            md026: MD026::default(),
            md029: MD029::default(),
            md033: MD033::default(),
            md035: MD035::default(),
            md036: MD036::default(),
            md041: MD041::default(),
            md046: MD046::default(),
        }
    }
}

} // verus!
