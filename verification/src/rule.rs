//! The rules: one independent, named check each, and the closed set of them.

use vstd::prelude::*;

use crate::config::lint::RuleSet;
use crate::document::Document;
use crate::document::DocumentView;
use crate::document::Node;
use crate::document::NodeModel;
use crate::error::ErrorView;
use crate::error::LintError;
use crate::error::no_failure;
use crate::position::Sourcepos;
use crate::rule::helper::findings;
use crate::rule::md035::HorizontalRuleStyleView;
use crate::text::line_views;
use crate::violation::finding;
use crate::violation::views;
use crate::violation::Violation;

pub mod helper;
pub mod md001;
pub mod md002;
pub mod md003;
pub mod md005;
pub mod md007;
pub mod md010;
pub mod md012;
pub mod md013;
pub mod md014;
pub mod md018;
pub mod md019;
pub mod md020;
pub mod md021;
pub mod md022;
pub mod md023;
pub mod md024;
pub mod md025;
pub mod md026;
pub mod md029;
pub mod md033;
pub mod md034;
pub mod md035;
pub mod md036;
pub mod md038;
pub mod md039;
pub mod md041;
pub mod md046;
pub mod metadata;
pub mod node;

pub use md001::MD001;
pub use md002::MD002;
pub use md003::MD003;
pub use md005::MD005;
pub use md007::MD007;
pub use md010::MD010;
pub use md012::MD012;
pub use md013::MD013;
pub use md014::MD014;
pub use md018::MD018;
pub use md019::MD019;
pub use md020::MD020;
pub use md021::MD021;
pub use md022::MD022;
pub use md023::MD023;
pub use md024::MD024;
pub use md025::MD025;
pub use md026::MD026;
pub use md029::MD029;
pub use md033::MD033;
pub use md034::MD034;
pub use md035::MD035;
pub use md036::MD036;
pub use md038::MD038;
pub use md039::MD039;
pub use md041::MD041;
pub use md046::MD046;
pub use metadata::Label;
pub use metadata::Metadata;
pub use metadata::MetadataView;
pub use metadata::Tag;
pub use node::NodeContext;

verus! {

/// What every rule can do: say what it is, and inspect a document.
///
/// A check reads the document and the parameters of the rule, and nothing
/// else: the spans that it finds are a function of the two. A document
/// without matches gives no findings and no error; errors are for checks
/// that cannot be finished.
pub trait RuleLike {
    /// What the rule says about itself: its name, what it checks, the
    /// categories it belongs to and the other names it goes by. It is the
    /// same whatever the parameters of the rule are.
    spec fn about_of(&self) -> MetadataView;

    /// What the violations of the rule carry of it.
    spec fn label_of(&self) -> Label;

    /// The spans that the rule finds in `doc`, in the order in which it
    /// reports them.
    spec fn positions_in(&self, doc: DocumentView) -> Seq<Sourcepos>;

    /// The rule cannot finish its check of `doc`.
    spec fn fails_on(&self, doc: DocumentView) -> bool;

    /// The error of a check of `doc` that cannot be finished.
    spec fn failure_on(&self, doc: DocumentView) -> ErrorView;

    /// What the rule says about itself.
    fn metadata(&self) -> (metadata: Metadata)
        ensures
            metadata@ == self.about_of(),
            metadata.wf(),
            metadata.label() == self.label_of(),
    ;

    /// Runs the rule on `doc`.
    fn check(&self, doc: &Document) -> (result: Result<Vec<Violation>, LintError>)
        ensures
            result is Ok <==> !self.fails_on(doc@),
            result matches Ok(violations) ==> views(violations@) == findings(
                doc@.path,
                self.label_of(),
                self.positions_in(doc@),
            ),
            result matches Err(error) ==> error@ == self.failure_on(doc@),
    ;

    /// The violation of the rule in `path` at `position`.
    fn to_violation(&self, path: String, position: Sourcepos) -> (violation: Violation)
        ensures
            violation@ == finding(path@, self.label_of(), position),
    ;
}

/// One of the rules, with its parameters.
#[derive(Debug, Clone, PartialEq, Eq)]
#[non_exhaustive]
pub enum Rule {
    MD001(MD001),
    MD002(MD002),
    MD003(MD003),
    MD005(MD005),
    MD007(MD007),
    MD010(MD010),
    MD012(MD012),
    MD013(MD013),
    MD014(MD014),
    MD018(MD018),
    MD019(MD019),
    MD020(MD020),
    MD021(MD021),
    MD022(MD022),
    MD023(MD023),
    MD024(MD024),
    MD025(MD025),
    MD026(MD026),
    MD029(MD029),
    MD033(MD033),
    MD034(MD034),
    MD035(MD035),
    MD036(MD036),
    MD038(MD038),
    MD039(MD039),
    MD041(MD041),
    MD046(MD046),
}

/// The mathematical content of a [`Rule`]: which rule it is, and its
/// parameters, those that are text by their characters.
pub enum RuleView {
    MD001(MD001),
    MD002(MD002),
    MD003(MD003),
    MD005(MD005),
    MD007(MD007),
    MD010(MD010),
    MD012(MD012),
    MD013(MD013),
    MD014(MD014),
    MD018(MD018),
    MD019(MD019),
    MD020(MD020),
    MD021(MD021),
    MD022(MD022),
    MD023(MD023),
    MD024(MD024),
    MD025(MD025),
    /// The characters that a heading is not to end with.
    MD026(Seq<char>),
    MD029(MD029),
    /// The names of the elements that are let through.
    MD033(Seq<Seq<char>>),
    MD034(MD034),
    /// The way in which horizontal rules are to be written.
    MD035(HorizontalRuleStyleView),
    /// The characters that keep emphasis from reading as a heading.
    MD036(Seq<char>),
    MD038(MD038),
    MD039(MD039),
    MD041(MD041),
    MD046(MD046),
}

impl View for Rule {
    type V = RuleView;

    open spec fn view(&self) -> RuleView {
        match self {
            Rule::MD001(rule) => RuleView::MD001(*rule),
            Rule::MD002(rule) => RuleView::MD002(*rule),
            Rule::MD003(rule) => RuleView::MD003(*rule),
            Rule::MD005(rule) => RuleView::MD005(*rule),
            Rule::MD007(rule) => RuleView::MD007(*rule),
            Rule::MD010(rule) => RuleView::MD010(*rule),
            Rule::MD012(rule) => RuleView::MD012(*rule),
            Rule::MD013(rule) => RuleView::MD013(*rule),
            Rule::MD014(rule) => RuleView::MD014(*rule),
            Rule::MD018(rule) => RuleView::MD018(*rule),
            Rule::MD019(rule) => RuleView::MD019(*rule),
            Rule::MD020(rule) => RuleView::MD020(*rule),
            Rule::MD021(rule) => RuleView::MD021(*rule),
            Rule::MD022(rule) => RuleView::MD022(*rule),
            Rule::MD023(rule) => RuleView::MD023(*rule),
            Rule::MD024(rule) => RuleView::MD024(*rule),
            Rule::MD025(rule) => RuleView::MD025(*rule),
            Rule::MD026(rule) => RuleView::MD026(rule.punctuation@),
            Rule::MD029(rule) => RuleView::MD029(*rule),
            Rule::MD033(rule) => RuleView::MD033(line_views(rule.allowed_elements@)),
            Rule::MD034(rule) => RuleView::MD034(*rule),
            Rule::MD035(rule) => RuleView::MD035(rule.style@),
            Rule::MD036(rule) => RuleView::MD036(rule.punctuation@),
            Rule::MD038(rule) => RuleView::MD038(*rule),
            Rule::MD039(rule) => RuleView::MD039(*rule),
            Rule::MD041(rule) => RuleView::MD041(*rule),
            Rule::MD046(rule) => RuleView::MD046(*rule),
        }
    }
}

/// What a rule says, finds and fails on depends on its content alone: two
/// rules of one kind whose parameters hold the same characters are alike.
pub proof fn lemma_view_decides(first: Rule, second: Rule, doc: DocumentView)
    requires
        first@ == second@,
    ensures
        first.about() == second.about(),
        first.label() == second.label(),
        first.positions(doc) == second.positions(doc),
        first.fails(doc) == second.fails(doc),
        first.failure(doc) == second.failure(doc),
{
    match (first, second) {
        (Rule::MD026(a), Rule::MD026(b)) => {
            a.lemma_parameter_decides(&b, doc);
        },
        (Rule::MD033(a), Rule::MD033(b)) => {
            a.lemma_parameter_decides(&b, doc);
        },
        (Rule::MD035(a), Rule::MD035(b)) => {
            a.lemma_parameter_decides(&b, doc);
        },
        (Rule::MD036(a), Rule::MD036(b)) => {
            a.lemma_parameter_decides(&b, doc);
        },
        _ => {},
    }
}

/// Two rules of one kind say the same about themselves, whatever their
/// parameters are; every rule has exactly one alias; and no two kinds go
/// by one name.
pub proof fn lemma_about_is_fixed(first: Rule, second: Rule)
    ensures
        first.about().wf(),
        first.about().aliases.len() == 1,
        first.kind() == second.kind() ==> first.about() == second.about(),
        first.about().name == second.about().name ==> first.kind() == second.kind(),
{
    reveal_strlit("MD001");
    reveal_strlit("MD002");
    reveal_strlit("MD003");
    reveal_strlit("MD005");
    reveal_strlit("MD007");
    reveal_strlit("MD010");
    reveal_strlit("MD012");
    reveal_strlit("MD013");
    reveal_strlit("MD014");
    reveal_strlit("MD018");
    reveal_strlit("MD019");
    reveal_strlit("MD020");
    reveal_strlit("MD021");
    reveal_strlit("MD022");
    reveal_strlit("MD023");
    reveal_strlit("MD024");
    reveal_strlit("MD025");
    reveal_strlit("MD026");
    reveal_strlit("MD029");
    reveal_strlit("MD033");
    reveal_strlit("MD034");
    reveal_strlit("MD035");
    reveal_strlit("MD036");
    reveal_strlit("MD038");
    reveal_strlit("MD039");
    reveal_strlit("MD041");
    reveal_strlit("MD046");
    if first.about().name == second.about().name {
        assert(first.about().name[3] == second.about().name[3]);
        assert(first.about().name[4] == second.about().name[4]);
    }
}

impl Rule {
    /// The name of the rule, as the configuration has it.
    pub open spec fn kind(&self) -> RuleSet {
        match self {
            Rule::MD001(_) => RuleSet::MD001,
            Rule::MD002(_) => RuleSet::MD002,
            Rule::MD003(_) => RuleSet::MD003,
            Rule::MD005(_) => RuleSet::MD005,
            Rule::MD007(_) => RuleSet::MD007,
            Rule::MD010(_) => RuleSet::MD010,
            Rule::MD012(_) => RuleSet::MD012,
            Rule::MD013(_) => RuleSet::MD013,
            Rule::MD014(_) => RuleSet::MD014,
            Rule::MD018(_) => RuleSet::MD018,
            Rule::MD019(_) => RuleSet::MD019,
            Rule::MD020(_) => RuleSet::MD020,
            Rule::MD021(_) => RuleSet::MD021,
            Rule::MD022(_) => RuleSet::MD022,
            Rule::MD023(_) => RuleSet::MD023,
            Rule::MD024(_) => RuleSet::MD024,
            Rule::MD025(_) => RuleSet::MD025,
            Rule::MD026(_) => RuleSet::MD026,
            Rule::MD029(_) => RuleSet::MD029,
            Rule::MD033(_) => RuleSet::MD033,
            Rule::MD034(_) => RuleSet::MD034,
            Rule::MD035(_) => RuleSet::MD035,
            Rule::MD036(_) => RuleSet::MD036,
            Rule::MD038(_) => RuleSet::MD038,
            Rule::MD039(_) => RuleSet::MD039,
            Rule::MD041(_) => RuleSet::MD041,
            Rule::MD046(_) => RuleSet::MD046,
        }
    }

    /// What the rule says about itself: its name, what it checks, the
    /// categories it belongs to and the other names it goes by. It is the
    /// same whatever the parameters of the rule are.
    pub open spec fn about(&self) -> MetadataView {
        match self {
            Rule::MD001(_) => MD001::about(),
            Rule::MD002(_) => MD002::about(),
            Rule::MD003(_) => MD003::about(),
            Rule::MD005(_) => MD005::about(),
            Rule::MD007(_) => MD007::about(),
            Rule::MD010(_) => MD010::about(),
            Rule::MD012(_) => MD012::about(),
            Rule::MD013(_) => MD013::about(),
            Rule::MD014(_) => MD014::about(),
            Rule::MD018(_) => MD018::about(),
            Rule::MD019(_) => MD019::about(),
            Rule::MD020(_) => MD020::about(),
            Rule::MD021(_) => MD021::about(),
            Rule::MD022(_) => MD022::about(),
            Rule::MD023(_) => MD023::about(),
            Rule::MD024(_) => MD024::about(),
            Rule::MD025(_) => MD025::about(),
            Rule::MD026(_) => MD026::about(),
            Rule::MD029(_) => MD029::about(),
            Rule::MD033(_) => MD033::about(),
            Rule::MD034(_) => MD034::about(),
            Rule::MD035(_) => MD035::about(),
            Rule::MD036(_) => MD036::about(),
            Rule::MD038(_) => MD038::about(),
            Rule::MD039(_) => MD039::about(),
            Rule::MD041(_) => MD041::about(),
            Rule::MD046(_) => MD046::about(),
        }
    }

    /// What the violations of the rule carry of it.
    pub open spec fn label(&self) -> Label {
        match self {
            Rule::MD001(_) => MD001::label(),
            Rule::MD002(_) => MD002::label(),
            Rule::MD003(_) => MD003::label(),
            Rule::MD005(_) => MD005::label(),
            Rule::MD007(_) => MD007::label(),
            Rule::MD010(_) => MD010::label(),
            Rule::MD012(_) => MD012::label(),
            Rule::MD013(_) => MD013::label(),
            Rule::MD014(_) => MD014::label(),
            Rule::MD018(_) => MD018::label(),
            Rule::MD019(_) => MD019::label(),
            Rule::MD020(_) => MD020::label(),
            Rule::MD021(_) => MD021::label(),
            Rule::MD022(_) => MD022::label(),
            Rule::MD023(_) => MD023::label(),
            Rule::MD024(_) => MD024::label(),
            Rule::MD025(_) => MD025::label(),
            Rule::MD026(_) => MD026::label(),
            Rule::MD029(_) => MD029::label(),
            Rule::MD033(_) => MD033::label(),
            Rule::MD034(_) => MD034::label(),
            Rule::MD035(_) => MD035::label(),
            Rule::MD036(_) => MD036::label(),
            Rule::MD038(_) => MD038::label(),
            Rule::MD039(_) => MD039::label(),
            Rule::MD041(_) => MD041::label(),
            Rule::MD046(_) => MD046::label(),
        }
    }

    /// The spans that the rule finds in `doc`, in the order in which it
    /// reports them.
    pub open spec fn positions(&self, doc: DocumentView) -> Seq<Sourcepos> {
        match self {
            Rule::MD001(rule) => rule.positions(doc),
            Rule::MD002(rule) => rule.positions(doc),
            Rule::MD003(rule) => rule.positions(doc),
            Rule::MD005(rule) => rule.positions(doc),
            Rule::MD007(rule) => rule.positions(doc),
            Rule::MD010(rule) => rule.positions(doc),
            Rule::MD012(rule) => rule.positions(doc),
            Rule::MD013(rule) => rule.positions(doc),
            Rule::MD014(rule) => rule.positions(doc),
            Rule::MD018(rule) => rule.positions(doc),
            Rule::MD019(rule) => rule.positions(doc),
            Rule::MD020(rule) => rule.positions(doc),
            Rule::MD021(rule) => rule.positions(doc),
            Rule::MD022(rule) => rule.positions(doc),
            Rule::MD023(rule) => rule.positions(doc),
            Rule::MD024(rule) => rule.positions(doc),
            Rule::MD025(rule) => rule.positions(doc),
            Rule::MD026(rule) => rule.positions(doc),
            Rule::MD029(rule) => rule.positions(doc),
            Rule::MD033(rule) => rule.positions(doc),
            Rule::MD034(rule) => rule.positions(doc),
            Rule::MD035(rule) => rule.positions(doc),
            Rule::MD036(rule) => rule.positions(doc),
            Rule::MD038(rule) => rule.positions(doc),
            Rule::MD039(rule) => rule.positions(doc),
            Rule::MD041(rule) => rule.positions(doc),
            Rule::MD046(rule) => rule.positions(doc),
        }
    }

    /// The rule cannot finish its check of `doc`.
    pub open spec fn fails(&self, doc: DocumentView) -> bool {
        match self {
            Rule::MD013(rule) => rule.fails(doc),
            _ => false,
        }
    }

    /// The error of a check of `doc` that cannot be finished.
    pub open spec fn failure(&self, doc: DocumentView) -> ErrorView {
        match self {
            Rule::MD013(rule) => rule.failure(doc),
            _ => no_failure(doc),
        }
    }

    /// Runs the rule on `doc`.
    pub fn check(&self, doc: &Document) -> (result: Result<Vec<Violation>, LintError>)
        ensures
            result is Ok <==> !self.fails(doc@),
            result matches Ok(violations) ==> views(violations@) == findings(
                doc@.path,
                self.label(),
                self.positions(doc@),
            ),
            result matches Err(error) ==> error@ == self.failure(doc@),
    {
        match self {
            Rule::MD001(rule) => rule.check(doc),
            Rule::MD002(rule) => rule.check(doc),
            Rule::MD003(rule) => rule.check(doc),
            Rule::MD005(rule) => rule.check(doc),
            Rule::MD007(rule) => rule.check(doc),
            Rule::MD010(rule) => rule.check(doc),
            Rule::MD012(rule) => rule.check(doc),
            Rule::MD013(rule) => rule.check(doc),
            Rule::MD014(rule) => rule.check(doc),
            Rule::MD018(rule) => rule.check(doc),
            Rule::MD019(rule) => rule.check(doc),
            Rule::MD020(rule) => rule.check(doc),
            Rule::MD021(rule) => rule.check(doc),
            Rule::MD022(rule) => rule.check(doc),
            Rule::MD023(rule) => rule.check(doc),
            Rule::MD024(rule) => rule.check(doc),
            Rule::MD025(rule) => rule.check(doc),
            Rule::MD026(rule) => rule.check(doc),
            Rule::MD029(rule) => rule.check(doc),
            Rule::MD033(rule) => rule.check(doc),
            Rule::MD034(rule) => rule.check(doc),
            Rule::MD035(rule) => rule.check(doc),
            Rule::MD036(rule) => rule.check(doc),
            Rule::MD038(rule) => rule.check(doc),
            Rule::MD039(rule) => rule.check(doc),
            Rule::MD041(rule) => rule.check(doc),
            Rule::MD046(rule) => rule.check(doc),
        }
    }

    /// The rule can be run on `node` alone.
    pub open spec fn matches_node(&self, node: NodeModel) -> bool {
        match self {
            Rule::MD029(_) => MD029::matches(node),
            _ => false,
        }
    }

    /// The spans that the rule finds when it is run on node `i` alone.
    pub open spec fn node_positions(&self, tree: Seq<NodeModel>, i: int) -> Seq<Sourcepos> {
        match self {
            Rule::MD029(rule) => rule.list_positions(tree, i),
            _ => Seq::empty(),
        }
    }

    /// Whether the rule can be run on `node` alone.
    pub fn node_matcher(&self, node: &Node) -> (r: bool)
        ensures
            r == self.matches_node(node@),
    {
        match self {
            Rule::MD029(rule) => rule.matcher(node),
            _ => false,
        }
    }

    /// Runs the rule on node `i` of `doc` alone, and reports what it finds
    /// there under the path of `ctx`.
    pub fn run_node(&mut self, ctx: &NodeContext, doc: &Document, i: usize) -> (result: Result<
        Vec<Violation>,
        LintError,
    >)
        requires
            i < doc@.tree.len(),
        ensures
            *final(self) == *old(self),
            result matches Ok(violations) && views(violations@) == findings(
                ctx.path@,
                old(self).label(),
                old(self).node_positions(doc@.tree, i as int),
            ),
    {
        match self {
            Rule::MD029(rule) => rule.run(ctx, doc, i),
            _ => Ok(Vec::new()),
        }
    }

    /// Forgets what the rule has gathered while it ran on the nodes of a document.
    pub fn reset(&mut self)
        ensures
            *final(self) == *old(self),
    {
        match self {
            Rule::MD029(rule) => rule.reset(),
            _ => {},
        }
    }

    /// What the rule says about itself.
    pub fn metadata(&self) -> (metadata: Metadata)
        ensures
            metadata@ == self.about(),
            metadata.wf(),
            metadata.label() == self.label(),
    {
        match self {
            Rule::MD001(rule) => rule.metadata(),
            Rule::MD002(rule) => rule.metadata(),
            Rule::MD003(rule) => rule.metadata(),
            Rule::MD005(rule) => rule.metadata(),
            Rule::MD007(rule) => rule.metadata(),
            Rule::MD010(rule) => rule.metadata(),
            Rule::MD012(rule) => rule.metadata(),
            Rule::MD013(rule) => rule.metadata(),
            Rule::MD014(rule) => rule.metadata(),
            Rule::MD018(rule) => rule.metadata(),
            Rule::MD019(rule) => rule.metadata(),
            Rule::MD020(rule) => rule.metadata(),
            Rule::MD021(rule) => rule.metadata(),
            Rule::MD022(rule) => rule.metadata(),
            Rule::MD023(rule) => rule.metadata(),
            Rule::MD024(rule) => rule.metadata(),
            Rule::MD025(rule) => rule.metadata(),
            Rule::MD026(rule) => rule.metadata(),
            Rule::MD029(rule) => rule.metadata(),
            Rule::MD033(rule) => rule.metadata(),
            Rule::MD034(rule) => rule.metadata(),
            Rule::MD035(rule) => rule.metadata(),
            Rule::MD036(rule) => rule.metadata(),
            Rule::MD038(rule) => rule.metadata(),
            Rule::MD039(rule) => rule.metadata(),
            Rule::MD041(rule) => rule.metadata(),
            Rule::MD046(rule) => rule.metadata(),
        }
    }
}

impl RuleLike for Rule {
    open spec fn about_of(&self) -> MetadataView {
        self.about()
    }

    open spec fn label_of(&self) -> Label {
        self.label()
    }

    open spec fn positions_in(&self, doc: DocumentView) -> Seq<Sourcepos> {
        self.positions(doc)
    }

    open spec fn fails_on(&self, doc: DocumentView) -> bool {
        self.fails(doc)
    }

    open spec fn failure_on(&self, doc: DocumentView) -> ErrorView {
        self.failure(doc)
    }

    fn metadata(&self) -> (metadata: Metadata) {
        Rule::metadata(self)
    }

    fn check(&self, doc: &Document) -> (result: Result<Vec<Violation>, LintError>) {
        Rule::check(self, doc)
    }

    fn to_violation(&self, path: String, position: Sourcepos) -> (violation: Violation) {
        Violation::new(path, &Rule::metadata(self), position)
    }
}

} // verus!
