//! The first heading has the configured level.

use vstd::prelude::*;

use crate::document::Document;
use crate::document::DocumentView;
use crate::document::models;
use crate::document::node_wf;
use crate::document::NodeModel;
use crate::document::NodeValue;
use crate::document::tree_wf;
use crate::error::ErrorView;
use crate::error::LintError;
use crate::error::no_failure;
use crate::position::Sourcepos;
use crate::rule::helper::findings;
use crate::rule::helper::first_before;
use crate::rule::helper::gather;
use crate::rule::helper::is_heading;
use crate::rule::helper::lemma_gather_nothing;
use crate::rule::helper::one_if;
use crate::rule::helper::to_violations;
use crate::rule::helper::top_heading;
use crate::rule::helper::top_level;
use crate::rule::helper::top_node;
use crate::rule::metadata::Label;
use crate::rule::metadata::Metadata;
use crate::rule::metadata::MetadataView;
use crate::rule::metadata::Tag;
use crate::rule::RuleLike;
use crate::violation::finding;
use crate::violation::views;
use crate::violation::Violation;

verus! {

/// Reports a first heading that has not the configured level.
#[derive(Debug, Clone, PartialEq, Eq)]
#[non_exhaustive]
pub struct MD002 {
    /// The level that the first heading is to have.
    pub level: u8,
}

impl MD002 {
    /// The level that headings of the top level have.
    pub const DEFAULT_LEVEL: u8 = 1;
}

impl Default for MD002 {
    /// The rule with its default parameters.
    fn default() -> (rule: Self)
        ensures
            rule.level == 1,
    {
        MD002 {
            level: 1,
        }
    }
}

impl MD002 {
    /// The rule with the given parameters.
    pub fn new(level: u8) -> (rule: Self)
        ensures
            rule.level == level,
    {
        MD002 { level }
    }

    /// What the rule says about itself: its name, what it checks, the
    /// categories it belongs to and the other names it goes by.
    pub open spec fn about() -> MetadataView {
        MetadataView {
            name: "MD002"@,
            description: "First header should be a top level header"@,
            tags: seq![Tag::Headers],
            aliases: seq!["first-header-h1"@],
        }
    }

    /// What the violations of the rule carry of it.
    pub open spec fn label() -> Label {
        Self::about().label()
    }

    /// What the rule says about itself.
    pub fn metadata(&self) -> (metadata: Metadata)
        ensures
            metadata@ == Self::about(),
            metadata.wf(),
            metadata.label() == Self::label(),
    {
        let metadata = Metadata {
            name: "MD002",
            description: "First header should be a top level header",
            tags: vec![Tag::Headers],
            aliases: vec!["first-header-h1"],
        };
        proof {
            assert(metadata@.tags =~= Self::about().tags);
            assert(metadata@.aliases =~= Self::about().aliases);
        }
        metadata
    }

    /// The violation of the rule in `path` at `position`.
    pub fn to_violation(&self, path: String, position: Sourcepos) -> (violation: Violation)
        ensures
            violation@ == finding(path@, Self::label(), position),
    {
        Violation::new(path, &self.metadata(), position)
    }

    /// The first heading of the top level stands at place `k`, and its level
    /// is not the configured one.
    pub open spec fn violates(&self, tree: Seq<NodeModel>, k: int) -> bool {
        &&& top_heading(tree, k) matches Some(heading)
        &&& first_before(k, is_heading(tree)) is None
        &&& heading.level != self.level
    }

    /// What place `k` of the top level contributes.
    pub open spec fn each(&self, tree: Seq<NodeModel>) -> spec_fn(int) -> Seq<Sourcepos> {
        |k: int| one_if(self.violates(tree, k), top_node(tree, k).position)
    }

    /// The span of the first top-level heading, if its level is wrong.
    pub open spec fn positions(&self, doc: DocumentView) -> Seq<Sourcepos> {
        gather(top_level(doc.tree).len() as int, self.each(doc.tree))
    }

    /// A document whose first heading has the configured level has no
    /// findings.
    pub proof fn lemma_first_heading_of_level_passes(&self, doc: DocumentView)
        requires
            forall|k: int|
                0 <= k < top_level(doc.tree).len() && (#[trigger] top_heading(doc.tree, k)) is Some
                    && first_before(k, is_heading(doc.tree)) is None ==> top_heading(
                    doc.tree,
                    k,
                )->0.level == self.level,
        ensures
            self.positions(doc) == Seq::<Sourcepos>::empty(),
    {
        let each = self.each(doc.tree);
        assert forall|k: int| 0 <= k < top_level(doc.tree).len() implies
            (#[trigger] each(k)).len() == 0 by {
            if top_heading(doc.tree, k) is Some {
            }
        }
        lemma_gather_nothing(top_level(doc.tree).len() as int, each);
    }

    fn scan(&self, doc: &Document) -> (found: Vec<Sourcepos>)
        ensures
            found@ == self.positions(doc@),
    {
        let nodes = doc.nodes();
        let mut found: Vec<Sourcepos> = Vec::new();
        if nodes.len() == 0 {
            return found;
        }
        let ghost tree = doc@.tree;
        let top = &nodes[0].children;
        let mut seen = false;
        let mut k: usize = 0;
        while k < top.len()
            invariant
                models(nodes@) == tree,
                tree_wf(tree),
                top@ == top_level(tree),
                k <= top.len(),
                found@ == gather(k as int, self.each(tree)),
                seen == first_before(k as int, is_heading(tree)) is Some,
            decreases top.len() - k,
        {
            proof {
                assert(node_wf(tree, 0));
                assert(top@[k as int] == tree[0].children[k as int]);
            }
            let node = &nodes[top[k]];
            if let NodeValue::Heading(heading) = &node.value {
                if !seen && heading.level != self.level {
                    found.push(node.position);
                }
                seen = true;
            }
            proof {
                assert(found@ =~= gather(k as int, self.each(tree)) + self.each(tree)(k as int));
            }
            k = k + 1;
        }
        found
    }

    /// Reports the first top-level heading, unless it has the configured
    /// level.
    pub fn check(&self, doc: &Document) -> (result: Result<Vec<Violation>, LintError>)
        ensures
            result matches Ok(violations) && views(violations@) == findings(
                doc@.path,
                Self::label(),
                self.positions(doc@),
            ),
    {
        let positions = self.scan(doc);
        Ok(to_violations(doc.path(), &self.metadata(), &positions))
    }
}

impl RuleLike for MD002 {
    open spec fn about_of(&self) -> MetadataView {
        Self::about()
    }

    open spec fn label_of(&self) -> Label {
        Self::label()
    }

    open spec fn positions_in(&self, doc: DocumentView) -> Seq<Sourcepos> {
        self.positions(doc)
    }

    open spec fn fails_on(&self, doc: DocumentView) -> bool {
        false
    }

    open spec fn failure_on(&self, doc: DocumentView) -> ErrorView {
        no_failure(doc)
    }

    fn metadata(&self) -> (metadata: Metadata) {
        MD002::metadata(self)
    }

    fn check(&self, doc: &Document) -> (result: Result<Vec<Violation>, LintError>) {
        MD002::check(self, doc)
    }

    fn to_violation(&self, path: String, position: Sourcepos) -> (violation: Violation) {
        MD002::to_violation(self, path, position)
    }
}

} // verus!
