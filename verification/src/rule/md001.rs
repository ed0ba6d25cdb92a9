//! Heading levels may go up by one level at a time only.

use vstd::prelude::*;

use crate::document::Document;
use crate::document::DocumentView;
use crate::document::models;
use crate::document::node_wf;
use crate::document::NodeModel;
use crate::document::NodeValue;
use crate::document::tree_wf;
use crate::error::ErrorView;
use crate::error::LintError;
use crate::error::no_failure;
use crate::position::Sourcepos;
use crate::rule::helper::findings;
use crate::rule::helper::gather;
use crate::rule::helper::is_heading;
use crate::rule::helper::last_before;
use crate::rule::helper::lemma_gather_nothing;
use crate::rule::helper::one_if;
use crate::rule::helper::to_violations;
use crate::rule::helper::top_heading;
use crate::rule::helper::top_level;
use crate::rule::helper::top_node;
use crate::rule::metadata::Label;
use crate::rule::metadata::Metadata;
use crate::rule::metadata::MetadataView;
use crate::rule::metadata::Tag;
use crate::rule::RuleLike;
use crate::violation::finding;
use crate::violation::views;
use crate::violation::Violation;

verus! {

/// Reports headings that lie more than one level below the heading before
/// them.
#[derive(Default, Debug, Clone, PartialEq, Eq)]
#[non_exhaustive]
pub struct MD001;

impl MD001 {
    /// The rule; it has no parameters.
    pub fn new() -> (rule: Self) {
        MD001
    }

    /// What the rule says about itself: its name, what it checks, the
    /// categories it belongs to and the other names it goes by.
    pub open spec fn about() -> MetadataView {
        MetadataView {
            name: "MD001"@,
            description: "Header levels should only increment by one level at a time"@,
            tags: seq![Tag::Headers],
            aliases: seq!["header-increment"@],
        }
    }

    /// What the violations of the rule carry of it.
    pub open spec fn label() -> Label {
        Self::about().label()
    }

    /// What the rule says about itself.
    pub fn metadata(&self) -> (metadata: Metadata)
        ensures
            metadata@ == Self::about(),
            metadata.wf(),
            metadata.label() == Self::label(),
    {
        let metadata = Metadata {
            name: "MD001",
            description: "Header levels should only increment by one level at a time",
            tags: vec![Tag::Headers],
            aliases: vec!["header-increment"],
        };
        proof {
            assert(metadata@.tags =~= Self::about().tags);
            assert(metadata@.aliases =~= Self::about().aliases);
        }
        metadata
    }

    /// The violation of the rule in `path` at `position`.
    pub fn to_violation(&self, path: String, position: Sourcepos) -> (violation: Violation)
        ensures
            violation@ == finding(path@, Self::label(), position),
    {
        Violation::new(path, &self.metadata(), position)
    }

    /// The level of the nearest heading before place `k` of the top level.
    pub open spec fn previous_level(tree: Seq<NodeModel>, k: int) -> Option<u8> {
        match last_before(k, is_heading(tree)) {
            Some(j) => Some(top_heading(tree, j)->0.level),
            None => None,
        }
    }

    /// A heading stands at place `k`, more than one level below the heading
    /// before it.
    pub open spec fn skips_level(tree: Seq<NodeModel>, k: int) -> bool {
        &&& top_heading(tree, k) matches Some(heading)
        &&& Self::previous_level(tree, k) matches Some(previous)
        &&& heading.level > previous + 1
    }

    /// What place `k` of the top level contributes.
    pub open spec fn each(&self, tree: Seq<NodeModel>) -> spec_fn(int) -> Seq<Sourcepos> {
        |k: int| one_if(Self::skips_level(tree, k), top_node(tree, k).position)
    }

    /// The spans of the top-level headings that skip a level, in document order.
    pub open spec fn positions(&self, doc: DocumentView) -> Seq<Sourcepos> {
        gather(top_level(doc.tree).len() as int, self.each(doc.tree))
    }

    /// A document in which no heading lies more than one level below the
    /// heading before it has no findings.
    pub proof fn lemma_steady_levels_pass(&self, doc: DocumentView)
        requires
            forall|k: int|
                0 <= k < top_level(doc.tree).len() && (#[trigger] top_heading(doc.tree, k)) is Some
                    && Self::previous_level(doc.tree, k) is Some ==> top_heading(
                    doc.tree,
                    k,
                )->0.level <= Self::previous_level(doc.tree, k)->0 + 1,
        ensures
            self.positions(doc) == Seq::<Sourcepos>::empty(),
    {
        let each = self.each(doc.tree);
        assert forall|k: int| 0 <= k < top_level(doc.tree).len() implies
            (#[trigger] each(k)).len() == 0 by {
            if top_heading(doc.tree, k) is Some {
            }
        }
        lemma_gather_nothing(top_level(doc.tree).len() as int, each);
    }

    fn scan(&self, doc: &Document) -> (found: Vec<Sourcepos>)
        ensures
            found@ == self.positions(doc@),
    {
        let nodes = doc.nodes();
        let mut found: Vec<Sourcepos> = Vec::new();
        if nodes.len() == 0 {
            return found;
        }
        let ghost tree = doc@.tree;
        let top = &nodes[0].children;
        let mut previous: Option<u8> = None;
        let mut k: usize = 0;
        while k < top.len()
            invariant
                models(nodes@) == tree,
                tree_wf(tree),
                top@ == top_level(tree),
                k <= top.len(),
                found@ == gather(k as int, self.each(tree)),
                previous == Self::previous_level(tree, k as int),
            decreases top.len() - k,
        {
            proof {
                assert(node_wf(tree, 0));
                assert(top@[k as int] == tree[0].children[k as int]);
            }
            let node = &nodes[top[k]];
            if let NodeValue::Heading(heading) = &node.value {
                if let Some(level) = previous {
                    if heading.level > level && heading.level - level > 1 {
                        found.push(node.position);
                    }
                }
                previous = Some(heading.level);
            }
            proof {
                assert(found@ =~= gather(k as int, self.each(tree)) + self.each(tree)(k as int));
            }
            k = k + 1;
        }
        found
    }

    /// Reports every top-level heading that skips a level.
    pub fn check(&self, doc: &Document) -> (result: Result<Vec<Violation>, LintError>)
        ensures
            result matches Ok(violations) && views(violations@) == findings(
                doc@.path,
                Self::label(),
                self.positions(doc@),
            ),
    {
        let positions = self.scan(doc);
        Ok(to_violations(doc.path(), &self.metadata(), &positions))
    }
}

impl RuleLike for MD001 {
    open spec fn about_of(&self) -> MetadataView {
        Self::about()
    }

    open spec fn label_of(&self) -> Label {
        Self::label()
    }

    open spec fn positions_in(&self, doc: DocumentView) -> Seq<Sourcepos> {
        self.positions(doc)
    }

    open spec fn fails_on(&self, doc: DocumentView) -> bool {
        false
    }

    open spec fn failure_on(&self, doc: DocumentView) -> ErrorView {
        no_failure(doc)
    }

    fn metadata(&self) -> (metadata: Metadata) {
        MD001::metadata(self)
    }

    fn check(&self, doc: &Document) -> (result: Result<Vec<Violation>, LintError>) {
        MD001::check(self, doc)
    }

    fn to_violation(&self, path: String, position: Sourcepos) -> (violation: Violation) {
        MD001::to_violation(self, path, position)
    }
}

} // verus!
