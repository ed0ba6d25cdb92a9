//! A document begins with a heading of the configured level.

use vstd::prelude::*;

use crate::document::Document;
use crate::document::DocumentView;
use crate::document::node_wf;
use crate::document::NodeModel;
use crate::document::NodeValue;
use crate::error::ErrorView;
use crate::error::LintError;
use crate::error::no_failure;
use crate::position::Sourcepos;
use crate::rule::helper::findings;
use crate::rule::helper::one_if;
use crate::rule::helper::to_violations;
use crate::rule::helper::top_heading;
use crate::rule::helper::top_level;
use crate::rule::helper::top_node;
use crate::rule::metadata::Label;
use crate::rule::metadata::Metadata;
use crate::rule::metadata::MetadataView;
use crate::rule::metadata::Tag;
use crate::rule::RuleLike;
use crate::violation::finding;
use crate::violation::views;
use crate::violation::Violation;

verus! {

/// Reports a document that does not begin with a heading of the configured
/// level.
#[derive(Debug, Clone, PartialEq, Eq)]
#[non_exhaustive]
pub struct MD041 {
    /// The level that the heading at the start of a document is to have.
    pub level: u8,
}

impl MD041 {
    /// The level that headings of the top level have.
    pub const DEFAULT_LEVEL: u8 = 1;
}

impl Default for MD041 {
    /// The rule with its default parameters.
    fn default() -> (rule: Self)
        ensures
            rule.level == 1,
    {
        MD041 {
            level: 1,
        }
    }
}

impl MD041 {
    /// The rule with the given parameters.
    pub fn new(level: u8) -> (rule: Self)
        ensures
            rule.level == level,
    {
        MD041 { level }
    }

    /// What the rule says about itself: its name, what it checks, the
    /// categories it belongs to and the other names it goes by.
    pub open spec fn about() -> MetadataView {
        MetadataView {
            name: "MD041"@,
            description: "First line in file should be a top level header"@,
            tags: seq![Tag::Headers],
            aliases: seq!["first-line-h1"@],
        }
    }

    /// What the violations of the rule carry of it.
    pub open spec fn label() -> Label {
        Self::about().label()
    }

    /// What the rule says about itself.
    pub fn metadata(&self) -> (metadata: Metadata)
        ensures
            metadata@ == Self::about(),
            metadata.wf(),
            metadata.label() == Self::label(),
    {
        let metadata = Metadata {
            name: "MD041",
            description: "First line in file should be a top level header",
            tags: vec![Tag::Headers],
            aliases: vec!["first-line-h1"],
        };
        proof {
            assert(metadata@.tags =~= Self::about().tags);
            assert(metadata@.aliases =~= Self::about().aliases);
        }
        metadata
    }

    /// The violation of the rule in `path` at `position`.
    pub fn to_violation(&self, path: String, position: Sourcepos) -> (violation: Violation)
        ensures
            violation@ == finding(path@, Self::label(), position),
    {
        Violation::new(path, &self.metadata(), position)
    }

    /// The first block is a heading of the configured level.
    pub open spec fn begins_well(&self, tree: Seq<NodeModel>) -> bool {
        top_heading(tree, 0) matches Some(heading) && heading.level == self.level
    }

    /// The span of the first block, unless it is a heading of the configured level.
    pub open spec fn positions(&self, doc: DocumentView) -> Seq<Sourcepos> {
        if top_level(doc.tree).len() > 0 {
            one_if(!self.begins_well(doc.tree), top_node(doc.tree, 0).position)
        } else {
            Seq::empty()
        }
    }

    /// A document that is empty, or begins with a heading of the
    /// configured level, has no findings.
    pub proof fn lemma_titled_document_passes(&self, doc: DocumentView)
        requires
            top_level(doc.tree).len() > 0 ==> self.begins_well(doc.tree),
        ensures
            self.positions(doc) == Seq::<Sourcepos>::empty(),
    {
    }

    fn scan(&self, doc: &Document) -> (found: Vec<Sourcepos>)
        ensures
            found@ == self.positions(doc@),
    {
        let nodes = doc.nodes();
        let mut found: Vec<Sourcepos> = Vec::new();
        if nodes.len() == 0 || nodes[0].children.len() == 0 {
            return found;
        }
        proof {
            assert(node_wf(doc@.tree, 0));
            assert(doc@.tree[0].children[0] < nodes.len());
        }
        let node = &nodes[nodes[0].children[0]];
        let matches_level = match &node.value {
            NodeValue::Heading(heading) => heading.level == self.level,
            _ => false,
        };
        if !matches_level {
            found.push(node.position);
        }
        found
    }

    /// Reports the first block of the document, unless it is a heading of the
    /// configured level.
    pub fn check(&self, doc: &Document) -> (result: Result<Vec<Violation>, LintError>)
        ensures
            result matches Ok(violations) && views(violations@) == findings(
                doc@.path,
                Self::label(),
                self.positions(doc@),
            ),
    {
        let positions = self.scan(doc);
        Ok(to_violations(doc.path(), &self.metadata(), &positions))
    }
}

impl RuleLike for MD041 {
    open spec fn about_of(&self) -> MetadataView {
        Self::about()
    }

    open spec fn label_of(&self) -> Label {
        Self::label()
    }

    open spec fn positions_in(&self, doc: DocumentView) -> Seq<Sourcepos> {
        self.positions(doc)
    }

    open spec fn fails_on(&self, doc: DocumentView) -> bool {
        false
    }

    open spec fn failure_on(&self, doc: DocumentView) -> ErrorView {
        no_failure(doc)
    }

    fn metadata(&self) -> (metadata: Metadata) {
        MD041::metadata(self)
    }

    fn check(&self, doc: &Document) -> (result: Result<Vec<Violation>, LintError>) {
        MD041::check(self, doc)
    }

    fn to_violation(&self, path: String, position: Sourcepos) -> (violation: Violation) {
        MD041::to_violation(self, path, position)
    }
}

} // verus!
