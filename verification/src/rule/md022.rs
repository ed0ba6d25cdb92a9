//! Blank lines stand around headings.

use vstd::prelude::*;

use crate::document::Document;
use crate::document::DocumentView;
use crate::document::models;
use crate::document::node_wf;
use crate::document::NodeModel;
use crate::document::NodeValue;
use crate::document::tree_wf;
use crate::error::ErrorView;
use crate::error::LintError;
use crate::error::no_failure;
use crate::position::Sourcepos;
use crate::rule::helper::findings;
use crate::rule::helper::gather;
use crate::rule::helper::lemma_gather_nothing;
use crate::rule::helper::one_if;
use crate::rule::helper::to_violations;
use crate::rule::helper::top_heading;
use crate::rule::helper::top_level;
use crate::rule::helper::top_node;
use crate::rule::metadata::Label;
use crate::rule::metadata::Metadata;
use crate::rule::metadata::MetadataView;
use crate::rule::metadata::Tag;
use crate::rule::RuleLike;
use crate::violation::finding;
use crate::violation::views;
use crate::violation::Violation;

verus! {

/// Reports headings that no blank line parts from the blocks around them.
#[derive(Default, Debug, Clone, PartialEq, Eq)]
#[non_exhaustive]
pub struct MD022;

impl MD022 {
    /// The rule; it has no parameters.
    pub fn new() -> (rule: Self) {
        MD022
    }

    /// What the rule says about itself: its name, what it checks, the
    /// categories it belongs to and the other names it goes by.
    pub open spec fn about() -> MetadataView {
        MetadataView {
            name: "MD022"@,
            description: "Headers should be surrounded by blank lines"@,
            tags: seq![Tag::Headers, Tag::BlankLines],
            aliases: seq!["blanks-around-headers"@],
        }
    }

    /// What the violations of the rule carry of it.
    pub open spec fn label() -> Label {
        Self::about().label()
    }

    /// What the rule says about itself.
    pub fn metadata(&self) -> (metadata: Metadata)
        ensures
            metadata@ == Self::about(),
            metadata.wf(),
            metadata.label() == Self::label(),
    {
        let metadata = Metadata {
            name: "MD022",
            description: "Headers should be surrounded by blank lines",
            tags: vec![Tag::Headers, Tag::BlankLines],
            aliases: vec!["blanks-around-headers"],
        };
        proof {
            assert(metadata@.tags =~= Self::about().tags);
            assert(metadata@.aliases =~= Self::about().aliases);
        }
        metadata
    }

    /// The violation of the rule in `path` at `position`.
    pub fn to_violation(&self, path: String, position: Sourcepos) -> (violation: Violation)
        ensures
            violation@ == finding(path@, Self::label(), position),
    {
        Violation::new(path, &self.metadata(), position)
    }

    /// The block at place `k` starts on the line after the block before it.
    pub open spec fn touches_previous(tree: Seq<NodeModel>, k: int) -> bool {
        k >= 1 && top_node(tree, k).position.start.line == top_node(tree, k - 1).position.end.line
            + 1
    }

    /// What the block at place `k` contributes: the heading before it, if
    /// the block touches it; else the block itself, if it is a heading that
    /// touches the block before it. A block that ends in column 0 touches
    /// nothing after it.
    pub open spec fn each(&self, tree: Seq<NodeModel>) -> spec_fn(int) -> Seq<Sourcepos> {
        |k: int|
            if k >= 1 && top_heading(tree, k - 1) is Some {
                one_if(Self::touches_previous(tree, k), top_node(tree, k - 1).position)
            } else if k >= 1 && top_heading(tree, k) is Some {
                one_if(
                    Self::touches_previous(tree, k) && top_node(tree, k - 1).position.end.column
                        != 0,
                    top_node(tree, k).position,
                )
            } else {
                Seq::empty()
            }
    }

    /// The spans of the top-level headings without a blank line after or
    /// before them, in document order of the blocks that touch them.
    pub open spec fn positions(&self, doc: DocumentView) -> Seq<Sourcepos> {
        gather(top_level(doc.tree).len() as int, self.each(doc.tree))
    }

    /// A document in which no block of the top level starts on the line
    /// after the block before it has no findings.
    pub proof fn lemma_parted_blocks_pass(&self, doc: DocumentView)
        requires
            forall|k: int|
                1 <= k < top_level(doc.tree).len() ==> !#[trigger] Self::touches_previous(
                    doc.tree,
                    k,
                ),
        ensures
            self.positions(doc) == Seq::<Sourcepos>::empty(),
    {
        let each = self.each(doc.tree);
        assert forall|k: int| 0 <= k < top_level(doc.tree).len() implies
            (#[trigger] each(k)).len() == 0 by {
        }
        lemma_gather_nothing(top_level(doc.tree).len() as int, each);
    }

    fn scan(&self, doc: &Document) -> (found: Vec<Sourcepos>)
        ensures
            found@ == self.positions(doc@),
    {
        let nodes = doc.nodes();
        let mut found: Vec<Sourcepos> = Vec::new();
        if nodes.len() == 0 {
            return found;
        }
        let ghost tree = doc@.tree;
        let top = &nodes[0].children;
        let mut k: usize = 0;
        while k < top.len()
            invariant
                models(nodes@) == tree,
                tree_wf(tree),
                top@ == top_level(tree),
                k <= top.len(),
                found@ == gather(k as int, self.each(tree)),
            decreases top.len() - k,
        {
            proof {
                assert(node_wf(tree, 0));
                assert(top@[k as int] == tree[0].children[k as int]);
            }
            let node = &nodes[top[k]];
            if k >= 1 {
                proof {
                    assert(top@[k - 1] == tree[0].children[k - 1]);
                }
                let previous = &nodes[top[k - 1]];
                let touches = previous.position.end.line < usize::MAX && node.position.start.line
                    == previous.position.end.line + 1;
                if let NodeValue::Heading(_) = &previous.value {
                    if touches {
                        found.push(previous.position);
                    }
                } else if let NodeValue::Heading(_) = &node.value {
                    if touches && previous.position.end.column != 0 {
                        found.push(node.position);
                    }
                }
            }
            proof {
                assert(found@ =~= gather(k as int, self.each(tree)) + self.each(tree)(k as int));
            }
            k = k + 1;
        }
        found
    }

    /// Reports every top-level heading that touches the block after or before
    /// it.
    pub fn check(&self, doc: &Document) -> (result: Result<Vec<Violation>, LintError>)
        ensures
            result matches Ok(violations) && views(violations@) == findings(
                doc@.path,
                Self::label(),
                self.positions(doc@),
            ),
    {
        let positions = self.scan(doc);
        Ok(to_violations(doc.path(), &self.metadata(), &positions))
    }
}

impl RuleLike for MD022 {
    open spec fn about_of(&self) -> MetadataView {
        Self::about()
    }

    open spec fn label_of(&self) -> Label {
        Self::label()
    }

    open spec fn positions_in(&self, doc: DocumentView) -> Seq<Sourcepos> {
        self.positions(doc)
    }

    open spec fn fails_on(&self, doc: DocumentView) -> bool {
        false
    }

    open spec fn failure_on(&self, doc: DocumentView) -> ErrorView {
        no_failure(doc)
    }

    fn metadata(&self) -> (metadata: Metadata) {
        MD022::metadata(self)
    }

    fn check(&self, doc: &Document) -> (result: Result<Vec<Violation>, LintError>) {
        MD022::check(self, doc)
    }

    fn to_violation(&self, path: String, position: Sourcepos) -> (violation: Violation) {
        MD022::to_violation(self, path, position)
    }
}

} // verus!
