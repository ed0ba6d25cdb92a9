//! One space follows the hashes of a heading.

use vstd::prelude::*;

use crate::document::Document;
use crate::document::DocumentView;
use crate::document::models;
use crate::document::node_wf;
use crate::document::NodeModel;
use crate::document::NodeValue;
use crate::document::tree_wf;
use crate::error::ErrorView;
use crate::error::LintError;
use crate::error::no_failure;
use crate::position::Sourcepos;
use crate::rule::helper::findings;
use crate::rule::helper::gather;
use crate::rule::helper::lemma_gather_nothing;
use crate::rule::helper::one_if;
use crate::rule::helper::to_violations;
use crate::rule::helper::top_heading;
use crate::rule::helper::top_level;
use crate::rule::helper::top_node;
use crate::rule::metadata::Label;
use crate::rule::metadata::Metadata;
use crate::rule::metadata::MetadataView;
use crate::rule::metadata::Tag;
use crate::rule::RuleLike;
use crate::violation::finding;
use crate::violation::views;
use crate::violation::Violation;

verus! {

/// Reports headings with more than one space after their hashes.
#[derive(Default, Debug, Clone, PartialEq, Eq)]
#[non_exhaustive]
pub struct MD019;

impl MD019 {
    /// The rule; it has no parameters.
    pub fn new() -> (rule: Self) {
        MD019
    }

    /// What the rule says about itself: its name, what it checks, the
    /// categories it belongs to and the other names it goes by.
    pub open spec fn about() -> MetadataView {
        MetadataView {
            name: "MD019"@,
            description: "Multiple spaces after hash on atx style header"@,
            tags: seq![Tag::Headers, Tag::Atx, Tag::Spaces],
            aliases: seq!["no-multiple-space-atx"@],
        }
    }

    /// What the violations of the rule carry of it.
    pub open spec fn label() -> Label {
        Self::about().label()
    }

    /// What the rule says about itself.
    pub fn metadata(&self) -> (metadata: Metadata)
        ensures
            metadata@ == Self::about(),
            metadata.wf(),
            metadata.label() == Self::label(),
    {
        let metadata = Metadata {
            name: "MD019",
            description: "Multiple spaces after hash on atx style header",
            tags: vec![Tag::Headers, Tag::Atx, Tag::Spaces],
            aliases: vec!["no-multiple-space-atx"],
        };
        proof {
            assert(metadata@.tags =~= Self::about().tags);
            assert(metadata@.aliases =~= Self::about().aliases);
        }
        metadata
    }

    /// The violation of the rule in `path` at `position`.
    pub fn to_violation(&self, path: String, position: Sourcepos) -> (violation: Violation)
        ensures
            violation@ == finding(path@, Self::label(), position),
    {
        Violation::new(path, &self.metadata(), position)
    }

    /// A heading with hashes stands at place `k`, and the text that it
    /// begins with starts behind the column after its hashes and one space.
    pub open spec fn violates(tree: Seq<NodeModel>, k: int) -> bool {
        let node = top_node(tree, k);
        &&& top_heading(tree, k) matches Some(heading)
        &&& !heading.setext
        &&& node.children.len() > 0
        &&& tree[node.children.first() as int].value is Text
        &&& tree[node.children.first() as int].position.start.column > node.position.start.column
            + heading.level + 1
    }

    /// What place `k` of the top level contributes.
    pub open spec fn each(&self, tree: Seq<NodeModel>) -> spec_fn(int) -> Seq<Sourcepos> {
        |k: int| one_if(Self::violates(tree, k), top_node(tree, k).position)
    }

    /// The spans of the top-level headings with too much space after their
    /// hashes, in document order.
    pub open spec fn positions(&self, doc: DocumentView) -> Seq<Sourcepos> {
        gather(top_level(doc.tree).len() as int, self.each(doc.tree))
    }

    /// A document in which the text of no heading with hashes starts
    /// further to the right than one space behind them has no findings.
    pub proof fn lemma_single_spaces_pass(&self, doc: DocumentView)
        requires
            forall|k: int|
                0 <= k < top_level(doc.tree).len() ==> !#[trigger] Self::violates(doc.tree, k),
        ensures
            self.positions(doc) == Seq::<Sourcepos>::empty(),
    {
        let each = self.each(doc.tree);
        assert forall|k: int| 0 <= k < top_level(doc.tree).len() implies
            (#[trigger] each(k)).len() == 0 by {
        }
        lemma_gather_nothing(top_level(doc.tree).len() as int, each);
    }

    fn scan(&self, doc: &Document) -> (found: Vec<Sourcepos>)
        ensures
            found@ == self.positions(doc@),
    {
        let nodes = doc.nodes();
        let mut found: Vec<Sourcepos> = Vec::new();
        if nodes.len() == 0 {
            return found;
        }
        let ghost tree = doc@.tree;
        let top = &nodes[0].children;
        let mut k: usize = 0;
        while k < top.len()
            invariant
                models(nodes@) == tree,
                tree_wf(tree),
                top@ == top_level(tree),
                k <= top.len(),
                found@ == gather(k as int, self.each(tree)),
            decreases top.len() - k,
        {
            proof {
                assert(node_wf(tree, 0));
                assert(top@[k as int] == tree[0].children[k as int]);
            }
            let node = &nodes[top[k]];
            if let NodeValue::Heading(heading) = &node.value {
                if !heading.setext && node.children.len() > 0 {
                    proof {
                        assert(node_wf(tree, top@[k as int] as int));
                        assert(tree[top@[k as int] as int].children[0] < tree.len());
                    }
                    let first = &nodes[node.children[0]];
                    if let NodeValue::Text(_) = &first.value {
                        let text_column = first.position.start.column;
                        let heading_column = node.position.start.column;
                        let level: usize = heading.level as usize;
                        if text_column > heading_column && text_column - heading_column > level
                            + 1 {
                            found.push(node.position);
                        }
                    }
                }
            }
            proof {
                assert(found@ =~= gather(k as int, self.each(tree)) + self.each(tree)(k as int));
            }
            k = k + 1;
        }
        found
    }

    /// Reports every top-level heading with hashes whose text starts too far
    /// to the right.
    pub fn check(&self, doc: &Document) -> (result: Result<Vec<Violation>, LintError>)
        ensures
            result matches Ok(violations) && views(violations@) == findings(
                doc@.path,
                Self::label(),
                self.positions(doc@),
            ),
    {
        let positions = self.scan(doc);
        Ok(to_violations(doc.path(), &self.metadata(), &positions))
    }
}

impl RuleLike for MD019 {
    open spec fn about_of(&self) -> MetadataView {
        Self::about()
    }

    open spec fn label_of(&self) -> Label {
        Self::label()
    }

    open spec fn positions_in(&self, doc: DocumentView) -> Seq<Sourcepos> {
        self.positions(doc)
    }

    open spec fn fails_on(&self, doc: DocumentView) -> bool {
        false
    }

    open spec fn failure_on(&self, doc: DocumentView) -> ErrorView {
        no_failure(doc)
    }

    fn metadata(&self) -> (metadata: Metadata) {
        MD019::metadata(self)
    }

    fn check(&self, doc: &Document) -> (result: Result<Vec<Violation>, LintError>) {
        MD019::check(self, doc)
    }

    fn to_violation(&self, path: String, position: Sourcepos) -> (violation: Violation) {
        MD019::to_violation(self, path, position)
    }
}

} // verus!
