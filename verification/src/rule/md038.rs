//! Code spans hold no space next to their backticks.

use vstd::prelude::*;

use crate::document::Document;
use crate::document::DocumentView;
use crate::document::models;
use crate::document::node_wf;
use crate::document::NodeModel;
use crate::document::NodeValue;
use crate::document::tree_wf;
use crate::error::ErrorView;
use crate::error::LintError;
use crate::error::no_failure;
use crate::position::Sourcepos;
use crate::rule::helper::findings;
use crate::rule::helper::gather;
use crate::rule::helper::lemma_gather_nothing;
use crate::rule::helper::one_if;
use crate::rule::helper::to_violations;
use crate::rule::metadata::Label;
use crate::rule::metadata::Metadata;
use crate::rule::metadata::MetadataView;
use crate::rule::metadata::Tag;
use crate::rule::RuleLike;
use crate::text::byte_count;
use crate::text::byte_len;
use crate::text::ends_with_space;
use crate::text::has_leading_space;
use crate::text::has_trailing_space;
use crate::text::starts_with_space;
use crate::violation::finding;
use crate::violation::views;
use crate::violation::Violation;

verus! {

/// Reports code spans with space next to their backticks.
#[derive(Default, Debug, Clone, PartialEq, Eq)]
#[non_exhaustive]
pub struct MD038;

impl MD038 {
    /// The rule; it has no parameters.
    pub fn new() -> (rule: Self) {
        MD038
    }

    /// What the rule says about itself: its name, what it checks, the
    /// categories it belongs to and the other names it goes by.
    pub open spec fn about() -> MetadataView {
        MetadataView {
            name: "MD038"@,
            description: "Spaces inside code span elements"@,
            tags: seq![Tag::Whitespace, Tag::Code],
            aliases: seq!["no-space-in-code"@],
        }
    }

    /// What the violations of the rule carry of it.
    pub open spec fn label() -> Label {
        Self::about().label()
    }

    /// What the rule says about itself.
    pub fn metadata(&self) -> (metadata: Metadata)
        ensures
            metadata@ == Self::about(),
            metadata.wf(),
            metadata.label() == Self::label(),
    {
        let metadata = Metadata {
            name: "MD038",
            description: "Spaces inside code span elements",
            tags: vec![Tag::Whitespace, Tag::Code],
            aliases: vec!["no-space-in-code"],
        };
        proof {
            assert(metadata@.tags =~= Self::about().tags);
            assert(metadata@.aliases =~= Self::about().aliases);
        }
        metadata
    }

    /// The violation of the rule in `path` at `position`.
    pub fn to_violation(&self, path: String, position: Sourcepos) -> (violation: Violation)
        ensures
            violation@ == finding(path@, Self::label(), position),
    {
        Violation::new(path, &self.metadata(), position)
    }

    /// The number of columns that `position` covers on its line.
    pub open spec fn columns(position: Sourcepos) -> int {
        position.end.column - position.start.column + 1
    }

    /// Node `i` is a code span whose content begins or ends with white
    /// space, or does not take as many bytes as its span has columns.
    pub open spec fn violates(tree: Seq<NodeModel>, i: int) -> bool {
        &&& tree[i].value matches NodeValue::Code(literal)
        &&& (has_leading_space(literal@) || has_trailing_space(literal@) || byte_len(literal@)
            != Self::columns(tree[i].position))
    }

    /// What node `i` contributes.
    pub open spec fn each(&self, tree: Seq<NodeModel>) -> spec_fn(int) -> Seq<Sourcepos> {
        |i: int| one_if(Self::violates(tree, i), tree[i].position)
    }

    /// The spans of the code spans with space inside, in document order.
    pub open spec fn positions(&self, doc: DocumentView) -> Seq<Sourcepos> {
        gather(doc.tree.len() as int, self.each(doc.tree))
    }

    /// A document in which every code span is as long as its content and
    /// holds no space next to its backticks has no findings.
    pub proof fn lemma_tight_code_spans_pass(&self, doc: DocumentView)
        requires
            forall|i: int| 0 <= i < doc.tree.len() ==> !#[trigger] Self::violates(doc.tree, i),
        ensures
            self.positions(doc) == Seq::<Sourcepos>::empty(),
    {
        let each = self.each(doc.tree);
        assert forall|k: int| 0 <= k < doc.tree.len() implies (#[trigger] each(k)).len() == 0 by {
        }
        lemma_gather_nothing(doc.tree.len() as int, each);
    }

    fn scan(&self, doc: &Document) -> (found: Vec<Sourcepos>)
        ensures
            found@ == self.positions(doc@),
    {
        let nodes = doc.nodes();
        let mut found: Vec<Sourcepos> = Vec::new();
        let ghost tree = doc@.tree;
        let mut i: usize = 0;
        while i < nodes.len()
            invariant
                models(nodes@) == tree,
                tree_wf(tree),
                i <= nodes.len(),
                found@ == gather(i as int, self.each(tree)),
            decreases nodes.len() - i,
        {
            proof {
                assert(node_wf(tree, i as int));
            }
            let node = &nodes[i];
            if let NodeValue::Code(literal) = &node.value {
                let length = byte_count(literal.as_str());
                let start = node.position.start.column;
                let end = node.position.end.column;
                let fits = if end < start {
                    start - end == 1 && length == 0
                } else {
                    end - start < usize::MAX && length == end - start + 1
                };
                let spaced = starts_with_space(literal.as_str()) || ends_with_space(
                    literal.as_str(),
                );
                if spaced || !fits {
                    found.push(node.position);
                }
            }
            proof {
                assert(found@ =~= gather(i as int, self.each(tree)) + self.each(tree)(i as int));
            }
            i = i + 1;
        }
        found
    }

    /// Reports every code span that begins or ends with white space, or whose
    /// span is not as long as its content.
    pub fn check(&self, doc: &Document) -> (result: Result<Vec<Violation>, LintError>)
        ensures
            result matches Ok(violations) && views(violations@) == findings(
                doc@.path,
                Self::label(),
                self.positions(doc@),
            ),
    {
        let positions = self.scan(doc);
        Ok(to_violations(doc.path(), &self.metadata(), &positions))
    }
}

impl RuleLike for MD038 {
    open spec fn about_of(&self) -> MetadataView {
        Self::about()
    }

    open spec fn label_of(&self) -> Label {
        Self::label()
    }

    open spec fn positions_in(&self, doc: DocumentView) -> Seq<Sourcepos> {
        self.positions(doc)
    }

    open spec fn fails_on(&self, doc: DocumentView) -> bool {
        false
    }

    open spec fn failure_on(&self, doc: DocumentView) -> ErrorView {
        no_failure(doc)
    }

    fn metadata(&self) -> (metadata: Metadata) {
        MD038::metadata(self)
    }

    fn check(&self, doc: &Document) -> (result: Result<Vec<Violation>, LintError>) {
        MD038::check(self, doc)
    }

    fn to_violation(&self, path: String, position: Sourcepos) -> (violation: Violation) {
        MD038::to_violation(self, path, position)
    }
}

} // verus!
