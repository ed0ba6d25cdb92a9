//! List items are indented by multiples of the configured width.

use vstd::prelude::*;

use crate::document::Document;
use crate::document::DocumentView;
use crate::document::models;
use crate::document::node_wf;
use crate::document::NodeModel;
use crate::document::NodeValue;
use crate::document::tree_wf;
use crate::error::ErrorView;
use crate::error::LintError;
use crate::error::no_failure;
use crate::position::Sourcepos;
use crate::rule::helper::findings;
use crate::rule::helper::gather;
use crate::rule::helper::lemma_gather_nothing;
use crate::rule::helper::one_if;
use crate::rule::helper::to_violations;
use crate::rule::metadata::Label;
use crate::rule::metadata::Metadata;
use crate::rule::metadata::MetadataView;
use crate::rule::metadata::Tag;
use crate::rule::RuleLike;
use crate::violation::finding;
use crate::violation::views;
use crate::violation::Violation;

verus! {

/// Reports list items whose indentation is no multiple of the configured
/// width.
#[derive(Debug, Clone, PartialEq, Eq)]
#[non_exhaustive]
pub struct MD007 {
    /// The width by multiples of which list items are to be indented.
    pub indent: usize,
}

impl Default for MD007 {
    /// The rule with its default parameters.
    fn default() -> (rule: Self)
        ensures
            rule.indent == 4,
    {
        MD007 {
            indent: 4,
        }
    }
}

impl MD007 {
    /// The rule with the given parameters.
    pub fn new(indent: usize) -> (rule: Self)
        ensures
            rule.indent == indent,
    {
        MD007 { indent }
    }

    /// What the rule says about itself: its name, what it checks, the
    /// categories it belongs to and the other names it goes by.
    pub open spec fn about() -> MetadataView {
        MetadataView {
            name: "MD007"@,
            description: "Unordered list indentation"@,
            tags: seq![Tag::Bullet, Tag::Ul, Tag::Indentation],
            aliases: seq!["ul-indent"@],
        }
    }

    /// What the violations of the rule carry of it.
    pub open spec fn label() -> Label {
        Self::about().label()
    }

    /// What the rule says about itself.
    pub fn metadata(&self) -> (metadata: Metadata)
        ensures
            metadata@ == Self::about(),
            metadata.wf(),
            metadata.label() == Self::label(),
    {
        let metadata = Metadata {
            name: "MD007",
            description: "Unordered list indentation",
            tags: vec![Tag::Bullet, Tag::Ul, Tag::Indentation],
            aliases: vec!["ul-indent"],
        };
        proof {
            assert(metadata@.tags =~= Self::about().tags);
            assert(metadata@.aliases =~= Self::about().aliases);
        }
        metadata
    }

    /// The violation of the rule in `path` at `position`.
    pub fn to_violation(&self, path: String, position: Sourcepos) -> (violation: Violation)
        ensures
            violation@ == finding(path@, Self::label(), position),
    {
        Violation::new(path, &self.metadata(), position)
    }

    /// The number of columns before `position`.
    pub open spec fn indent_of(position: Sourcepos) -> int {
        if position.start.column >= 1 {
            position.start.column - 1
        } else {
            0
        }
    }

    /// `indent` is a multiple of `width`; only 0 is a multiple of 0.
    pub open spec fn is_multiple(indent: int, width: int) -> bool {
        if width == 0 {
            indent == 0
        } else {
            indent % width == 0
        }
    }

    /// Node `i` is a list item that is not indented by a multiple of the
    /// configured width.
    pub open spec fn violates(&self, tree: Seq<NodeModel>, i: int) -> bool {
        &&& tree[i].value is Item
        &&& !Self::is_multiple(Self::indent_of(tree[i].position), self.indent as int)
    }

    /// What node `i` contributes.
    pub open spec fn each(&self, tree: Seq<NodeModel>) -> spec_fn(int) -> Seq<Sourcepos> {
        |i: int| one_if(self.violates(tree, i), tree[i].position)
    }

    /// The spans of the badly indented list items, in document order.
    pub open spec fn positions(&self, doc: DocumentView) -> Seq<Sourcepos> {
        gather(doc.tree.len() as int, self.each(doc.tree))
    }

    /// A document in which every list item is indented by a multiple of
    /// the configured width has no findings.
    pub proof fn lemma_even_indentation_passes(&self, doc: DocumentView)
        requires
            forall|i: int|
                0 <= i < doc.tree.len() && (#[trigger] doc.tree[i]).value is Item
                    ==> Self::is_multiple(
                    Self::indent_of(doc.tree[i].position),
                    self.indent as int,
                ),
        ensures
            self.positions(doc) == Seq::<Sourcepos>::empty(),
    {
        let each = self.each(doc.tree);
        assert forall|k: int| 0 <= k < doc.tree.len() implies (#[trigger] each(k)).len() == 0 by {
        }
        lemma_gather_nothing(doc.tree.len() as int, each);
    }

    fn scan(&self, doc: &Document) -> (found: Vec<Sourcepos>)
        ensures
            found@ == self.positions(doc@),
    {
        let nodes = doc.nodes();
        let mut found: Vec<Sourcepos> = Vec::new();
        let ghost tree = doc@.tree;
        let mut i: usize = 0;
        while i < nodes.len()
            invariant
                models(nodes@) == tree,
                tree_wf(tree),
                i <= nodes.len(),
                found@ == gather(i as int, self.each(tree)),
            decreases nodes.len() - i,
        {
            proof {
                assert(node_wf(tree, i as int));
            }
            let node = &nodes[i];
            if let NodeValue::Item(_) = &node.value {
                let indent: usize = if node.position.start.column >= 1 {
                    node.position.start.column - 1
                } else {
                    0
                };
                let multiple = if self.indent == 0 {
                    indent == 0
                } else {
                    indent % self.indent == 0
                };
                if !multiple {
                    found.push(node.position);
                }
            }
            proof {
                assert(found@ =~= gather(i as int, self.each(tree)) + self.each(tree)(i as int));
            }
            i = i + 1;
        }
        found
    }

    /// Reports every list item whose indentation is no multiple of the
    /// configured width.
    pub fn check(&self, doc: &Document) -> (result: Result<Vec<Violation>, LintError>)
        ensures
            result matches Ok(violations) && views(violations@) == findings(
                doc@.path,
                Self::label(),
                self.positions(doc@),
            ),
    {
        let positions = self.scan(doc);
        Ok(to_violations(doc.path(), &self.metadata(), &positions))
    }
}

impl RuleLike for MD007 {
    open spec fn about_of(&self) -> MetadataView {
        Self::about()
    }

    open spec fn label_of(&self) -> Label {
        Self::label()
    }

    open spec fn positions_in(&self, doc: DocumentView) -> Seq<Sourcepos> {
        self.positions(doc)
    }

    open spec fn fails_on(&self, doc: DocumentView) -> bool {
        false
    }

    open spec fn failure_on(&self, doc: DocumentView) -> ErrorView {
        no_failure(doc)
    }

    fn metadata(&self) -> (metadata: Metadata) {
        MD007::metadata(self)
    }

    fn check(&self, doc: &Document) -> (result: Result<Vec<Violation>, LintError>) {
        MD007::check(self, doc)
    }

    fn to_violation(&self, path: String, position: Sourcepos) -> (violation: Violation) {
        MD007::to_violation(self, path, position)
    }
}

} // verus!
