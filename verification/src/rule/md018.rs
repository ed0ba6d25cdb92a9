//! A space follows the hashes of a heading.

use vstd::prelude::*;

use crate::document::Document;
use crate::document::DocumentView;
use crate::document::models;
use crate::document::node_wf;
use crate::document::NodeModel;
use crate::document::NodeValue;
use crate::document::tree_wf;
use crate::error::ErrorView;
use crate::error::LintError;
use crate::error::no_failure;
use crate::position::Sourcepos;
use crate::rule::helper::findings;
use crate::rule::helper::gather;
use crate::rule::helper::lemma_gather_nothing;
use crate::rule::helper::one_if;
use crate::rule::helper::to_violations;
use crate::rule::metadata::Label;
use crate::rule::metadata::Metadata;
use crate::rule::metadata::MetadataView;
use crate::rule::metadata::Tag;
use crate::rule::RuleLike;
use crate::text::starts_with_char;
use crate::violation::finding;
use crate::violation::views;
use crate::violation::Violation;

verus! {

/// Reports texts that begin with a hash: headings without a space after the
/// hashes.
#[derive(Default, Debug, Clone, PartialEq, Eq)]
#[non_exhaustive]
pub struct MD018;

impl MD018 {
    /// The rule; it has no parameters.
    pub fn new() -> (rule: Self) {
        MD018
    }

    /// What the rule says about itself: its name, what it checks, the
    /// categories it belongs to and the other names it goes by.
    pub open spec fn about() -> MetadataView {
        MetadataView {
            name: "MD018"@,
            description: "No space after hash on atx style header"@,
            tags: seq![Tag::Headers, Tag::Atx, Tag::Spaces],
            aliases: seq!["no-missing-space-atx"@],
        }
    }

    /// What the violations of the rule carry of it.
    pub open spec fn label() -> Label {
        Self::about().label()
    }

    /// What the rule says about itself.
    pub fn metadata(&self) -> (metadata: Metadata)
        ensures
            metadata@ == Self::about(),
            metadata.wf(),
            metadata.label() == Self::label(),
    {
        let metadata = Metadata {
            name: "MD018",
            description: "No space after hash on atx style header",
            tags: vec![Tag::Headers, Tag::Atx, Tag::Spaces],
            aliases: vec!["no-missing-space-atx"],
        };
        proof {
            assert(metadata@.tags =~= Self::about().tags);
            assert(metadata@.aliases =~= Self::about().aliases);
        }
        metadata
    }

    /// The violation of the rule in `path` at `position`.
    pub fn to_violation(&self, path: String, position: Sourcepos) -> (violation: Violation)
        ensures
            violation@ == finding(path@, Self::label(), position),
    {
        Violation::new(path, &self.metadata(), position)
    }

    /// Node `i` is text that begins with a hash.
    pub open spec fn violates(tree: Seq<NodeModel>, i: int) -> bool {
        tree[i].value matches NodeValue::Text(text) && text@.len() > 0 && text@.first() == '#'
    }

    /// What node `i` contributes.
    pub open spec fn each(&self, tree: Seq<NodeModel>) -> spec_fn(int) -> Seq<Sourcepos> {
        |i: int| one_if(Self::violates(tree, i), tree[i].position)
    }

    /// The spans of the texts that begin with a hash, in document order.
    pub open spec fn positions(&self, doc: DocumentView) -> Seq<Sourcepos> {
        gather(doc.tree.len() as int, self.each(doc.tree))
    }

    /// A document in which no text begins with a hash has no findings.
    pub proof fn lemma_no_leading_hash_passes(&self, doc: DocumentView)
        requires
            forall|i: int| 0 <= i < doc.tree.len() ==> !#[trigger] Self::violates(doc.tree, i),
        ensures
            self.positions(doc) == Seq::<Sourcepos>::empty(),
    {
        let each = self.each(doc.tree);
        assert forall|k: int| 0 <= k < doc.tree.len() implies (#[trigger] each(k)).len() == 0 by {
        }
        lemma_gather_nothing(doc.tree.len() as int, each);
    }

    fn scan(&self, doc: &Document) -> (found: Vec<Sourcepos>)
        ensures
            found@ == self.positions(doc@),
    {
        let nodes = doc.nodes();
        let mut found: Vec<Sourcepos> = Vec::new();
        let ghost tree = doc@.tree;
        let mut i: usize = 0;
        while i < nodes.len()
            invariant
                models(nodes@) == tree,
                tree_wf(tree),
                i <= nodes.len(),
                found@ == gather(i as int, self.each(tree)),
            decreases nodes.len() - i,
        {
            proof {
                assert(node_wf(tree, i as int));
            }
            let node = &nodes[i];
            if let NodeValue::Text(text) = &node.value {
                if starts_with_char(text.as_str(), '#') {
                    found.push(node.position);
                }
            }
            proof {
                assert(found@ =~= gather(i as int, self.each(tree)) + self.each(tree)(i as int));
            }
            i = i + 1;
        }
        found
    }

    /// Reports every text that begins with a hash.
    pub fn check(&self, doc: &Document) -> (result: Result<Vec<Violation>, LintError>)
        ensures
            result matches Ok(violations) && views(violations@) == findings(
                doc@.path,
                Self::label(),
                self.positions(doc@),
            ),
    {
        let positions = self.scan(doc);
        Ok(to_violations(doc.path(), &self.metadata(), &positions))
    }
}

impl RuleLike for MD018 {
    open spec fn about_of(&self) -> MetadataView {
        Self::about()
    }

    open spec fn label_of(&self) -> Label {
        Self::label()
    }

    open spec fn positions_in(&self, doc: DocumentView) -> Seq<Sourcepos> {
        self.positions(doc)
    }

    open spec fn fails_on(&self, doc: DocumentView) -> bool {
        false
    }

    open spec fn failure_on(&self, doc: DocumentView) -> ErrorView {
        no_failure(doc)
    }

    fn metadata(&self) -> (metadata: Metadata) {
        MD018::metadata(self)
    }

    fn check(&self, doc: &Document) -> (result: Result<Vec<Violation>, LintError>) {
        MD018::check(self, doc)
    }

    fn to_violation(&self, path: String, position: Sourcepos) -> (violation: Violation) {
        MD018::to_violation(self, path, position)
    }
}

} // verus!
