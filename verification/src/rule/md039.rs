//! Link texts hold no space next to their brackets.

use vstd::prelude::*;

use crate::document::Document;
use crate::document::document_wf;
use crate::document::DocumentView;
use crate::document::models;
use crate::document::node_wf;
use crate::document::NodeModel;
use crate::document::NodeValue;
use crate::document::tree_wf;
use crate::error::ErrorView;
use crate::error::LintError;
use crate::error::no_failure;
use crate::position::Sourcepos;
use crate::rule::helper::findings;
use crate::rule::helper::gather;
use crate::rule::helper::lemma_gather_nothing;
use crate::rule::helper::one_if;
use crate::rule::helper::to_violations;
use crate::rule::metadata::Label;
use crate::rule::metadata::Metadata;
use crate::rule::metadata::MetadataView;
use crate::rule::metadata::Tag;
use crate::rule::RuleLike;
use crate::text::ends_with_space;
use crate::text::has_leading_space;
use crate::text::has_trailing_space;
use crate::text::starts_with_space;
use crate::violation::finding;
use crate::violation::views;
use crate::violation::Violation;

verus! {

/// Reports link texts with space next to their brackets.
#[derive(Default, Debug, Clone, PartialEq, Eq)]
#[non_exhaustive]
pub struct MD039;

impl MD039 {
    /// The rule; it has no parameters.
    pub fn new() -> (rule: Self) {
        MD039
    }

    /// What the rule says about itself: its name, what it checks, the
    /// categories it belongs to and the other names it goes by.
    pub open spec fn about() -> MetadataView {
        MetadataView {
            name: "MD039"@,
            description: "Spaces inside link text"@,
            tags: seq![Tag::Whitespace, Tag::Links],
            aliases: seq!["no-space-in-links"@],
        }
    }

    /// What the violations of the rule carry of it.
    pub open spec fn label() -> Label {
        Self::about().label()
    }

    /// What the rule says about itself.
    pub fn metadata(&self) -> (metadata: Metadata)
        ensures
            metadata@ == Self::about(),
            metadata.wf(),
            metadata.label() == Self::label(),
    {
        let metadata = Metadata {
            name: "MD039",
            description: "Spaces inside link text",
            tags: vec![Tag::Whitespace, Tag::Links],
            aliases: vec!["no-space-in-links"],
        };
        proof {
            assert(metadata@.tags =~= Self::about().tags);
            assert(metadata@.aliases =~= Self::about().aliases);
        }
        metadata
    }

    /// The violation of the rule in `path` at `position`.
    pub fn to_violation(&self, path: String, position: Sourcepos) -> (violation: Violation)
        ensures
            violation@ == finding(path@, Self::label(), position),
    {
        Violation::new(path, &self.metadata(), position)
    }

    /// Node `c` is text that begins with white space.
    pub open spec fn leads_with_space(tree: Seq<NodeModel>, c: int) -> bool {
        tree[c].value matches NodeValue::Text(text) && has_leading_space(text@)
    }

    /// Node `c` is text that ends with white space.
    pub open spec fn trails_with_space(tree: Seq<NodeModel>, c: int) -> bool {
        tree[c].value matches NodeValue::Text(text) && has_trailing_space(text@)
    }

    /// What node `i` contributes if it is a link: its first child, if that
    /// is text beginning with white space; else its last child, if that is
    /// text ending with white space.
    pub open spec fn each(&self, tree: Seq<NodeModel>) -> spec_fn(int) -> Seq<Sourcepos> {
        |i: int|
            if tree[i].value is Link && tree[i].children.len() > 0 {
                let first = tree[i].children.first() as int;
                let last = tree[i].children.last() as int;
                if Self::leads_with_space(tree, first) {
                    seq![tree[first].position]
                } else {
                    one_if(Self::trails_with_space(tree, last), tree[last].position)
                }
            } else {
                Seq::empty()
            }
    }

    /// The spans of the link texts with space next to the brackets, in
    /// document order of the links.
    pub open spec fn positions(&self, doc: DocumentView) -> Seq<Sourcepos> {
        gather(doc.tree.len() as int, self.each(doc.tree))
    }

    /// A document in which no text begins or ends with white space has no
    /// findings.
    pub proof fn lemma_tight_link_texts_pass(&self, doc: DocumentView)
        requires
            document_wf(doc),
            forall|c: int|
                0 <= c < doc.tree.len() ==> !#[trigger] Self::leads_with_space(doc.tree, c)
                    && !Self::trails_with_space(doc.tree, c),
        ensures
            self.positions(doc) == Seq::<Sourcepos>::empty(),
    {
        let each = self.each(doc.tree);
        assert forall|k: int| 0 <= k < doc.tree.len() implies (#[trigger] each(k)).len() == 0 by {
            assert(node_wf(doc.tree, k));
            if doc.tree[k].children.len() > 0 {
                let first = doc.tree[k].children[0];
                let last = doc.tree[k].children[doc.tree[k].children.len() - 1];
                assert(first < doc.tree.len());
                assert(last < doc.tree.len());
                assert(!Self::leads_with_space(doc.tree, first as int));
                assert(!Self::leads_with_space(doc.tree, last as int));
            }
        }
        lemma_gather_nothing(doc.tree.len() as int, each);
    }

    fn scan(&self, doc: &Document) -> (found: Vec<Sourcepos>)
        ensures
            found@ == self.positions(doc@),
    {
        let nodes = doc.nodes();
        let mut found: Vec<Sourcepos> = Vec::new();
        let ghost tree = doc@.tree;
        let mut i: usize = 0;
        while i < nodes.len()
            invariant
                models(nodes@) == tree,
                tree_wf(tree),
                i <= nodes.len(),
                found@ == gather(i as int, self.each(tree)),
            decreases nodes.len() - i,
        {
            proof {
                assert(node_wf(tree, i as int));
            }
            let node = &nodes[i];
            if let NodeValue::Link = &node.value {
                if node.children.len() > 0 {
                    proof {
                        assert(tree[i as int].children[0] < tree.len());
                        assert(tree[i as int].children[node.children.len() - 1] < tree.len());
                    }
                    let first = &nodes[node.children[0]];
                    let last = &nodes[node.children[node.children.len() - 1]];
                    let leading = match &first.value {
                        NodeValue::Text(text) => starts_with_space(text.as_str()),
                        _ => false,
                    };
                    if leading {
                        found.push(first.position);
                    } else {
                        let trailing = match &last.value {
                            NodeValue::Text(text) => ends_with_space(text.as_str()),
                            _ => false,
                        };
                        if trailing {
                            found.push(last.position);
                        }
                    }
                }
            }
            proof {
                assert(found@ =~= gather(i as int, self.each(tree)) + self.each(tree)(i as int));
            }
            i = i + 1;
        }
        found
    }

    /// Reports the text at the start of a link that begins with white space,
    /// or else the text at its end that ends with white space.
    pub fn check(&self, doc: &Document) -> (result: Result<Vec<Violation>, LintError>)
        ensures
            result matches Ok(violations) && views(violations@) == findings(
                doc@.path,
                Self::label(),
                self.positions(doc@),
            ),
    {
        let positions = self.scan(doc);
        Ok(to_violations(doc.path(), &self.metadata(), &positions))
    }
}

impl RuleLike for MD039 {
    open spec fn about_of(&self) -> MetadataView {
        Self::about()
    }

    open spec fn label_of(&self) -> Label {
        Self::label()
    }

    open spec fn positions_in(&self, doc: DocumentView) -> Seq<Sourcepos> {
        self.positions(doc)
    }

    open spec fn fails_on(&self, doc: DocumentView) -> bool {
        false
    }

    open spec fn failure_on(&self, doc: DocumentView) -> ErrorView {
        no_failure(doc)
    }

    fn metadata(&self) -> (metadata: Metadata) {
        MD039::metadata(self)
    }

    fn check(&self, doc: &Document) -> (result: Result<Vec<Violation>, LintError>) {
        MD039::check(self, doc)
    }

    fn to_violation(&self, path: String, position: Sourcepos) -> (violation: Violation) {
        MD039::to_violation(self, path, position)
    }
}

} // verus!
