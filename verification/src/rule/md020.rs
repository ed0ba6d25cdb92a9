//! A space stands inside the hashes of a closed heading.

use vstd::prelude::*;

use crate::document::Document;
use crate::document::document_wf;
use crate::document::DocumentView;
use crate::document::models;
use crate::document::node_wf;
use crate::document::NodeModel;
use crate::document::NodeValue;
use crate::document::tree_wf;
use crate::error::ErrorView;
use crate::error::LintError;
use crate::error::no_failure;
use crate::position::Sourcepos;
use crate::rule::helper::findings;
use crate::rule::helper::gather;
use crate::rule::helper::lemma_gather_nothing;
use crate::rule::helper::one_if;
use crate::rule::helper::repeat;
use crate::rule::helper::to_violations;
use crate::rule::helper::top_level;
use crate::rule::helper::top_node;
use crate::rule::metadata::Label;
use crate::rule::metadata::Metadata;
use crate::rule::metadata::MetadataView;
use crate::rule::metadata::Tag;
use crate::rule::RuleLike;
use crate::text::ends_with_char;
use crate::text::starts_with_char;
use crate::violation::finding;
use crate::violation::views;
use crate::violation::Violation;

verus! {

/// Reports closed headings without a space inside their hashes.
#[derive(Default, Debug, Clone, PartialEq, Eq)]
#[non_exhaustive]
pub struct MD020;

impl MD020 {
    /// The rule; it has no parameters.
    pub fn new() -> (rule: Self) {
        MD020
    }

    /// What the rule says about itself: its name, what it checks, the
    /// categories it belongs to and the other names it goes by.
    pub open spec fn about() -> MetadataView {
        MetadataView {
            name: "MD020"@,
            description: "No space inside hashes on closed atx style header"@,
            tags: seq![Tag::Headers, Tag::AtxClosed, Tag::Spaces],
            aliases: seq!["no-missing-space-closed-atx"@],
        }
    }

    /// What the violations of the rule carry of it.
    pub open spec fn label() -> Label {
        Self::about().label()
    }

    /// What the rule says about itself.
    pub fn metadata(&self) -> (metadata: Metadata)
        ensures
            metadata@ == Self::about(),
            metadata.wf(),
            metadata.label() == Self::label(),
    {
        let metadata = Metadata {
            name: "MD020",
            description: "No space inside hashes on closed atx style header",
            tags: vec![Tag::Headers, Tag::AtxClosed, Tag::Spaces],
            aliases: vec!["no-missing-space-closed-atx"],
        };
        proof {
            assert(metadata@.tags =~= Self::about().tags);
            assert(metadata@.aliases =~= Self::about().aliases);
        }
        metadata
    }

    /// The violation of the rule in `path` at `position`.
    pub fn to_violation(&self, path: String, position: Sourcepos) -> (violation: Violation)
        ensures
            violation@ == finding(path@, Self::label(), position),
    {
        Violation::new(path, &self.metadata(), position)
    }

    /// Node `c` is text that begins and ends with a hash.
    pub open spec fn is_hashed(tree: Seq<NodeModel>, c: int) -> bool {
        &&& tree[c].value matches NodeValue::Text(text)
        &&& text@.len() > 0
        &&& text@.first() == '#'
        &&& text@.last() == '#'
    }

    /// Node `c` is text that ends with a hash.
    pub open spec fn ends_hashed(tree: Seq<NodeModel>, c: int) -> bool {
        tree[c].value matches NodeValue::Text(text) && text@.len() > 0 && text@.last() == '#'
    }

    /// How many of the first `n` children of node `p` begin and end with a hash.
    pub open spec fn hashed(tree: Seq<NodeModel>, p: int, n: int) -> nat
        decreases n,
    {
        if n <= 0 {
            0
        } else {
            let child = tree[p].children[n - 1] as int;
            Self::hashed(tree, p, n - 1) + if Self::is_hashed(tree, child) {
                1nat
            } else {
                0nat
            }
        }
    }

    /// What the block at place `k` of the top level contributes: a
    /// paragraph in the first column, its span once for each of its texts
    /// that begin and end with a hash; a heading with hashes, its span if
    /// the text that it ends with ends with a hash.
    pub open spec fn each(&self, tree: Seq<NodeModel>) -> spec_fn(int) -> Seq<Sourcepos> {
        |k: int|
            {
                let node = top_node(tree, k);
                match node.value {
                    NodeValue::Paragraph => if node.position.start.column == 1 {
                        repeat(
                            Self::hashed(
                                tree,
                                top_level(tree)[k] as int,
                                node.children.len() as int,
                            ),
                            node.position,
                        )
                    } else {
                        Seq::empty()
                    },
                    NodeValue::Heading(heading) => one_if(
                        !heading.setext && node.children.len() > 0 && Self::ends_hashed(
                            tree,
                            node.children.last() as int,
                        ),
                        node.position,
                    ),
                    _ => Seq::empty(),
                }
            }
    }

    /// The spans of the closed headings without a space inside their
    /// hashes, in document order.
    pub open spec fn positions(&self, doc: DocumentView) -> Seq<Sourcepos> {
        gather(top_level(doc.tree).len() as int, self.each(doc.tree))
    }

    /// Where no text ends with a hash, none begins and ends with one.
    proof fn lemma_none_hashed(tree: Seq<NodeModel>, p: int, n: int)
        requires
            0 <= p < tree.len(),
            node_wf(tree, p),
            0 <= n <= tree[p].children.len(),
            forall|c: int| 0 <= c < tree.len() ==> !#[trigger] Self::ends_hashed(tree, c),
        ensures
            Self::hashed(tree, p, n) == 0,
        decreases n,
    {
        if n > 0 {
            Self::lemma_none_hashed(tree, p, n - 1);
            assert(tree[p].children[n - 1] < tree.len());
            assert(!Self::ends_hashed(tree, tree[p].children[n - 1] as int));
        }
    }

    /// A document in which no text ends with a hash has no findings.
    pub proof fn lemma_no_closing_hash_passes(&self, doc: DocumentView)
        requires
            document_wf(doc),
            forall|c: int| 0 <= c < doc.tree.len() ==> !#[trigger] Self::ends_hashed(doc.tree, c),
        ensures
            self.positions(doc) == Seq::<Sourcepos>::empty(),
    {
        let each = self.each(doc.tree);
        assert forall|k: int| 0 <= k < top_level(doc.tree).len() implies
            (#[trigger] each(k)).len() == 0 by {
            assert(node_wf(doc.tree, 0));
            let p = top_level(doc.tree)[k] as int;
            assert(p == doc.tree[0].children[k]);
            assert(node_wf(doc.tree, p));
            Self::lemma_none_hashed(doc.tree, p, doc.tree[p].children.len() as int);
            if doc.tree[p].children.len() > 0 {
                assert(doc.tree[p].children[doc.tree[p].children.len() - 1] < doc.tree.len());
            }
        }
        lemma_gather_nothing(top_level(doc.tree).len() as int, each);
    }

    fn scan(&self, doc: &Document) -> (found: Vec<Sourcepos>)
        ensures
            found@ == self.positions(doc@),
    {
        let nodes = doc.nodes();
        let mut found: Vec<Sourcepos> = Vec::new();
        if nodes.len() == 0 {
            return found;
        }
        let ghost tree = doc@.tree;
        let top = &nodes[0].children;
        let mut k: usize = 0;
        while k < top.len()
            invariant
                models(nodes@) == tree,
                tree_wf(tree),
                top@ == top_level(tree),
                k <= top.len(),
                found@ == gather(k as int, self.each(tree)),
            decreases top.len() - k,
        {
            proof {
                assert(node_wf(tree, 0));
                assert(top@[k as int] == tree[0].children[k as int]);
            }
            let node = &nodes[top[k]];
            let ghost before = found@;
            let p = top[k];
            match &node.value {
                NodeValue::Paragraph => {
                    if node.position.start.column == 1 {
                        let mut m: usize = 0;
                        proof {
                            assert(found@ =~= before + repeat(
                                Self::hashed(tree, p as int, 0),
                                node.position,
                            ));
                        }
                        while m < node.children.len()
                            invariant
                                models(nodes@) == tree,
                                tree_wf(tree),
                                p < nodes.len(),
                                node == &nodes[p as int],
                                m <= node.children.len(),
                                found@ == before + repeat(
                                    Self::hashed(tree, p as int, m as int),
                                    node.position,
                                ),
                            decreases node.children.len() - m,
                        {
                            proof {
                                assert(node_wf(tree, p as int));
                                assert(tree[p as int].children[m as int] < tree.len());
                            }
                            let ghost count = Self::hashed(tree, p as int, m as int);
                            let child = &nodes[node.children[m]];
                            if let NodeValue::Text(text) = &child.value {
                                if starts_with_char(text.as_str(), '#') && ends_with_char(
                                    text.as_str(),
                                    '#',
                                ) {
                                    found.push(node.position);
                                    proof {
                                        assert(found@ =~= before + repeat(
                                            count + 1,
                                            node.position,
                                        ));
                                    }
                                }
                            }
                            m = m + 1;
                        }
                    }
                },
                NodeValue::Heading(heading) => {
                    if !heading.setext && node.children.len() > 0 {
                        proof {
                            assert(node_wf(tree, p as int));
                            assert(tree[p as int].children[node.children.len() - 1] < tree.len());
                        }
                        let last = &nodes[node.children[node.children.len() - 1]];
                        if let NodeValue::Text(text) = &last.value {
                            if ends_with_char(text.as_str(), '#') {
                                found.push(node.position);
                            }
                        }
                    }
                },
                _ => {},
            }
            proof {
                assert(found@ =~= gather(k as int, self.each(tree)) + self.each(tree)(k as int));
            }
            k = k + 1;
        }
        found
    }

    /// Reports every top-level paragraph that reads as a closed heading
    /// without spaces, once for each such text in it, and every top-level
    /// heading with hashes whose text ends with a hash.
    pub fn check(&self, doc: &Document) -> (result: Result<Vec<Violation>, LintError>)
        ensures
            result matches Ok(violations) && views(violations@) == findings(
                doc@.path,
                Self::label(),
                self.positions(doc@),
            ),
    {
        let positions = self.scan(doc);
        Ok(to_violations(doc.path(), &self.metadata(), &positions))
    }
}

impl RuleLike for MD020 {
    open spec fn about_of(&self) -> MetadataView {
        Self::about()
    }

    open spec fn label_of(&self) -> Label {
        Self::label()
    }

    open spec fn positions_in(&self, doc: DocumentView) -> Seq<Sourcepos> {
        self.positions(doc)
    }

    open spec fn fails_on(&self, doc: DocumentView) -> bool {
        false
    }

    open spec fn failure_on(&self, doc: DocumentView) -> ErrorView {
        no_failure(doc)
    }

    fn metadata(&self) -> (metadata: Metadata) {
        MD020::metadata(self)
    }

    fn check(&self, doc: &Document) -> (result: Result<Vec<Violation>, LintError>) {
        MD020::check(self, doc)
    }

    fn to_violation(&self, path: String, position: Sourcepos) -> (violation: Violation) {
        MD020::to_violation(self, path, position)
    }
}

} // verus!
