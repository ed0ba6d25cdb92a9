//! No two headings have the same content.

use vstd::prelude::*;

use crate::document::Document;
use crate::document::DocumentView;
use crate::document::models;
use crate::document::node_wf;
use crate::document::NodeModel;
use crate::document::NodeValue;
use crate::document::tree_wf;
use crate::error::ErrorView;
use crate::error::LintError;
use crate::error::no_failure;
use crate::position::Sourcepos;
use crate::rule::helper::append_text;
use crate::rule::helper::findings;
use crate::rule::helper::gather;
use crate::rule::helper::lemma_gather_nothing;
use crate::rule::helper::one_if;
use crate::rule::helper::subtree_text;
use crate::rule::helper::to_violations;
use crate::rule::helper::top_heading;
use crate::rule::helper::top_level;
use crate::rule::helper::top_node;
use crate::rule::metadata::Label;
use crate::rule::metadata::Metadata;
use crate::rule::metadata::MetadataView;
use crate::rule::metadata::Tag;
use crate::rule::RuleLike;
use crate::text::contains_text;
use crate::text::line_views;
use crate::violation::finding;
use crate::violation::views;
use crate::violation::Violation;

verus! {

/// Reports headings that repeat the text of an earlier heading.
#[derive(Default, Debug, Clone, PartialEq, Eq)]
#[non_exhaustive]
pub struct MD024;

impl MD024 {
    /// The rule; it has no parameters.
    pub fn new() -> (rule: Self) {
        MD024
    }

    /// What the rule says about itself: its name, what it checks, the
    /// categories it belongs to and the other names it goes by.
    pub open spec fn about() -> MetadataView {
        MetadataView {
            name: "MD024"@,
            description: "Multiple headers with the same content"@,
            tags: seq![Tag::Headers],
            aliases: seq!["no-duplicate-header"@],
        }
    }

    /// What the violations of the rule carry of it.
    pub open spec fn label() -> Label {
        Self::about().label()
    }

    /// What the rule says about itself.
    pub fn metadata(&self) -> (metadata: Metadata)
        ensures
            metadata@ == Self::about(),
            metadata.wf(),
            metadata.label() == Self::label(),
    {
        let metadata = Metadata {
            name: "MD024",
            description: "Multiple headers with the same content",
            tags: vec![Tag::Headers],
            aliases: vec!["no-duplicate-header"],
        };
        proof {
            assert(metadata@.tags =~= Self::about().tags);
            assert(metadata@.aliases =~= Self::about().aliases);
        }
        metadata
    }

    /// The violation of the rule in `path` at `position`.
    pub fn to_violation(&self, path: String, position: Sourcepos) -> (violation: Violation)
        ensures
            violation@ == finding(path@, Self::label(), position),
    {
        Violation::new(path, &self.metadata(), position)
    }

    /// A heading with the text `text` stands at place `k` of the top level.
    pub open spec fn titled(tree: Seq<NodeModel>, k: int, text: Seq<char>) -> bool {
        top_heading(tree, k) is Some && subtree_text(tree, top_level(tree)[k] as int) == text
    }

    /// A heading with the text `text` stands before place `k` of the top level.
    pub open spec fn titled_before(tree: Seq<NodeModel>, k: int, text: Seq<char>) -> bool {
        exists|j: int| 0 <= j < k && #[trigger] Self::titled(tree, j, text)
    }

    /// A heading stands at place `k`, and an earlier heading has its text.
    pub open spec fn violates(tree: Seq<NodeModel>, k: int) -> bool {
        top_heading(tree, k) is Some && Self::titled_before(
            tree,
            k,
            subtree_text(tree, top_level(tree)[k] as int),
        )
    }

    /// What place `k` of the top level contributes.
    pub open spec fn each(&self, tree: Seq<NodeModel>) -> spec_fn(int) -> Seq<Sourcepos> {
        |k: int| one_if(Self::violates(tree, k), top_node(tree, k).position)
    }

    /// The spans of the top-level headings that repeat an earlier one, in
    /// document order.
    pub open spec fn positions(&self, doc: DocumentView) -> Seq<Sourcepos> {
        gather(top_level(doc.tree).len() as int, self.each(doc.tree))
    }

    /// A document in which no heading has the text of an earlier heading
    /// has no findings.
    pub proof fn lemma_distinct_headings_pass(&self, doc: DocumentView)
        requires
            forall|k: int|
                0 <= k < top_level(doc.tree).len() ==> !#[trigger] Self::violates(doc.tree, k),
        ensures
            self.positions(doc) == Seq::<Sourcepos>::empty(),
    {
        let each = self.each(doc.tree);
        assert forall|k: int| 0 <= k < top_level(doc.tree).len() implies
            (#[trigger] each(k)).len() == 0 by {
        }
        lemma_gather_nothing(top_level(doc.tree).len() as int, each);
    }

    fn scan(&self, doc: &Document) -> (found: Vec<Sourcepos>)
        ensures
            found@ == self.positions(doc@),
    {
        let nodes = doc.nodes();
        let mut found: Vec<Sourcepos> = Vec::new();
        if nodes.len() == 0 {
            return found;
        }
        let ghost tree = doc@.tree;
        let top = &nodes[0].children;
        let mut seen: Vec<String> = Vec::new();
        let mut k: usize = 0;
        while k < top.len()
            invariant
                models(nodes@) == tree,
                tree_wf(tree),
                top@ == top_level(tree),
                k <= top.len(),
                found@ == gather(k as int, self.each(tree)),
                forall|m: int|
                    0 <= m < seen.len() ==> Self::titled_before(
                        tree,
                        k as int,
                        #[trigger] seen[m]@,
                    ),
                forall|j: int, text: Seq<char>|
                    0 <= j < k && #[trigger] Self::titled(tree, j, text) ==> line_views(
                        seen@,
                    ).contains(text),
            decreases top.len() - k,
        {
            proof {
                assert(node_wf(tree, 0));
                assert(top@[k as int] == tree[0].children[k as int]);
            }
            let node = &nodes[top[k]];
            if let NodeValue::Heading(_) = &node.value {
                let mut text = String::new();
                append_text(nodes, top[k], &mut text);
                proof {
                    assert(text@ =~= subtree_text(tree, top@[k as int] as int));
                    assert(Self::titled(tree, k as int, text@));
                }
                if contains_text(&seen, text.as_str()) {
                    proof {
                        let m = choose|m: int| 0 <= m < seen.len() && line_views(seen@)[m] == text@;
                        assert(Self::titled_before(tree, k as int, seen[m]@));
                    }
                    found.push(node.position);
                } else {
                    proof {
                        if Self::titled_before(tree, k as int, text@) {
                            let j = choose|j: int| 0 <= j < k && Self::titled(tree, j, text@);
                            assert(line_views(seen@).contains(text@));
                        }
                    }
                    let ghost before = seen@;
                    seen.push(text);
                    proof {
                        assert forall|j: int, other: Seq<char>|
                            0 <= j < k + 1 && #[trigger] Self::titled(
                                tree,
                                j,
                                other,
                            ) implies line_views(seen@).contains(other) by {
                            if j < k {
                                assert(line_views(before).contains(other));
                                let m = choose|m: int|
                                    0 <= m < before.len() && line_views(before)[m] == other;
                                assert(line_views(seen@)[m] == other);
                            } else {
                                assert(line_views(seen@)[seen.len() - 1] == other);
                            }
                        }
                    }
                }
            }
            proof {
                assert forall|m: int| 0 <= m < seen.len() implies Self::titled_before(
                    tree,
                    k + 1,
                    #[trigger] seen[m]@,
                ) by {
                    if Self::titled(tree, k as int, seen[m]@) {
                    } else {
                        assert(Self::titled_before(tree, k as int, seen[m]@));
                        let j = choose|j: int| 0 <= j < k && Self::titled(tree, j, seen[m]@);
                        assert(Self::titled(tree, j, seen[m]@));
                    }
                }
            }
            proof {
                assert(found@ =~= gather(k as int, self.each(tree)) + self.each(tree)(k as int));
            }
            k = k + 1;
        }
        found
    }

    /// Reports every top-level heading whose text an earlier top-level heading
    /// has.
    pub fn check(&self, doc: &Document) -> (result: Result<Vec<Violation>, LintError>)
        ensures
            result matches Ok(violations) && views(violations@) == findings(
                doc@.path,
                Self::label(),
                self.positions(doc@),
            ),
    {
        let positions = self.scan(doc);
        Ok(to_violations(doc.path(), &self.metadata(), &positions))
    }
}

impl RuleLike for MD024 {
    open spec fn about_of(&self) -> MetadataView {
        Self::about()
    }

    open spec fn label_of(&self) -> Label {
        Self::label()
    }

    open spec fn positions_in(&self, doc: DocumentView) -> Seq<Sourcepos> {
        self.positions(doc)
    }

    open spec fn fails_on(&self, doc: DocumentView) -> bool {
        false
    }

    open spec fn failure_on(&self, doc: DocumentView) -> ErrorView {
        no_failure(doc)
    }

    fn metadata(&self) -> (metadata: Metadata) {
        MD024::metadata(self)
    }

    fn check(&self, doc: &Document) -> (result: Result<Vec<Violation>, LintError>) {
        MD024::check(self, doc)
    }

    fn to_violation(&self, path: String, position: Sourcepos) -> (violation: Violation) {
        MD024::to_violation(self, path, position)
    }
}

} // verus!
