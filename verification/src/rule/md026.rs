//! Headings do not end with punctuation.

use vstd::prelude::*;

use crate::document::Document;
use crate::document::DocumentView;
use crate::document::models;
use crate::document::node_wf;
use crate::document::NodeModel;
use crate::document::NodeValue;
use crate::document::tree_wf;
use crate::error::ErrorView;
use crate::error::LintError;
use crate::error::no_failure;
use crate::position::Sourcepos;
use crate::rule::helper::findings;
use crate::rule::helper::gather;
use crate::rule::helper::lemma_gather_nothing;
use crate::rule::helper::lemma_gather_pointwise;
use crate::rule::helper::one_if;
use crate::rule::helper::to_violations;
use crate::rule::helper::top_heading;
use crate::rule::helper::top_level;
use crate::rule::helper::top_node;
use crate::rule::metadata::Label;
use crate::rule::metadata::Metadata;
use crate::rule::metadata::MetadataView;
use crate::rule::metadata::Tag;
use crate::rule::RuleLike;
use crate::text::contains_char;
use crate::text::last_char;
use crate::violation::finding;
use crate::violation::views;
use crate::violation::Violation;

verus! {

/// Reports headings that end with one of the configured characters.
#[derive(Debug, Clone, PartialEq, Eq)]
#[non_exhaustive]
pub struct MD026 {
    /// The characters that a heading is not to end with.
    pub punctuation: String,
}

impl MD026 {
    /// The marks of punctuation.
    pub const DEFAULT_PUNCTUATION: &'static str = ".,;:!?";
}

impl Default for MD026 {
    /// The rule with its default parameters.
    fn default() -> (rule: Self)
        ensures
            rule.punctuation@ == ".,;:!?"@,
    {
        MD026 {
            punctuation: ".,;:!?".to_owned(),
        }
    }
}

impl MD026 {
    /// The rule with the given parameters.
    pub fn new(punctuation: String) -> (rule: Self)
        ensures
            rule.punctuation == punctuation,
    {
        MD026 { punctuation }
    }

    /// What the rule says about itself: its name, what it checks, the
    /// categories it belongs to and the other names it goes by.
    pub open spec fn about() -> MetadataView {
        MetadataView {
            name: "MD026"@,
            description: "Trailing punctuation in header"@,
            tags: seq![Tag::Headers],
            aliases: seq!["no-trailing-punctuation"@],
        }
    }

    /// What the violations of the rule carry of it.
    pub open spec fn label() -> Label {
        Self::about().label()
    }

    /// What the rule says about itself.
    pub fn metadata(&self) -> (metadata: Metadata)
        ensures
            metadata@ == Self::about(),
            metadata.wf(),
            metadata.label() == Self::label(),
    {
        let metadata = Metadata {
            name: "MD026",
            description: "Trailing punctuation in header",
            tags: vec![Tag::Headers],
            aliases: vec!["no-trailing-punctuation"],
        };
        proof {
            assert(metadata@.tags =~= Self::about().tags);
            assert(metadata@.aliases =~= Self::about().aliases);
        }
        metadata
    }

    /// The violation of the rule in `path` at `position`.
    pub fn to_violation(&self, path: String, position: Sourcepos) -> (violation: Violation)
        ensures
            violation@ == finding(path@, Self::label(), position),
    {
        Violation::new(path, &self.metadata(), position)
    }

    /// A heading stands at place `k`, and the text that it ends with ends
    /// with one of the configured characters.
    pub open spec fn violates(&self, tree: Seq<NodeModel>, k: int) -> bool {
        let node = top_node(tree, k);
        &&& top_heading(tree, k) is Some
        &&& node.children.len() > 0
        &&& tree[node.children.last() as int].value matches NodeValue::Text(text)
        &&& text@.len() > 0
        &&& self.punctuation@.contains(text@.last())
    }

    /// What place `k` of the top level contributes.
    pub open spec fn each(&self, tree: Seq<NodeModel>) -> spec_fn(int) -> Seq<Sourcepos> {
        |k: int| one_if(self.violates(tree, k), top_node(tree, k).position)
    }

    /// The spans of the top-level headings that end with punctuation, in
    /// document order.
    pub open spec fn positions(&self, doc: DocumentView) -> Seq<Sourcepos> {
        gather(top_level(doc.tree).len() as int, self.each(doc.tree))
    }

    /// What the rule finds depends on the characters of its parameter
    /// alone.
    pub proof fn lemma_parameter_decides(&self, other: &Self, doc: DocumentView)
        requires
            self.punctuation@ == other.punctuation@,
        ensures
            self.positions(doc) == other.positions(doc),
    {
        let mine = self.each(doc.tree);
        let theirs = other.each(doc.tree);
        assert forall|k: int| 0 <= k < top_level(doc.tree).len() implies
            #[trigger] mine(k) == theirs(k) by {
            assert(self.violates(doc.tree, k) == other.violates(doc.tree, k));
        }
        lemma_gather_pointwise(top_level(doc.tree).len() as int, mine, theirs);
    }

    /// A document in which no heading ends with one of the configured
    /// characters has no findings.
    pub proof fn lemma_plain_endings_pass(&self, doc: DocumentView)
        requires
            forall|k: int|
                0 <= k < top_level(doc.tree).len() ==> !#[trigger] self.violates(doc.tree, k),
        ensures
            self.positions(doc) == Seq::<Sourcepos>::empty(),
    {
        let each = self.each(doc.tree);
        assert forall|k: int| 0 <= k < top_level(doc.tree).len() implies
            (#[trigger] each(k)).len() == 0 by {
        }
        lemma_gather_nothing(top_level(doc.tree).len() as int, each);
    }

    fn scan(&self, doc: &Document) -> (found: Vec<Sourcepos>)
        ensures
            found@ == self.positions(doc@),
    {
        let nodes = doc.nodes();
        let mut found: Vec<Sourcepos> = Vec::new();
        if nodes.len() == 0 {
            return found;
        }
        let ghost tree = doc@.tree;
        let top = &nodes[0].children;
        let mut k: usize = 0;
        while k < top.len()
            invariant
                models(nodes@) == tree,
                tree_wf(tree),
                top@ == top_level(tree),
                k <= top.len(),
                found@ == gather(k as int, self.each(tree)),
            decreases top.len() - k,
        {
            proof {
                assert(node_wf(tree, 0));
                assert(top@[k as int] == tree[0].children[k as int]);
            }
            let node = &nodes[top[k]];
            if let NodeValue::Heading(_) = &node.value {
                if node.children.len() > 0 {
                    proof {
                        assert(node_wf(tree, top@[k as int] as int));
                        assert(tree[top@[k as int] as int].children[node.children.len() - 1]
                            < tree.len());
                    }
                    let last = &nodes[node.children[node.children.len() - 1]];
                    if let NodeValue::Text(text) = &last.value {
                        if let Some(c) = last_char(text.as_str()) {
                            if contains_char(self.punctuation.as_str(), c) {
                                found.push(node.position);
                            }
                        }
                    }
                }
            }
            proof {
                assert(found@ =~= gather(k as int, self.each(tree)) + self.each(tree)(k as int));
            }
            k = k + 1;
        }
        found
    }

    /// Reports every top-level heading whose text ends with one of the
    /// configured characters.
    pub fn check(&self, doc: &Document) -> (result: Result<Vec<Violation>, LintError>)
        ensures
            result matches Ok(violations) && views(violations@) == findings(
                doc@.path,
                Self::label(),
                self.positions(doc@),
            ),
    {
        let positions = self.scan(doc);
        Ok(to_violations(doc.path(), &self.metadata(), &positions))
    }
}

impl RuleLike for MD026 {
    open spec fn about_of(&self) -> MetadataView {
        Self::about()
    }

    open spec fn label_of(&self) -> Label {
        Self::label()
    }

    open spec fn positions_in(&self, doc: DocumentView) -> Seq<Sourcepos> {
        self.positions(doc)
    }

    open spec fn fails_on(&self, doc: DocumentView) -> bool {
        false
    }

    open spec fn failure_on(&self, doc: DocumentView) -> ErrorView {
        no_failure(doc)
    }

    fn metadata(&self) -> (metadata: Metadata) {
        MD026::metadata(self)
    }

    fn check(&self, doc: &Document) -> (result: Result<Vec<Violation>, LintError>) {
        MD026::check(self, doc)
    }

    fn to_violation(&self, path: String, position: Sourcepos) -> (violation: Violation) {
        MD026::to_violation(self, path, position)
    }
}

} // verus!
