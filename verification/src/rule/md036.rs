//! Emphasis does not stand in for a heading.

use vstd::prelude::*;

use crate::document::Document;
use crate::document::DocumentView;
use crate::document::models;
use crate::document::node_wf;
use crate::document::NodeModel;
use crate::document::NodeValue;
use crate::document::tree_wf;
use crate::error::ErrorView;
use crate::error::LintError;
use crate::error::no_failure;
use crate::position::Sourcepos;
use crate::rule::helper::findings;
use crate::rule::helper::gather;
use crate::rule::helper::lemma_gather_nothing;
use crate::rule::helper::lemma_gather_pointwise;
use crate::rule::helper::repeat;
use crate::rule::helper::to_violations;
use crate::rule::metadata::Label;
use crate::rule::metadata::Metadata;
use crate::rule::metadata::MetadataView;
use crate::rule::metadata::Tag;
use crate::rule::RuleLike;
use crate::text::contains_char;
use crate::text::last_char;
use crate::violation::finding;
use crate::violation::views;
use crate::violation::Violation;

verus! {

/// Reports paragraphs that consist of emphasis alone.
#[derive(Debug, Clone, PartialEq, Eq)]
#[non_exhaustive]
pub struct MD036 {
    /// The characters that keep emphasis from reading as a heading.
    pub punctuation: String,
}

impl MD036 {
    /// The marks of punctuation.
    pub const DEFAULT_PUNCTUATION: &'static str = ".,;:!?";
}

impl Default for MD036 {
    /// The rule with its default parameters.
    fn default() -> (rule: Self)
        ensures
            rule.punctuation@ == ".,;:!?"@,
    {
        MD036 {
            punctuation: ".,;:!?".to_owned(),
        }
    }
}

impl MD036 {
    /// The rule with the given parameters.
    pub fn new(punctuation: String) -> (rule: Self)
        ensures
            rule.punctuation == punctuation,
    {
        MD036 { punctuation }
    }

    /// What the rule says about itself: its name, what it checks, the
    /// categories it belongs to and the other names it goes by.
    pub open spec fn about() -> MetadataView {
        MetadataView {
            name: "MD036"@,
            description: "Emphasis used instead of a header"@,
            tags: seq![Tag::Headers, Tag::Emphasis],
            aliases: seq!["no-emphasis-as-header"@],
        }
    }

    /// What the violations of the rule carry of it.
    pub open spec fn label() -> Label {
        Self::about().label()
    }

    /// What the rule says about itself.
    pub fn metadata(&self) -> (metadata: Metadata)
        ensures
            metadata@ == Self::about(),
            metadata.wf(),
            metadata.label() == Self::label(),
    {
        let metadata = Metadata {
            name: "MD036",
            description: "Emphasis used instead of a header",
            tags: vec![Tag::Headers, Tag::Emphasis],
            aliases: vec!["no-emphasis-as-header"],
        };
        proof {
            assert(metadata@.tags =~= Self::about().tags);
            assert(metadata@.aliases =~= Self::about().aliases);
        }
        metadata
    }

    /// The violation of the rule in `path` at `position`.
    pub fn to_violation(&self, path: String, position: Sourcepos) -> (violation: Violation)
        ensures
            violation@ == finding(path@, Self::label(), position),
    {
        Violation::new(path, &self.metadata(), position)
    }

    /// Node `c` is text that ends, but not with one of the configured characters.
    pub open spec fn reads_as_title(&self, tree: Seq<NodeModel>, c: int) -> bool {
        &&& tree[c].value matches NodeValue::Text(text)
        &&& text@.len() > 0
        &&& !self.punctuation@.contains(text@.last())
    }

    /// How many of the first `n` children of node `e` read as a title.
    pub open spec fn titles(&self, tree: Seq<NodeModel>, e: int, n: int) -> nat
        decreases n,
    {
        if n <= 0 {
            0
        } else {
            let child = tree[e].children[n - 1] as int;
            self.titles(tree, e, n - 1) + if self.reads_as_title(tree, child) {
                1nat
            } else {
                0nat
            }
        }
    }

    /// Node `i` is a paragraph on one line, starting in the first column,
    /// whose only child is emphasis.
    pub open spec fn stands_alone(tree: Seq<NodeModel>, i: int) -> bool {
        &&& tree[i].value is Paragraph
        &&& tree[i].children.len() == 1
        &&& (tree[tree[i].children[0] as int].value is Emph
            || tree[tree[i].children[0] as int].value is Strong)
        &&& tree[i].position.end.line <= tree[i].position.start.line
        &&& tree[i].position.start.column <= 1
    }

    /// What node `i` contributes: where it is a paragraph of emphasis
    /// alone, its span once for each text in the emphasis that reads as a
    /// title.
    pub open spec fn each(&self, tree: Seq<NodeModel>) -> spec_fn(int) -> Seq<Sourcepos> {
        |i: int|
            if Self::stands_alone(tree, i) {
                let emphasis = tree[i].children[0] as int;
                repeat(
                    self.titles(tree, emphasis, tree[emphasis].children.len() as int),
                    tree[i].position,
                )
            } else {
                Seq::empty()
            }
    }

    /// The spans of the paragraphs that emphasis makes look like headings,
    /// in document order, once for each text that reads as a title.
    pub open spec fn positions(&self, doc: DocumentView) -> Seq<Sourcepos> {
        gather(doc.tree.len() as int, self.each(doc.tree))
    }

    /// How many texts read as a title depends on the characters of the
    /// parameter alone.
    pub proof fn lemma_titles_same(&self, other: &Self, tree: Seq<NodeModel>, e: int, n: int)
        requires
            self.punctuation@ == other.punctuation@,
        ensures
            self.titles(tree, e, n) == other.titles(tree, e, n),
        decreases n,
    {
        if n > 0 {
            self.lemma_titles_same(other, tree, e, n - 1);
            let child = tree[e].children[n - 1] as int;
            assert(self.reads_as_title(tree, child) == other.reads_as_title(tree, child));
        }
    }

    /// What the rule finds depends on the characters of its parameter
    /// alone.
    pub proof fn lemma_parameter_decides(&self, other: &Self, doc: DocumentView)
        requires
            self.punctuation@ == other.punctuation@,
        ensures
            self.positions(doc) == other.positions(doc),
    {
        let mine = self.each(doc.tree);
        let theirs = other.each(doc.tree);
        assert forall|k: int| 0 <= k < doc.tree.len() implies #[trigger] mine(k) == theirs(k) by {
            if Self::stands_alone(doc.tree, k) {
                let emphasis = doc.tree[k].children[0] as int;
                self.lemma_titles_same(
                    other,
                    doc.tree,
                    emphasis,
                    doc.tree[emphasis].children.len() as int,
                );
            }
        }
        lemma_gather_pointwise(doc.tree.len() as int, mine, theirs);
    }

    /// A document in which no paragraph of one line consists of emphasis
    /// alone has no findings.
    pub proof fn lemma_no_lone_emphasis_passes(&self, doc: DocumentView)
        requires
            forall|i: int| 0 <= i < doc.tree.len() ==> !#[trigger] Self::stands_alone(doc.tree, i),
        ensures
            self.positions(doc) == Seq::<Sourcepos>::empty(),
    {
        let each = self.each(doc.tree);
        assert forall|k: int| 0 <= k < doc.tree.len() implies (#[trigger] each(k)).len() == 0 by {
        }
        lemma_gather_nothing(doc.tree.len() as int, each);
    }

    fn scan(&self, doc: &Document) -> (found: Vec<Sourcepos>)
        ensures
            found@ == self.positions(doc@),
    {
        let nodes = doc.nodes();
        let mut found: Vec<Sourcepos> = Vec::new();
        let ghost tree = doc@.tree;
        let mut i: usize = 0;
        while i < nodes.len()
            invariant
                models(nodes@) == tree,
                tree_wf(tree),
                i <= nodes.len(),
                found@ == gather(i as int, self.each(tree)),
            decreases nodes.len() - i,
        {
            proof {
                assert(node_wf(tree, i as int));
            }
            let node = &nodes[i];
            let ghost before = found@;
            let alone = match &node.value {
                NodeValue::Paragraph => node.children.len() == 1 && node.position.end.line
                    <= node.position.start.line && node.position.start.column <= 1,
                _ => false,
            };
            if alone {
                proof {
                    assert(tree[i as int].children[0] < tree.len());
                }
                let e = node.children[0];
                let emphasis = &nodes[e];
                let emphatic = match &emphasis.value {
                    NodeValue::Emph => true,
                    NodeValue::Strong => true,
                    _ => false,
                };
                if emphatic {
                    let mut m: usize = 0;
                    proof {
                        assert(found@ =~= before + repeat(
                            self.titles(tree, e as int, 0),
                            node.position,
                        ));
                    }
                    while m < emphasis.children.len()
                        invariant
                            models(nodes@) == tree,
                            tree_wf(tree),
                            e < nodes.len(),
                            emphasis == &nodes[e as int],
                            m <= emphasis.children.len(),
                            found@ == before + repeat(
                                self.titles(tree, e as int, m as int),
                                node.position,
                            ),
                        decreases emphasis.children.len() - m,
                    {
                        proof {
                            assert(node_wf(tree, e as int));
                            assert(tree[e as int].children[m as int] < tree.len());
                        }
                        let ghost count = self.titles(tree, e as int, m as int);
                        let inline = &nodes[emphasis.children[m]];
                        if let NodeValue::Text(text) = &inline.value {
                            if let Some(c) = last_char(text.as_str()) {
                                if !contains_char(self.punctuation.as_str(), c) {
                                    found.push(node.position);
                                    proof {
                                        assert(found@ =~= before + repeat(
                                            count + 1,
                                            node.position,
                                        ));
                                    }
                                }
                            }
                        }
                        m = m + 1;
                    }
                }
            }
            proof {
                assert(found@ =~= gather(i as int, self.each(tree)) + self.each(tree)(i as int));
            }
            i = i + 1;
        }
        found
    }

    /// Reports every paragraph of one line that consists of emphasis alone,
    /// once for each text in it that does not end with one of the configured
    /// characters.
    pub fn check(&self, doc: &Document) -> (result: Result<Vec<Violation>, LintError>)
        ensures
            result matches Ok(violations) && views(violations@) == findings(
                doc@.path,
                Self::label(),
                self.positions(doc@),
            ),
    {
        let positions = self.scan(doc);
        Ok(to_violations(doc.path(), &self.metadata(), &positions))
    }
}

impl RuleLike for MD036 {
    open spec fn about_of(&self) -> MetadataView {
        Self::about()
    }

    open spec fn label_of(&self) -> Label {
        Self::label()
    }

    open spec fn positions_in(&self, doc: DocumentView) -> Seq<Sourcepos> {
        self.positions(doc)
    }

    open spec fn fails_on(&self, doc: DocumentView) -> bool {
        false
    }

    open spec fn failure_on(&self, doc: DocumentView) -> ErrorView {
        no_failure(doc)
    }

    fn metadata(&self) -> (metadata: Metadata) {
        MD036::metadata(self)
    }

    fn check(&self, doc: &Document) -> (result: Result<Vec<Violation>, LintError>) {
        MD036::check(self, doc)
    }

    fn to_violation(&self, path: String, position: Sourcepos) -> (violation: Violation) {
        MD036::to_violation(self, path, position)
    }
}

} // verus!
