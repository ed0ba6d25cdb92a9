//! Headings are written in one style.

use vstd::prelude::*;

use crate::document::Document;
use crate::document::DocumentView;
use crate::document::models;
use crate::document::node_wf;
use crate::document::NodeModel;
use crate::document::NodeValue;
use crate::document::tree_wf;
use crate::error::ErrorView;
use crate::error::LintError;
use crate::error::no_failure;
use crate::position::Sourcepos;
use crate::rule::helper::findings;
use crate::rule::helper::first_before;
use crate::rule::helper::gather;
use crate::rule::helper::is_heading;
use crate::rule::helper::lemma_gather_nothing;
use crate::rule::helper::one_if;
use crate::rule::helper::to_violations;
use crate::rule::helper::top_heading;
use crate::rule::helper::top_level;
use crate::rule::helper::top_node;
use crate::rule::metadata::Label;
use crate::rule::metadata::Metadata;
use crate::rule::metadata::MetadataView;
use crate::rule::metadata::Tag;
use crate::rule::RuleLike;
use crate::violation::finding;
use crate::violation::views;
use crate::violation::Violation;

verus! {

/// How headings are to be written.
#[derive(Debug, Clone, Copy, PartialEq, Eq, Structural)]
#[non_exhaustive]
pub enum HeadingStyle {
    /// As the first heading of the document is.
    Consistent,
    /// With leading hashes.
    Atx,
    /// With leading and closing hashes.
    AtxClosed,
    /// Underlined.
    Setext,
    /// Underlined on the first two levels, with leading hashes below.
    SetextWithAtx,
}

/// Reports headings that are not written in the configured style.
#[derive(Debug, Clone, PartialEq, Eq)]
#[non_exhaustive]
pub struct MD003 {
    /// The style in which headings are to be written.
    pub style: HeadingStyle,
}

impl Default for MD003 {
    /// The rule with its default parameters.
    fn default() -> (rule: Self)
        ensures
            rule.style == HeadingStyle::Consistent,
    {
        MD003 {
            style: HeadingStyle::Consistent,
        }
    }
}

impl MD003 {
    /// The rule with the given parameters.
    pub fn new(style: HeadingStyle) -> (rule: Self)
        ensures
            rule.style == style,
    {
        MD003 { style }
    }

    /// What the rule says about itself: its name, what it checks, the
    /// categories it belongs to and the other names it goes by.
    pub open spec fn about() -> MetadataView {
        MetadataView {
            name: "MD003"@,
            description: "Header style"@,
            tags: seq![Tag::Headers],
            aliases: seq!["header-style"@],
        }
    }

    /// What the violations of the rule carry of it.
    pub open spec fn label() -> Label {
        Self::about().label()
    }

    /// What the rule says about itself.
    pub fn metadata(&self) -> (metadata: Metadata)
        ensures
            metadata@ == Self::about(),
            metadata.wf(),
            metadata.label() == Self::label(),
    {
        let metadata = Metadata {
            name: "MD003",
            description: "Header style",
            tags: vec![Tag::Headers],
            aliases: vec!["header-style"],
        };
        proof {
            assert(metadata@.tags =~= Self::about().tags);
            assert(metadata@.aliases =~= Self::about().aliases);
        }
        metadata
    }

    /// The violation of the rule in `path` at `position`.
    pub fn to_violation(&self, path: String, position: Sourcepos) -> (violation: Violation)
        ensures
            violation@ == finding(path@, Self::label(), position),
    {
        Violation::new(path, &self.metadata(), position)
    }

    /// The heading at place `k` has closing hashes: it starts with hashes
    /// and ends behind its last child, if it has one.
    pub open spec fn closed_atx(tree: Seq<NodeModel>, k: int) -> bool {
        let node = top_node(tree, k);
        let heading = top_heading(tree, k)->0;
        if node.children.len() > 0 {
            let last = tree[node.children.last() as int];
            !heading.setext && node.position.end.column > last.position.end.column
        } else {
            !heading.setext
        }
    }

    /// How the first heading before place `k` is written: whether it is
    /// underlined, and whether it has closing hashes.
    pub open spec fn first_style(tree: Seq<NodeModel>, k: int) -> Option<(bool, bool)> {
        match first_before(k, is_heading(tree)) {
            Some(first) => Some(
                (top_heading(tree, first)->0.setext, Self::closed_atx(tree, first)),
            ),
            None => None,
        }
    }

    /// A heading stands at place `k` and is not written in the configured style.
    pub open spec fn violates(&self, tree: Seq<NodeModel>, k: int) -> bool {
        &&& top_heading(tree, k) matches Some(heading)
        &&& match self.style {
            HeadingStyle::Consistent => {
                &&& Self::first_style(tree, k) matches Some(expected)
                &&& (heading.setext != expected.0 || expected.1 != Self::closed_atx(tree, k))
            },
            HeadingStyle::Atx => heading.setext || Self::closed_atx(tree, k),
            HeadingStyle::AtxClosed => heading.setext || !Self::closed_atx(tree, k),
            HeadingStyle::Setext => !heading.setext,
            HeadingStyle::SetextWithAtx => heading.level < 3 && !heading.setext,
        }
    }

    /// What place `k` of the top level contributes.
    pub open spec fn each(&self, tree: Seq<NodeModel>) -> spec_fn(int) -> Seq<Sourcepos> {
        |k: int| one_if(self.violates(tree, k), top_node(tree, k).position)
    }

    /// The spans of the top-level headings in another style, in document order.
    pub open spec fn positions(&self, doc: DocumentView) -> Seq<Sourcepos> {
        gather(top_level(doc.tree).len() as int, self.each(doc.tree))
    }

    /// A document in which no heading departs from the style that the
    /// rule asks for has no findings.
    pub proof fn lemma_one_style_passes(&self, doc: DocumentView)
        requires
            forall|k: int|
                0 <= k < top_level(doc.tree).len() ==> !#[trigger] self.violates(doc.tree, k),
        ensures
            self.positions(doc) == Seq::<Sourcepos>::empty(),
    {
        let each = self.each(doc.tree);
        assert forall|k: int| 0 <= k < top_level(doc.tree).len() implies
            (#[trigger] each(k)).len() == 0 by {
        }
        lemma_gather_nothing(top_level(doc.tree).len() as int, each);
    }

    fn scan(&self, doc: &Document) -> (found: Vec<Sourcepos>)
        ensures
            found@ == self.positions(doc@),
    {
        let nodes = doc.nodes();
        let mut found: Vec<Sourcepos> = Vec::new();
        if nodes.len() == 0 {
            return found;
        }
        let ghost tree = doc@.tree;
        let top = &nodes[0].children;
        let mut first: Option<(bool, bool)> = None;
        let mut k: usize = 0;
        while k < top.len()
            invariant
                models(nodes@) == tree,
                tree_wf(tree),
                top@ == top_level(tree),
                k <= top.len(),
                found@ == gather(k as int, self.each(tree)),
                first == Self::first_style(tree, k as int),
            decreases top.len() - k,
        {
            proof {
                assert(node_wf(tree, 0));
                assert(top@[k as int] == tree[0].children[k as int]);
            }
            let node = &nodes[top[k]];
            if let NodeValue::Heading(heading) = &node.value {
                let closed = if node.children.len() > 0 {
                    proof {
                        assert(node_wf(tree, top@[k as int] as int));
                        assert(tree[top@[k as int] as int].children[node.children.len() - 1]
                            < tree.len());
                    }
                    let last = &nodes[node.children[node.children.len() - 1]];
                    !heading.setext && node.position.end.column > last.position.end.column
                } else {
                    !heading.setext
                };
                let violated = match self.style {
                    HeadingStyle::Consistent => match first {
                        Some(expected) => heading.setext != expected.0 || expected.1 != closed,
                        None => false,
                    },
                    HeadingStyle::Atx => heading.setext || closed,
                    HeadingStyle::AtxClosed => heading.setext || !closed,
                    HeadingStyle::Setext => !heading.setext,
                    HeadingStyle::SetextWithAtx => heading.level < 3 && !heading.setext,
                };
                if violated {
                    found.push(node.position);
                }
                if first.is_none() {
                    first = Some((heading.setext, closed));
                }
            }
            proof {
                assert(found@ =~= gather(k as int, self.each(tree)) + self.each(tree)(k as int));
            }
            k = k + 1;
        }
        found
    }

    /// Reports every top-level heading that is not written in the configured
    /// style.
    pub fn check(&self, doc: &Document) -> (result: Result<Vec<Violation>, LintError>)
        ensures
            result matches Ok(violations) && views(violations@) == findings(
                doc@.path,
                Self::label(),
                self.positions(doc@),
            ),
    {
        let positions = self.scan(doc);
        Ok(to_violations(doc.path(), &self.metadata(), &positions))
    }
}

impl RuleLike for MD003 {
    open spec fn about_of(&self) -> MetadataView {
        Self::about()
    }

    open spec fn label_of(&self) -> Label {
        Self::label()
    }

    open spec fn positions_in(&self, doc: DocumentView) -> Seq<Sourcepos> {
        self.positions(doc)
    }

    open spec fn fails_on(&self, doc: DocumentView) -> bool {
        false
    }

    open spec fn failure_on(&self, doc: DocumentView) -> ErrorView {
        no_failure(doc)
    }

    fn metadata(&self) -> (metadata: Metadata) {
        MD003::metadata(self)
    }

    fn check(&self, doc: &Document) -> (result: Result<Vec<Violation>, LintError>) {
        MD003::check(self, doc)
    }

    fn to_violation(&self, path: String, position: Sourcepos) -> (violation: Violation) {
        MD003::to_violation(self, path, position)
    }
}

} // verus!
