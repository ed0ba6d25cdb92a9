//! Horizontal rules are written in one way.

use vstd::prelude::*;

use crate::document::Document;
use crate::document::DocumentView;
use crate::document::models;
use crate::document::Node;
use crate::document::node_wf;
use crate::document::NodeModel;
use crate::document::NodeValue;
use crate::document::tree_wf;
use crate::error::ErrorView;
use crate::error::LintError;
use crate::error::no_failure;
use crate::position::LineColumn;
use crate::position::Sourcepos;
use crate::rule::helper::findings;
use crate::rule::helper::first_before;
use crate::rule::helper::gather;
use crate::rule::helper::lemma_first_before_range;
use crate::rule::helper::lemma_gather_nothing;
use crate::rule::helper::lemma_gather_pointwise;
use crate::rule::helper::one_if;
use crate::rule::helper::to_violations;
use crate::rule::helper::top_level;
use crate::rule::helper::top_node;
use crate::rule::metadata::Label;
use crate::rule::metadata::Metadata;
use crate::rule::metadata::MetadataView;
use crate::rule::metadata::Tag;
use crate::rule::RuleLike;
use crate::text::byte_count;
use crate::text::byte_len;
use crate::text::line_views;
use crate::text::same_text;
use crate::violation::finding;
use crate::violation::views;
use crate::violation::Violation;

verus! {

/// How horizontal rules are to be written.
#[derive(Debug, Clone, PartialEq, Eq)]
#[non_exhaustive]
pub enum HorizontalRuleStyle {
    /// As the first horizontal rule of the document is.
    Consistent,
    /// As the given line.
    Custom(String),
}

/// The mathematical content of a [`HorizontalRuleStyle`].
pub enum HorizontalRuleStyleView {
    Consistent,
    Custom(Seq<char>),
}

impl View for HorizontalRuleStyle {
    type V = HorizontalRuleStyleView;

    open spec fn view(&self) -> HorizontalRuleStyleView {
        match self {
            HorizontalRuleStyle::Consistent => HorizontalRuleStyleView::Consistent,
            HorizontalRuleStyle::Custom(line) => HorizontalRuleStyleView::Custom(line@),
        }
    }
}

/// Reports horizontal rules that are not written in the configured way.
#[derive(Debug, Clone, PartialEq, Eq)]
#[non_exhaustive]
pub struct MD035 {
    /// The way in which horizontal rules are to be written.
    pub style: HorizontalRuleStyle,
}

impl Default for MD035 {
    /// The rule with its default parameters.
    fn default() -> (rule: Self)
        ensures
            rule.style == HorizontalRuleStyle::Consistent,
    {
        MD035 {
            style: HorizontalRuleStyle::Consistent,
        }
    }
}

impl MD035 {
    /// The rule with the given parameters.
    pub fn new(style: HorizontalRuleStyle) -> (rule: Self)
        ensures
            rule.style == style,
    {
        MD035 { style }
    }

    /// What the rule says about itself: its name, what it checks, the
    /// categories it belongs to and the other names it goes by.
    pub open spec fn about() -> MetadataView {
        MetadataView {
            name: "MD035"@,
            description: "Horizontal rule style"@,
            tags: seq![Tag::Hr],
            aliases: seq!["hr-style"@],
        }
    }

    /// What the violations of the rule carry of it.
    pub open spec fn label() -> Label {
        Self::about().label()
    }

    /// What the rule says about itself.
    pub fn metadata(&self) -> (metadata: Metadata)
        ensures
            metadata@ == Self::about(),
            metadata.wf(),
            metadata.label() == Self::label(),
    {
        let metadata = Metadata {
            name: "MD035",
            description: "Horizontal rule style",
            tags: vec![Tag::Hr],
            aliases: vec!["hr-style"],
        };
        proof {
            assert(metadata@.tags =~= Self::about().tags);
            assert(metadata@.aliases =~= Self::about().aliases);
        }
        metadata
    }

    /// The violation of the rule in `path` at `position`.
    pub fn to_violation(&self, path: String, position: Sourcepos) -> (violation: Violation)
        ensures
            violation@ == finding(path@, Self::label(), position),
    {
        Violation::new(path, &self.metadata(), position)
    }

    /// The block at place `k` of the top level is a horizontal rule that
    /// starts on line `number`.
    pub open spec fn breaks_at(tree: Seq<NodeModel>, k: int, number: int) -> bool {
        top_node(tree, k).value is ThematicBreak && top_node(tree, k).position.start.line == number
    }

    /// A horizontal rule of the top level starts on line `number`.
    pub open spec fn rule_starts(tree: Seq<NodeModel>, number: int) -> bool {
        exists|k: int| 0 <= k < top_level(tree).len() && #[trigger] Self::breaks_at(tree, k, number)
    }

    /// Line `i`, counted from 0, is where a horizontal rule of the top level starts.
    pub open spec fn is_rule_line(tree: Seq<NodeModel>) -> spec_fn(int) -> bool {
        |i: int| Self::rule_starts(tree, i + 1)
    }

    /// Line `i` holds a horizontal rule that is not written as configured.
    pub open spec fn violates(&self, doc: DocumentView, i: int) -> bool {
        &&& Self::is_rule_line(doc.tree)(i)
        &&& match self.style {
            HorizontalRuleStyle::Consistent => first_before(
                i,
                Self::is_rule_line(doc.tree),
            ) matches Some(first) && doc.lines[i] != doc.lines[first],
            HorizontalRuleStyle::Custom(expected) => doc.lines[i] != expected@,
        }
    }

    /// What line `i`, counted from 0, contributes.
    pub open spec fn each(&self, doc: DocumentView) -> spec_fn(int) -> Seq<Sourcepos> {
        |i: int|
            one_if(
                self.violates(doc, i),
                Sourcepos {
                    start: LineColumn { line: (i + 1) as usize, column: 1 },
                    end: LineColumn {
                        line: (i + 1) as usize,
                        column: byte_len(doc.lines[i]) as usize,
                    },
                },
            )
    }

    /// The spans of the lines of horizontal rules written otherwise, from
    /// the first line to the last.
    pub open spec fn positions(&self, doc: DocumentView) -> Seq<Sourcepos> {
        gather(doc.lines.len() as int, self.each(doc))
    }

    /// What the rule finds depends on the characters of its parameter
    /// alone.
    pub proof fn lemma_parameter_decides(&self, other: &Self, doc: DocumentView)
        requires
            self.style@ == other.style@,
        ensures
            self.positions(doc) == other.positions(doc),
    {
        let mine = self.each(doc);
        let theirs = other.each(doc);
        assert forall|k: int| 0 <= k < doc.lines.len() implies #[trigger] mine(k) == theirs(k) by {
            assert(self.violates(doc, k) == other.violates(doc, k));
        }
        lemma_gather_pointwise(doc.lines.len() as int, mine, theirs);
    }

    fn starts_rule(nodes: &Vec<Node>, i: usize) -> (r: bool)
        requires
            tree_wf(models(nodes@)),
            i < usize::MAX,
        ensures
            r == Self::is_rule_line(models(nodes@))(i as int),
    {
        if nodes.len() == 0 {
            return false;
        }
        let number = i + 1;
        let ghost tree = models(nodes@);
        let top = &nodes[0].children;
        let mut k: usize = 0;
        while k < top.len()
            invariant
                models(nodes@) == tree,
                tree_wf(tree),
                top@ == top_level(tree),
                k <= top.len(),
                number == i + 1,
                forall|j: int| 0 <= j < k ==> !Self::breaks_at(tree, j, number as int),
            decreases top.len() - k,
        {
            proof {
                assert(node_wf(tree, 0));
                assert(top@[k as int] == tree[0].children[k as int]);
            }
            let node = &nodes[top[k]];
            if let NodeValue::ThematicBreak = &node.value {
                if node.position.start.line == number {
                    proof {
                        assert(Self::breaks_at(tree, k as int, number as int));
                        assert(Self::rule_starts(tree, i + 1));
                    }
                    return true;
                }
            }
            k = k + 1;
        }
        false
    }

    /// A document in which no horizontal rule departs from the way of
    /// writing that the rule asks for has no findings.
    pub proof fn lemma_one_way_passes(&self, doc: DocumentView)
        requires
            forall|i: int| 0 <= i < doc.lines.len() ==> !#[trigger] self.violates(doc, i),
        ensures
            self.positions(doc) == Seq::<Sourcepos>::empty(),
    {
        let each = self.each(doc);
        assert forall|k: int| 0 <= k < doc.lines.len() implies (#[trigger] each(k)).len() == 0 by {
        }
        lemma_gather_nothing(doc.lines.len() as int, each);
    }

    fn scan(&self, doc: &Document) -> (found: Vec<Sourcepos>)
        ensures
            found@ == self.positions(doc@),
    {
        let lines = doc.lines();
        let nodes = doc.nodes();
        let mut found: Vec<Sourcepos> = Vec::new();
        let ghost view = doc@;
        let mut first: Option<usize> = None;
        let mut i: usize = 0;
        while i < lines.len()
            invariant
                line_views(lines@) == view.lines,
                models(nodes@) == view.tree,
                tree_wf(view.tree),
                i <= lines.len(),
                found@ == gather(i as int, self.each(view)),
                first matches Some(f) ==> f < i,
                first == match first_before(i as int, Self::is_rule_line(view.tree)) {
                    Some(f) => Some(f as usize),
                    None => None,
                },
            decreases lines.len() - i,
        {
            proof {
                assert(line_views(lines@)[i as int] == lines@[i as int]@);
                lemma_first_before_range(i as int, Self::is_rule_line(view.tree));
            }
            let line = lines[i].as_str();
            if Self::starts_rule(nodes, i) {
                let violated = match &self.style {
                    HorizontalRuleStyle::Consistent => match first {
                        Some(f) => {
                            proof {
                                assert(line_views(lines@)[f as int] == lines@[f as int]@);
                            }
                            !same_text(line, lines[f].as_str())
                        },
                        None => false,
                    },
                    HorizontalRuleStyle::Custom(expected) => !same_text(line, expected.as_str()),
                };
                if violated {
                    found.push(Sourcepos::new(i + 1, 1, i + 1, byte_count(line)));
                }
                if first.is_none() {
                    first = Some(i);
                }
            }
            proof {
                assert(found@ =~= gather(i as int, self.each(view)) + self.each(view)(i as int));
            }
            i = i + 1;
        }
        found
    }

    /// Reports every line of a top-level horizontal rule that is not written
    /// in the configured way.
    pub fn check(&self, doc: &Document) -> (result: Result<Vec<Violation>, LintError>)
        ensures
            result matches Ok(violations) && views(violations@) == findings(
                doc@.path,
                Self::label(),
                self.positions(doc@),
            ),
    {
        let positions = self.scan(doc);
        Ok(to_violations(doc.path(), &self.metadata(), &positions))
    }
}

impl RuleLike for MD035 {
    open spec fn about_of(&self) -> MetadataView {
        Self::about()
    }

    open spec fn label_of(&self) -> Label {
        Self::label()
    }

    open spec fn positions_in(&self, doc: DocumentView) -> Seq<Sourcepos> {
        self.positions(doc)
    }

    open spec fn fails_on(&self, doc: DocumentView) -> bool {
        false
    }

    open spec fn failure_on(&self, doc: DocumentView) -> ErrorView {
        no_failure(doc)
    }

    fn metadata(&self) -> (metadata: Metadata) {
        MD035::metadata(self)
    }

    fn check(&self, doc: &Document) -> (result: Result<Vec<Violation>, LintError>) {
        MD035::check(self, doc)
    }

    fn to_violation(&self, path: String, position: Sourcepos) -> (violation: Violation) {
        MD035::to_violation(self, path, position)
    }
}

impl HorizontalRuleStyle {
    /// A copy of the style.
    pub fn duplicate(&self) -> (copy: Self)
        ensures
            copy == *self,
    {
        match self {
            HorizontalRuleStyle::Consistent => HorizontalRuleStyle::Consistent,
            HorizontalRuleStyle::Custom(line) => HorizontalRuleStyle::Custom(line.clone()),
        }
    }
}

} // verus!
