//! No two blank lines follow each other.

use vstd::prelude::*;

use crate::document::Document;
use crate::document::DocumentView;
use crate::document::front_matter_of;
use crate::document::models;
use crate::document::Node;
use crate::document::node_wf;
use crate::document::NodeModel;
use crate::document::NodeValue;
use crate::document::tree_wf;
use crate::error::ErrorView;
use crate::error::LintError;
use crate::error::no_failure;
use crate::position::LineColumn;
use crate::position::Sourcepos;
use crate::rule::helper::findings;
use crate::rule::helper::gather;
use crate::rule::helper::lemma_gather_nothing;
use crate::rule::helper::one_if;
use crate::rule::helper::to_violations;
use crate::rule::helper::top_level;
use crate::rule::helper::top_node;
use crate::rule::metadata::Label;
use crate::rule::metadata::Metadata;
use crate::rule::metadata::MetadataView;
use crate::rule::metadata::Tag;
use crate::rule::RuleLike;
use crate::text::line_views;
use crate::text::lines_of;
use crate::text::split_lines;
use crate::violation::finding;
use crate::violation::views;
use crate::violation::Violation;

verus! {

/// Reports blank lines that follow a blank line.
#[derive(Default, Debug, Clone, PartialEq, Eq)]
#[non_exhaustive]
pub struct MD012;

impl MD012 {
    /// The rule; it has no parameters.
    pub fn new() -> (rule: Self) {
        MD012
    }

    /// What the rule says about itself: its name, what it checks, the
    /// categories it belongs to and the other names it goes by.
    pub open spec fn about() -> MetadataView {
        MetadataView {
            name: "MD012"@,
            description: "Multiple consecutive blank lines"@,
            tags: seq![Tag::Whitespace, Tag::BlankLines],
            aliases: seq!["no-multiple-blanks"@],
        }
    }

    /// What the violations of the rule carry of it.
    pub open spec fn label() -> Label {
        Self::about().label()
    }

    /// What the rule says about itself.
    pub fn metadata(&self) -> (metadata: Metadata)
        ensures
            metadata@ == Self::about(),
            metadata.wf(),
            metadata.label() == Self::label(),
    {
        let metadata = Metadata {
            name: "MD012",
            description: "Multiple consecutive blank lines",
            tags: vec![Tag::Whitespace, Tag::BlankLines],
            aliases: vec!["no-multiple-blanks"],
        };
        proof {
            assert(metadata@.tags =~= Self::about().tags);
            assert(metadata@.aliases =~= Self::about().aliases);
        }
        metadata
    }

    /// The violation of the rule in `path` at `position`.
    pub fn to_violation(&self, path: String, position: Sourcepos) -> (violation: Violation)
        ensures
            violation@ == finding(path@, Self::label(), position),
    {
        Violation::new(path, &self.metadata(), position)
    }

    /// The block at place `k` of the top level is a code block that covers
    /// line `number`.
    pub open spec fn covers(tree: Seq<NodeModel>, k: int, number: int) -> bool {
        &&& top_node(tree, k).value is CodeBlock
        &&& top_node(tree, k).position.start.line <= number <= top_node(tree, k).position.end.line
    }

    /// Line `number` lies in a code block of the top level.
    pub open spec fn in_code_block(tree: Seq<NodeModel>, number: int) -> bool {
        exists|k: int| 0 <= k < top_level(tree).len() && Self::covers(tree, k, number)
    }

    /// The number of lines that the front matter takes.
    pub open spec fn front_matter_lines(tree: Seq<NodeModel>) -> nat {
        match front_matter_of(tree) {
            Some(text) => split_lines(text).len(),
            None => 0,
        }
    }

    /// Line `i`, counted from 0, is blank and follows a blank line of the
    /// body, and no code block covers it.
    pub open spec fn violates(doc: DocumentView, i: int) -> bool {
        &&& i > Self::front_matter_lines(doc.tree)
        &&& doc.lines[i - 1].len() == 0
        &&& doc.lines[i].len() == 0
        &&& !Self::in_code_block(doc.tree, i + 1)
    }

    /// What line `i`, counted from 0, contributes.
    pub open spec fn each(&self, doc: DocumentView) -> spec_fn(int) -> Seq<Sourcepos> {
        |i: int|
            one_if(
                Self::violates(doc, i),
                Sourcepos {
                    start: LineColumn { line: (i + 1) as usize, column: 1 },
                    end: LineColumn { line: (i + 1) as usize, column: 1 },
                },
            )
    }

    /// The spans of the repeated blank lines: the first column of each, from
    /// the first line to the last.
    pub open spec fn positions(&self, doc: DocumentView) -> Seq<Sourcepos> {
        gather(doc.lines.len() as int, self.each(doc))
    }

    fn is_in_code_block(nodes: &Vec<Node>, number: usize) -> (r: bool)
        requires
            tree_wf(models(nodes@)),
        ensures
            r == Self::in_code_block(models(nodes@), number as int),
    {
        if nodes.len() == 0 {
            return false;
        }
        let ghost tree = models(nodes@);
        let top = &nodes[0].children;
        let mut k: usize = 0;
        while k < top.len()
            invariant
                models(nodes@) == tree,
                tree_wf(tree),
                top@ == top_level(tree),
                k <= top.len(),
                forall|j: int| 0 <= j < k ==> !Self::covers(tree, j, number as int),
            decreases top.len() - k,
        {
            proof {
                assert(node_wf(tree, 0));
                assert(top@[k as int] == tree[0].children[k as int]);
            }
            let node = &nodes[top[k]];
            if let NodeValue::CodeBlock(_) = &node.value {
                if node.position.start.line <= number && number <= node.position.end.line {
                    proof {
                        assert(Self::covers(tree, k as int, number as int));
                    }
                    return true;
                }
            }
            k = k + 1;
        }
        false
    }

    /// A document in which no blank line follows a blank line has no
    /// findings.
    pub proof fn lemma_single_blank_lines_pass(&self, doc: DocumentView)
        requires
            forall|i: int|
                1 <= i < doc.lines.len() ==> !((#[trigger] doc.lines[i]).len() == 0 && doc.lines[i
                    - 1].len() == 0),
        ensures
            self.positions(doc) == Seq::<Sourcepos>::empty(),
    {
        let each = self.each(doc);
        assert forall|k: int| 0 <= k < doc.lines.len() implies (#[trigger] each(k)).len() == 0 by {
        }
        lemma_gather_nothing(doc.lines.len() as int, each);
    }

    fn scan(&self, doc: &Document) -> (found: Vec<Sourcepos>)
        ensures
            found@ == self.positions(doc@),
    {
        let lines = doc.lines();
        let nodes = doc.nodes();
        let mut found: Vec<Sourcepos> = Vec::new();
        let ghost view = doc@;
        let skipped: usize = match doc.front_matter() {
            Some(text) => lines_of(text.as_str()).len(),
            None => 0,
        };
        let mut i: usize = 0;
        while i < lines.len()
            invariant
                line_views(lines@) == view.lines,
                models(nodes@) == view.tree,
                tree_wf(view.tree),
                i <= lines.len(),
                found@ == gather(i as int, self.each(view)),
                skipped == Self::front_matter_lines(view.tree),
            decreases lines.len() - i,
        {
            proof {
                assert(line_views(lines@)[i as int] == lines@[i as int]@);
            }
            let line = lines[i].as_str();
            if i > skipped && lines[i - 1].as_str().is_empty() && line.is_empty() {
                proof {
                    assert(line_views(lines@)[i - 1] == lines@[i - 1]@);
                }
                if !Self::is_in_code_block(nodes, i + 1) {
                    found.push(Sourcepos::new(i + 1, 1, i + 1, 1));
                }
            }
            proof {
                assert(found@ =~= gather(i as int, self.each(view)) + self.each(view)(i as int));
            }
            i = i + 1;
        }
        found
    }

    /// Reports every blank line that follows a blank line, outside the front
    /// matter and outside code blocks.
    pub fn check(&self, doc: &Document) -> (result: Result<Vec<Violation>, LintError>)
        ensures
            result matches Ok(violations) && views(violations@) == findings(
                doc@.path,
                Self::label(),
                self.positions(doc@),
            ),
    {
        let positions = self.scan(doc);
        Ok(to_violations(doc.path(), &self.metadata(), &positions))
    }
}

impl RuleLike for MD012 {
    open spec fn about_of(&self) -> MetadataView {
        Self::about()
    }

    open spec fn label_of(&self) -> Label {
        Self::label()
    }

    open spec fn positions_in(&self, doc: DocumentView) -> Seq<Sourcepos> {
        self.positions(doc)
    }

    open spec fn fails_on(&self, doc: DocumentView) -> bool {
        false
    }

    open spec fn failure_on(&self, doc: DocumentView) -> ErrorView {
        no_failure(doc)
    }

    fn metadata(&self) -> (metadata: Metadata) {
        MD012::metadata(self)
    }

    fn check(&self, doc: &Document) -> (result: Result<Vec<Violation>, LintError>) {
        MD012::check(self, doc)
    }

    fn to_violation(&self, path: String, position: Sourcepos) -> (violation: Violation) {
        MD012::to_violation(self, path, position)
    }
}

} // verus!
