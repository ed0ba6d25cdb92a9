//! Commands are not shown with a dollar sign where no output follows.

use vstd::prelude::*;

use crate::document::Document;
use crate::document::DocumentView;
use crate::document::models;
use crate::document::node_wf;
use crate::document::NodeModel;
use crate::document::NodeValue;
use crate::document::tree_wf;
use crate::error::ErrorView;
use crate::error::LintError;
use crate::error::no_failure;
use crate::position::Sourcepos;
use crate::rule::helper::findings;
use crate::rule::helper::gather;
use crate::rule::helper::lemma_gather_nothing;
use crate::rule::helper::one_if;
use crate::rule::helper::to_violations;
use crate::rule::metadata::Label;
use crate::rule::metadata::Metadata;
use crate::rule::metadata::MetadataView;
use crate::rule::metadata::Tag;
use crate::rule::RuleLike;
use crate::text::line_views;
use crate::text::lines_of;
use crate::text::split_lines;
use crate::text::starts_with;
use crate::violation::finding;
use crate::violation::views;
use crate::violation::Violation;

verus! {

/// Reports code blocks that show commands with a dollar sign and no output.
#[derive(Default, Debug, Clone, PartialEq, Eq)]
#[non_exhaustive]
pub struct MD014;

impl MD014 {
    /// The rule; it has no parameters.
    pub fn new() -> (rule: Self) {
        MD014
    }

    /// What the rule says about itself: its name, what it checks, the
    /// categories it belongs to and the other names it goes by.
    pub open spec fn about() -> MetadataView {
        MetadataView {
            name: "MD014"@,
            description: "Dollar signs used before commands without showing output"@,
            tags: seq![Tag::Code],
            aliases: seq!["commands-show-output"@],
        }
    }

    /// What the violations of the rule carry of it.
    pub open spec fn label() -> Label {
        Self::about().label()
    }

    /// What the rule says about itself.
    pub fn metadata(&self) -> (metadata: Metadata)
        ensures
            metadata@ == Self::about(),
            metadata.wf(),
            metadata.label() == Self::label(),
    {
        let metadata = Metadata {
            name: "MD014",
            description: "Dollar signs used before commands without showing output",
            tags: vec![Tag::Code],
            aliases: vec!["commands-show-output"],
        };
        proof {
            assert(metadata@.tags =~= Self::about().tags);
            assert(metadata@.aliases =~= Self::about().aliases);
        }
        metadata
    }

    /// The violation of the rule in `path` at `position`.
    pub fn to_violation(&self, path: String, position: Sourcepos) -> (violation: Violation)
        ensures
            violation@ == finding(path@, Self::label(), position),
    {
        Violation::new(path, &self.metadata(), position)
    }

    /// `line` is empty or begins with a dollar sign and a space.
    pub open spec fn is_command(line: Seq<char>) -> bool {
        line.len() == 0 || "$ "@.is_prefix_of(line)
    }

    /// Every line of `literal` is empty or a command.
    pub open spec fn only_commands(literal: Seq<char>) -> bool {
        forall|k: int|
            0 <= k < split_lines(literal).len() ==> Self::is_command(
                #[trigger] split_lines(literal)[k],
            )
    }

    /// Node `i` is a code block that shows commands only.
    pub open spec fn violates(tree: Seq<NodeModel>, i: int) -> bool {
        tree[i].value matches NodeValue::CodeBlock(code) && Self::only_commands(code.literal@)
    }

    /// What node `i` contributes.
    pub open spec fn each(&self, tree: Seq<NodeModel>) -> spec_fn(int) -> Seq<Sourcepos> {
        |i: int| one_if(Self::violates(tree, i), tree[i].position)
    }

    /// The spans of the code blocks that show commands only, in document order.
    pub open spec fn positions(&self, doc: DocumentView) -> Seq<Sourcepos> {
        gather(doc.tree.len() as int, self.each(doc.tree))
    }

    fn shows_only_commands(literal: &str) -> (r: bool)
        ensures
            r == Self::only_commands(literal@),
    {
        let lines = lines_of(literal);
        let mut k: usize = 0;
        while k < lines.len()
            invariant
                k <= lines.len(),
                line_views(lines@) == split_lines(literal@),
                forall|j: int| 0 <= j < k ==> Self::is_command(#[trigger] split_lines(literal@)[j]),
            decreases lines.len() - k,
        {
            proof {
                assert(line_views(lines@)[k as int] == lines@[k as int]@);
            }
            let line = lines[k].as_str();
            if !(line.is_empty() || starts_with(line, "$ ")) {
                return false;
            }
            k = k + 1;
        }
        true
    }

    /// A document in which no code block shows commands alone has no
    /// findings.
    pub proof fn lemma_shown_output_passes(&self, doc: DocumentView)
        requires
            forall|i: int|
                0 <= i < doc.tree.len() ==> (
                (#[trigger] doc.tree[i]).value matches NodeValue::CodeBlock(code)
                    ==> !Self::only_commands(code.literal@)),
        ensures
            self.positions(doc) == Seq::<Sourcepos>::empty(),
    {
        let each = self.each(doc.tree);
        assert forall|k: int| 0 <= k < doc.tree.len() implies (#[trigger] each(k)).len() == 0 by {
        }
        lemma_gather_nothing(doc.tree.len() as int, each);
    }

    fn scan(&self, doc: &Document) -> (found: Vec<Sourcepos>)
        ensures
            found@ == self.positions(doc@),
    {
        let nodes = doc.nodes();
        let mut found: Vec<Sourcepos> = Vec::new();
        let ghost tree = doc@.tree;
        let mut i: usize = 0;
        while i < nodes.len()
            invariant
                models(nodes@) == tree,
                tree_wf(tree),
                i <= nodes.len(),
                found@ == gather(i as int, self.each(tree)),
            decreases nodes.len() - i,
        {
            proof {
                assert(node_wf(tree, i as int));
            }
            let node = &nodes[i];
            if let NodeValue::CodeBlock(code) = &node.value {
                if Self::shows_only_commands(code.literal.as_str()) {
                    found.push(node.position);
                }
            }
            proof {
                assert(found@ =~= gather(i as int, self.each(tree)) + self.each(tree)(i as int));
            }
            i = i + 1;
        }
        found
    }

    /// Reports every code block whose lines are all empty or begin with a
    /// dollar sign and a space.
    pub fn check(&self, doc: &Document) -> (result: Result<Vec<Violation>, LintError>)
        ensures
            result matches Ok(violations) && views(violations@) == findings(
                doc@.path,
                Self::label(),
                self.positions(doc@),
            ),
    {
        let positions = self.scan(doc);
        Ok(to_violations(doc.path(), &self.metadata(), &positions))
    }
}

impl RuleLike for MD014 {
    open spec fn about_of(&self) -> MetadataView {
        Self::about()
    }

    open spec fn label_of(&self) -> Label {
        Self::label()
    }

    open spec fn positions_in(&self, doc: DocumentView) -> Seq<Sourcepos> {
        self.positions(doc)
    }

    open spec fn fails_on(&self, doc: DocumentView) -> bool {
        false
    }

    open spec fn failure_on(&self, doc: DocumentView) -> ErrorView {
        no_failure(doc)
    }

    fn metadata(&self) -> (metadata: Metadata) {
        MD014::metadata(self)
    }

    fn check(&self, doc: &Document) -> (result: Result<Vec<Violation>, LintError>) {
        MD014::check(self, doc)
    }

    fn to_violation(&self, path: String, position: Sourcepos) -> (violation: Violation) {
        MD014::to_violation(self, path, position)
    }
}

} // verus!
