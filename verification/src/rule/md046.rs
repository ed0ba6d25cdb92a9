//! Code blocks are written in one style.

use vstd::prelude::*;

use crate::document::Document;
use crate::document::DocumentView;
use crate::document::models;
use crate::document::node_wf;
use crate::document::NodeModel;
use crate::document::NodeValue;
use crate::document::tree_wf;
use crate::error::ErrorView;
use crate::error::LintError;
use crate::error::no_failure;
use crate::position::Sourcepos;
use crate::rule::helper::findings;
use crate::rule::helper::first_before;
use crate::rule::helper::gather;
use crate::rule::helper::lemma_gather_nothing;
use crate::rule::helper::one_if;
use crate::rule::helper::to_violations;
use crate::rule::metadata::Label;
use crate::rule::metadata::Metadata;
use crate::rule::metadata::MetadataView;
use crate::rule::metadata::Tag;
use crate::rule::RuleLike;
use crate::violation::finding;
use crate::violation::views;
use crate::violation::Violation;

verus! {

/// How code blocks are to be written.
#[derive(Debug, Clone, Copy, PartialEq, Eq, Structural)]
#[non_exhaustive]
pub enum CodeBlockStyle {
    /// Between fences.
    Fenced,
    /// Indented.
    Indented,
    /// As the first code block of the document is.
    Consistent,
}

/// Reports code blocks that are not written in the configured style.
#[derive(Debug, Clone, PartialEq, Eq)]
#[non_exhaustive]
pub struct MD046 {
    /// The style in which code blocks are to be written.
    pub style: CodeBlockStyle,
}

impl Default for MD046 {
    /// The rule with its default parameters.
    fn default() -> (rule: Self)
        ensures
            rule.style == CodeBlockStyle::Fenced,
    {
        MD046 {
            style: CodeBlockStyle::Fenced,
        }
    }
}

impl MD046 {
    /// The rule with the given parameters.
    pub fn new(style: CodeBlockStyle) -> (rule: Self)
        ensures
            rule.style == style,
    {
        MD046 { style }
    }

    /// What the rule says about itself: its name, what it checks, the
    /// categories it belongs to and the other names it goes by.
    pub open spec fn about() -> MetadataView {
        MetadataView {
            name: "MD046"@,
            description: "Code block style"@,
            tags: seq![Tag::Code],
            aliases: seq!["code-block-style"@],
        }
    }

    /// What the violations of the rule carry of it.
    pub open spec fn label() -> Label {
        Self::about().label()
    }

    /// What the rule says about itself.
    pub fn metadata(&self) -> (metadata: Metadata)
        ensures
            metadata@ == Self::about(),
            metadata.wf(),
            metadata.label() == Self::label(),
    {
        let metadata = Metadata {
            name: "MD046",
            description: "Code block style",
            tags: vec![Tag::Code],
            aliases: vec!["code-block-style"],
        };
        proof {
            assert(metadata@.tags =~= Self::about().tags);
            assert(metadata@.aliases =~= Self::about().aliases);
        }
        metadata
    }

    /// The violation of the rule in `path` at `position`.
    pub fn to_violation(&self, path: String, position: Sourcepos) -> (violation: Violation)
        ensures
            violation@ == finding(path@, Self::label(), position),
    {
        Violation::new(path, &self.metadata(), position)
    }

    /// Node `i` is a code block.
    pub open spec fn is_code_block(tree: Seq<NodeModel>) -> spec_fn(int) -> bool {
        |i: int| tree[i].value is CodeBlock
    }

    /// Whether the first code block before node `i` is fenced.
    pub open spec fn first_fenced(tree: Seq<NodeModel>, i: int) -> Option<bool> {
        match first_before(i, Self::is_code_block(tree)) {
            Some(first) => Some(tree[first].value->CodeBlock_0.fenced),
            None => None,
        }
    }

    /// Node `i` is a code block that is not written in the configured style.
    pub open spec fn violates(&self, tree: Seq<NodeModel>, i: int) -> bool {
        &&& tree[i].value matches NodeValue::CodeBlock(code)
        &&& match self.style {
            CodeBlockStyle::Fenced => !code.fenced,
            CodeBlockStyle::Indented => code.fenced,
            CodeBlockStyle::Consistent => Self::first_fenced(tree, i) matches Some(fenced)
                && code.fenced != fenced,
        }
    }

    /// What node `i` contributes.
    pub open spec fn each(&self, tree: Seq<NodeModel>) -> spec_fn(int) -> Seq<Sourcepos> {
        |i: int| one_if(self.violates(tree, i), tree[i].position)
    }

    /// The spans of the code blocks in another style, in document order.
    pub open spec fn positions(&self, doc: DocumentView) -> Seq<Sourcepos> {
        gather(doc.tree.len() as int, self.each(doc.tree))
    }

    /// A document in which no code block departs from the style that the
    /// rule asks for has no findings.
    pub proof fn lemma_one_style_passes(&self, doc: DocumentView)
        requires
            forall|i: int| 0 <= i < doc.tree.len() ==> !#[trigger] self.violates(doc.tree, i),
        ensures
            self.positions(doc) == Seq::<Sourcepos>::empty(),
    {
        let each = self.each(doc.tree);
        assert forall|k: int| 0 <= k < doc.tree.len() implies (#[trigger] each(k)).len() == 0 by {
        }
        lemma_gather_nothing(doc.tree.len() as int, each);
    }

    fn scan(&self, doc: &Document) -> (found: Vec<Sourcepos>)
        ensures
            found@ == self.positions(doc@),
    {
        let nodes = doc.nodes();
        let mut found: Vec<Sourcepos> = Vec::new();
        let ghost tree = doc@.tree;
        let mut first: Option<bool> = None;
        let mut i: usize = 0;
        while i < nodes.len()
            invariant
                models(nodes@) == tree,
                tree_wf(tree),
                i <= nodes.len(),
                found@ == gather(i as int, self.each(tree)),
                first == Self::first_fenced(tree, i as int),
            decreases nodes.len() - i,
        {
            proof {
                assert(node_wf(tree, i as int));
            }
            let node = &nodes[i];
            if let NodeValue::CodeBlock(code) = &node.value {
                let violated = match self.style {
                    CodeBlockStyle::Fenced => !code.fenced,
                    CodeBlockStyle::Indented => code.fenced,
                    CodeBlockStyle::Consistent => match first {
                        Some(fenced) => code.fenced != fenced,
                        None => false,
                    },
                };
                if violated {
                    found.push(node.position);
                }
                if first.is_none() {
                    first = Some(code.fenced);
                }
            }
            proof {
                assert(found@ =~= gather(i as int, self.each(tree)) + self.each(tree)(i as int));
            }
            i = i + 1;
        }
        found
    }

    /// Reports every code block that is not written in the configured style.
    pub fn check(&self, doc: &Document) -> (result: Result<Vec<Violation>, LintError>)
        ensures
            result matches Ok(violations) && views(violations@) == findings(
                doc@.path,
                Self::label(),
                self.positions(doc@),
            ),
    {
        let positions = self.scan(doc);
        Ok(to_violations(doc.path(), &self.metadata(), &positions))
    }
}

impl RuleLike for MD046 {
    open spec fn about_of(&self) -> MetadataView {
        Self::about()
    }

    open spec fn label_of(&self) -> Label {
        Self::label()
    }

    open spec fn positions_in(&self, doc: DocumentView) -> Seq<Sourcepos> {
        self.positions(doc)
    }

    open spec fn fails_on(&self, doc: DocumentView) -> bool {
        false
    }

    open spec fn failure_on(&self, doc: DocumentView) -> ErrorView {
        no_failure(doc)
    }

    fn metadata(&self) -> (metadata: Metadata) {
        MD046::metadata(self)
    }

    fn check(&self, doc: &Document) -> (result: Result<Vec<Violation>, LintError>) {
        MD046::check(self, doc)
    }

    fn to_violation(&self, path: String, position: Sourcepos) -> (violation: Violation) {
        MD046::to_violation(self, path, position)
    }
}

} // verus!
