//! List items of one level start in one column.

use vstd::prelude::*;

use crate::document::Document;
use crate::document::DocumentView;
use crate::document::models;
use crate::document::node_wf;
use crate::document::NodeModel;
use crate::document::tree_wf;
use crate::error::ErrorView;
use crate::error::LintError;
use crate::error::no_failure;
use crate::position::Sourcepos;
use crate::rule::helper::findings;
use crate::rule::helper::first_before;
use crate::rule::helper::gather;
use crate::rule::helper::is_level;
use crate::rule::helper::item_level;
use crate::rule::helper::item_levels;
use crate::rule::helper::lemma_gather_nothing;
use crate::rule::helper::one_if;
use crate::rule::helper::to_violations;
use crate::rule::metadata::Label;
use crate::rule::metadata::Metadata;
use crate::rule::metadata::MetadataView;
use crate::rule::metadata::Tag;
use crate::rule::RuleLike;
use crate::violation::finding;
use crate::violation::views;
use crate::violation::Violation;

verus! {

/// Reports list items that do not start in the column of the first item of
/// their level.
#[derive(Default, Debug, Clone, PartialEq, Eq)]
#[non_exhaustive]
pub struct MD005;

impl MD005 {
    /// The rule; it has no parameters.
    pub fn new() -> (rule: Self) {
        MD005
    }

    /// What the rule says about itself: its name, what it checks, the
    /// categories it belongs to and the other names it goes by.
    pub open spec fn about() -> MetadataView {
        MetadataView {
            name: "MD005"@,
            description: "Inconsistent indentation for list items at the same level"@,
            tags: seq![Tag::Bullet, Tag::Ul, Tag::Indentation],
            aliases: seq!["list-indent"@],
        }
    }

    /// What the violations of the rule carry of it.
    pub open spec fn label() -> Label {
        Self::about().label()
    }

    /// What the rule says about itself.
    pub fn metadata(&self) -> (metadata: Metadata)
        ensures
            metadata@ == Self::about(),
            metadata.wf(),
            metadata.label() == Self::label(),
    {
        let metadata = Metadata {
            name: "MD005",
            description: "Inconsistent indentation for list items at the same level",
            tags: vec![Tag::Bullet, Tag::Ul, Tag::Indentation],
            aliases: vec!["list-indent"],
        };
        proof {
            assert(metadata@.tags =~= Self::about().tags);
            assert(metadata@.aliases =~= Self::about().aliases);
        }
        metadata
    }

    /// The violation of the rule in `path` at `position`.
    pub fn to_violation(&self, path: String, position: Sourcepos) -> (violation: Violation)
        ensures
            violation@ == finding(path@, Self::label(), position),
    {
        Violation::new(path, &self.metadata(), position)
    }

    /// Node `i` is a list item of the level `level`.
    pub open spec fn at_level(tree: Seq<NodeModel>, level: nat) -> spec_fn(int) -> bool {
        |i: int| item_level(tree, i) == Some(level)
    }

    /// The column in which the first item of the level `level` before node
    /// `n` starts.
    pub open spec fn first_column(tree: Seq<NodeModel>, level: nat, n: int) -> Option<usize> {
        match first_before(n, Self::at_level(tree, level)) {
            Some(first) => Some(tree[first].position.start.column),
            None => None,
        }
    }

    /// Node `i` is a list item that starts in another column than the first
    /// item of its level.
    pub open spec fn violates(tree: Seq<NodeModel>, i: int) -> bool {
        &&& item_level(tree, i) matches Some(level)
        &&& Self::first_column(tree, level, i) matches Some(column)
        &&& tree[i].position.start.column != column
    }

    /// What node `i` contributes.
    pub open spec fn each(&self, tree: Seq<NodeModel>) -> spec_fn(int) -> Seq<Sourcepos> {
        |i: int| one_if(Self::violates(tree, i), tree[i].position)
    }

    /// The spans of the list items that are out of line, in document order.
    pub open spec fn positions(&self, doc: DocumentView) -> Seq<Sourcepos> {
        gather(doc.tree.len() as int, self.each(doc.tree))
    }

    /// A document in which every list item starts in the column of the
    /// first item of its level has no findings.
    pub proof fn lemma_aligned_items_pass(&self, doc: DocumentView)
        requires
            forall|i: int| 0 <= i < doc.tree.len() ==> !#[trigger] Self::violates(doc.tree, i),
        ensures
            self.positions(doc) == Seq::<Sourcepos>::empty(),
    {
        let each = self.each(doc.tree);
        assert forall|k: int| 0 <= k < doc.tree.len() implies (#[trigger] each(k)).len() == 0 by {
        }
        lemma_gather_nothing(doc.tree.len() as int, each);
    }

    fn scan(&self, doc: &Document) -> (found: Vec<Sourcepos>)
        ensures
            found@ == self.positions(doc@),
    {
        let nodes = doc.nodes();
        let mut found: Vec<Sourcepos> = Vec::new();
        let ghost tree = doc@.tree;
        let levels = item_levels(nodes);
        let mut columns: Vec<Option<usize>> = Vec::new();
        let mut i: usize = 0;
        while i < nodes.len()
            invariant
                models(nodes@) == tree,
                tree_wf(tree),
                i <= nodes.len(),
                found@ == gather(i as int, self.each(tree)),
                levels.len() == nodes.len(),
                forall|j: int|
                    0 <= j < nodes.len() ==> is_level(#[trigger] levels[j], item_level(tree, j)),
                forall|level: int|
                    0 <= level < columns.len() ==> #[trigger] columns[level] == Self::first_column(
                        tree,
                        level as nat,
                        i as int,
                    ),
                forall|level: nat|
                    level >= columns.len() ==> (#[trigger] Self::first_column(
                        tree,
                        level,
                        i as int,
                    )) is None,
            decreases nodes.len() - i,
        {
            proof {
                assert(node_wf(tree, i as int));
            }
            let node = &nodes[i];
            let ghost before = columns@;
            if let Some(level) = levels[i] {
                while columns.len() <= level
                    invariant
                        before.len() <= columns.len(),
                        forall|l: int| 0 <= l < before.len() ==> columns[l] == before[l],
                        forall|l: int|
                            before.len() <= l < columns.len() ==> (#[trigger] columns[l]) is None,
                    decreases level + 1 - columns.len(),
                {
                    columns.push(None);
                }
                match columns[level] {
                    Some(column) => {
                        if node.position.start.column != column {
                            found.push(node.position);
                        }
                    },
                    None => {
                        columns[level] = Some(node.position.start.column);
                    },
                }
            }
            proof {
                assert forall|level: int| 0 <= level < columns.len() implies #[trigger] columns[
                    level
                ] == Self::first_column(tree, level as nat, i + 1) by {
                    if level >= before.len() {
                        assert(Self::first_column(tree, level as nat, i as int) is None);
                    } else {
                        assert(before[level] == Self::first_column(tree, level as nat, i as int));
                    }
                }
                assert forall|level: nat| level >= columns.len() implies (
                #[trigger] Self::first_column(tree, level, i + 1)) is None by {
                    assert(Self::first_column(tree, level, i as int) is None);
                }
            }
            proof {
                assert(found@ =~= gather(i as int, self.each(tree)) + self.each(tree)(i as int));
            }
            i = i + 1;
        }
        found
    }

    /// Reports every list item that does not start in the column of the first
    /// item of its level.
    pub fn check(&self, doc: &Document) -> (result: Result<Vec<Violation>, LintError>)
        ensures
            result matches Ok(violations) && views(violations@) == findings(
                doc@.path,
                Self::label(),
                self.positions(doc@),
            ),
    {
        let positions = self.scan(doc);
        Ok(to_violations(doc.path(), &self.metadata(), &positions))
    }
}

impl RuleLike for MD005 {
    open spec fn about_of(&self) -> MetadataView {
        Self::about()
    }

    open spec fn label_of(&self) -> Label {
        Self::label()
    }

    open spec fn positions_in(&self, doc: DocumentView) -> Seq<Sourcepos> {
        self.positions(doc)
    }

    open spec fn fails_on(&self, doc: DocumentView) -> bool {
        false
    }

    open spec fn failure_on(&self, doc: DocumentView) -> ErrorView {
        no_failure(doc)
    }

    fn metadata(&self) -> (metadata: Metadata) {
        MD005::metadata(self)
    }

    fn check(&self, doc: &Document) -> (result: Result<Vec<Violation>, LintError>) {
        MD005::check(self, doc)
    }

    fn to_violation(&self, path: String, position: Sourcepos) -> (violation: Violation) {
        MD005::to_violation(self, path, position)
    }
}

} // verus!
