//! The items of a numbered list are numbered in one way.

use vstd::prelude::*;

use crate::document::Document;
use crate::document::DocumentView;
use crate::document::models;
use crate::document::Node;
use crate::document::node_wf;
use crate::document::NodeModel;
use crate::document::NodeValue;
use crate::document::tree_wf;
use crate::error::ErrorView;
use crate::error::LintError;
use crate::error::no_failure;
use crate::position::Sourcepos;
use crate::rule::helper::findings;
use crate::rule::helper::gather;
use crate::rule::helper::is_level;
use crate::rule::helper::item_level;
use crate::rule::helper::item_levels;
use crate::rule::helper::last_before;
use crate::rule::helper::lemma_gather_nothing;
use crate::rule::helper::one_if;
use crate::rule::helper::to_violations;
use crate::rule::metadata::Label;
use crate::rule::metadata::Metadata;
use crate::rule::metadata::MetadataView;
use crate::rule::metadata::Tag;
use crate::rule::node::NodeContext;
use crate::rule::RuleLike;
use crate::violation::finding;
use crate::violation::views;
use crate::violation::Violation;

verus! {

/// How the items of a numbered list are to be numbered.
#[derive(Debug, Clone, Copy, PartialEq, Eq, Structural)]
#[non_exhaustive]
pub enum OrderedListStyle {
    /// Every item with 1.
    One,
    /// Every item with the number after that of the item before it.
    Ordered,
}

/// Reports items of numbered lists that are not numbered as configured.
#[derive(Debug, Clone, PartialEq, Eq)]
#[non_exhaustive]
pub struct MD029 {
    /// The way in which the items of numbered lists are to be numbered.
    pub style: OrderedListStyle,
}

impl Default for MD029 {
    /// The rule with its default parameters.
    fn default() -> (rule: Self)
        ensures
            rule.style == OrderedListStyle::One,
    {
        MD029 {
            style: OrderedListStyle::One,
        }
    }
}

impl MD029 {
    /// The rule with the given parameters.
    pub fn new(style: OrderedListStyle) -> (rule: Self)
        ensures
            rule.style == style,
    {
        MD029 { style }
    }

    /// What the rule says about itself: its name, what it checks, the
    /// categories it belongs to and the other names it goes by.
    pub open spec fn about() -> MetadataView {
        MetadataView {
            name: "MD029"@,
            description: "Ordered list item prefix"@,
            tags: seq![Tag::Ol],
            aliases: seq!["ol-prefix"@],
        }
    }

    /// What the violations of the rule carry of it.
    pub open spec fn label() -> Label {
        Self::about().label()
    }

    /// What the rule says about itself.
    pub fn metadata(&self) -> (metadata: Metadata)
        ensures
            metadata@ == Self::about(),
            metadata.wf(),
            metadata.label() == Self::label(),
    {
        let metadata = Metadata {
            name: "MD029",
            description: "Ordered list item prefix",
            tags: vec![Tag::Ol],
            aliases: vec!["ol-prefix"],
        };
        proof {
            assert(metadata@.tags =~= Self::about().tags);
            assert(metadata@.aliases =~= Self::about().aliases);
        }
        metadata
    }

    /// The violation of the rule in `path` at `position`.
    pub fn to_violation(&self, path: String, position: Sourcepos) -> (violation: Violation)
        ensures
            violation@ == finding(path@, Self::label(), position),
    {
        Violation::new(path, &self.metadata(), position)
    }

    /// Node `j` is an item of the list `list`.
    pub open spec fn is_item_of(tree: Seq<NodeModel>, list: int) -> spec_fn(int) -> bool {
        |j: int| tree[j].value is Item && tree[j].parent == Some(list as usize)
    }

    /// The number of the last item of the list `list` before node `n`.
    pub open spec fn previous_start(tree: Seq<NodeModel>, list: int, n: int) -> Option<usize> {
        match last_before(n, Self::is_item_of(tree, list)) {
            Some(j) => Some(tree[j].value->Item_0.start),
            None => None,
        }
    }

    /// Node `i` is an item of a numbered list, and its number is not the
    /// configured one: 1, or one more than that of the item before it.
    pub open spec fn misnumbered(&self, tree: Seq<NodeModel>, i: int) -> bool {
        &&& tree[i].value matches NodeValue::Item(item)
        &&& tree[i].parent matches Some(list)
        &&& tree[list as int].value matches NodeValue::List(numbering)
        &&& numbering.ordered
        &&& match self.style {
            OrderedListStyle::One => item.start != 1,
            OrderedListStyle::Ordered => Self::previous_start(tree, list as int, i) matches Some(
                previous,
            ) && item.start != previous + 1,
        }
    }

    /// Node `i` is a misnumbered item, nested in lists and items only.
    pub open spec fn violates(&self, tree: Seq<NodeModel>, i: int) -> bool {
        item_level(tree, i) is Some && self.misnumbered(tree, i)
    }

    /// What node `i` contributes.
    pub open spec fn each(&self, tree: Seq<NodeModel>) -> spec_fn(int) -> Seq<Sourcepos> {
        |i: int| one_if(self.violates(tree, i), tree[i].position)
    }

    /// The spans of the misnumbered items, in document order.
    pub open spec fn positions(&self, doc: DocumentView) -> Seq<Sourcepos> {
        gather(doc.tree.len() as int, self.each(doc.tree))
    }

    /// `node` is a numbered list: a node that the rule can be run on.
    pub open spec fn matches(node: NodeModel) -> bool {
        node.value matches NodeValue::List(numbering) && numbering.ordered
    }

    /// Whether the rule can be run on `node`.
    pub fn matcher(&self, node: &Node) -> (r: bool)
        ensures
            r == Self::matches(node@),
    {
        match &node.value {
            NodeValue::List(numbering) => numbering.ordered,
            _ => false,
        }
    }

    /// Child `m` of node `list` is a list item.
    pub open spec fn is_item_at(tree: Seq<NodeModel>, list: int) -> spec_fn(int) -> bool {
        |m: int| tree[tree[list].children[m] as int].value is Item
    }

    /// The number of the last item among the first `m` children of `list`.
    pub open spec fn previous_in_list(tree: Seq<NodeModel>, list: int, m: int) -> Option<usize> {
        match last_before(m, Self::is_item_at(tree, list)) {
            Some(j) => Some(tree[tree[list].children[j] as int].value->Item_0.start),
            None => None,
        }
    }

    /// What child `m` of the numbered list `list` contributes: its span, if
    /// it is an item that is not numbered as configured.
    pub open spec fn list_each(&self, tree: Seq<NodeModel>, list: int) -> spec_fn(int) -> Seq<
        Sourcepos,
    > {
        |m: int|
            {
                let child = tree[tree[list].children[m] as int];
                one_if(
                    child.value matches NodeValue::Item(item) && match self.style {
                        OrderedListStyle::One => item.start != 1,
                        OrderedListStyle::Ordered => Self::previous_in_list(
                            tree,
                            list,
                            m,
                        ) matches Some(previous) && item.start != previous + 1,
                    },
                    child.position,
                )
            }
    }

    /// The spans of the misnumbered items of the numbered list `list`, in
    /// document order.
    pub open spec fn list_positions(&self, tree: Seq<NodeModel>, list: int) -> Seq<Sourcepos> {
        gather(tree[list].children.len() as int, self.list_each(tree, list))
    }

    /// Runs the rule on the numbered list at node `list` of `doc`: reports
    /// every item of the list that is not numbered as configured, under the
    /// path of `ctx`.
    pub fn run(&mut self, ctx: &NodeContext, doc: &Document, list: usize) -> (result: Result<
        Vec<Violation>,
        LintError,
    >)
        requires
            list < doc@.tree.len(),
        ensures
            *final(self) == *old(self),
            result matches Ok(violations) && views(violations@) == findings(
                ctx.path@,
                Self::label(),
                old(self).list_positions(doc@.tree, list as int),
            ),
    {
        let nodes = doc.nodes();
        let ghost tree = doc@.tree;
        let node = &nodes[list];
        let mut found: Vec<Sourcepos> = Vec::new();
        let mut previous: Option<usize> = None;
        let mut m: usize = 0;
        while m < node.children.len()
            invariant
                models(nodes@) == tree,
                tree_wf(tree),
                list < nodes.len(),
                node == &nodes[list as int],
                m <= node.children.len(),
                found@ == gather(m as int, self.list_each(tree, list as int)),
                previous == Self::previous_in_list(tree, list as int, m as int),
            decreases node.children.len() - m,
        {
            proof {
                assert(node_wf(tree, list as int));
                assert(tree[list as int].children[m as int] < tree.len());
            }
            let child = &nodes[node.children[m]];
            if let NodeValue::Item(item) = &child.value {
                if self.is_violated(item.start, previous) {
                    found.push(child.position);
                }
                previous = Some(item.start);
            }
            proof {
                let each = self.list_each(tree, list as int);
                assert(found@ =~= gather(m as int, each) + each(m as int));
            }
            m = m + 1;
        }
        Ok(to_violations(&ctx.path, &self.metadata(), &found))
    }

    /// Forgets what the rule has gathered while it ran on the nodes of a
    /// document. The rule gathers nothing.
    pub fn reset(&mut self)
        ensures
            *final(self) == *old(self),
    {
    }

    /// Whether `start` is the number that the configured style asks of an
    /// item that follows one numbered `previous`.
    fn is_violated(&self, start: usize, previous: Option<usize>) -> (r: bool)
        ensures
            r == match self.style {
                OrderedListStyle::One => start != 1,
                OrderedListStyle::Ordered => previous matches Some(p) && start != p + 1,
            },
    {
        match self.style {
            OrderedListStyle::One => start != 1,
            OrderedListStyle::Ordered => match previous {
                Some(p) => p == usize::MAX || start != p + 1,
                None => false,
            },
        }
    }

    /// A document in which every item of a numbered list is numbered as
    /// configured has no findings.
    pub proof fn lemma_numbered_as_configured_passes(&self, doc: DocumentView)
        requires
            forall|i: int| 0 <= i < doc.tree.len() ==> !#[trigger] self.misnumbered(doc.tree, i),
        ensures
            self.positions(doc) == Seq::<Sourcepos>::empty(),
    {
        let each = self.each(doc.tree);
        assert forall|k: int| 0 <= k < doc.tree.len() implies (#[trigger] each(k)).len() == 0 by {
        }
        lemma_gather_nothing(doc.tree.len() as int, each);
    }

    fn scan(&self, doc: &Document) -> (found: Vec<Sourcepos>)
        ensures
            found@ == self.positions(doc@),
    {
        let nodes = doc.nodes();
        let mut found: Vec<Sourcepos> = Vec::new();
        let ghost tree = doc@.tree;
        let levels = item_levels(nodes);
        let mut previous: Vec<Option<usize>> = Vec::new();
        while previous.len() < nodes.len()
            invariant
                previous.len() <= nodes.len(),
                forall|list: int|
                    0 <= list < previous.len() ==> (#[trigger] previous[list]) is None,
            decreases nodes.len() - previous.len(),
        {
            previous.push(None);
        }
        let mut i: usize = 0;
        while i < nodes.len()
            invariant
                models(nodes@) == tree,
                tree_wf(tree),
                i <= nodes.len(),
                found@ == gather(i as int, self.each(tree)),
                levels.len() == nodes.len(),
                previous.len() == nodes.len(),
                forall|j: int|
                    0 <= j < nodes.len() ==> is_level(#[trigger] levels[j], item_level(tree, j)),
                forall|list: int|
                    0 <= list < nodes.len() ==> #[trigger] previous[list] == Self::previous_start(
                        tree,
                        list,
                        i as int,
                    ),
            decreases nodes.len() - i,
        {
            proof {
                assert(node_wf(tree, i as int));
            }
            let node = &nodes[i];
            let ghost before = previous@;
            if let NodeValue::Item(item) = &node.value {
                if let Some(list) = node.parent {
                    if let NodeValue::List(numbering) = &nodes[list].value {
                        if numbering.ordered && levels[i].is_some() && self.is_violated(
                            item.start,
                            previous[list],
                        ) {
                            found.push(node.position);
                        }
                    }
                    previous[list] = Some(item.start);
                }
            }
            proof {
                assert forall|list: int| 0 <= list < nodes.len() implies #[trigger] previous[list]
                    == Self::previous_start(tree, list, i + 1) by {
                    assert(before[list] == Self::previous_start(tree, list, i as int));
                }
            }
            proof {
                assert(found@ =~= gather(i as int, self.each(tree)) + self.each(tree)(i as int));
            }
            i = i + 1;
        }
        found
    }

    /// Reports every item of a numbered list, nested in lists and items only,
    /// that is not numbered as configured.
    pub fn check(&self, doc: &Document) -> (result: Result<Vec<Violation>, LintError>)
        ensures
            result matches Ok(violations) && views(violations@) == findings(
                doc@.path,
                Self::label(),
                self.positions(doc@),
            ),
    {
        let positions = self.scan(doc);
        Ok(to_violations(doc.path(), &self.metadata(), &positions))
    }
}

impl RuleLike for MD029 {
    open spec fn about_of(&self) -> MetadataView {
        Self::about()
    }

    open spec fn label_of(&self) -> Label {
        Self::label()
    }

    open spec fn positions_in(&self, doc: DocumentView) -> Seq<Sourcepos> {
        self.positions(doc)
    }

    open spec fn fails_on(&self, doc: DocumentView) -> bool {
        false
    }

    open spec fn failure_on(&self, doc: DocumentView) -> ErrorView {
        no_failure(doc)
    }

    fn metadata(&self) -> (metadata: Metadata) {
        MD029::metadata(self)
    }

    fn check(&self, doc: &Document) -> (result: Result<Vec<Violation>, LintError>) {
        MD029::check(self, doc)
    }

    fn to_violation(&self, path: String, position: Sourcepos) -> (violation: Violation) {
        MD029::to_violation(self, path, position)
    }
}

} // verus!
