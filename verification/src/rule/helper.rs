//! What the rules share: how findings are gathered from the items that a rule
//! scans, and how the spans become violations.

use vstd::prelude::*;
use vstd::string::StringExecFns;

use crate::document::models;
use crate::document::Node;
use crate::document::node_wf;
use crate::document::NodeHeading;
use crate::document::NodeModel;
use crate::document::NodeValue;
use crate::document::tree_wf;
use crate::position::Sourcepos;
use crate::rule::metadata::Label;
use crate::rule::metadata::Metadata;
use crate::violation::finding;
use crate::violation::views;
use crate::violation::Violation;
use crate::violation::ViolationView;

verus! {

/// The spans that the first `n` items of a scan contribute, item by item and
/// in order, where item `k` contributes `each(k)`.
pub open spec fn gather(n: int, each: spec_fn(int) -> Seq<Sourcepos>) -> Seq<Sourcepos>
    decreases n,
{
    if n <= 0 {
        Seq::empty()
    } else {
        gather(n - 1, each) + each(n - 1)
    }
}

/// None of the first `n` items of a scan contributes anything.
pub open spec fn nothing_at_any_place(n: int, each: spec_fn(int) -> Seq<Sourcepos>) -> bool {
    forall|k: int| 0 <= k < n ==> (#[trigger] each(k)).len() == 0
}

/// Where no item contributes anything, nothing is gathered.
pub proof fn lemma_gather_nothing(n: int, each: spec_fn(int) -> Seq<Sourcepos>)
    requires
        nothing_at_any_place(n, each),
    ensures
        gather(n, each) == Seq::<Sourcepos>::empty(),
    decreases n,
{
    if n > 0 {
        lemma_gather_nothing(n - 1, each);
        assert(gather(n, each) =~= Seq::<Sourcepos>::empty());
    }
}

/// Scans whose items contribute the same gather the same.
pub proof fn lemma_gather_pointwise(
    n: int,
    each: spec_fn(int) -> Seq<Sourcepos>,
    other: spec_fn(int) -> Seq<Sourcepos>,
)
    requires
        forall|k: int| 0 <= k < n ==> #[trigger] each(k) == other(k),
    ensures
        gather(n, each) == gather(n, other),
    decreases n,
{
    if n > 0 {
        lemma_gather_pointwise(n - 1, each, other);
    }
}

/// `position` if `hit`, nothing otherwise.
pub open spec fn one_if(hit: bool, position: Sourcepos) -> Seq<Sourcepos> {
    if hit {
        seq![position]
    } else {
        Seq::empty()
    }
}

/// `count` times `position`.
pub open spec fn repeat(count: nat, position: Sourcepos) -> Seq<Sourcepos> {
    Seq::new(count, |i: int| position)
}

/// The children of the root: the blocks at the top level of the document.
pub open spec fn top_level(tree: Seq<NodeModel>) -> Seq<usize> {
    if tree.len() > 0 {
        tree[0].children
    } else {
        Seq::empty()
    }
}

/// The block at place `k` of the top level.
pub open spec fn top_node(tree: Seq<NodeModel>, k: int) -> NodeModel {
    tree[top_level(tree)[k] as int]
}

/// The heading at place `k` of the top level, if a heading stands there.
pub open spec fn top_heading(tree: Seq<NodeModel>, k: int) -> Option<NodeHeading> {
    match top_node(tree, k).value {
        NodeValue::Heading(heading) => Some(heading),
        _ => None,
    }
}

/// The least index below `n` at which `found` holds, if any.
pub open spec fn first_before(n: int, found: spec_fn(int) -> bool) -> Option<int>
    decreases n,
{
    if n <= 0 {
        None
    } else {
        match first_before(n - 1, found) {
            Some(k) => Some(k),
            None => if found(n - 1) {
                Some(n - 1)
            } else {
                None
            },
        }
    }
}

/// What [`first_before`] finds lies below `n`, and `found` holds of it.
pub proof fn lemma_first_before_range(n: int, found: spec_fn(int) -> bool)
    ensures
        first_before(n, found) matches Some(k) ==> 0 <= k < n && found(k),
    decreases n,
{
    if n > 0 {
        lemma_first_before_range(n - 1, found);
    }
}

/// [`first_before`] finds the least index at which `found` holds, and
/// finds none only where there is none.
pub proof fn lemma_first_before_is_least(n: int, found: spec_fn(int) -> bool, j: int)
    requires
        0 <= j < n,
        found(j),
    ensures
        first_before(n, found) matches Some(k) && k <= j,
    decreases n,
{
    if j < n - 1 {
        lemma_first_before_is_least(n - 1, found, j);
    } else {
        lemma_first_before_range(n - 1, found);
    }
}

/// A heading stands at place `k` of the top level.
pub open spec fn is_heading(tree: Seq<NodeModel>) -> spec_fn(int) -> bool {
    |k: int| top_heading(tree, k) is Some
}

/// The greatest index below `n` at which `found` holds, if any.
pub open spec fn last_before(n: int, found: spec_fn(int) -> bool) -> Option<int>
    decreases n,
{
    if n <= 0 {
        None
    } else if found(n - 1) {
        Some(n - 1)
    } else {
        last_before(n - 1, found)
    }
}

/// [`last_before`] finds the greatest index below `n` at which `found`
/// holds, and finds none only where there is none.
pub proof fn lemma_last_before_is_greatest(n: int, found: spec_fn(int) -> bool, j: int)
    requires
        0 <= j < n,
        found(j),
    ensures
        last_before(n, found) matches Some(k) && j <= k < n && found(k),
    decreases n,
{
    if !found(n - 1) {
        lemma_last_before_is_greatest(n - 1, found, j);
    }
}

/// The text of a node that is text.
pub open spec fn own_text(node: NodeModel) -> Seq<char> {
    match node.value {
        NodeValue::Text(text) => text@,
        _ => Seq::empty(),
    }
}

/// The texts in the subtree of node `i`, joined in document order.
pub open spec fn subtree_text(tree: Seq<NodeModel>, i: int) -> Seq<char>
    decreases tree.len() - i, tree[i].children.len() + 1,
{
    own_text(tree[i]) + children_text(tree, i, tree[i].children.len() as int)
}

/// The texts in the subtrees of the first `n` children of node `i`, joined
/// in document order.
pub open spec fn children_text(tree: Seq<NodeModel>, i: int, n: int) -> Seq<char>
    decreases tree.len() - i, n,
{
    if n <= 0 {
        Seq::empty()
    } else {
        let child = tree[i].children[n - 1] as int;
        children_text(tree, i, n - 1) + if i < child < tree.len() {
            subtree_text(tree, child)
        } else {
            Seq::empty()
        }
    }
}

/// Appends the texts in the subtree of node `i` to `out`.
pub fn append_text(nodes: &Vec<Node>, i: usize, out: &mut String)
    requires
        tree_wf(models(nodes@)),
        i < nodes.len(),
    ensures
        final(out)@ == old(out)@ + subtree_text(models(nodes@), i as int),
    decreases nodes.len() - i,
{
    let ghost tree = models(nodes@);
    let ghost start = out@;
    let node = &nodes[i];
    if let NodeValue::Text(text) = &node.value {
        out.append(text.as_str());
    }
    proof {
        assert(out@ =~= start + own_text(tree[i as int]) + children_text(tree, i as int, 0));
    }
    let mut k: usize = 0;
    while k < node.children.len()
        invariant
            models(nodes@) == tree,
            tree_wf(tree),
            i < nodes.len(),
            node == &nodes[i as int],
            k <= node.children.len(),
            out@ == start + own_text(tree[i as int]) + children_text(tree, i as int, k as int),
        decreases node.children.len() - k,
    {
        proof {
            assert(node_wf(tree, i as int));
            assert(i < tree[i as int].children[k as int] < tree.len());
        }
        let ghost before = out@;
        append_text(nodes, node.children[k], out);
        proof {
            assert(out@ =~= start + own_text(tree[i as int]) + children_text(
                tree,
                i as int,
                k + 1,
            ));
        }
        k = k + 1;
    }
    proof {
        assert(out@ =~= start + subtree_text(tree, i as int));
    }
}

/// How deep a list item is nested: the items of a list directly under the
/// root have level 0, and the items of a list directly under an item of
/// some level have the next level. Other nodes have no level.
pub open spec fn item_level(tree: Seq<NodeModel>, i: int) -> Option<nat>
    decreases i,
{
    if 0 <= i < tree.len() && tree[i].value is Item {
        match tree[i].parent {
            Some(list) => if list < i && tree[list as int].value is List {
                match tree[list as int].parent {
                    Some(owner) => if owner == 0 {
                        Some(0nat)
                    } else if owner < list {
                        match item_level(tree, owner as int) {
                            Some(level) => Some(level + 1),
                            None => None,
                        }
                    } else {
                        None
                    },
                    None => None,
                }
            } else {
                None
            },
            None => None,
        }
    } else {
        None
    }
}

/// `level` stands for the level `exact` of a node.
pub open spec fn is_level(level: Option<usize>, exact: Option<nat>) -> bool {
    match exact {
        Some(l) => level == Some(l as usize) && l <= usize::MAX,
        None => level is None,
    }
}

/// The level of every node.
pub fn item_levels(nodes: &Vec<Node>) -> (levels: Vec<Option<usize>>)
    requires
        tree_wf(models(nodes@)),
    ensures
        levels.len() == nodes.len(),
        forall|j: int|
            0 <= j < nodes.len() ==> is_level(#[trigger] levels[j], item_level(models(nodes@), j)),
{
    let ghost tree = models(nodes@);
    let mut levels: Vec<Option<usize>> = Vec::new();
    let mut i: usize = 0;
    while i < nodes.len()
        invariant
            models(nodes@) == tree,
            tree_wf(tree),
            i <= nodes.len(),
            levels.len() == i,
            forall|j: int| 0 <= j < i ==> is_level(#[trigger] levels[j], item_level(tree, j)),
            forall|j: int| 0 <= j < i ==> ((#[trigger] levels[j]) matches Some(l) ==> l <= j),
        decreases nodes.len() - i,
    {
        proof {
            assert(node_wf(tree, i as int));
        }
        let node = &nodes[i];
        let mut level: Option<usize> = None;
        if let NodeValue::Item(_) = &node.value {
            if let Some(list) = node.parent {
                proof {
                    assert(node_wf(tree, list as int));
                }
                if let NodeValue::List(_) = &nodes[list].value {
                    if let Some(owner) = nodes[list].parent {
                        if owner == 0 {
                            level = Some(0);
                        } else if let Some(outer) = levels[owner] {
                            level = Some(outer + 1);
                        }
                    }
                }
            }
        }
        levels.push(level);
        i = i + 1;
    }
    levels
}

/// The findings of the rule labelled `label` in `path` at `positions`.
pub open spec fn findings(path: Seq<char>, label: Label, positions: Seq<Sourcepos>) -> Seq<
    ViolationView,
> {
    positions.map_values(|position: Sourcepos| finding(path, label, position))
}

/// Turns the spans that a rule found into its violations.
pub fn to_violations(path: &String, metadata: &Metadata, positions: &Vec<Sourcepos>) -> (violations:
    Vec<Violation>)
    requires
        metadata.wf(),
    ensures
        views(violations@) == findings(path@, metadata.label(), positions@),
{
    let mut violations: Vec<Violation> = Vec::new();
    let mut i: usize = 0;
    while i < positions.len()
        invariant
            i <= positions.len(),
            metadata.wf(),
            views(violations@) == findings(path@, metadata.label(), positions@.take(i as int)),
        decreases positions.len() - i,
    {
        let ghost before = views(violations@);
        violations.push(Violation::new(path.clone(), metadata, positions[i]));
        proof {
            assert(views(violations@) =~= before.push(
                finding(path@, metadata.label(), positions@[i as int]),
            ));
            assert(positions@.take(i + 1) =~= positions@.take(i as int).push(positions@[i as int]));
            assert(findings(path@, metadata.label(), positions@.take(i + 1)) =~= before.push(
                finding(path@, metadata.label(), positions@[i as int]),
            ));
        }
        i = i + 1;
    }
    proof {
        assert(positions@.take(positions.len() as int) =~= positions@);
    }
    violations
}

} // verus!
