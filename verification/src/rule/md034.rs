//! URLs are written as links.

use vstd::prelude::*;

use crate::document::Document;
use crate::document::DocumentView;
use crate::document::models;
use crate::document::node_wf;
use crate::document::NodeModel;
use crate::document::NodeValue;
use crate::document::tree_wf;
use crate::error::ErrorView;
use crate::error::LintError;
use crate::error::no_failure;
use crate::position::LineColumn;
use crate::position::shifted;
use crate::position::Sourcepos;
use crate::rule::helper::findings;
use crate::rule::helper::gather;
use crate::rule::helper::lemma_gather_nothing;
use crate::rule::helper::to_violations;
use crate::rule::metadata::Label;
use crate::rule::metadata::Metadata;
use crate::rule::metadata::MetadataView;
use crate::rule::metadata::Tag;
use crate::rule::RuleLike;
use crate::violation::finding;
use crate::violation::views;
use crate::violation::Violation;

verus! {

/// The links that a `linkify::LinkFinder` with its default settings finds
/// in `text`: the byte offsets at which each starts and ends, in order.
pub uninterp spec fn link_spans(text: Seq<char>) -> Seq<(usize, usize)>;

/// Asks `linkify::LinkFinder::links` of a finder made by `LinkFinder::new`
/// for the links in `text`, keeping `start` and `end` of each. The finder
/// depends on the text alone.
#[verifier::external_body]
fn find_links(text: &str) -> (spans: Vec<(usize, usize)>)
    ensures
        spans@ == link_spans(text@),
{
    linkify::LinkFinder::new().links(text).map(|link| (link.start(), link.end())).collect()
}

/// The span of a link in a text that starts at `origin`: on the line of
/// `origin`, as many columns to its right as the link has bytes before it.
pub open spec fn link_position(origin: LineColumn, span: (usize, usize)) -> Sourcepos {
    Sourcepos { start: shifted(origin, span.0), end: shifted(origin, span.1) }
}

/// The spans of `spans` in a text that starts at `origin`.
pub open spec fn link_positions(origin: LineColumn, spans: Seq<(usize, usize)>) -> Seq<Sourcepos> {
    spans.map_values(|span: (usize, usize)| link_position(origin, span))
}

/// The spans of the links `spans` in a text that starts at `origin`.
pub fn link_positions_of(origin: LineColumn, spans: &Vec<(usize, usize)>) -> (positions: Vec<
    Sourcepos,
>)
    ensures
        positions@ == link_positions(origin, spans@),
{
    let mut positions: Vec<Sourcepos> = Vec::new();
    let mut m: usize = 0;
    proof {
        assert(positions@ =~= link_positions(origin, spans@.take(0)));
    }
    while m < spans.len()
        invariant
            m <= spans.len(),
            positions@ == link_positions(origin, spans@.take(m as int)),
        decreases spans.len() - m,
    {
        let span = spans[m];
        let start = origin.column_add(span.0);
        let end = origin.column_add(span.1);
        positions.push(Sourcepos { start, end });
        proof {
            assert(spans@.take(m + 1) =~= spans@.take(m as int).push(spans@[m as int]));
            assert(positions@ =~= link_positions(origin, spans@.take(m + 1)));
        }
        m = m + 1;
    }
    proof {
        assert(spans@.take(spans.len() as int) =~= spans@);
    }
    positions
}

/// Reports URLs that are not written as links.
#[derive(Default, Debug, Clone, PartialEq, Eq)]
#[non_exhaustive]
pub struct MD034;

impl MD034 {
    /// The rule; it has no parameters.
    pub fn new() -> (rule: Self) {
        MD034
    }

    /// What the rule says about itself: its name, what it checks, the
    /// categories it belongs to and the other names it goes by.
    pub open spec fn about() -> MetadataView {
        MetadataView {
            name: "MD034"@,
            description: "Bare URL used"@,
            tags: seq![Tag::Links, Tag::Url],
            aliases: seq!["no-bare-urls"@],
        }
    }

    /// What the violations of the rule carry of it.
    pub open spec fn label() -> Label {
        Self::about().label()
    }

    /// What the rule says about itself.
    pub fn metadata(&self) -> (metadata: Metadata)
        ensures
            metadata@ == Self::about(),
            metadata.wf(),
            metadata.label() == Self::label(),
    {
        let metadata = Metadata {
            name: "MD034",
            description: "Bare URL used",
            tags: vec![Tag::Links, Tag::Url],
            aliases: vec!["no-bare-urls"],
        };
        proof {
            assert(metadata@.tags =~= Self::about().tags);
            assert(metadata@.aliases =~= Self::about().aliases);
        }
        metadata
    }

    /// The violation of the rule in `path` at `position`.
    pub fn to_violation(&self, path: String, position: Sourcepos) -> (violation: Violation)
        ensures
            violation@ == finding(path@, Self::label(), position),
    {
        Violation::new(path, &self.metadata(), position)
    }

    /// Node `i` is a child of a link.
    pub open spec fn in_link(tree: Seq<NodeModel>, i: int) -> bool {
        tree[i].parent matches Some(parent) && tree[parent as int].value is Link
    }

    /// What node `i` contributes if it is text outside a link: the spans
    /// of the links in it.
    pub open spec fn each(&self, tree: Seq<NodeModel>) -> spec_fn(int) -> Seq<Sourcepos> {
        |i: int|
            match tree[i].value {
                NodeValue::Text(text) => if Self::in_link(tree, i) {
                    Seq::empty()
                } else {
                    link_positions(tree[i].position.start, link_spans(text@))
                },
                _ => Seq::empty(),
            }
    }

    /// The spans of the bare links, in document order.
    pub open spec fn positions(&self, doc: DocumentView) -> Seq<Sourcepos> {
        gather(doc.tree.len() as int, self.each(doc.tree))
    }

    /// A document in which no text holds a link has no findings.
    pub proof fn lemma_no_links_in_text_passes(&self, doc: DocumentView)
        requires
            forall|i: int|
                0 <= i < doc.tree.len() ==> ((#[trigger] doc.tree[i]).value matches NodeValue::Text(
                    text,
                ) ==> link_spans(text@).len() == 0),
        ensures
            self.positions(doc) == Seq::<Sourcepos>::empty(),
    {
        let each = self.each(doc.tree);
        assert forall|k: int| 0 <= k < doc.tree.len() implies (#[trigger] each(k)).len() == 0 by {
        }
        lemma_gather_nothing(doc.tree.len() as int, each);
    }

    fn scan(&self, doc: &Document) -> (found: Vec<Sourcepos>)
        ensures
            found@ == self.positions(doc@),
    {
        let nodes = doc.nodes();
        let mut found: Vec<Sourcepos> = Vec::new();
        let ghost tree = doc@.tree;
        let mut i: usize = 0;
        while i < nodes.len()
            invariant
                models(nodes@) == tree,
                tree_wf(tree),
                i <= nodes.len(),
                found@ == gather(i as int, self.each(tree)),
            decreases nodes.len() - i,
        {
            proof {
                assert(node_wf(tree, i as int));
            }
            let node = &nodes[i];
            if let NodeValue::Text(text) = &node.value {
                let linked = match node.parent {
                    Some(parent) => match &nodes[parent].value {
                        NodeValue::Link => true,
                        _ => false,
                    },
                    None => false,
                };
                if !linked {
                    let spans = find_links(text.as_str());
                    let mut positions = link_positions_of(node.position.start, &spans);
                    found.append(&mut positions);
                }
            }
            proof {
                assert(found@ =~= gather(i as int, self.each(tree)) + self.each(tree)(i as int));
            }
            i = i + 1;
        }
        found
    }

    /// Reports every link that stands in a text outside a link.
    pub fn check(&self, doc: &Document) -> (result: Result<Vec<Violation>, LintError>)
        ensures
            result matches Ok(violations) && views(violations@) == findings(
                doc@.path,
                Self::label(),
                self.positions(doc@),
            ),
    {
        let positions = self.scan(doc);
        Ok(to_violations(doc.path(), &self.metadata(), &positions))
    }
}

impl RuleLike for MD034 {
    open spec fn about_of(&self) -> MetadataView {
        Self::about()
    }

    open spec fn label_of(&self) -> Label {
        Self::label()
    }

    open spec fn positions_in(&self, doc: DocumentView) -> Seq<Sourcepos> {
        self.positions(doc)
    }

    open spec fn fails_on(&self, doc: DocumentView) -> bool {
        false
    }

    open spec fn failure_on(&self, doc: DocumentView) -> ErrorView {
        no_failure(doc)
    }

    fn metadata(&self) -> (metadata: Metadata) {
        MD034::metadata(self)
    }

    fn check(&self, doc: &Document) -> (result: Result<Vec<Violation>, LintError>) {
        MD034::check(self, doc)
    }

    fn to_violation(&self, path: String, position: Sourcepos) -> (violation: Violation) {
        MD034::to_violation(self, path, position)
    }
}

} // verus!
