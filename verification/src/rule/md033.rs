//! Documents hold no raw HTML but the allowed elements.

use vstd::prelude::*;

use crate::document::Document;
use crate::document::DocumentView;
use crate::document::models;
use crate::document::node_wf;
use crate::document::NodeModel;
use crate::document::NodeValue;
use crate::document::tree_wf;
use crate::error::ErrorView;
use crate::error::LintError;
use crate::error::no_failure;
use crate::position::Sourcepos;
use crate::rule::helper::findings;
use crate::rule::helper::gather;
use crate::rule::helper::lemma_gather_nothing;
use crate::rule::helper::lemma_gather_pointwise;
use crate::rule::helper::one_if;
use crate::rule::helper::to_violations;
use crate::rule::metadata::Label;
use crate::rule::metadata::Metadata;
use crate::rule::metadata::MetadataView;
use crate::rule::metadata::Tag;
use crate::rule::RuleLike;
use crate::text::contains_text;
use crate::text::line_views;
use crate::text::same_text;
use crate::text::starts_with;
use crate::violation::finding;
use crate::violation::views;
use crate::violation::Violation;

verus! {

/// The names of the elements that `scraper::Html::parse_fragment` finds in
/// `html`, in document order, beginning with the `html` element that the
/// parser puts around every fragment.
pub uninterp spec fn html_elements(html: Seq<char>) -> Seq<Seq<char>>;

/// Parses `html` with `scraper::Html::parse_fragment` and walks the elements
/// under `root_element` with `descendent_elements`, keeping the `name` of
/// each. The parser depends on its input alone.
#[verifier::external_body]
fn element_names(html: &str) -> (names: Vec<String>)
    ensures
        line_views(names@) == html_elements(html@),
{
    let fragment = scraper::Html::parse_fragment(html);
    let elements = fragment.root_element().descendent_elements();
    elements.map(|element| element.value().name().to_owned()).collect()
}

/// Reports raw HTML that holds an element which is not allowed.
#[derive(Debug, Clone, PartialEq, Eq)]
#[non_exhaustive]
pub struct MD033 {
    /// The names of the elements that are let through.
    pub allowed_elements: Vec<String>,
}

impl Default for MD033 {
    fn default() -> (rule: Self)
        ensures
            rule.allowed_elements@.len() == 0,
    {
        MD033 { allowed_elements: Vec::new() }
    }
}

impl MD033 {
    /// The rule that lets the elements named in `allowed_elements` through.
    pub fn new(allowed_elements: &[String]) -> (rule: Self)
        ensures
            line_views(rule.allowed_elements@) == line_views(allowed_elements@),
    {
        let mut copy: Vec<String> = Vec::new();
        let mut i: usize = 0;
        while i < allowed_elements.len()
            invariant
                i <= allowed_elements.len(),
                line_views(copy@) == line_views(allowed_elements@.take(i as int)),
            decreases allowed_elements.len() - i,
        {
            let ghost before = line_views(copy@);
            copy.push(allowed_elements[i].clone());
            proof {
                assert(line_views(copy@) =~= before.push(allowed_elements@[i as int]@));
                assert(line_views(allowed_elements@.take(i + 1)) =~= before.push(
                    allowed_elements@[i as int]@,
                ));
            }
            i = i + 1;
        }
        proof {
            assert(allowed_elements@.take(allowed_elements.len() as int) =~= allowed_elements@);
        }
        MD033 { allowed_elements: copy }
    }

    /// What the rule says about itself: its name, what it checks, the
    /// categories it belongs to and the other names it goes by.
    pub open spec fn about() -> MetadataView {
        MetadataView {
            name: "MD033"@,
            description: "Inline HTML"@,
            tags: seq![Tag::Html],
            aliases: seq!["no-inline-html"@],
        }
    }

    /// What the violations of the rule carry of it.
    pub open spec fn label() -> Label {
        Self::about().label()
    }

    /// What the rule says about itself.
    pub fn metadata(&self) -> (metadata: Metadata)
        ensures
            metadata@ == Self::about(),
            metadata.wf(),
            metadata.label() == Self::label(),
    {
        let metadata = Metadata {
            name: "MD033",
            description: "Inline HTML",
            tags: vec![Tag::Html],
            aliases: vec!["no-inline-html"],
        };
        proof {
            assert(metadata@.tags =~= Self::about().tags);
            assert(metadata@.aliases =~= Self::about().aliases);
        }
        metadata
    }

    /// The violation of the rule in `path` at `position`.
    pub fn to_violation(&self, path: String, position: Sourcepos) -> (violation: Violation)
        ensures
            violation@ == finding(path@, Self::label(), position),
    {
        Violation::new(path, &self.metadata(), position)
    }

    /// `name` is one of the allowed elements.
    pub open spec fn allows(&self, name: Seq<char>) -> bool {
        line_views(self.allowed_elements@).contains(name)
    }

    /// `name` is neither allowed nor the `html` element.
    pub open spec fn rejects(&self, name: Seq<char>) -> bool {
        !self.allows(name) && name != "html"@
    }

    /// `html`, in which a parser finds the elements `names`, is written as
    /// an `html` element that is not allowed, or holds an element that is
    /// neither allowed nor the `html` element that the parser adds.
    pub open spec fn flags_among(&self, html: Seq<char>, names: Seq<Seq<char>>) -> bool {
        ||| "<html"@.is_prefix_of(html) && !self.allows("html"@)
        ||| exists|k: int| 0 <= k < names.len() && self.rejects(#[trigger] names[k])
    }

    /// `html` holds an element that is not allowed.
    pub open spec fn flags(&self, html: Seq<char>) -> bool {
        self.flags_among(html, html_elements(html))
    }

    /// Node `i` is raw HTML that is flagged. HTML blocks of the kinds 2 to
    /// 5, which hold no elements (comments and the like), are let through.
    pub open spec fn violates(&self, tree: Seq<NodeModel>, i: int) -> bool {
        match tree[i].value {
            NodeValue::HtmlInline(html) => self.flags(html@),
            NodeValue::HtmlBlock(block) => !(2 <= block.block_type <= 5) && self.flags(
                block.literal@,
            ),
            _ => false,
        }
    }

    /// What node `i` contributes.
    pub open spec fn each(&self, tree: Seq<NodeModel>) -> spec_fn(int) -> Seq<Sourcepos> {
        |i: int| one_if(self.violates(tree, i), tree[i].position)
    }

    /// The spans of the flagged pieces of raw HTML, in document order.
    pub open spec fn positions(&self, doc: DocumentView) -> Seq<Sourcepos> {
        gather(doc.tree.len() as int, self.each(doc.tree))
    }

    /// What the rule finds depends on the characters of its parameter
    /// alone.
    pub proof fn lemma_parameter_decides(&self, other: &Self, doc: DocumentView)
        requires
            line_views(self.allowed_elements@) == line_views(other.allowed_elements@),
        ensures
            self.positions(doc) == other.positions(doc),
    {
        let mine = self.each(doc.tree);
        let theirs = other.each(doc.tree);
        assert forall|k: int| 0 <= k < doc.tree.len() implies #[trigger] mine(k) == theirs(k) by {
            assert forall|html: Seq<char>| self.flags(html) == other.flags(html) by {
                let names = html_elements(html);
                if exists|j: int| 0 <= j < names.len() && self.rejects(#[trigger] names[j]) {
                    let j = choose|j: int|
                        0 <= j < names.len() && self.rejects(#[trigger] names[j]);
                    assert(other.rejects(names[j]));
                }
                if exists|j: int| 0 <= j < names.len() && other.rejects(#[trigger] names[j]) {
                    let j = choose|j: int|
                        0 <= j < names.len() && other.rejects(#[trigger] names[j]);
                    assert(self.rejects(names[j]));
                }
            }
            assert(self.violates(doc.tree, k) == other.violates(doc.tree, k));
        }
        lemma_gather_pointwise(doc.tree.len() as int, mine, theirs);
    }

    /// Whether `html`, in which a parser finds the elements `names`, holds
    /// an element that is not allowed.
    pub fn is_flagged_among(&self, html: &str, names: &Vec<String>) -> (r: bool)
        ensures
            r == self.flags_among(html@, line_views(names@)),
    {
        if starts_with(html, "<html") && !contains_text(&self.allowed_elements, "html") {
            return true;
        }
        let mut k: usize = 0;
        while k < names.len()
            invariant
                k <= names.len(),
                forall|j: int| 0 <= j < k ==> !self.rejects(#[trigger] line_views(names@)[j]),
            decreases names.len() - k,
        {
            proof {
                assert(line_views(names@)[k as int] == names@[k as int]@);
            }
            let name = names[k].as_str();
            if !contains_text(&self.allowed_elements, name) && !same_text(name, "html") {
                return true;
            }
            k = k + 1;
        }
        false
    }

    fn is_flagged(&self, html: &str) -> (r: bool)
        ensures
            r == self.flags(html@),
    {
        let names = element_names(html);
        self.is_flagged_among(html, &names)
    }

    /// A document without raw HTML has no findings.
    pub proof fn lemma_no_raw_html_passes(&self, doc: DocumentView)
        requires
            forall|i: int|
                0 <= i < doc.tree.len() ==> !((#[trigger] doc.tree[i]).value is HtmlInline)
                    && !(doc.tree[i].value is HtmlBlock),
        ensures
            self.positions(doc) == Seq::<Sourcepos>::empty(),
    {
        let each = self.each(doc.tree);
        assert forall|k: int| 0 <= k < doc.tree.len() implies (#[trigger] each(k)).len() == 0 by {
        }
        lemma_gather_nothing(doc.tree.len() as int, each);
    }

    fn scan(&self, doc: &Document) -> (found: Vec<Sourcepos>)
        ensures
            found@ == self.positions(doc@),
    {
        let nodes = doc.nodes();
        let mut found: Vec<Sourcepos> = Vec::new();
        let ghost tree = doc@.tree;
        let mut i: usize = 0;
        while i < nodes.len()
            invariant
                models(nodes@) == tree,
                tree_wf(tree),
                i <= nodes.len(),
                found@ == gather(i as int, self.each(tree)),
            decreases nodes.len() - i,
        {
            proof {
                assert(node_wf(tree, i as int));
            }
            let node = &nodes[i];
            let flagged = match &node.value {
                NodeValue::HtmlInline(html) => self.is_flagged(html.as_str()),
                NodeValue::HtmlBlock(block) => !(2 <= block.block_type && block.block_type <= 5)
                    && self.is_flagged(block.literal.as_str()),
                _ => false,
            };
            if flagged {
                found.push(node.position);
            }
            proof {
                assert(found@ =~= gather(i as int, self.each(tree)) + self.each(tree)(i as int));
            }
            i = i + 1;
        }
        found
    }

    /// Reports every piece of raw HTML that holds an element which is not
    /// allowed.
    pub fn check(&self, doc: &Document) -> (result: Result<Vec<Violation>, LintError>)
        ensures
            result matches Ok(violations) && views(violations@) == findings(
                doc@.path,
                Self::label(),
                self.positions(doc@),
            ),
    {
        let positions = self.scan(doc);
        Ok(to_violations(doc.path(), &self.metadata(), &positions))
    }
}

impl RuleLike for MD033 {
    open spec fn about_of(&self) -> MetadataView {
        Self::about()
    }

    open spec fn label_of(&self) -> Label {
        Self::label()
    }

    open spec fn positions_in(&self, doc: DocumentView) -> Seq<Sourcepos> {
        self.positions(doc)
    }

    open spec fn fails_on(&self, doc: DocumentView) -> bool {
        false
    }

    open spec fn failure_on(&self, doc: DocumentView) -> ErrorView {
        no_failure(doc)
    }

    fn metadata(&self) -> (metadata: Metadata) {
        MD033::metadata(self)
    }

    fn check(&self, doc: &Document) -> (result: Result<Vec<Violation>, LintError>) {
        MD033::check(self, doc)
    }

    fn to_violation(&self, path: String, position: Sourcepos) -> (violation: Violation) {
        MD033::to_violation(self, path, position)
    }
}

} // verus!
