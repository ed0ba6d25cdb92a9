//! Lines hold no tab characters.

use vstd::prelude::*;

use crate::document::Document;
use crate::document::DocumentView;
use crate::document::models;
use crate::document::tree_wf;
use crate::error::ErrorView;
use crate::error::LintError;
use crate::error::no_failure;
use crate::position::LineColumn;
use crate::position::Sourcepos;
use crate::rule::helper::findings;
use crate::rule::helper::gather;
use crate::rule::helper::lemma_gather_nothing;
use crate::rule::helper::to_violations;
use crate::rule::metadata::Label;
use crate::rule::metadata::Metadata;
use crate::rule::metadata::MetadataView;
use crate::rule::metadata::Tag;
use crate::rule::RuleLike;
use crate::text::byte_offset_of;
use crate::text::find_char;
use crate::text::line_views;
use crate::violation::finding;
use crate::violation::views;
use crate::violation::Violation;

verus! {

/// Reports tab characters.
#[derive(Default, Debug, Clone, PartialEq, Eq)]
#[non_exhaustive]
pub struct MD010;

impl MD010 {
    /// The rule; it has no parameters.
    pub fn new() -> (rule: Self) {
        MD010
    }

    /// What the rule says about itself: its name, what it checks, the
    /// categories it belongs to and the other names it goes by.
    pub open spec fn about() -> MetadataView {
        MetadataView {
            name: "MD010"@,
            description: "Hard tabs"@,
            tags: seq![Tag::Whitespace, Tag::HardTab],
            aliases: seq!["no-hard-tabs"@],
        }
    }

    /// What the violations of the rule carry of it.
    pub open spec fn label() -> Label {
        Self::about().label()
    }

    /// What the rule says about itself.
    pub fn metadata(&self) -> (metadata: Metadata)
        ensures
            metadata@ == Self::about(),
            metadata.wf(),
            metadata.label() == Self::label(),
    {
        let metadata = Metadata {
            name: "MD010",
            description: "Hard tabs",
            tags: vec![Tag::Whitespace, Tag::HardTab],
            aliases: vec!["no-hard-tabs"],
        };
        proof {
            assert(metadata@.tags =~= Self::about().tags);
            assert(metadata@.aliases =~= Self::about().aliases);
        }
        metadata
    }

    /// The violation of the rule in `path` at `position`.
    pub fn to_violation(&self, path: String, position: Sourcepos) -> (violation: Violation)
        ensures
            violation@ == finding(path@, Self::label(), position),
    {
        Violation::new(path, &self.metadata(), position)
    }

    /// The first tab character of line `i`, if the line has one: one column
    /// wide, behind the bytes before it.
    pub open spec fn each(&self, doc: DocumentView) -> spec_fn(int) -> Seq<Sourcepos> {
        |i: int|
            match byte_offset_of(doc.lines[i], '\t') {
                Some(offset) => seq![
                    Sourcepos {
                        start: LineColumn { line: (i + 1) as usize, column: (offset + 1) as usize },
                        end: LineColumn { line: (i + 1) as usize, column: (offset + 1) as usize },
                    },
                ],
                None => Seq::empty(),
            }
    }

    /// The spans of the first tab character of each line, from the first
    /// line to the last.
    pub open spec fn positions(&self, doc: DocumentView) -> Seq<Sourcepos> {
        gather(doc.lines.len() as int, self.each(doc))
    }

    /// A document without tab characters has no findings.
    pub proof fn lemma_no_tabs_pass(&self, doc: DocumentView)
        requires
            forall|i: int| 0 <= i < doc.lines.len() ==> !(#[trigger] doc.lines[i]).contains('\t'),
        ensures
            self.positions(doc) == Seq::<Sourcepos>::empty(),
    {
        let each = self.each(doc);
        assert forall|k: int| 0 <= k < doc.lines.len() implies (#[trigger] each(k)).len() == 0 by {
            doc.lines[k].index_of_first_ensures('\t');
        }
        lemma_gather_nothing(doc.lines.len() as int, each);
    }

    fn scan(&self, doc: &Document) -> (found: Vec<Sourcepos>)
        ensures
            found@ == self.positions(doc@),
    {
        let lines = doc.lines();
        let nodes = doc.nodes();
        let mut found: Vec<Sourcepos> = Vec::new();
        let ghost view = doc@;
        let mut i: usize = 0;
        while i < lines.len()
            invariant
                line_views(lines@) == view.lines,
                models(nodes@) == view.tree,
                tree_wf(view.tree),
                i <= lines.len(),
                found@ == gather(i as int, self.each(view)),
            decreases lines.len() - i,
        {
            proof {
                assert(line_views(lines@)[i as int] == lines@[i as int]@);
            }
            let line = lines[i].as_str();
            if let Some(offset) = find_char(line, '\t') {
                found.push(Sourcepos::new(i + 1, offset + 1, i + 1, offset + 1));
            }
            proof {
                assert(found@ =~= gather(i as int, self.each(view)) + self.each(view)(i as int));
            }
            i = i + 1;
        }
        found
    }

    /// Reports the first tab character of every line.
    pub fn check(&self, doc: &Document) -> (result: Result<Vec<Violation>, LintError>)
        ensures
            result matches Ok(violations) && views(violations@) == findings(
                doc@.path,
                Self::label(),
                self.positions(doc@),
            ),
    {
        let positions = self.scan(doc);
        Ok(to_violations(doc.path(), &self.metadata(), &positions))
    }
}

impl RuleLike for MD010 {
    open spec fn about_of(&self) -> MetadataView {
        Self::about()
    }

    open spec fn label_of(&self) -> Label {
        Self::label()
    }

    open spec fn positions_in(&self, doc: DocumentView) -> Seq<Sourcepos> {
        self.positions(doc)
    }

    open spec fn fails_on(&self, doc: DocumentView) -> bool {
        false
    }

    open spec fn failure_on(&self, doc: DocumentView) -> ErrorView {
        no_failure(doc)
    }

    fn metadata(&self) -> (metadata: Metadata) {
        MD010::metadata(self)
    }

    fn check(&self, doc: &Document) -> (result: Result<Vec<Violation>, LintError>) {
        MD010::check(self, doc)
    }

    fn to_violation(&self, path: String, position: Sourcepos) -> (violation: Violation) {
        MD010::to_violation(self, path, position)
    }
}

} // verus!
