//! Lines are no longer than the configured length.

use vstd::prelude::*;

use crate::document::Document;
use crate::document::DocumentView;
use crate::document::models;
use crate::document::Node;
use crate::document::NodeModel;
use crate::document::NodeValue;
use crate::error::ErrorView;
use crate::error::LintError;
use crate::position::LineColumn;
use crate::position::Sourcepos;
use crate::rule::helper::findings;
use crate::rule::helper::gather;
use crate::rule::helper::lemma_gather_nothing;
use crate::rule::helper::one_if;
use crate::rule::helper::to_violations;
use crate::rule::metadata::Label;
use crate::rule::metadata::Metadata;
use crate::rule::metadata::MetadataView;
use crate::rule::metadata::Tag;
use crate::rule::RuleLike;
use crate::text::byte_count;
use crate::text::byte_len;
use crate::text::line_views;
use crate::violation::finding;
use crate::violation::views;
use crate::violation::Violation;

verus! {

/// Whether `regex::Regex::new` accepts `pattern`.
pub uninterp spec fn regex_accepts(pattern: Seq<char>) -> bool;

/// Whether the regular expression `pattern` matches somewhere in `haystack`
/// when the search starts at byte `start`, as `regex::Regex::is_match_at`
/// tells it.
pub uninterp spec fn regex_matches_at(pattern: Seq<char>, haystack: Seq<char>, start: int) -> bool;

/// What `regex::Error` says, through `to_string`, of a pattern that
/// `regex::Regex::new` does not accept.
pub uninterp spec fn regex_error_text(pattern: Seq<char>) -> Seq<char>;

/// Compiles `pattern` with `regex::Regex::new` and asks
/// `regex::Regex::is_match_at` for a match in `haystack` from byte `start`
/// on; where the pattern is not accepted, what the error says of it comes
/// back. All three depend on their arguments alone. The search panics where
/// `start` lies behind the end of `haystack`, which `requires` leaves out.
#[verifier::external_body]
fn regex_is_match_at(pattern: &str, haystack: &str, start: usize) -> (r: Result<bool, String>)
    requires
        start <= byte_len(haystack@),
    ensures
        r is Ok <==> regex_accepts(pattern@),
        r matches Ok(found) ==> found == regex_matches_at(pattern@, haystack@, start as int),
        r matches Err(message) ==> message@ == regex_error_text(pattern@),
{
    match regex::Regex::new(pattern) {
        Ok(regex) => Ok(regex.is_match_at(haystack, start)),
        Err(error) => Err(error.to_string()),
    }
}

/// Reports lines that are longer than the configured length.
#[derive(Debug, Clone, PartialEq, Eq)]
#[non_exhaustive]
pub struct MD013 {
    /// The length in bytes that a line may have.
    pub line_length: usize,
    /// Whether lines in code blocks are held to the length.
    pub code_blocks: bool,
    /// Whether lines in tables are held to the length.
    pub tables: bool,
}

impl MD013 {
    /// The length that lines may have by default.
    pub const DEFAULT_LINE_LENGTH: usize = 80;

    /// Lines in code blocks are held to the length by default.
    pub const DEFAULT_CODE_BLOCKS: bool = true;

    /// Lines in tables are held to the length by default.
    pub const DEFAULT_TABLES: bool = true;
}

impl Default for MD013 {
    /// The rule with its default parameters.
    fn default() -> (rule: Self)
        ensures
            rule.line_length == 80,
            rule.code_blocks == true,
            rule.tables == true,
    {
        MD013 {
            line_length: 80,
            code_blocks: true,
            tables: true,
        }
    }
}

impl MD013 {
    /// The rule with the given parameters.
    pub fn new(line_length: usize, code_blocks: bool, tables: bool) -> (rule: Self)
        ensures
            rule.line_length == line_length,
            rule.code_blocks == code_blocks,
            rule.tables == tables,
    {
        MD013 { line_length, code_blocks, tables }
    }

    /// What the rule says about itself: its name, what it checks, the
    /// categories it belongs to and the other names it goes by.
    pub open spec fn about() -> MetadataView {
        MetadataView {
            name: "MD013"@,
            description: "Line length"@,
            tags: seq![Tag::LineLength],
            aliases: seq!["line-length"@],
        }
    }

    /// What the violations of the rule carry of it.
    pub open spec fn label() -> Label {
        Self::about().label()
    }

    /// What the rule says about itself.
    pub fn metadata(&self) -> (metadata: Metadata)
        ensures
            metadata@ == Self::about(),
            metadata.wf(),
            metadata.label() == Self::label(),
    {
        let metadata = Metadata {
            name: "MD013",
            description: "Line length",
            tags: vec![Tag::LineLength],
            aliases: vec!["line-length"],
        };
        proof {
            assert(metadata@.tags =~= Self::about().tags);
            assert(metadata@.aliases =~= Self::about().aliases);
        }
        metadata
    }

    /// The violation of the rule in `path` at `position`.
    pub fn to_violation(&self, path: String, position: Sourcepos) -> (violation: Violation)
        ensures
            violation@ == finding(path@, Self::label(), position),
    {
        Violation::new(path, &self.metadata(), position)
    }

    /// The regular expression that finds white space.
    pub open spec fn pattern() -> Seq<char> {
        ".*\\s"@
    }

    /// Node `k` is a code block, where `code` is set, or else a table, and
    /// covers line `number`.
    pub open spec fn covers(tree: Seq<NodeModel>, code: bool, k: int, number: int) -> bool {
        &&& if code {
            tree[k].value is CodeBlock
        } else {
            tree[k].value is Table
        }
        &&& tree[k].position.start.line <= number <= tree[k].position.end.line
    }

    /// Line `number` lies in a code block, where `code` is set, or else in a table.
    pub open spec fn in_block(tree: Seq<NodeModel>, code: bool, number: int) -> bool {
        exists|k: int| 0 <= k < tree.len() && Self::covers(tree, code, k, number)
    }

    /// Line `number` lies in a region that the configuration leaves out.
    pub open spec fn excluded(&self, tree: Seq<NodeModel>, number: int) -> bool {
        ||| !self.code_blocks && Self::in_block(tree, true, number)
        ||| !self.tables && Self::in_block(tree, false, number)
    }

    /// Line `i`, counted from 0, is longer than the configured length and
    /// lies in no excluded region.
    pub open spec fn too_long(&self, doc: DocumentView, i: int) -> bool {
        byte_len(doc.lines[i]) > self.line_length && !self.excluded(doc.tree, i + 1)
    }

    /// Line `i` is too long, and white space follows the configured length:
    /// one long word at the end of a line is let through.
    pub open spec fn violates(&self, doc: DocumentView, i: int) -> bool {
        &&& self.too_long(doc, i)
        &&& regex_matches_at(Self::pattern(), doc.lines[i], self.line_length as int)
    }

    /// The span of what stands behind the configured length on line
    /// `number`, which is `length` bytes long.
    pub open spec fn excess(&self, number: int, length: nat) -> Sourcepos {
        Sourcepos {
            start: LineColumn { line: number as usize, column: (self.line_length + 1) as usize },
            end: LineColumn { line: number as usize, column: length as usize },
        }
    }

    /// What line `i`, counted from 0, contributes.
    pub open spec fn each(&self, doc: DocumentView) -> spec_fn(int) -> Seq<Sourcepos> {
        |i: int| one_if(self.violates(doc, i), self.excess(i + 1, byte_len(doc.lines[i])))
    }

    /// What a line outside the excluded regions contributes: `number` is
    /// its number, `length` its length in bytes, and `spaced` tells whether
    /// white space was found behind the configured length.
    pub fn long_line(&self, number: usize, length: usize, spaced: bool) -> (span: Option<Sourcepos>)
        ensures
            span == if length > self.line_length && spaced {
                Some(self.excess(number as int, length as nat))
            } else {
                None
            },
    {
        if length > self.line_length && spaced {
            Some(Sourcepos::new(number, self.line_length + 1, number, length))
        } else {
            None
        }
    }

    /// The spans of the overlong lines, from the column behind the
    /// configured length to the end of the line, from the first line to the last.
    pub open spec fn positions(&self, doc: DocumentView) -> Seq<Sourcepos> {
        gather(doc.lines.len() as int, self.each(doc))
    }

    /// Some line is too long, and the regular expression that is to look
    /// for white space in it cannot be compiled.
    pub open spec fn fails(&self, doc: DocumentView) -> bool {
        &&& !regex_accepts(Self::pattern())
        &&& exists|i: int| 0 <= i < doc.lines.len() && #[trigger] self.too_long(doc, i)
    }

    /// The error of a check that fails: it names the document and says
    /// what the regular expressions say of the pattern.
    pub open spec fn failure(&self, doc: DocumentView) -> ErrorView {
        ErrorView { path: doc.path, message: regex_error_text(Self::pattern()) }
    }

    fn is_in_block(nodes: &Vec<Node>, code: bool, number: usize) -> (r: bool)
        ensures
            r == Self::in_block(models(nodes@), code, number as int),
    {
        let ghost tree = models(nodes@);
        let mut k: usize = 0;
        while k < nodes.len()
            invariant
                models(nodes@) == tree,
                k <= nodes.len(),
                forall|j: int| 0 <= j < k ==> !Self::covers(tree, code, j, number as int),
            decreases nodes.len() - k,
        {
            let node = &nodes[k];
            let kind = match &node.value {
                NodeValue::CodeBlock(_) => code,
                NodeValue::Table => !code,
                _ => false,
            };
            if kind && node.position.start.line <= number && number <= node.position.end.line {
                proof {
                    assert(Self::covers(tree, code, k as int, number as int));
                }
                return true;
            }
            k = k + 1;
        }
        false
    }

    fn is_excluded(&self, nodes: &Vec<Node>, number: usize) -> (r: bool)
        ensures
            r == self.excluded(models(nodes@), number as int),
    {
        (!self.code_blocks && Self::is_in_block(nodes, true, number)) || (!self.tables
            && Self::is_in_block(nodes, false, number))
    }

    /// Reports every line that is longer than the configured length and has
    /// white space behind it, outside the excluded regions.
    ///
    /// The check fails where a line is too long and the regular expression
    /// that looks for the white space cannot be compiled, with what the
    /// regular expressions say of the pattern.
    pub fn check(&self, doc: &Document) -> (result: Result<Vec<Violation>, LintError>)
        ensures
            result is Ok <==> !self.fails(doc@),
            result matches Ok(violations) ==> views(violations@) == findings(
                doc@.path,
                Self::label(),
                self.positions(doc@),
            ),
            result matches Err(error) ==> error@ == self.failure(doc@),
    {
        let lines = doc.lines();
        let nodes = doc.nodes();
        let mut found: Vec<Sourcepos> = Vec::new();
        let ghost view = doc@;
        let mut i: usize = 0;
        while i < lines.len()
            invariant
                line_views(lines@) == view.lines,
                models(nodes@) == view.tree,
                view == doc@,
                i <= lines.len(),
                found@ == gather(i as int, self.each(view)),
                regex_accepts(Self::pattern()) || forall|j: int|
                    0 <= j < i ==> !#[trigger] self.too_long(view, j),
            decreases lines.len() - i,
        {
            proof {
                assert(line_views(lines@)[i as int] == lines@[i as int]@);
            }
            let line = lines[i].as_str();
            let length = byte_count(line);
            if length > self.line_length && !self.is_excluded(nodes, i + 1) {
                match regex_is_match_at(".*\\s", line, self.line_length) {
                    Ok(spaced) => {
                        if let Some(span) = self.long_line(i + 1, length, spaced) {
                            found.push(span);
                        }
                    },
                    Err(message) => {
                        proof {
                            assert(self.too_long(view, i as int));
                        }
                        return Err(LintError::new(doc.path().clone(), message));
                    },
                }
            }
            proof {
                assert(found@ =~= gather(i as int, self.each(view)) + self.each(view)(i as int));
            }
            i = i + 1;
        }
        Ok(to_violations(doc.path(), &self.metadata(), &found))
    }

    /// A document whose lines are all of at most the configured length has
    /// no findings.
    pub proof fn lemma_short_lines_pass(&self, doc: DocumentView)
        requires
            forall|i: int|
                0 <= i < doc.lines.len() ==> byte_len(#[trigger] doc.lines[i]) <= self.line_length,
        ensures
            self.positions(doc) == Seq::<Sourcepos>::empty(),
    {
        assert forall|i: int| 0 <= i < doc.lines.len() implies (#[trigger] self.each(doc)(i)).len()
            == 0 by {
            assert(byte_len(doc.lines[i]) <= self.line_length);
        }
        lemma_gather_nothing(doc.lines.len() as int, self.each(doc));
    }

    /// A line of at most the configured length is never reported; a longer
    /// one is, outside the excluded regions, exactly if white space follows
    /// the configured length.
    pub proof fn lemma_boundary(&self, doc: DocumentView, i: int)
        ensures
            byte_len(doc.lines[i]) <= self.line_length ==> self.each(doc)(i) == Seq::<
                Sourcepos,
            >::empty(),
            byte_len(doc.lines[i]) > self.line_length && !self.excluded(doc.tree, i + 1) ==> (
            self.each(doc)(i).len() == 1 <==> regex_matches_at(
                Self::pattern(),
                doc.lines[i],
                self.line_length as int,
            )),
    {
    }
}

impl RuleLike for MD013 {
    open spec fn about_of(&self) -> MetadataView {
        Self::about()
    }

    open spec fn label_of(&self) -> Label {
        Self::label()
    }

    open spec fn positions_in(&self, doc: DocumentView) -> Seq<Sourcepos> {
        self.positions(doc)
    }

    open spec fn fails_on(&self, doc: DocumentView) -> bool {
        self.fails(doc)
    }

    open spec fn failure_on(&self, doc: DocumentView) -> ErrorView {
        self.failure(doc)
    }

    fn metadata(&self) -> (metadata: Metadata) {
        MD013::metadata(self)
    }

    fn check(&self, doc: &Document) -> (result: Result<Vec<Violation>, LintError>) {
        MD013::check(self, doc)
    }

    fn to_violation(&self, path: String, position: Sourcepos) -> (violation: Violation) {
        MD013::to_violation(self, path, position)
    }
}

} // verus!
