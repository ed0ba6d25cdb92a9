//! The check command: which configuration it runs with, what it says at the
//! end and how it ends.

use vstd::prelude::*;
use vstd::string::StringExecFns;

use crate::config::Config;
use crate::config::Lint;
use crate::diagnostic::Diagnostic;
use crate::diagnostic::diagnostic_leq;
use crate::diagnostic::DiagnosticView;
use crate::diagnostic::lemma_diagnostic_leq_total;
use crate::output::Format;
use crate::output::is_line_in;
use crate::output::write_line;
use crate::sorting::lemma_sort_forgets_arrival;
use crate::sorting::sort;
use crate::sorting::views_of;
use crate::text::decimal;
use crate::text::decimal_of;
use crate::text::line_views;

verus! {

/// What the command line says about the configuration.
#[derive(Debug, Clone, PartialEq, Eq)]
pub struct Options {
    /// The file to read the configuration from.
    pub config_path: Option<String>,
    /// The output format to use, whatever the configuration says.
    pub output_format: Option<Format>,
}

/// `lint` with the output format `format`, where one is given.
pub open spec fn with_format(lint: Lint, format: Option<Format>) -> Lint {
    match format {
        Some(format) => Lint { output_format: format, ..lint },
        None => lint,
    }
}

impl Options {
    /// The configuration to run with: `loaded`, with the output format of
    /// the command line where it gives one.
    pub fn apply(self, loaded: Config) -> (config: Config)
        ensures
            config.lint == with_format(loaded.lint, self.output_format),
    {
        let mut config = loaded;
        if let Some(format) = self.output_format {
            config.lint.output_format = format;
        }
        config
    }
}

/// What is said at the end of a run with `count` findings.
pub open spec fn summary_of(count: nat) -> Seq<char> {
    if count == 0 {
        "All checks passed!"@
    } else if count == 1 {
        "Found 1 error."@
    } else {
        "Found "@ + decimal(count) + " errors."@
    }
}

/// What to say at the end of a run with `count` findings.
pub fn summary(count: usize) -> (s: String)
    ensures
        s@ == summary_of(count as nat),
{
    if count == 0 {
        "All checks passed!".to_owned()
    } else if count == 1 {
        "Found 1 error.".to_owned()
    } else {
        let mut s = "Found ".to_owned();
        s.append(decimal_of(count).as_str());
        s.append(" errors.");
        s
    }
}

/// Whether a run with `count` findings ends in success: only one without findings does.
pub fn succeeded(count: usize) -> (success: bool)
    ensures
        success == (count == 0),
{
    count == 0
}

/// What a run writes, and how it ends.
#[derive(Debug, Clone, PartialEq, Eq)]
pub struct Report {
    /// The lines to write, from the first to the last.
    pub lines: Vec<String>,
    /// Whether the run ends in success.
    pub success: bool,
}

/// `lines` are what a run with the diagnostics `sorted` writes in the style
/// `format`: one line for each of them, in their order, and then, after an
/// empty line, how many there are; or, where there are none, that all
/// checks passed.
pub open spec fn is_report_of(
    lines: Seq<Seq<char>>,
    sorted: Seq<DiagnosticView>,
    format: Format,
) -> bool {
    if sorted.len() == 0 {
        lines == seq![summary_of(0)]
    } else {
        &&& lines.len() == sorted.len() + 1
        &&& forall|i: int|
            0 <= i < sorted.len() ==> is_line_in(#[trigger] lines[i], sorted[i], format)
        &&& lines.last() == seq!['\n'] + summary_of(sorted.len())
    }
}

/// What a run that collected `diagnostics` writes in the style `format`,
/// and how it ends: the diagnostics in their order, however they arrived,
/// and failure unless there are none.
pub fn report(diagnostics: Vec<Diagnostic>, format: Format) -> (report: Report)
    ensures
        is_report_of(
            line_views(report.lines@),
            views_of(diagnostics@).sort_by(diagnostic_leq()),
            format,
        ),
        report.success == (diagnostics.len() == 0),
{
    let count = diagnostics.len();
    let sorted = sort(diagnostics);
    let mut lines: Vec<String> = Vec::new();
    if count == 0 {
        lines.push(summary(0));
        proof {
            assert(line_views(lines@) =~= seq![summary_of(0)]);
        }
        return Report { lines, success: succeeded(count) };
    }
    let ghost order = views_of(sorted@);
    let mut i: usize = 0;
    while i < sorted.len()
        invariant
            i <= sorted.len(),
            order == views_of(sorted@),
            lines.len() == i,
            forall|j: int|
                0 <= j < i ==> is_line_in(#[trigger] line_views(lines@)[j], order[j], format),
        decreases sorted.len() - i,
    {
        let ghost before = line_views(lines@);
        let line = write_line(&sorted[i], format);
        lines.push(line);
        proof {
            assert(line_views(lines@) =~= before.push(lines@[i as int]@));
        }
        i = i + 1;
    }
    let ghost before = line_views(lines@);
    let mut last = "\n".to_owned();
    proof {
        reveal_strlit("\n");
    }
    last.append(summary(count).as_str());
    lines.push(last);
    proof {
        assert("\n"@ =~= seq!['\n']);
        assert(lines@[count as int]@ =~= seq!['\n'] + summary_of(count as nat));
        assert(line_views(lines@) =~= before.push(seq!['\n'] + summary_of(count as nat)));
    }
    Report { lines, success: succeeded(count) }
}

/// What a run writes does not depend on the order in which its
/// diagnostics arrived: a report of them in one order of arrival is a
/// report of them in any other.
pub proof fn lemma_report_forgets_arrival(
    lines: Seq<Seq<char>>,
    first: Seq<DiagnosticView>,
    second: Seq<DiagnosticView>,
    format: Format,
)
    requires
        first.to_multiset() == second.to_multiset(),
        is_report_of(lines, first.sort_by(diagnostic_leq()), format),
    ensures
        is_report_of(lines, second.sort_by(diagnostic_leq()), format),
{
    lemma_diagnostic_leq_total();
    lemma_sort_forgets_arrival(first, second, diagnostic_leq());
}

/// In the style of `markdownlint`, which has no colours, two runs that
/// collected the same diagnostics write the same lines, in whatever order
/// the diagnostics arrived.
pub proof fn lemma_plain_report_is_fixed(
    first_lines: Seq<Seq<char>>,
    second_lines: Seq<Seq<char>>,
    first: Seq<DiagnosticView>,
    second: Seq<DiagnosticView>,
)
    requires
        first.to_multiset() == second.to_multiset(),
        is_report_of(first_lines, first.sort_by(diagnostic_leq()), Format::Markdownlint),
        is_report_of(second_lines, second.sort_by(diagnostic_leq()), Format::Markdownlint),
    ensures
        first_lines == second_lines,
{
    lemma_diagnostic_leq_total();
    lemma_sort_forgets_arrival(first, second, diagnostic_leq());
    let sorted = first.sort_by(diagnostic_leq());
    if sorted.len() > 0 {
        assert forall|i: int| 0 <= i < first_lines.len() implies first_lines[i]
            == second_lines[i] by {
            if i < sorted.len() {
                assert(is_line_in(first_lines[i], sorted[i], Format::Markdownlint));
                assert(is_line_in(second_lines[i], sorted[i], Format::Markdownlint));
            } else {
                assert(first_lines[i] == first_lines.last());
                assert(second_lines[i] == second_lines.last());
            }
        }
    }
    assert(first_lines =~= second_lines);
}

/// Every diagnostic that a run collected has its line in what the run
/// writes.
pub proof fn lemma_report_writes_every_diagnostic(
    lines: Seq<Seq<char>>,
    arrived: Seq<DiagnosticView>,
    diagnostic: DiagnosticView,
    format: Format,
)
    requires
        is_report_of(lines, arrived.sort_by(diagnostic_leq()), format),
        arrived.contains(diagnostic),
    ensures
        lines.len() == arrived.len() + 1,
        exists|i: int|
            0 <= i < arrived.len() && is_line_in(#[trigger] lines[i], diagnostic, format),
{
    broadcast use vstd::seq_lib::group_to_multiset_ensures;

    lemma_diagnostic_leq_total();
    arrived.lemma_sort_by_ensures(diagnostic_leq());
    let sorted = arrived.sort_by(diagnostic_leq());
    vstd::seq_lib::to_multiset_len(arrived);
    vstd::seq_lib::to_multiset_len(sorted);
    assert(arrived.to_multiset().count(diagnostic) > 0);
    assert(sorted.to_multiset().count(diagnostic) > 0);
    assert(sorted.contains(diagnostic));
    let i = choose|i: int| 0 <= i < sorted.len() && sorted[i] == diagnostic;
    assert(is_line_in(lines[i], diagnostic, format));
}

} // verus!
