//! Findings written as `markdownlint` writes them: the path, the line and
//! the column, the name and the alias of the rule, and its description.

use vstd::prelude::*;
use vstd::string::StringExecFns;

use crate::diagnostic::Diagnostic;
use crate::diagnostic::DiagnosticView;
use crate::output::mdl::error_line;
use crate::output::mdl::write_error_line;
use crate::text::decimal;
use crate::text::decimal_of;

verus! {

/// A diagnostic, to be written in the style of `markdownlint`.
#[derive(Debug, Clone, PartialEq, Eq)]
pub struct Markdownlint<'a> {
    diagnostic: &'a Diagnostic,
}

/// The line of a finding: path, colon, line number, colon, column number,
/// a space, the name of the rule, a slash, its alias, a space, its
/// description.
pub open spec fn markdownlint_line(
    path: Seq<char>,
    line: nat,
    column: nat,
    name: Seq<char>,
    alias: Seq<char>,
    description: Seq<char>,
) -> Seq<char> {
    path + seq![':'] + decimal(line) + seq![':'] + decimal(column) + seq![' '] + name + seq!['/']
        + alias + seq![' '] + description
}

/// The line of `diagnostic`: that of a finding, or path, colon, a space
/// and the message of an error.
pub open spec fn markdownlint_line_of(diagnostic: DiagnosticView) -> Seq<char> {
    match diagnostic {
        DiagnosticView::Violation(violation) => markdownlint_line(
            violation.path,
            violation.position.start.line as nat,
            violation.position.start.column as nat,
            violation.name,
            violation.alias,
            violation.description,
        ),
        DiagnosticView::IoError(error) => error_line(error.path, seq![':'], error.message),
        DiagnosticView::LintError(error) => error_line(error.path, seq![':'], error.message),
    }
}

impl View for Markdownlint<'_> {
    type V = DiagnosticView;

    closed spec fn view(&self) -> DiagnosticView {
        self.diagnostic@
    }
}

impl<'a> Markdownlint<'a> {
    /// `diagnostic`, and nothing else, to be written in the style of `markdownlint`.
    pub fn new(diagnostic: &'a Diagnostic) -> (markdownlint: Self)
        ensures
            markdownlint@ == diagnostic@,
            markdownlint.diagnostic() == diagnostic,
            forall|other: Self|
                #[trigger] other.diagnostic() == diagnostic ==> other == markdownlint,
    {
        Markdownlint { diagnostic }
    }

    /// The diagnostic that is to be written.
    #[verifier::when_used_as_spec(spec_diagnostic)]
    pub fn diagnostic(&self) -> (diagnostic: &'a Diagnostic)
        ensures
            diagnostic == self.diagnostic(),
            diagnostic@ == self@,
    {
        self.diagnostic
    }

    /// The diagnostic that is to be written.
    pub closed spec fn spec_diagnostic(&self) -> &'a Diagnostic {
        self.diagnostic
    }

    /// Two of these are equal exactly where they hold equal diagnostics.
    pub proof fn lemma_equal_by_diagnostic(&self, other: &Markdownlint<'a>)
        ensures
            (*self == *other) <==> (self.diagnostic() == other.diagnostic()),
    {
    }

    /// The diagnostic as a line of output, without colours.
    pub fn to_string(&self) -> (s: String)
        ensures
            s@ == markdownlint_line_of(self@),
    {
        proof {
            reveal_strlit(":");
            reveal_strlit(" ");
            reveal_strlit("/");
            assert(":"@ =~= seq![':']);
        }
        match self.diagnostic {
            Diagnostic::Violation(violation) => {
                let start = violation.position().start;
                let mut s = String::new();
                s.append(violation.path().as_str());
                s.append(":");
                s.append(decimal_of(start.line).as_str());
                s.append(":");
                s.append(decimal_of(start.column).as_str());
                s.append(" ");
                s.append(violation.name());
                s.append("/");
                s.append(violation.alias());
                s.append(" ");
                s.append(violation.description());
                proof {
                    assert(s@ =~= markdownlint_line_of(self@));
                }
                s
            },
            Diagnostic::IoError(error) => write_error_line(
                error.path().as_str(),
                ":",
                error.message().as_str(),
            ),
            Diagnostic::LintError(error) => write_error_line(
                error.path().as_str(),
                ":",
                error.message().as_str(),
            ),
        }
    }
}

} // verus!
