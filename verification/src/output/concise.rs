//! Findings written concisely: the path, the line and the column, the name
//! of the rule and its description.

use vstd::prelude::*;
use vstd::string::StringExecFns;

use crate::diagnostic::Diagnostic;
use crate::diagnostic::DiagnosticView;
use crate::output::mdl::error_line;
use crate::output::mdl::is_error_line;
use crate::output::mdl::write_error_line;
use crate::output::style::blue;
use crate::output::style::bold;
use crate::output::style::in_blue;
use crate::output::style::in_bold;
use crate::output::style::in_red_bold;
use crate::output::style::red_bold;
use crate::text::decimal;
use crate::text::decimal_of;

verus! {

/// A diagnostic, to be written concisely.
#[derive(Debug, Clone, PartialEq, Eq)]
pub struct Concise<'a> {
    diagnostic: &'a Diagnostic,
}

/// The line of a finding: path, colon, line number, colon, column number,
/// colon, a space, the name of the rule, a space, its description.
pub open spec fn concise_line(
    path: Seq<char>,
    colon: Seq<char>,
    line: nat,
    column: nat,
    name: Seq<char>,
    description: Seq<char>,
) -> Seq<char> {
    path + colon + decimal(line) + colon + decimal(column) + colon + seq![' '] + name + seq![' ']
        + description
}

/// Writes the line of a finding from its parts, each styled as it is to appear.
pub fn write_concise_line(
    path: &str,
    colon: &str,
    line: usize,
    column: usize,
    name: &str,
    description: &str,
) -> (s: String)
    ensures
        s@ == concise_line(path@, colon@, line as nat, column as nat, name@, description@),
{
    proof {
        reveal_strlit(" ");
    }
    let mut s = String::new();
    s.append(path);
    s.append(colon);
    s.append(decimal_of(line).as_str());
    s.append(colon);
    s.append(decimal_of(column).as_str());
    s.append(colon);
    s.append(" ");
    s.append(name);
    s.append(" ");
    s.append(description);
    proof {
        assert(s@ =~= concise_line(path@, colon@, line as nat, column as nat, name@, description@));
    }
    s
}

/// `line` is the concise line of a finding in `path` at `line_number` and
/// `column`, of the rule `name` with the description `description`: the
/// path in bold, the colons in blue and the name in bold red.
pub open spec fn is_concise_line(
    line: Seq<char>,
    path: Seq<char>,
    line_number: nat,
    column: nat,
    name: Seq<char>,
    description: Seq<char>,
) -> bool {
    exists|bold_path: Seq<char>, colon: Seq<char>, red_name: Seq<char>|
        {
            &&& line == #[trigger] concise_line(
                bold_path,
                colon,
                line_number,
                column,
                red_name,
                description,
            )
            &&& in_bold(bold_path, path)
            &&& in_blue(colon, seq![':'])
            &&& in_red_bold(red_name, name)
        }
}

/// `line` is the concise line of `diagnostic`.
pub open spec fn is_concise_line_of(line: Seq<char>, diagnostic: DiagnosticView) -> bool {
    match diagnostic {
        DiagnosticView::Violation(violation) => is_concise_line(
            line,
            violation.path,
            violation.position.start.line as nat,
            violation.position.start.column as nat,
            violation.name,
            violation.description,
        ),
        DiagnosticView::IoError(error) => is_error_line(line, error.path, error.message),
        DiagnosticView::LintError(error) => is_error_line(line, error.path, error.message),
    }
}

impl View for Concise<'_> {
    type V = DiagnosticView;

    closed spec fn view(&self) -> DiagnosticView {
        self.diagnostic@
    }
}

impl<'a> Concise<'a> {
    /// `diagnostic`, to be written concisely.
    pub fn new(diagnostic: &'a Diagnostic) -> (concise: Self)
        ensures
            concise@ == diagnostic@,
            concise.diagnostic() == diagnostic,
            forall|other: Self| #[trigger] other.diagnostic() == diagnostic ==> other == concise,
    {
        Concise { diagnostic }
    }

    /// The diagnostic that is to be written.
    #[verifier::when_used_as_spec(spec_diagnostic)]
    pub fn diagnostic(&self) -> (diagnostic: &'a Diagnostic)
        ensures
            diagnostic == self.diagnostic(),
            diagnostic@ == self@,
    {
        self.diagnostic
    }

    /// The diagnostic that is to be written.
    pub closed spec fn spec_diagnostic(&self) -> &'a Diagnostic {
        self.diagnostic
    }

    /// Two of these are equal exactly where they hold equal diagnostics.
    pub proof fn lemma_equal_by_diagnostic(&self, other: &Concise<'a>)
        ensures
            (*self == *other) <==> (self.diagnostic() == other.diagnostic()),
    {
    }

    /// The diagnostic as a line of output. The path is written in bold,
    /// the colons in blue and the name of the rule in bold red, where the
    /// terminal takes colours.
    pub fn to_string(&self) -> (s: String)
        ensures
            is_concise_line_of(s@, self@),
    {
        let colon = blue(":");
        proof {
            reveal_strlit(":");
            assert(":"@ =~= seq![':']);
        }
        match self.diagnostic {
            Diagnostic::Violation(violation) => {
                let path = bold(violation.path().as_str());
                let name = red_bold(violation.name());
                let start = violation.position().start;
                let s = write_concise_line(
                    path.as_str(),
                    colon.as_str(),
                    start.line,
                    start.column,
                    name.as_str(),
                    violation.description(),
                );
                proof {
                    assert(s@ == concise_line(
                        path@,
                        colon@,
                        violation@.position.start.line as nat,
                        violation@.position.start.column as nat,
                        name@,
                        violation@.description,
                    ));
                    assert(is_concise_line(
                        s@,
                        violation@.path,
                        violation@.position.start.line as nat,
                        violation@.position.start.column as nat,
                        violation@.name,
                        violation@.description,
                    ));
                }
                s
            },
            Diagnostic::IoError(error) => {
                let path = bold(error.path().as_str());
                let s = write_error_line(path.as_str(), colon.as_str(), error.message().as_str());
                proof {
                    assert(s@ == error_line(path@, colon@, error@.message));
                    assert(is_error_line(s@, error@.path, error@.message));
                }
                s
            },
            Diagnostic::LintError(error) => {
                let path = bold(error.path().as_str());
                let s = write_error_line(path.as_str(), colon.as_str(), error.message().as_str());
                proof {
                    assert(s@ == error_line(path@, colon@, error@.message));
                    assert(is_error_line(s@, error@.path, error@.message));
                }
                s
            },
        }
    }
}

} // verus!
