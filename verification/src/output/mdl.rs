//! Findings written as `mdl` writes them: the path, the line, the name of
//! the rule and its description.

use vstd::prelude::*;
use vstd::string::StringExecFns;

use crate::diagnostic::Diagnostic;
use crate::diagnostic::DiagnosticView;
use crate::diagnostic::message;
use crate::diagnostic::rank;
use crate::output::style::blue;
use crate::output::style::bold;
use crate::output::style::in_blue;
use crate::output::style::in_bold;
use crate::output::style::in_red_bold;
use crate::output::style::red_bold;
use crate::text::decimal;
use crate::text::decimal_of;
use crate::text::lex_order;
use crate::text::Order;
use crate::text::str_order;
use crate::violation::point_order;
use crate::violation::refine;

verus! {

/// A diagnostic, to be written in the style of `mdl`.
#[derive(Debug, Clone, PartialEq, Eq)]
pub struct Mdl<'a> {
    diagnostic: &'a Diagnostic,
}

/// The line of a finding: path, colon, line number, colon, a space, the
/// name of the rule, a space, its description.
pub open spec fn violation_line(
    path: Seq<char>,
    colon: Seq<char>,
    line: nat,
    name: Seq<char>,
    description: Seq<char>,
) -> Seq<char> {
    path + colon + decimal(line) + colon + seq![' '] + name + seq![' '] + description
}

/// The line of an error: path, colon, a space, the message.
pub open spec fn error_line(path: Seq<char>, colon: Seq<char>, message: Seq<char>) -> Seq<char> {
    path + colon + seq![' '] + message
}

/// Writes the line of a finding from its parts, each styled as it is to appear.
pub fn write_violation_line(
    path: &str,
    colon: &str,
    line: usize,
    name: &str,
    description: &str,
) -> (s: String)
    ensures
        s@ == violation_line(path@, colon@, line as nat, name@, description@),
{
    proof {
        reveal_strlit(" ");
    }
    let number = decimal_of(line);
    let mut s = String::new();
    s.append(path);
    s.append(colon);
    s.append(number.as_str());
    s.append(colon);
    s.append(" ");
    s.append(name);
    s.append(" ");
    s.append(description);
    proof {
        assert(s@ =~= violation_line(path@, colon@, line as nat, name@, description@));
    }
    s
}

/// Writes the line of an error from its parts, each styled as it is to appear.
pub fn write_error_line(path: &str, colon: &str, message: &str) -> (s: String)
    ensures
        s@ == error_line(path@, colon@, message@),
{
    proof {
        reveal_strlit(" ");
    }
    let mut s = String::new();
    s.append(path);
    s.append(colon);
    s.append(" ");
    s.append(message);
    proof {
        assert(s@ =~= error_line(path@, colon@, message@));
    }
    s
}

/// The order in which diagnostics are written: by path; findings of one
/// path by rule name, then by start of the span; otherwise findings first,
/// then errors of reading, then errors of rules, each by message.
pub open spec fn mdl_order(a: DiagnosticView, b: DiagnosticView) -> Order {
    refine(
        lex_order(a.path(), b.path()),
        match (a, b) {
            (DiagnosticView::Violation(x), DiagnosticView::Violation(y)) => refine(
                lex_order(x.name, y.name),
                point_order(x.position.start, y.position.start),
            ),
            _ => if rank(a) < rank(b) {
                Order::Less
            } else if rank(a) > rank(b) {
                Order::Greater
            } else {
                lex_order(message(a), message(b))
            },
        },
    )
}

/// `line` is the line of a finding in `path` on line `number`, of the rule
/// `name` with the description `description`: the path in bold, the colons
/// in blue and the name in bold red.
pub open spec fn is_violation_line(
    line: Seq<char>,
    path: Seq<char>,
    number: nat,
    name: Seq<char>,
    description: Seq<char>,
) -> bool {
    exists|bold_path: Seq<char>, colon: Seq<char>, red_name: Seq<char>|
        {
            &&& line == #[trigger] violation_line(bold_path, colon, number, red_name, description)
            &&& in_bold(bold_path, path)
            &&& in_blue(colon, seq![':'])
            &&& in_red_bold(red_name, name)
        }
}

/// `line` is the line of an error in `path` with the message `message`:
/// the path in bold and the colon in blue.
pub open spec fn is_error_line(line: Seq<char>, path: Seq<char>, message: Seq<char>) -> bool {
    exists|bold_path: Seq<char>, colon: Seq<char>|
        {
            &&& line == #[trigger] error_line(bold_path, colon, message)
            &&& in_bold(bold_path, path)
            &&& in_blue(colon, seq![':'])
        }
}

/// `line` is the line of `diagnostic`.
pub open spec fn is_line_of(line: Seq<char>, diagnostic: DiagnosticView) -> bool {
    match diagnostic {
        DiagnosticView::Violation(violation) => is_violation_line(
            line,
            violation.path,
            violation.position.start.line as nat,
            violation.name,
            violation.description,
        ),
        DiagnosticView::IoError(error) => is_error_line(line, error.path, error.message),
        DiagnosticView::LintError(error) => is_error_line(line, error.path, error.message),
    }
}

impl View for Mdl<'_> {
    type V = DiagnosticView;

    closed spec fn view(&self) -> DiagnosticView {
        self.diagnostic@
    }
}

impl<'a> Mdl<'a> {
    /// `diagnostic`, and nothing else, to be written in the style of `mdl`.
    pub fn new(diagnostic: &'a Diagnostic) -> (mdl: Self)
        ensures
            mdl@ == diagnostic@,
            mdl.diagnostic() == diagnostic,
            forall|other: Self| #[trigger] other.diagnostic() == diagnostic ==> other == mdl,
    {
        Mdl { diagnostic }
    }

    /// The diagnostic that is to be written.
    #[verifier::when_used_as_spec(spec_diagnostic)]
    pub fn diagnostic(&self) -> (diagnostic: &'a Diagnostic)
        ensures
            diagnostic == self.diagnostic(),
            diagnostic@ == self@,
    {
        self.diagnostic
    }

    /// The diagnostic that is to be written.
    pub closed spec fn spec_diagnostic(&self) -> &'a Diagnostic {
        self.diagnostic
    }

    /// Two of these are equal exactly where they hold equal diagnostics.
    pub proof fn lemma_equal_by_diagnostic(&self, other: &Mdl<'a>)
        ensures
            (*self == *other) <==> (self.diagnostic() == other.diagnostic()),
    {
    }

    /// The diagnostic as a line of output. The path is written in bold,
    /// the colons in blue and the name of the rule in bold red, where the
    /// terminal takes colours.
    pub fn to_string(&self) -> (s: String)
        ensures
            is_line_of(s@, self@),
    {
        let colon = blue(":");
        proof {
            reveal_strlit(":");
            assert(":"@ =~= seq![':']);
        }
        match self.diagnostic {
            Diagnostic::Violation(violation) => {
                let path = bold(violation.path().as_str());
                let name = red_bold(violation.name());
                let s = write_violation_line(
                    path.as_str(),
                    colon.as_str(),
                    violation.position().start.line,
                    name.as_str(),
                    violation.description(),
                );
                proof {
                    assert(s@ == violation_line(
                        path@,
                        colon@,
                        violation@.position.start.line as nat,
                        name@,
                        violation@.description,
                    ));
                    assert(is_violation_line(
                        s@,
                        violation@.path,
                        violation@.position.start.line as nat,
                        violation@.name,
                        violation@.description,
                    ));
                }
                s
            },
            Diagnostic::IoError(error) => {
                let path = bold(error.path().as_str());
                let s = write_error_line(path.as_str(), colon.as_str(), error.message().as_str());
                proof {
                    assert(s@ == error_line(path@, colon@, error@.message));
                    assert(is_error_line(s@, error@.path, error@.message));
                }
                s
            },
            Diagnostic::LintError(error) => {
                let path = bold(error.path().as_str());
                let s = write_error_line(path.as_str(), colon.as_str(), error.message().as_str());
                proof {
                    assert(s@ == error_line(path@, colon@, error@.message));
                    assert(is_error_line(s@, error@.path, error@.message));
                }
                s
            },
        }
    }

    /// Where `self` is written relative to `other`.
    pub fn order(&self, other: &Mdl<'_>) -> (r: Order)
        ensures
            r == mdl_order(self@, other@),
    {
        let by_path = str_order(self.diagnostic.path().as_str(), other.diagnostic.path().as_str());
        if by_path != Order::Equal {
            return by_path;
        }
        match (self.diagnostic, other.diagnostic) {
            (Diagnostic::Violation(x), Diagnostic::Violation(y)) => {
                let by_name = str_order(x.name(), y.name());
                if by_name != Order::Equal {
                    return by_name;
                }
                let a = x.position().start;
                let b = y.position().start;
                if a.is_before(&b) {
                    Order::Less
                } else if b.is_before(&a) {
                    Order::Greater
                } else {
                    Order::Equal
                }
            },
            (Diagnostic::Violation(_), _) => Order::Less,
            (Diagnostic::IoError(_), Diagnostic::Violation(_)) => Order::Greater,
            (Diagnostic::IoError(x), Diagnostic::IoError(y)) => str_order(
                x.message().as_str(),
                y.message().as_str(),
            ),
            (Diagnostic::IoError(_), Diagnostic::LintError(_)) => Order::Less,
            (Diagnostic::LintError(x), Diagnostic::LintError(y)) => str_order(
                x.message().as_str(),
                y.message().as_str(),
            ),
            (Diagnostic::LintError(_), _) => Order::Greater,
        }
    }
}

} // verus!
