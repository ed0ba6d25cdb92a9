//! What a run reports of a file: a finding, or the reason why there are none.

use vstd::prelude::*;
use vstd::relations::total_ordering;

use crate::error::ErrorView;
use crate::error::IoError;
use crate::error::LintError;
use crate::sorting::Ranked;
use crate::text::lemma_lex_order_equal;
use crate::text::lemma_lex_order_flip;
use crate::text::lemma_lex_order_transitive;
use crate::text::lex_order;
use crate::text::Order;
use crate::text::reversed;
use crate::text::str_order;
use crate::violation::lemma_violation_order_equal;
use crate::violation::lemma_violation_order_flip;
use crate::violation::lemma_violation_order_transitive;
use crate::violation::refine;
use crate::violation::Violation;
use crate::violation::violation_order;
use crate::violation::ViolationView;

verus! {

/// What a run reports of a file.
#[derive(Debug, Clone, PartialEq, Eq)]
pub enum Diagnostic {
    Violation(Violation),
    IoError(IoError),
    LintError(LintError),
}

/// The mathematical content of a [`Diagnostic`].
pub enum DiagnosticView {
    Violation(ViolationView),
    IoError(ErrorView),
    LintError(ErrorView),
}

impl View for Diagnostic {
    type V = DiagnosticView;

    open spec fn view(&self) -> DiagnosticView {
        match self {
            Diagnostic::Violation(violation) => DiagnosticView::Violation(violation@),
            Diagnostic::IoError(error) => DiagnosticView::IoError(error@),
            Diagnostic::LintError(error) => DiagnosticView::LintError(error@),
        }
    }
}

impl DiagnosticView {
    /// The file that the diagnostic is about.
    pub open spec fn path(self) -> Seq<char> {
        match self {
            DiagnosticView::Violation(violation) => violation.path,
            DiagnosticView::IoError(error) => error.path,
            DiagnosticView::LintError(error) => error.path,
        }
    }
}

/// The place of a kind of diagnostic among the kinds: findings come first,
/// then errors of reading, then errors of rules.
pub open spec fn rank(diagnostic: DiagnosticView) -> int {
    match diagnostic {
        DiagnosticView::Violation(_) => 0,
        DiagnosticView::IoError(_) => 1,
        DiagnosticView::LintError(_) => 2,
    }
}

/// The message of an error; a finding has none.
pub open spec fn message(diagnostic: DiagnosticView) -> Seq<char> {
    match diagnostic {
        DiagnosticView::Violation(_) => Seq::empty(),
        DiagnosticView::IoError(error) => error.message,
        DiagnosticView::LintError(error) => error.message,
    }
}

/// Order of two kinds of diagnostics.
pub open spec fn rank_order(a: DiagnosticView, b: DiagnosticView) -> Order {
    if rank(a) < rank(b) {
        Order::Less
    } else if rank(a) > rank(b) {
        Order::Greater
    } else {
        Order::Equal
    }
}

/// The total order of diagnostics: by path; two findings of one path as
/// findings are ordered; otherwise by kind, then by message.
pub open spec fn diagnostic_order(a: DiagnosticView, b: DiagnosticView) -> Order {
    match (a, b) {
        (DiagnosticView::Violation(x), DiagnosticView::Violation(y)) => violation_order(x, y),
        _ => refine(
            lex_order(a.path(), b.path()),
            refine(rank_order(a, b), lex_order(message(a), message(b))),
        ),
    }
}

/// `a` is reported no later than `b`.
pub open spec fn diagnostic_leq() -> spec_fn(DiagnosticView, DiagnosticView) -> bool {
    |a: DiagnosticView, b: DiagnosticView| diagnostic_order(a, b) != Order::Greater
}

/// Swapping the arguments reverses the order.
pub proof fn lemma_diagnostic_order_flip(a: DiagnosticView, b: DiagnosticView)
    ensures
        diagnostic_order(b, a) == reversed(diagnostic_order(a, b)),
{
    lemma_lex_order_flip(a.path(), b.path());
    lemma_lex_order_flip(message(a), message(b));
    match (a, b) {
        (DiagnosticView::Violation(x), DiagnosticView::Violation(y)) => {
            lemma_violation_order_flip(x, y);
        },
        _ => {},
    }
}

/// Only identical diagnostics tie.
pub proof fn lemma_diagnostic_order_equal(a: DiagnosticView, b: DiagnosticView)
    ensures
        diagnostic_order(a, b) == Order::Equal <==> a == b,
{
    lemma_lex_order_equal(a.path(), b.path());
    lemma_lex_order_equal(message(a), message(b));
    match (a, b) {
        (DiagnosticView::Violation(x), DiagnosticView::Violation(y)) => {
            lemma_violation_order_equal(x, y);
        },
        _ => {},
    }
}

/// Findings are ordered by their paths first.
proof fn lemma_violation_order_by_path(x: ViolationView, y: ViolationView)
    ensures
        lex_order(x.path, y.path) != Order::Equal ==> violation_order(x, y) == lex_order(
            x.path,
            y.path,
        ),
        violation_order(x, y) != Order::Greater ==> lex_order(x.path, y.path) != Order::Greater,
{
}

/// The order is transitive.
pub proof fn lemma_diagnostic_order_transitive(
    a: DiagnosticView,
    b: DiagnosticView,
    c: DiagnosticView,
)
    requires
        diagnostic_order(a, b) != Order::Greater,
        diagnostic_order(b, c) != Order::Greater,
    ensures
        diagnostic_order(a, c) != Order::Greater,
{
    lemma_lex_order_transitive(a.path(), b.path(), c.path());
    lemma_lex_order_transitive(message(a), message(b), message(c));
    lemma_lex_order_equal(a.path(), b.path());
    lemma_lex_order_equal(b.path(), c.path());
    lemma_lex_order_equal(a.path(), c.path());
    lemma_lex_order_equal(message(a), message(b));
    lemma_lex_order_equal(message(b), message(c));
    lemma_lex_order_equal(message(a), message(c));
    match (a, b, c) {
        (
            DiagnosticView::Violation(x),
            DiagnosticView::Violation(y),
            DiagnosticView::Violation(z),
        ) => {
            lemma_violation_order_transitive(x, y, z);
        },
        _ => {
            if let DiagnosticView::Violation(x) = a {
                if let DiagnosticView::Violation(y) = b {
                    lemma_violation_order_by_path(x, y);
                }
                if let DiagnosticView::Violation(z) = c {
                    lemma_violation_order_by_path(x, z);
                }
            }
            if let DiagnosticView::Violation(y) = b {
                if let DiagnosticView::Violation(z) = c {
                    lemma_violation_order_by_path(y, z);
                }
            }
        },
    }
}

/// [`diagnostic_leq`] is a total order.
pub proof fn lemma_diagnostic_leq_total()
    ensures
        total_ordering(diagnostic_leq()),
{
    let leq = diagnostic_leq();
    assert forall|x: DiagnosticView| #[trigger] leq(x, x) by {
        lemma_diagnostic_order_equal(x, x);
    }
    assert forall|x: DiagnosticView, y: DiagnosticView| #[trigger]
        leq(x, y) && #[trigger] leq(y, x) implies x == y by {
        lemma_diagnostic_order_flip(x, y);
        lemma_diagnostic_order_equal(x, y);
    }
    assert forall|x: DiagnosticView, y: DiagnosticView, z: DiagnosticView| #[trigger]
        leq(x, y) && #[trigger] leq(y, z) implies leq(x, z) by {
        lemma_diagnostic_order_transitive(x, y, z);
    }
    assert forall|x: DiagnosticView, y: DiagnosticView| #[trigger]
        leq(x, y) || #[trigger] leq(y, x) by {
        lemma_diagnostic_order_flip(x, y);
    }
}

impl Ranked for Diagnostic {
    open spec fn leq() -> spec_fn(DiagnosticView, DiagnosticView) -> bool {
        diagnostic_leq()
    }

    proof fn lemma_total() {
        lemma_diagnostic_leq_total();
    }

    fn comes_after(&self, other: &Self) -> (r: bool) {
        self.order(other) == Order::Greater
    }
}

impl Diagnostic {
    /// Where `self` stands relative to `other` in the total order of diagnostics.
    pub fn order(&self, other: &Diagnostic) -> (r: Order)
        ensures
            r == diagnostic_order(self@, other@),
    {
        match (self, other) {
            (Diagnostic::Violation(x), Diagnostic::Violation(y)) => x.order(y),
            _ => {
                let by_path = str_order(self.path().as_str(), other.path().as_str());
                if by_path != Order::Equal {
                    return by_path;
                }
                let a = self.kind();
                let b = other.kind();
                if a < b {
                    Order::Less
                } else if a > b {
                    Order::Greater
                } else {
                    str_order(self.message(), other.message())
                }
            },
        }
    }

    /// The place of the kind of the diagnostic among the kinds.
    pub fn kind(&self) -> (kind: u8)
        ensures
            kind == rank(self@),
    {
        match self {
            Diagnostic::Violation(_) => 0,
            Diagnostic::IoError(_) => 1,
            Diagnostic::LintError(_) => 2,
        }
    }

    /// The message of an error; a finding has none.
    pub fn message(&self) -> (text: &str)
        ensures
            text@ == message(self@),
    {
        proof {
            reveal_strlit("");
        }
        match self {
            Diagnostic::Violation(_) => "",
            Diagnostic::IoError(error) => error.message().as_str(),
            Diagnostic::LintError(error) => error.message().as_str(),
        }
    }

    /// The file that the diagnostic is about.
    pub fn path(&self) -> (path: &String)
        ensures
            path@ == self@.path(),
    {
        match self {
            Diagnostic::Violation(violation) => violation.path(),
            Diagnostic::IoError(error) => error.path(),
            Diagnostic::LintError(error) => error.path(),
        }
    }
}

} // verus!
