//! Findings of the rules, and the total order in which they are reported.

use vstd::prelude::*;
use vstd::relations::sorted_by;
use vstd::relations::total_ordering;

use crate::position::LineColumn;
use crate::position::point_before;
use crate::position::Sourcepos;
use crate::rule::metadata::Label;
use crate::rule::metadata::Metadata;
use crate::sorting::Ranked;
use crate::sorting::sort;
use crate::sorting::views_of;
use crate::text::lemma_lex_order_equal;
use crate::text::lemma_lex_order_flip;
use crate::text::lemma_lex_order_transitive;
use crate::text::lex_order;
use crate::text::Order;
use crate::text::reversed;
use crate::text::str_order;

verus! {

/// One finding: the file, the rule that reported it and the span it covers.
#[derive(Debug, Clone, PartialEq, Eq)]
pub struct Violation {
    path: String,
    name: &'static str,
    description: &'static str,
    alias: &'static str,
    position: Sourcepos,
}

/// The mathematical content of a [`Violation`].
pub struct ViolationView {
    pub path: Seq<char>,
    pub name: Seq<char>,
    pub description: Seq<char>,
    pub alias: Seq<char>,
    pub position: Sourcepos,
}

impl View for Violation {
    type V = ViolationView;

    closed spec fn view(&self) -> ViolationView {
        ViolationView {
            path: self.path@,
            name: self.name@,
            description: self.description@,
            alias: self.alias@,
            position: self.position,
        }
    }
}

/// The contents of a list of violations, element by element.
pub open spec fn views(violations: Seq<Violation>) -> Seq<ViolationView> {
    views_of(violations)
}

/// The finding that a rule labelled `label` reports for `path` at `position`.
pub open spec fn finding(path: Seq<char>, label: Label, position: Sourcepos) -> ViolationView {
    ViolationView {
        path,
        name: label.name,
        description: label.description,
        alias: label.alias,
        position,
    }
}

/// `first`, unless it is a tie, in which case `second` decides.
pub open spec fn refine(first: Order, second: Order) -> Order {
    if first == Order::Equal {
        second
    } else {
        first
    }
}

/// Order of two points: by line, then by column.
pub open spec fn point_order(a: LineColumn, b: LineColumn) -> Order {
    if point_before(a, b) {
        Order::Less
    } else if point_before(b, a) {
        Order::Greater
    } else {
        Order::Equal
    }
}

/// The reporting order: by path, then rule name, then start of the span.
pub open spec fn key_order(a: ViolationView, b: ViolationView) -> Order {
    refine(
        lex_order(a.path, b.path),
        refine(lex_order(a.name, b.name), point_order(a.position.start, b.position.start)),
    )
}

/// What separates two findings that tie on the reporting order: the end of
/// the span, the description and the alias. This makes the order total.
pub open spec fn tie_order(a: ViolationView, b: ViolationView) -> Order {
    refine(
        point_order(a.position.end, b.position.end),
        refine(lex_order(a.description, b.description), lex_order(a.alias, b.alias)),
    )
}

/// The total order of findings: the reporting order, refined by [`tie_order`].
pub open spec fn violation_order(a: ViolationView, b: ViolationView) -> Order {
    refine(key_order(a, b), tie_order(a, b))
}

/// `a` is reported no later than `b`.
pub open spec fn violation_leq() -> spec_fn(ViolationView, ViolationView) -> bool {
    |a: ViolationView, b: ViolationView| violation_order(a, b) != Order::Greater
}

/// Swapping the arguments reverses the order.
pub proof fn lemma_violation_order_flip(a: ViolationView, b: ViolationView)
    ensures
        violation_order(b, a) == reversed(violation_order(a, b)),
        key_order(b, a) == reversed(key_order(a, b)),
{
    lemma_lex_order_flip(a.path, b.path);
    lemma_lex_order_flip(a.name, b.name);
    lemma_lex_order_flip(a.description, b.description);
    lemma_lex_order_flip(a.alias, b.alias);
}

/// Only identical findings tie.
pub proof fn lemma_violation_order_equal(a: ViolationView, b: ViolationView)
    ensures
        violation_order(a, b) == Order::Equal <==> a == b,
{
    lemma_lex_order_equal(a.path, b.path);
    lemma_lex_order_equal(a.name, b.name);
    lemma_lex_order_equal(a.description, b.description);
    lemma_lex_order_equal(a.alias, b.alias);
}

/// The order is transitive.
pub proof fn lemma_violation_order_transitive(a: ViolationView, b: ViolationView, c: ViolationView)
    requires
        violation_order(a, b) != Order::Greater,
        violation_order(b, c) != Order::Greater,
    ensures
        violation_order(a, c) != Order::Greater,
{
    lemma_lex_order_transitive(a.path, b.path, c.path);
    lemma_lex_order_transitive(a.name, b.name, c.name);
    lemma_lex_order_transitive(a.description, b.description, c.description);
    lemma_lex_order_transitive(a.alias, b.alias, c.alias);
    lemma_lex_order_equal(a.path, b.path);
    lemma_lex_order_equal(b.path, c.path);
    lemma_lex_order_equal(a.name, b.name);
    lemma_lex_order_equal(b.name, c.name);
    lemma_lex_order_equal(a.description, b.description);
    lemma_lex_order_equal(b.description, c.description);
    lemma_lex_order_equal(a.alias, b.alias);
    lemma_lex_order_equal(b.alias, c.alias);
    lemma_lex_order_equal(a.path, c.path);
    lemma_lex_order_equal(a.name, c.name);
    lemma_lex_order_equal(a.description, c.description);
    lemma_lex_order_equal(a.alias, c.alias);
}

/// [`violation_leq`] is a total order.
pub proof fn lemma_violation_leq_total()
    ensures
        total_ordering(violation_leq()),
{
    let leq = violation_leq();
    assert forall|x: ViolationView| #[trigger] leq(x, x) by {
        lemma_violation_order_equal(x, x);
    }
    assert forall|x: ViolationView, y: ViolationView| #[trigger]
        leq(x, y) && #[trigger] leq(y, x) implies x == y by {
        lemma_violation_order_flip(x, y);
        lemma_violation_order_equal(x, y);
    }
    assert forall|x: ViolationView, y: ViolationView, z: ViolationView| #[trigger]
        leq(x, y) && #[trigger] leq(y, z) implies leq(x, z) by {
        lemma_violation_order_transitive(x, y, z);
    }
    assert forall|x: ViolationView, y: ViolationView| #[trigger]
        leq(x, y) || #[trigger] leq(y, x) by {
        lemma_violation_order_flip(x, y);
    }
}

impl Violation {
    /// The finding of the rule described by `metadata`, in `path` at `position`.
    pub fn new(path: String, metadata: &Metadata, position: Sourcepos) -> (violation: Violation)
        requires
            metadata.wf(),
        ensures
            violation@ == finding(path@, metadata.label(), position),
    {
        Violation {
            path,
            name: metadata.name,
            description: metadata.description,
            alias: metadata.aliases[0],
            position,
        }
    }

    pub fn path(&self) -> (path: &String)
        ensures
            path@ == self@.path,
    {
        &self.path
    }

    pub fn name(&self) -> (name: &'static str)
        ensures
            name@ == self@.name,
    {
        self.name
    }

    pub fn description(&self) -> (description: &'static str)
        ensures
            description@ == self@.description,
    {
        self.description
    }

    pub fn alias(&self) -> (alias: &'static str)
        ensures
            alias@ == self@.alias,
    {
        self.alias
    }

    pub fn position(&self) -> (position: Sourcepos)
        ensures
            position == self@.position,
    {
        self.position
    }

    /// Where `self` stands relative to `other` in the total order of findings.
    pub fn order(&self, other: &Violation) -> (r: Order)
        ensures
            r == violation_order(self@, other@),
    {
        let by_path = str_order(self.path.as_str(), other.path.as_str());
        if by_path != Order::Equal {
            return by_path;
        }
        let by_name = str_order(self.name, other.name);
        if by_name != Order::Equal {
            return by_name;
        }
        if self.position.start.is_before(&other.position.start) {
            return Order::Less;
        }
        if other.position.start.is_before(&self.position.start) {
            return Order::Greater;
        }
        if self.position.end.is_before(&other.position.end) {
            return Order::Less;
        }
        if other.position.end.is_before(&self.position.end) {
            return Order::Greater;
        }
        let by_description = str_order(self.description, other.description);
        if by_description != Order::Equal {
            return by_description;
        }
        str_order(self.alias, other.alias)
    }
}

impl Ranked for Violation {
    open spec fn leq() -> spec_fn(ViolationView, ViolationView) -> bool {
        violation_leq()
    }

    proof fn lemma_total() {
        lemma_violation_leq_total();
    }

    fn comes_after(&self, other: &Self) -> (r: bool) {
        self.order(other) == Order::Greater
    }
}

/// Sorts findings into the total order of findings.
///
/// The result depends only on which findings are given, not on the order
/// in which they arrive.
pub fn sort_violations(violations: Vec<Violation>) -> (sorted: Vec<Violation>)
    ensures
        views(sorted@) == views(violations@).sort_by(violation_leq()),
        sorted_by(views(sorted@), violation_leq()),
        views(sorted@).to_multiset() == views(violations@).to_multiset(),
        sorted.len() == violations.len(),
{
    sort(violations)
}

} // verus!
