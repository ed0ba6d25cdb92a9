//! The linter: every enabled rule, applied to one document.

use vstd::prelude::*;
use vstd::relations::sorted_by;

use crate::config::Config;
use crate::config::Lint;
use crate::config::lint::RuleSet;
use crate::document::Document;
use crate::document::DocumentView;
use crate::document::models;
use crate::document::node_wf;
use crate::document::NodeValue;
use crate::document::tree_wf;
use crate::error::ErrorView;
use crate::error::LintError;
use crate::error::no_failure;
use crate::rule::helper::findings;
use crate::rule::helper::first_before;
use crate::rule::helper::lemma_first_before_is_least;
use crate::rule::helper::lemma_first_before_range;
use crate::rule::lemma_view_decides;
use crate::rule::MD001;
use crate::rule::MD002;
use crate::rule::MD003;
use crate::rule::MD005;
use crate::rule::MD007;
use crate::rule::MD010;
use crate::rule::MD012;
use crate::rule::MD013;
use crate::rule::MD014;
use crate::rule::MD018;
use crate::rule::MD019;
use crate::rule::MD020;
use crate::rule::MD021;
use crate::rule::MD022;
use crate::rule::MD023;
use crate::rule::MD024;
use crate::rule::MD025;
use crate::rule::MD026;
use crate::rule::MD029;
use crate::rule::MD033;
use crate::rule::MD034;
use crate::rule::MD035;
use crate::rule::MD036;
use crate::rule::MD038;
use crate::rule::MD039;
use crate::rule::MD041;
use crate::rule::MD046;
use crate::rule::node::next_list_level;
use crate::rule::NodeContext;
use crate::rule::Rule;
use crate::rule::RuleView;
use crate::service::runner::joined;
use crate::service::runner::lemma_arrival_order_is_forgotten;
use crate::sorting::lemma_map_any_order;
use crate::text::line_views;
use crate::text::Order;
use crate::violation::key_order;
use crate::violation::lemma_violation_leq_total;
use crate::violation::lemma_violation_order_flip;
use crate::violation::sort_violations;
use crate::violation::views;
use crate::violation::Violation;
use crate::violation::violation_leq;
use crate::violation::ViolationView;

verus! {

/// The rule that `lint` configures under the name `id`: the rule of that
/// name, with the parameters that `lint` gives it.
pub open spec fn resolved(lint: Lint, id: RuleSet) -> RuleView {
    match id {
        RuleSet::MD001 => RuleView::MD001(MD001),
        RuleSet::MD002 => RuleView::MD002(MD002 { level: lint.md002.level }),
        RuleSet::MD003 => RuleView::MD003(MD003 { style: lint.md003.style }),
        RuleSet::MD005 => RuleView::MD005(MD005),
        RuleSet::MD007 => RuleView::MD007(MD007 { indent: lint.md007.indent }),
        RuleSet::MD010 => RuleView::MD010(MD010),
        RuleSet::MD012 => RuleView::MD012(MD012),
        RuleSet::MD013 => RuleView::MD013(
            MD013 {
                line_length: lint.md013.line_length,
                code_blocks: lint.md013.code_blocks,
                tables: lint.md013.tables,
            },
        ),
        RuleSet::MD014 => RuleView::MD014(MD014),
        RuleSet::MD018 => RuleView::MD018(MD018),
        RuleSet::MD019 => RuleView::MD019(MD019),
        RuleSet::MD020 => RuleView::MD020(MD020),
        RuleSet::MD021 => RuleView::MD021(MD021),
        RuleSet::MD022 => RuleView::MD022(MD022),
        RuleSet::MD023 => RuleView::MD023(MD023),
        RuleSet::MD024 => RuleView::MD024(MD024),
        RuleSet::MD025 => RuleView::MD025(MD025 { level: lint.md025.level }),
        RuleSet::MD026 => RuleView::MD026(lint.md026.punctuation@),
        RuleSet::MD029 => RuleView::MD029(MD029 { style: lint.md029.style }),
        RuleSet::MD033 => RuleView::MD033(line_views(lint.md033.allowed_elements@)),
        RuleSet::MD034 => RuleView::MD034(MD034),
        RuleSet::MD035 => RuleView::MD035(lint.md035.style@),
        RuleSet::MD036 => RuleView::MD036(lint.md036.punctuation@),
        RuleSet::MD038 => RuleView::MD038(MD038),
        RuleSet::MD039 => RuleView::MD039(MD039),
        RuleSet::MD041 => RuleView::MD041(MD041 { level: lint.md041.level }),
        RuleSet::MD046 => RuleView::MD046(MD046 { style: lint.md046.style }),
    }
}

/// `rule` is the rule that `lint` configures under the name `id`.
pub open spec fn resolves(rule: Rule, lint: Lint, id: RuleSet) -> bool {
    rule@ == resolved(lint, id)
}

/// What the first `n` of `rules` find in `doc`, rule by rule.
pub open spec fn gathered(rules: Seq<Rule>, doc: DocumentView, n: int) -> Seq<ViolationView>
    decreases n,
{
    if n <= 0 {
        Seq::empty()
    } else {
        gathered(rules, doc, n - 1) + findings(
            doc.path,
            rules[n - 1].label(),
            rules[n - 1].positions(doc),
        )
    }
}

/// One of `rules` cannot finish its check of `doc`.
pub open spec fn some_fails(rules: Seq<Rule>, doc: DocumentView) -> bool {
    exists|k: int| 0 <= k < rules.len() && #[trigger] rules[k].fails(doc)
}

/// Rule `k` cannot finish its check of `doc`.
pub open spec fn fails_at(rules: Seq<Rule>, doc: DocumentView) -> spec_fn(int) -> bool {
    |k: int| rules[k].fails(doc)
}

/// The error of the first of `rules` that cannot finish its check of `doc`.
pub open spec fn first_failure(rules: Seq<Rule>, doc: DocumentView) -> ErrorView {
    match first_before(rules.len() as int, fails_at(rules, doc)) {
        Some(k) => rules[k].failure(doc),
        None => no_failure(doc),
    }
}

/// What a check of `doc` with `rules` reports: the findings of all rules in
/// the order of findings, unless a rule fails.
pub open spec fn outcome(rules: Seq<Rule>, doc: DocumentView) -> Option<Seq<ViolationView>> {
    if some_fails(rules, doc) {
        None
    } else {
        Some(gathered(rules, doc, rules.len() as int).sort_by(violation_leq()))
    }
}

/// What the first `n` of `rules` find when they are run on node `i` of
/// `doc` alone, rule by rule.
pub open spec fn node_findings(rules: Seq<Rule>, doc: DocumentView, i: int, n: int) -> Seq<
    ViolationView,
>
    decreases n,
{
    if n <= 0 {
        Seq::empty()
    } else {
        node_findings(rules, doc, i, n - 1) + if rules[n - 1].matches_node(doc.tree[i]) {
            findings(doc.path, rules[n - 1].label(), rules[n - 1].node_positions(doc.tree, i))
        } else {
            Seq::empty()
        }
    }
}

/// What `rules` find when they are run on each of the first `n` nodes of
/// `doc` alone, node by node in document order.
pub open spec fn flat_findings(rules: Seq<Rule>, doc: DocumentView, n: int) -> Seq<ViolationView>
    decreases n,
{
    if n <= 0 {
        Seq::empty()
    } else {
        flat_findings(rules, doc, n - 1) + node_findings(rules, doc, n - 1, rules.len() as int)
    }
}

/// What `rules` find when they are run on each node below node `i` of
/// `doc` alone, on a walk down the tree.
pub open spec fn walk_findings(rules: Seq<Rule>, doc: DocumentView, i: int) -> Seq<ViolationView>
    decreases doc.tree.len() - i, doc.tree[i].children.len() + 1,
{
    walk_children(rules, doc, i, doc.tree[i].children.len() as int)
}

/// What `rules` find on and below the first `n` children of node `i`.
pub open spec fn walk_children(rules: Seq<Rule>, doc: DocumentView, i: int, n: int) -> Seq<
    ViolationView,
>
    decreases doc.tree.len() - i, n,
{
    if n <= 0 {
        Seq::empty()
    } else {
        let child = doc.tree[i].children[n - 1] as int;
        walk_children(rules, doc, i, n - 1) + if i < child < doc.tree.len() {
            node_findings(rules, doc, child, rules.len() as int) + walk_findings(rules, doc, child)
        } else {
            Seq::empty()
        }
    }
}

/// What a walk from the root of `doc` finds.
pub open spec fn tree_findings(rules: Seq<Rule>, doc: DocumentView) -> Seq<ViolationView> {
    if doc.tree.len() > 0 {
        walk_findings(rules, doc, 0)
    } else {
        Seq::empty()
    }
}

/// The enabled rules, in the order in which they run.
#[derive(Debug, Default)]
pub struct Linter {
    rules: Vec<Rule>,
}

impl View for Linter {
    type V = Seq<Rule>;

    closed spec fn view(&self) -> Seq<Rule> {
        self.rules@
    }
}

impl Linter {
    /// The linter that `config` describes: one rule for every enabled name,
    /// in the order of the names, each with its configured parameters.
    pub fn new(config: &Config) -> (linter: Self)
        ensures
            linter@.len() == config.lint.rules@.len(),
            forall|k: int|
                0 <= k < linter@.len() ==> resolves(
                    #[trigger] linter@[k],
                    config.lint,
                    config.lint.rules@[k],
                ),
    {
        let mut rules: Vec<Rule> = Vec::new();
        let mut k: usize = 0;
        while k < config.lint.rules.len()
            invariant
                k <= config.lint.rules.len(),
                rules.len() == k,
                forall|j: int|
                    0 <= j < k ==> resolves(
                        #[trigger] rules@[j],
                        config.lint,
                        config.lint.rules@[j],
                    ),
            decreases config.lint.rules.len() - k,
        {
            let rule = match config.lint.rules[k] {
                RuleSet::MD001 => Rule::MD001(MD001::new()),
                RuleSet::MD002 => Rule::MD002(MD002::new(config.lint.md002.level)),
                RuleSet::MD003 => Rule::MD003(MD003::new(config.lint.md003.style)),
                RuleSet::MD005 => Rule::MD005(MD005::new()),
                RuleSet::MD007 => Rule::MD007(MD007::new(config.lint.md007.indent)),
                RuleSet::MD010 => Rule::MD010(MD010::new()),
                RuleSet::MD012 => Rule::MD012(MD012::new()),
                RuleSet::MD013 => Rule::MD013(MD013::new(
                    config.lint.md013.line_length,
                    config.lint.md013.code_blocks,
                    config.lint.md013.tables,
                )),
                RuleSet::MD014 => Rule::MD014(MD014::new()),
                RuleSet::MD018 => Rule::MD018(MD018::new()),
                RuleSet::MD019 => Rule::MD019(MD019::new()),
                RuleSet::MD020 => Rule::MD020(MD020::new()),
                RuleSet::MD021 => Rule::MD021(MD021::new()),
                RuleSet::MD022 => Rule::MD022(MD022::new()),
                RuleSet::MD023 => Rule::MD023(MD023::new()),
                RuleSet::MD024 => Rule::MD024(MD024::new()),
                RuleSet::MD025 => Rule::MD025(MD025::new(config.lint.md025.level)),
                RuleSet::MD026 => Rule::MD026(MD026::new(config.lint.md026.punctuation.clone())),
                RuleSet::MD029 => Rule::MD029(MD029::new(config.lint.md029.style)),
                RuleSet::MD033 => Rule::MD033(
                    MD033::new(config.lint.md033.allowed_elements.as_slice()),
                ),
                RuleSet::MD034 => Rule::MD034(MD034::new()),
                RuleSet::MD035 => Rule::MD035(MD035::new(config.lint.md035.style.duplicate())),
                RuleSet::MD036 => Rule::MD036(MD036::new(config.lint.md036.punctuation.clone())),
                RuleSet::MD038 => Rule::MD038(MD038::new()),
                RuleSet::MD039 => Rule::MD039(MD039::new()),
                RuleSet::MD041 => Rule::MD041(MD041::new(config.lint.md041.level)),
                RuleSet::MD046 => Rule::MD046(MD046::new(config.lint.md046.style)),
            };
            rules.push(rule);
            k = k + 1;
        }
        Linter { rules }
    }

    /// The rules, in the order in which they run.
    pub fn rules(&self) -> (rules: &Vec<Rule>)
        ensures
            rules@ == self@,
    {
        &self.rules
    }

    /// Runs every rule on `doc` and reports what they find, sorted by path,
    /// then rule name, then start of the span.
    ///
    /// Where a rule fails, the check fails with the error of the first rule
    /// that does, in the order in which the rules run, and reports no
    /// findings.
    pub fn check(&self, doc: &Document) -> (result: Result<Vec<Violation>, LintError>)
        ensures
            match result {
                Ok(violations) => outcome(self@, doc@) == Some(views(violations@)),
                Err(error) => outcome(self@, doc@) is None && error@ == first_failure(
                    self@,
                    doc@,
                ),
            },
            result matches Ok(violations) ==> sorted_by(views(violations@), violation_leq()),
            result matches Ok(violations) ==> forall|i: int, j: int|
                0 <= i < violations.len() && 0 <= j < violations.len() && key_order(
                    #[trigger] violations[i]@,
                    #[trigger] violations[j]@,
                ) == Order::Less ==> i < j,
    {
        let mut all: Vec<Violation> = Vec::new();
        let mut k: usize = 0;
        proof {
            assert(views(all@) =~= gathered(self@, doc@, 0));
        }
        while k < self.rules.len()
            invariant
                k <= self.rules.len(),
                self.rules@ == self@,
                views(all@) == gathered(self@, doc@, k as int),
                forall|j: int| 0 <= j < k ==> !(#[trigger] self@[j].fails(doc@)),
            decreases self.rules.len() - k,
        {
            match self.rules[k].check(doc) {
                Ok(mut violations) => {
                    let ghost before = views(all@);
                    let ghost added = views(violations@);
                    all.append(&mut violations);
                    proof {
                        assert(views(all@) =~= before + added);
                    }
                },
                Err(error) => {
                    proof {
                        let found = fails_at(self@, doc@);
                        assert(found(k as int));
                        lemma_first_before_is_least(self@.len() as int, found, k as int);
                        lemma_first_before_range(self@.len() as int, found);
                        let first = first_before(self@.len() as int, found)->0;
                        assert(found(first));
                        assert(first == k);
                    }
                    return Err(error);
                },
            }
            k = k + 1;
        }
        let sorted = sort_violations(all);
        proof {
            let leq = violation_leq();
            assert forall|i: int, j: int|
                0 <= i < sorted.len() && 0 <= j < sorted.len() && key_order(
                    #[trigger] sorted[i]@,
                    #[trigger] sorted[j]@,
                ) == Order::Less implies i < j by {
                lemma_violation_order_flip(sorted[i]@, sorted[j]@);
                if j < i {
                    assert(leq(views(sorted@)[j], views(sorted@)[i]));
                }
            }
        }
        Ok(sorted)
    }

    /// Runs every rule that can be run on node `i` alone on it, and adds
    /// what they find to `found`.
    fn check_node(
        &mut self,
        ctx: &NodeContext,
        doc: &Document,
        i: usize,
        found: &mut Vec<Violation>,
    )
        requires
            i < doc@.tree.len(),
            ctx.path@ == doc@.path,
        ensures
            final(self)@ == old(self)@,
            views(final(found)@) == views(old(found)@) + node_findings(
                old(self)@,
                doc@,
                i as int,
                old(self)@.len() as int,
            ),
    {
        let nodes = doc.nodes();
        let ghost rules = self@;
        let ghost start = views(found@);
        let mut k: usize = 0;
        proof {
            assert(views(found@) =~= start + node_findings(rules, doc@, i as int, 0));
        }
        while k < self.rules.len()
            invariant
                self@ == rules,
                self.rules@ == rules,
                k <= rules.len(),
                i < doc@.tree.len(),
                models(nodes@) == doc@.tree,
                ctx.path@ == doc@.path,
                views(found@) == start + node_findings(rules, doc@, i as int, k as int),
            decreases rules.len() - k,
        {
            proof {
                assert(models(nodes@)[i as int] == nodes@[i as int]@);
            }
            if self.rules[k].node_matcher(&nodes[i]) {
                let ghost before = views(found@);
                let ghost steady = self.rules@;
                let result = self.rules[k].run_node(ctx, doc, i);
                proof {
                    assert(self.rules@ =~= steady);
                }
                if let Ok(mut violations) = result {
                    let ghost added = views(violations@);
                    found.append(&mut violations);
                    proof {
                        assert(views(found@) =~= before + added);
                    }
                }
            }
            proof {
                assert(views(found@) =~= start + node_findings(rules, doc@, i as int, k + 1));
            }
            k = k + 1;
        }
    }

    /// Runs the rules on every node below node `i`, on a walk down the tree.
    fn check_node_recursive(
        &mut self,
        ctx: &NodeContext,
        doc: &Document,
        i: usize,
        found: &mut Vec<Violation>,
    )
        requires
            i < doc@.tree.len(),
            ctx.path@ == doc@.path,
        ensures
            final(self)@ == old(self)@,
            views(final(found)@) == views(old(found)@) + walk_findings(old(self)@, doc@, i as int),
        decreases doc@.tree.len() - i,
    {
        let nodes = doc.nodes();
        let ghost rules = self@;
        let ghost start = views(found@);
        let node = &nodes[i];
        let mut m: usize = 0;
        proof {
            assert(views(found@) =~= start + walk_children(rules, doc@, i as int, 0));
        }
        while m < node.children.len()
            invariant
                self@ == rules,
                i < doc@.tree.len(),
                models(nodes@) == doc@.tree,
                tree_wf(doc@.tree),
                node == &nodes[i as int],
                ctx.path@ == doc@.path,
                m <= node.children.len(),
                views(found@) == start + walk_children(rules, doc@, i as int, m as int),
            decreases node.children.len() - m,
        {
            proof {
                assert(node_wf(doc@.tree, i as int));
                assert(i < doc@.tree[i as int].children[m as int] < doc@.tree.len());
            }
            let child = node.children[m];
            let ghost before = views(found@);
            let into_list = match &nodes[child].value {
                NodeValue::List(_) => true,
                _ => false,
            };
            let below = ctx.descend(into_list);
            self.check_node(&below, doc, child, found);
            self.check_node_recursive(&below, doc, child, found);
            proof {
                assert(views(found@) =~= before + (node_findings(
                    rules,
                    doc@,
                    child as int,
                    rules.len() as int,
                ) + walk_findings(rules, doc@, child as int)));
                assert(views(found@) =~= start + walk_children(rules, doc@, i as int, m + 1));
            }
            m = m + 1;
        }
    }

    /// Forgets what the rules have gathered while they ran on the nodes of a document.
    fn reset(&mut self)
        ensures
            final(self)@ == old(self)@,
    {
        let ghost rules = self@;
        let mut k: usize = 0;
        while k < self.rules.len()
            invariant
                self@ == rules,
                self.rules@ == rules,
                k <= rules.len(),
            decreases rules.len() - k,
        {
            let ghost steady = self.rules@;
            self.rules[k].reset();
            proof {
                assert(self.rules@ =~= steady);
            }
            k = k + 1;
        }
    }

    /// Runs the rules that can be run on one node alone on every node of
    /// `doc`, in document order, and reports what they find, sorted by
    /// path, then rule name, then start of the span.
    ///
    /// Each rule is told how deep in lists the node lies, as far as the
    /// columns in which the lists start tell.
    pub fn new_flat_check(&mut self, doc: &Document) -> (result: Result<Vec<Violation>, LintError>)
        ensures
            final(self)@ == old(self)@,
            result matches Ok(violations) && views(violations@) == flat_findings(
                old(self)@,
                doc@,
                doc@.tree.len() as int,
            ).sort_by(violation_leq()),
    {
        let mut ctx = NodeContext::new(doc.path().clone());
        let nodes = doc.nodes();
        let ghost rules = self@;
        let mut found: Vec<Violation> = Vec::new();
        let mut previous_list: Option<usize> = None;
        let mut i: usize = 0;
        proof {
            assert(views(found@) =~= flat_findings(rules, doc@, 0));
        }
        while i < nodes.len()
            invariant
                self@ == rules,
                models(nodes@) == doc@.tree,
                ctx.path@ == doc@.path,
                i <= nodes.len(),
                views(found@) == flat_findings(rules, doc@, i as int),
            decreases nodes.len() - i,
        {
            if let NodeValue::List(_) = &nodes[i].value {
                let column = nodes[i].position.start.column;
                if let Some(previous) = previous_list {
                    ctx.list_level = next_list_level(ctx.list_level, previous, column);
                }
                previous_list = Some(column);
            }
            self.check_node(&ctx, doc, i, &mut found);
            i = i + 1;
        }
        self.reset();
        Ok(sort_violations(found))
    }

    /// Runs the rules that can be run on one node alone on every node
    /// below the root of `doc`, on a walk down the tree, and reports what
    /// they find, sorted by path, then rule name, then start of the span.
    ///
    /// Each rule is told how deep the node lies below the root, and how
    /// deep in lists.
    pub fn new_check(&mut self, doc: &Document) -> (result: Result<Vec<Violation>, LintError>)
        ensures
            final(self)@ == old(self)@,
            result matches Ok(violations) && views(violations@) == tree_findings(
                old(self)@,
                doc@,
            ).sort_by(violation_leq()),
    {
        let ctx = NodeContext::new(doc.path().clone());
        let mut found: Vec<Violation> = Vec::new();
        proof {
            assert(views(found@) =~= Seq::<ViolationView>::empty());
        }
        if doc.nodes().len() > 0 {
            self.check_node_recursive(&ctx, doc, 0, &mut found);
        }
        self.reset();
        Ok(sort_violations(found))
    }
}

/// What each of `rules` finds in `doc`, rule by rule.
pub open spec fn batches(rules: Seq<Rule>, doc: DocumentView) -> Seq<Seq<ViolationView>> {
    rules.map_values(|rule: Rule| findings(doc.path, rule.label(), rule.positions(doc)))
}

/// What the rules find together is what each of them finds, joined.
pub proof fn lemma_gathered_is_joined(rules: Seq<Rule>, doc: DocumentView, n: int)
    requires
        0 <= n <= rules.len(),
    ensures
        gathered(rules, doc, n) == joined(batches(rules, doc).take(n)),
    decreases n,
{
    if n > 0 {
        lemma_gathered_is_joined(rules, doc, n - 1);
        assert(batches(rules, doc).take(n).drop_last() =~= batches(rules, doc).take(n - 1));
    }
}

/// The contents of a list of rules.
pub open spec fn rule_views(rules: Seq<Rule>) -> Seq<RuleView> {
    rules.map_values(|rule: Rule| rule@)
}

/// `rule` has the content `view`.
pub open spec fn has_view(rule: Rule, view: RuleView) -> bool {
    rule@ == view
}

/// What a rule with the content `view` finds in `doc`.
pub open spec fn view_findings(view: RuleView, doc: DocumentView) -> Seq<ViolationView> {
    let rule = choose|rule: Rule| has_view(rule, view);
    findings(doc.path, rule.label(), rule.positions(doc))
}

/// The order in which the rules run does not show in what a check
/// reports: the same rules in another order report the same. Rules are the
/// same where their contents are: text parameters count by their
/// characters.
pub proof fn lemma_rule_order_is_forgotten(first: Seq<Rule>, second: Seq<Rule>, doc: DocumentView)
    requires
        rule_views(first).to_multiset() == rule_views(second).to_multiset(),
    ensures
        outcome(first, doc) == outcome(second, doc),
{
    broadcast use vstd::seq_lib::group_to_multiset_ensures;

    assert(some_fails(first, doc) == some_fails(second, doc)) by {
        if some_fails(first, doc) {
            let k = choose|k: int| 0 <= k < first.len() && #[trigger] first[k].fails(doc);
            lemma_has_like(first, second, k);
            let j = choose|j: int| 0 <= j < second.len() && second[j]@ == first[k]@;
            lemma_view_decides(first[k], second[j], doc);
            assert(second[j].fails(doc));
        }
        if some_fails(second, doc) {
            let k = choose|k: int| 0 <= k < second.len() && #[trigger] second[k].fails(doc);
            lemma_has_like(second, first, k);
            let j = choose|j: int| 0 <= j < first.len() && first[j]@ == second[k]@;
            lemma_view_decides(second[k], first[j], doc);
            assert(first[j].fails(doc));
        }
    }
    lemma_gathered_is_joined(first, doc, first.len() as int);
    lemma_gathered_is_joined(second, doc, second.len() as int);
    assert(batches(first, doc).take(first.len() as int) =~= batches(first, doc));
    assert(batches(second, doc).take(second.len() as int) =~= batches(second, doc));
    let by_view = |view: RuleView| view_findings(view, doc);
    lemma_batches_by_view(first, doc);
    lemma_batches_by_view(second, doc);
    lemma_map_any_order(rule_views(first), rule_views(second), by_view);
    lemma_violation_leq_total();
    lemma_arrival_order_is_forgotten(batches(first, doc), batches(second, doc), violation_leq());
}

/// A rule of one list has its like in a list that holds the same rules.
proof fn lemma_has_like(first: Seq<Rule>, second: Seq<Rule>, k: int)
    requires
        rule_views(first).to_multiset() == rule_views(second).to_multiset(),
        0 <= k < first.len(),
    ensures
        exists|j: int| 0 <= j < second.len() && second[j]@ == first[k]@,
{
    broadcast use vstd::seq_lib::group_to_multiset_ensures;

    let view = first[k]@;
    assert(rule_views(first)[k] == view);
    assert(rule_views(first).contains(view));
    assert(rule_views(first).to_multiset().count(view) > 0);
    assert(rule_views(second).to_multiset().count(view) > 0);
    assert(rule_views(second).contains(view));
    let j = choose|j: int| 0 <= j < rule_views(second).len() && rule_views(second)[j] == view;
    assert(second[j]@ == view);
}

/// What the rules find is what their contents find.
proof fn lemma_batches_by_view(rules: Seq<Rule>, doc: DocumentView)
    ensures
        batches(rules, doc) == rule_views(rules).map_values(
            |view: RuleView| view_findings(view, doc),
        ),
{
    assert forall|k: int| 0 <= k < rules.len() implies batches(rules, doc)[k] == view_findings(
        #[trigger] rules[k]@,
        doc,
    ) by {
        assert(has_view(rules[k], rules[k]@));
        let like = choose|rule: Rule| has_view(rule, rules[k]@);
        lemma_view_decides(like, rules[k], doc);
    }
    assert(batches(rules, doc) =~= rule_views(rules).map_values(
        |view: RuleView| view_findings(view, doc),
    ));
}

/// Two linters that one configuration gives for the same names of rules,
/// in whatever order the names are, report the same.
pub proof fn lemma_configured_order_is_forgotten(
    first: Seq<Rule>,
    second: Seq<Rule>,
    lint: Lint,
    names: Seq<RuleSet>,
    others: Seq<RuleSet>,
    doc: DocumentView,
)
    requires
        first.len() == names.len(),
        second.len() == others.len(),
        forall|k: int| 0 <= k < first.len() ==> resolves(#[trigger] first[k], lint, names[k]),
        forall|k: int| 0 <= k < second.len() ==> resolves(#[trigger] second[k], lint, others[k]),
        names.to_multiset() == others.to_multiset(),
    ensures
        outcome(first, doc) == outcome(second, doc),
{
    let by_name = |id: RuleSet| resolved(lint, id);
    assert(rule_views(first) =~= names.map_values(by_name));
    assert(rule_views(second) =~= others.map_values(by_name));
    lemma_map_any_order(names, others, by_name);
    lemma_rule_order_is_forgotten(first, second, doc);
}

/// Two checks of one document with one set of rules report the same.
pub proof fn lemma_check_is_deterministic(
    rules: Seq<Rule>,
    doc: DocumentView,
    first: Seq<ViolationView>,
    second: Seq<ViolationView>,
)
    requires
        outcome(rules, doc) == Some(first),
        outcome(rules, doc) == Some(second),
    ensures
        first == second,
{
}

} // verus!
