use downlint::config::lint::RuleSet;
use downlint::rule::md029::OrderedListStyle;
use downlint::rule::node::next_list_level;
use downlint::rule::NodeContext;
use downlint::rule::MD001;
use downlint::rule::MD010;
use downlint::rule::MD023;
use downlint::rule::MD029;
use downlint::text::Order;
use downlint::Config;
use downlint::Document;
use downlint::Linter;
use downlint::Rule;
use downlint::Sourcepos;
use downlint::Violation;

fn linter_of(rules: Vec<RuleSet>) -> Linter {
    let mut config = Config::default();
    config.lint.rules = rules;
    Linter::new(&config)
}

#[test]
fn default_configuration_enables_every_rule() {
    let config = Config::default();
    assert_eq!(config.lint.rules.len(), 27);
    assert_eq!(config.lint.rules[0], RuleSet::MD001);
    assert_eq!(config.lint.rules[26], RuleSet::MD046);
    let linter = Linter::new(&config);
    assert_eq!(linter.rules().len(), 27);
    assert_eq!(linter.rules()[0], Rule::MD001(MD001::new()));
    assert_eq!(linter.rules()[7].metadata().name, "MD013");
}

#[test]
fn new_keeps_the_order_of_the_configuration() {
    let linter = linter_of(vec![RuleSet::MD023, RuleSet::MD001, RuleSet::MD023]);
    let expected =
        vec![Rule::MD023(MD023::new()), Rule::MD001(MD001::new()), Rule::MD023(MD023::new())];
    assert_eq!(linter.rules(), &expected);
}

#[test]
fn linter_without_rules_reports_nothing() {
    let doc = Document::new("a.md".to_owned(), "# H1\n\n### H3\n".to_owned());
    let expected: Vec<Violation> = vec![];
    assert_eq!(Linter::default().check(&doc).unwrap(), expected);
}

#[test]
fn check_sorts_by_rule_name_then_position() {
    let path = "a.md".to_owned();
    let text = "# H1\n\n ### H3\n\n\tx\n\n    ##### H5\n\n###### H6\n\n #### H4\n".to_owned();
    let doc = Document::new(path.clone(), text);
    let linter = linter_of(vec![RuleSet::MD023, RuleSet::MD010, RuleSet::MD001]);
    let actual = linter.check(&doc).unwrap();
    let md001 = MD001::new();
    let md010 = MD010::new();
    let md023 = MD023::new();
    let expected = vec![
        md001.to_violation(path.clone(), Sourcepos::new(3, 2, 3, 7)),
        md001.to_violation(path.clone(), Sourcepos::new(9, 1, 9, 9)),
        md010.to_violation(path.clone(), Sourcepos::new(5, 1, 5, 1)),
        md023.to_violation(path.clone(), Sourcepos::new(3, 2, 3, 7)),
        md023.to_violation(path, Sourcepos::new(11, 2, 11, 8)),
    ];
    assert_eq!(actual, expected);
    for pair in actual.windows(2) {
        assert_ne!(pair[0].order(&pair[1]), Order::Greater);
    }
}

#[test]
fn check_does_not_depend_on_the_order_of_the_rules() {
    let doc = Document::new("a.md".to_owned(), "# H1\n\n ### H3\n\n\tx\n".to_owned());
    let one = linter_of(vec![RuleSet::MD023, RuleSet::MD010, RuleSet::MD001]);
    let other = linter_of(vec![RuleSet::MD001, RuleSet::MD023, RuleSet::MD010]);
    assert_eq!(one.check(&doc).unwrap(), other.check(&doc).unwrap());
}

#[test]
fn check_twice_reports_the_same() {
    let text = "# H1\n\n ### H3\n\n\tx\n\n1. a\n3. b\n\n<b>x</b> https://example.com\n".to_owned();
    let doc = Document::new("a.md".to_owned(), text.clone());
    let again = Document::new("a.md".to_owned(), text);
    let linter = Linter::new(&Config::default());
    let first = linter.check(&doc).unwrap();
    assert!(!first.is_empty());
    assert_eq!(first, linter.check(&doc).unwrap());
    assert_eq!(first, Linter::new(&Config::default()).check(&again).unwrap());
}

#[test]
fn default_rules_report_nothing_on_a_clean_document() {
    let text = "# Title\n\nSome text with `code` and a [link](https://example.com).\n\n## Section\n\n* one\n* two\n\n```sh\necho hello\n```\n";
    let doc = Document::new("a.md".to_owned(), text.to_owned());
    let expected: Vec<Violation> = vec![];
    assert_eq!(Linter::new(&Config::default()).check(&doc).unwrap(), expected);
}

#[test]
fn check_of_an_empty_document_reports_nothing() {
    let doc = Document::new("a.md".to_owned(), String::new());
    let expected: Vec<Violation> = vec![];
    assert_eq!(Linter::new(&Config::default()).check(&doc).unwrap(), expected);
    let bare = Document::from_events("a.md".to_owned(), String::new(), vec![]);
    assert_eq!(Linter::new(&Config::default()).check(&bare).unwrap(), expected);
}

#[test]
fn node_checks_run_the_rules_that_match_a_node() {
    let path = "a.md".to_owned();
    let text = "1. a\n1. b\n\n> 1. c\n> 3. d\n\n* e\n".to_owned();
    let doc = Document::new(path.clone(), text);
    let mut config = Config::default();
    config.lint.rules = vec![RuleSet::MD001, RuleSet::MD029];
    config.lint.md029.style = OrderedListStyle::Ordered;
    let mut linter = Linter::new(&config);
    let rule = MD029::new(OrderedListStyle::Ordered);
    let expected = vec![
        rule.to_violation(path.clone(), Sourcepos::new(2, 1, 3, 0)),
        rule.to_violation(path, Sourcepos::new(5, 3, 5, 6)),
    ];
    assert_eq!(linter.new_flat_check(&doc).unwrap(), expected);
    assert_eq!(linter.new_check(&doc).unwrap(), expected);
    assert_eq!(linter.rules().len(), 2);
}

#[test]
fn rule_runs_on_one_node() {
    let path = "other.md".to_owned();
    let doc = Document::new("a.md".to_owned(), "2. a\n1. b\n".to_owned());
    let list = doc.nodes()[0].children[0];
    let mut rule = Rule::MD029(MD029::new(OrderedListStyle::One));
    assert!(rule.node_matcher(&doc.nodes()[list]));
    assert!(!rule.node_matcher(&doc.nodes()[0]));
    assert!(!Rule::MD001(MD001::new()).node_matcher(&doc.nodes()[list]));
    let ctx = NodeContext { path: path.clone(), level: 1, list_level: Some(1) };
    let actual = rule.run_node(&ctx, &doc, list).unwrap();
    assert_eq!(actual, vec![MD029::default().to_violation(path, Sourcepos::new(1, 1, 1, 4))]);
    rule.reset();
    assert_eq!(rule, Rule::MD029(MD029::new(OrderedListStyle::One)));
}

#[test]
fn walk_goes_one_level_deeper_at_every_child() {
    let root = NodeContext::new("a.md".to_owned());
    assert_eq!(root, NodeContext { path: "a.md".to_owned(), level: 0, list_level: None });
    let list = root.descend(true);
    assert_eq!(list, NodeContext { path: "a.md".to_owned(), level: 1, list_level: Some(1) });
    let item = list.descend(false);
    assert_eq!(item, NodeContext { path: "a.md".to_owned(), level: 2, list_level: Some(1) });
    let nested = item.descend(true);
    assert_eq!(nested, NodeContext { path: "a.md".to_owned(), level: 3, list_level: Some(2) });
    let paragraph = root.descend(false);
    assert_eq!(paragraph, NodeContext { path: "a.md".to_owned(), level: 1, list_level: None });
}

#[test]
fn list_level_follows_the_columns_of_the_lists() {
    assert_eq!(next_list_level(None, 1, 1), Some(1));
    assert_eq!(next_list_level(Some(1), 1, 3), Some(2));
    assert_eq!(next_list_level(Some(2), 3, 3), Some(2));
    assert_eq!(next_list_level(Some(2), 3, 4), Some(2));
    assert_eq!(next_list_level(Some(2), 3, 1), Some(1));
    assert_eq!(next_list_level(Some(usize::MAX), 1, 9), Some(usize::MAX));
    assert_eq!(next_list_level(Some(1), usize::MAX, usize::MAX), Some(1));
}
