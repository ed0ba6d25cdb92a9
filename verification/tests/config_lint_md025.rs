use downlint::config::lint;
use downlint::rule;

#[test]
fn from_for_rule_md025() {
    let level = 3;
    let config = lint::MD025 { level };
    let expected = rule::MD025::new(level);
    assert_eq!(rule::MD025::from(&config), expected);
}
