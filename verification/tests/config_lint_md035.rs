use downlint::config::lint;
use downlint::rule::md035::HorizontalRuleStyle;
use downlint::rule;

#[test]
fn from_for_rule_md035() {
    let style = HorizontalRuleStyle::Custom("~~~".to_owned());
    let config = lint::MD035 {
        style: style.clone(),
    };
    let expected = rule::MD035::new(style);
    assert_eq!(rule::MD035::from(&config), expected);
}
