use downlint::config::lint;
use downlint::rule::md046::CodeBlockStyle;
use downlint::rule;

#[test]
fn from_for_rule_md046() {
    let style = CodeBlockStyle::Indented;
    let config = lint::MD046 {
        style: style.clone(),
    };
    let expected = rule::MD046::new(style);
    assert_eq!(rule::MD046::from(&config), expected);
}
