use downlint::Document;
use downlint::Sourcepos;
use downlint::Violation;
use downlint::rule::MD007;

#[test]
fn md007_check_errors() {
    let text = "* List item
   * Nested list item indented by 3 spaces"
        .to_owned();
    let path = "test.md".to_owned();
    let doc = Document::with_delimiter(path.clone(), text.to_string(), None);
    let rule = MD007::default();
    let actual = rule.check(&doc).unwrap();
    let expected = vec![rule.to_violation(path.clone(), Sourcepos::new(2, 4, 2, 42))];
    assert_eq!(actual, expected);
}

#[test]
fn md007_check_no_errors() {
    let text = "* List item
    * Nested list item indented by 4 spaces"
        .to_owned();
    let path = "test.md".to_owned();
    let doc = Document::with_delimiter(path.clone(), text.to_string(), None);
    let rule = MD007::default();
    let actual = rule.check(&doc).unwrap();
    let expected: Vec<Violation> = vec![];
    assert_eq!(actual, expected);
}
