use downlint::Document;
use downlint::Sourcepos;
use downlint::Violation;
use downlint::rule::MD010;

#[test]
fn md010_check_errors() {
    let text = "Some text

	* hard tab character used to indent the list item
"
    .to_owned();
    let path = "test.md".to_owned();
    let doc = Document::new(path.clone(), text);
    let rule = MD010::new();
    let actual = rule.check(&doc).unwrap();
    let expected = vec![rule.to_violation(path, Sourcepos::new(3, 1, 3, 1))];
    assert_eq!(actual, expected);
}

#[test]
fn md010_check_no_errors() {
    let text = "Some text

    * Spaces used to indent the list item instead
"
    .to_owned();
    let path = "test.md".to_owned();
    let doc = Document::new(path.clone(), text);
    let rule = MD010::new();
    let actual = rule.check(&doc).unwrap();
    let expected: Vec<Violation> = vec![];
    assert_eq!(actual, expected);
}
