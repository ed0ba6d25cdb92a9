use downlint::Document;
use downlint::Sourcepos;
use downlint::Violation;
use downlint::rule::MD024;

#[test]
fn md024_check_errors() {
    let text = "# Some text

## Some text";
    let path = "test.md".to_owned();
    let doc = Document::with_delimiter(path.clone(), text.to_string(), None);
    let rule = MD024::new();
    let actual = rule.check(&doc).unwrap();
    let expected = vec![rule.to_violation(path.clone(), Sourcepos::new(3, 1, 3, 12))];
    assert_eq!(actual, expected);
}

#[test]
fn md024_check_no_errors() {
    let text = "# Some text

## Some more text";
    let path = "test.md".to_owned();
    let doc = Document::with_delimiter(path.clone(), text.to_string(), None);
    let rule = MD024::new();
    let actual = rule.check(&doc).unwrap();
    let expected: Vec<Violation> = vec![];
    assert_eq!(actual, expected);
}
