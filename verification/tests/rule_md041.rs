use downlint::Document;
use downlint::Sourcepos;
use downlint::Violation;
use downlint::rule::MD041;

#[test]
fn md041_check_errors() {
    let text = "This is a file without a header".to_owned();
    let path = "test.md".to_owned();
    let doc = Document::new(path.clone(), text);
    let rule = MD041::default();
    let actual = rule.check(&doc).unwrap();
    let expected = vec![rule.to_violation(path, Sourcepos::new(1, 1, 1, 31))];
    assert_eq!(actual, expected);
}

#[test]
fn md041_check_no_errors() {
    let text = "# File with header

This is a file with a top level header
"
    .to_owned();
    let path = "test.md".to_owned();
    let doc = Document::new(path.clone(), text);
    let rule = MD041::default();
    let actual = rule.check(&doc).unwrap();
    let expected: Vec<Violation> = vec![];
    assert_eq!(actual, expected);
}

#[test]
fn check_no_errors_with_empty_text() {
    let text = String::new();
    let path = "test.md".to_owned();
    let doc = Document::new(path.clone(), text);
    let rule = MD041::default();
    let actual = rule.check(&doc).unwrap();
    let expected: Vec<Violation> = vec![];
    assert_eq!(actual, expected);
}
