use downlint::Document;
use downlint::Sourcepos;
use downlint::Violation;
use downlint::rule::MD019;

#[test]
fn md019_check_errors() {
    let text = "#  Header 1

##  Header 2"
        .to_owned();
    let path = "test.md".to_owned();
    let doc = Document::with_delimiter(path.clone(), text.to_string(), None);
    let rule = MD019::new();
    let actual = rule.check(&doc).unwrap();
    let expected = vec![
        rule.to_violation(path.clone(), Sourcepos::new(1, 1, 1, 11)),
        rule.to_violation(path, Sourcepos::new(3, 1, 3, 12)),
    ];
    assert_eq!(actual, expected);
}

#[test]
fn md019_check_no_errors() {
    let text = "# Header 1

## Header 2"
        .to_owned();
    let path = "test.md".to_owned();
    let doc = Document::with_delimiter(path.clone(), text.to_string(), None);
    let rule = MD019::new();
    let actual = rule.check(&doc).unwrap();
    let expected: Vec<Violation> = vec![];
    assert_eq!(actual, expected);
}

#[test]
fn md019_check_no_errors_with_setext() {
    let text = "  Header 1
========"
        .to_owned();
    let path = "test.md".to_owned();
    let doc = Document::with_delimiter(path.clone(), text.to_string(), None);
    let rule = MD019::new();
    let actual = rule.check(&doc).unwrap();
    let expected: Vec<Violation> = vec![];
    assert_eq!(actual, expected);
}

#[test]
fn md019_check_no_errors_for_multiple_children() {
    let text = "# Header with `code` and text".to_owned();
    let path = "test.md".to_owned();
    let doc = Document::with_delimiter(path.clone(), text.to_string(), None);
    let rule = MD019::new();
    let actual = rule.check(&doc).unwrap();
    let expected: Vec<Violation> = vec![];
    assert_eq!(actual, expected);
}
