use downlint::Document;
use downlint::Sourcepos;
use downlint::Violation;
use downlint::rule::MD001;

#[test]
fn md001_check_errors() {
    let text = "# Header 1

### Header 3

## Another Header 2

#### Header 4"
        .to_owned();
    let path = "test.md".to_owned();
    let doc = Document::with_delimiter(path.clone(), text.to_string(), None);
    let rule = MD001::new();
    let actual = rule.check(&doc).unwrap();
    let expected = vec![
        rule.to_violation(path.clone(), Sourcepos::new(3, 1, 3, 12)),
        rule.to_violation(path, Sourcepos::new(7, 1, 7, 13)),
    ];
    assert_eq!(actual, expected);
}

#[test]
fn md001_check_no_errors() {
    let text = "# Header 1

## Header 2

### Header 3

#### Header 4

## Another Header 2

### Another Header 3"
        .to_owned();
    let path = "test.md".to_owned();
    let doc = Document::with_delimiter(path.clone(), text.to_string(), None);
    let rule = MD001::new();
    let actual = rule.check(&doc).unwrap();
    let expected: Vec<Violation> = vec![];
    assert_eq!(actual, expected);
}

#[test]
fn check_no_errors_no_top_level() {
    let text = "## This isn't a H1 header".to_owned();
    let path = "test.md".to_owned();
    let doc = Document::with_delimiter(path.clone(), text.to_string(), None);
    let rule = MD001::new();
    let actual = rule.check(&doc).unwrap();
    let expected: Vec<Violation> = vec![];
    assert_eq!(actual, expected);
}
