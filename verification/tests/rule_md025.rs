use downlint::Document;
use downlint::Sourcepos;
use downlint::Violation;
use downlint::rule::MD025;

#[test]
fn md025_check_errors() {
    let text = "# Top level header

# Another top level header"
        .to_owned();
    let path = "test.md".to_owned();
    let doc = Document::with_delimiter(path.clone(), text.to_string(), None);
    let rule = MD025::default();
    let actual = rule.check(&doc).unwrap();
    let expected = vec![rule.to_violation(path.clone(), Sourcepos::new(3, 1, 3, 26))];
    assert_eq!(actual, expected);
}

#[test]
fn md025_check_errors_with_level() {
    let text = "## Top level header

## Another top level header"
        .to_owned();
    let path = "test.md".to_owned();
    let doc = Document::with_delimiter(path.clone(), text.to_string(), None);
    let rule = MD025::new(2);
    let actual = rule.check(&doc).unwrap();
    let expected = vec![rule.to_violation(path.clone(), Sourcepos::new(3, 1, 3, 27))];
    assert_eq!(actual, expected);
}

#[test]
fn md025_check_no_errors() {
    let text = "# Title

## Header

## Another header"
        .to_owned();
    let path = "test.md".to_owned();
    let doc = Document::with_delimiter(path.clone(), text.to_string(), None);
    let rule = MD025::default();
    let actual = rule.check(&doc).unwrap();
    let expected: Vec<Violation> = vec![];
    assert_eq!(actual, expected);
}

#[test]
fn md025_check_no_errors_with_level() {
    let text = "## Title

### Header

### Another header"
        .to_owned();
    let path = "test.md".to_owned();
    let doc = Document::with_delimiter(path.clone(), text.to_string(), None);
    let rule = MD025::new(2);
    let actual = rule.check(&doc).unwrap();
    let expected: Vec<Violation> = vec![];
    assert_eq!(actual, expected);
}
