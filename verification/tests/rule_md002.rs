use downlint::Document;
use downlint::Sourcepos;
use downlint::Violation;
use downlint::rule::MD002;

#[test]
fn md002_check_errors() {
    let text = "## This isn't a H1 header

### Another header"
        .to_owned();
    let path = "test.md".to_owned();
    let doc = Document::new(path.clone(), text);
    let rule = MD002::default();
    let actual = rule.check(&doc).unwrap();
    let expected = vec![rule.to_violation(path, Sourcepos::new(1, 1, 1, 25))];
    assert_eq!(actual, expected);
}

#[test]
fn md002_check_errors_with_level() {
    let text = "# Start with a H1 header

## Then use a H2 for subsections"
        .to_owned();
    let path = "test.md".to_owned();
    let doc = Document::new(path.clone(), text);
    let rule = MD002::new(2);
    let actual = rule.check(&doc).unwrap();
    let expected = vec![rule.to_violation(path, Sourcepos::new(1, 1, 1, 24))];
    assert_eq!(actual, expected);
}

#[test]
fn md002_check_no_errors() {
    let text = "# Start with a H1 header

## Then use a H2 for subsections"
        .to_owned();
    let path = "test.md".to_owned();
    let doc = Document::new(path.clone(), text);
    let rule = MD002::default();
    let actual = rule.check(&doc).unwrap();
    let expected: Vec<Violation> = vec![];
    assert_eq!(actual, expected);
}

#[test]
fn md002_check_no_errors_with_level() {
    let text = "## This isn't a H1 header

### Another header"
        .to_owned();
    let path = "test.md".to_owned();
    let doc = Document::new(path.clone(), text);
    let rule = MD002::new(2);
    let actual = rule.check(&doc).unwrap();
    let expected: Vec<Violation> = vec![];
    assert_eq!(actual, expected);
}
