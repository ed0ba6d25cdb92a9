use downlint::Document;
use downlint::Sourcepos;
use downlint::Violation;
use downlint::rule::MD023;

#[test]
fn md023_check_errors() {
    let text = "Some text

  # Indented header"
        .to_owned();
    let path = "test.md".to_owned();
    let doc = Document::new(path.clone(), text);
    let rule = MD023::new();
    let actual = rule.check(&doc).unwrap();
    let expected = vec![rule.to_violation(path, Sourcepos::new(3, 3, 3, 19))];
    assert_eq!(actual, expected);
}

#[test]
fn md023_check_no_errors() {
    let text = "Some text

# Header"
        .to_owned();
    let path = "test.md".to_owned();
    let doc = Document::new(path.clone(), text);
    let rule = MD023::new();
    let actual = rule.check(&doc).unwrap();
    let expected: Vec<Violation> = vec![];
    assert_eq!(actual, expected);
}

#[test]
fn check_no_errors_with_indented_code_block_comment() {
    let text = "Some text

   ```
   # Header
   ```"
    .to_owned();
    let path = "test.md".to_owned();
    let doc = Document::new(path.clone(), text);
    let rule = MD023::new();
    let actual = rule.check(&doc).unwrap();
    let expected: Vec<Violation> = vec![];
    assert_eq!(actual, expected);
}
