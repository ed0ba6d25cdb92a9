use downlint::Document;
use downlint::Sourcepos;
use downlint::Violation;
use downlint::rule::MD012;

#[test]
fn md012_check_errors() {
    let text = "Some text here


Some more text here";
    let path = "test.md".to_owned();
    let doc = Document::with_delimiter(path.clone(), text.to_string(), None);
    let rule = MD012::new();
    let actual = rule.check(&doc).unwrap();
    let expected = vec![rule.to_violation(path, Sourcepos::new(3, 1, 3, 1))];
    assert_eq!(actual, expected);
}

#[test]
fn md012_check_no_errors() {
    let text = "Some text here

Some more text here";
    let path = "test.md".to_owned();
    let doc = Document::with_delimiter(path.clone(), text.to_string(), None);
    let rule = MD012::new();
    let actual = rule.check(&doc).unwrap();
    let expected: Vec<Violation> = vec![];
    assert_eq!(actual, expected);
}

#[test]
fn check_no_errors_with_code_block() {
    let text = "Some text here

```
This is a code block


Some code here
```

Some more text here";
    let path = "test.md".to_owned();
    let doc = Document::with_delimiter(path.clone(), text.to_string(), None);
    let rule = MD012::new();
    let actual = rule.check(&doc).unwrap();
    let expected: Vec<Violation> = vec![];
    assert_eq!(actual, expected);
}

#[test]
fn check_no_errors_with_link_test() {
    let text = r#"---
foo:
bar:
baz:
qux:
---

Some text here

```
This is a code block


Some code here
```

Some more text here"#;
    let path = "test.md".to_owned();
    let doc = Document::with_delimiter(path.clone(), text.to_string(), Some("---".to_owned()));
    let rule = MD012::new();
    let actual = rule.check(&doc).unwrap();
    let expected: Vec<Violation> = vec![];
    assert_eq!(actual, expected);
}
