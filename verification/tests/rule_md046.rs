use downlint::Document;
use downlint::Sourcepos;
use downlint::Violation;
use downlint::rule::MD046;
use downlint::rule::md046::CodeBlockStyle;

#[test]
fn check_errors_with_fenced() {
    let text = "Some text.

    Code block

Some more text."
        .to_owned();
    let path = "test.md".to_owned();
    let doc = Document::with_delimiter(path.clone(), text.to_string(), None);
    let rule = MD046::default();
    let actual = rule.check(&doc).unwrap();
    let expected = vec![rule.to_violation(path, Sourcepos::new(3, 5, 4, 0))];
    assert_eq!(actual, expected);
}

#[test]
fn check_errors_with_indented() {
    let text = "Some text.

```ruby
Code block
```

Some more text."
        .to_owned();
    let path = "test.md".to_owned();
    let doc = Document::with_delimiter(path.clone(), text.to_string(), None);
    let rule = MD046::new(CodeBlockStyle::Indented);
    let actual = rule.check(&doc).unwrap();
    let expected = vec![rule.to_violation(path, Sourcepos::new(3, 1, 5, 3))];
    assert_eq!(actual, expected);
}

#[test]
fn check_errors_with_consistent() {
    let text = "Some text.

```ruby
Code block
```
Some more text.

    Code block

Some more more text."
        .to_owned();
    let path = "test.md".to_owned();
    let doc = Document::with_delimiter(path.clone(), text.to_string(), None);
    let rule = MD046::new(CodeBlockStyle::Consistent);
    let actual = rule.check(&doc).unwrap();
    let expected = vec![rule.to_violation(path, Sourcepos::new(8, 5, 9, 0))];
    assert_eq!(actual, expected);
}

#[test]
fn check_no_errors_with_fenced() {
    let text = "Some text.

```ruby
Code block
```

Some more text."
        .to_owned();
    let path = "test.md".to_owned();
    let doc = Document::with_delimiter(path.clone(), text.to_string(), None);
    let rule = MD046::default();
    let actual = rule.check(&doc).unwrap();
    let expected: Vec<Violation> = vec![];
    assert_eq!(actual, expected);
}

#[test]
fn check_no_errors_with_indented() {
    let text = "Some text.

    Code block

Some more text."
        .to_owned();
    let path = "test.md".to_owned();
    let doc = Document::with_delimiter(path.clone(), text.to_string(), None);
    let rule = MD046::new(CodeBlockStyle::Indented);
    let actual = rule.check(&doc).unwrap();
    let expected: Vec<Violation> = vec![];
    assert_eq!(actual, expected);
}

#[test]
fn check_no_errors_with_consistent_fenced() {
    let text = "Some text.

```ruby
Code block
```
Some more text.

```ruby
Code block
```

Some more more text."
        .to_owned();
    let path = "test.md".to_owned();
    let doc = Document::with_delimiter(path.clone(), text.to_string(), None);
    let rule = MD046::new(CodeBlockStyle::Consistent);
    let actual = rule.check(&doc).unwrap();
    let expected: Vec<Violation> = vec![];
    assert_eq!(actual, expected);
}

#[test]
fn check_no_errors_with_consistent_indented() {
    let text = "Some text.

    Code block

Some more text.

    Code block

Some more more text."
        .to_owned();
    let path = "test.md".to_owned();
    let doc = Document::with_delimiter(path.clone(), text.to_string(), None);
    let rule = MD046::new(CodeBlockStyle::Consistent);
    let actual = rule.check(&doc).unwrap();
    let expected: Vec<Violation> = vec![];
    assert_eq!(actual, expected);
}
