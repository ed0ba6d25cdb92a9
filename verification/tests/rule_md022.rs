use downlint::Document;
use downlint::Sourcepos;
use downlint::Violation;
use downlint::rule::MD022;

#[test]
fn md022_check_errors_for_atx() {
    let text = "# Header 1
Some text

Some more text
## Header 2
"
    .to_owned();
    let path = "test.md".to_owned();
    let doc = Document::new(path.clone(), text);
    let rule = MD022::new();
    let actual = rule.check(&doc).unwrap();
    let expected = vec![
        rule.to_violation(path.clone(), Sourcepos::new(1, 1, 1, 10)),
        rule.to_violation(path, Sourcepos::new(5, 1, 5, 11)),
    ];
    assert_eq!(actual, expected);
}

#[test]
fn md022_check_errors_for_setext() {
    let text = "Setext style H1
===============
Some text

```
Some code block
```
Setext style H2
---------------
"
    .to_owned();
    let path = "test.md".to_owned();
    let doc = Document::new(path.clone(), text);
    let rule = MD022::new();
    let actual = rule.check(&doc).unwrap();
    let expected = vec![
        rule.to_violation(path.clone(), Sourcepos::new(1, 1, 2, 15)),
        rule.to_violation(path, Sourcepos::new(8, 1, 9, 15)),
    ];
    assert_eq!(actual, expected);
}

#[test]
fn md022_check_no_errors() {
    let text = "# Header 1

Some text

Some more text

## Header 2
"
    .to_owned();
    let path = "test.md".to_owned();
    let doc = Document::new(path.clone(), text);
    let rule = MD022::new();
    let actual = rule.check(&doc).unwrap();
    let expected: Vec<Violation> = vec![];
    assert_eq!(actual, expected);
}

#[test]
fn md022_check_no_errors_for_setext() {
    let text = "Setext style H1
===============

Some text

```
Some code block
```

Setext style H2
---------------
"
    .to_owned();
    let path = "test.md".to_owned();
    let doc = Document::new(path.clone(), text);
    let rule = MD022::new();
    let actual = rule.check(&doc).unwrap();
    let expected: Vec<Violation> = vec![];
    assert_eq!(actual, expected);
}

#[test]
fn check_no_errors_for_list() {
    let text = "# Header 1

- Some list item
- Some more list item

## Header 2
"
    .to_owned();
    let path = "test.md".to_owned();
    let doc = Document::new(path.clone(), text);
    let rule = MD022::new();
    let actual = rule.check(&doc).unwrap();
    let expected: Vec<Violation> = vec![];
    assert_eq!(actual, expected);
}
