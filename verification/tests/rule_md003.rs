use downlint::Document;
use downlint::Sourcepos;
use downlint::Violation;
use downlint::rule::MD003;
use downlint::rule::md003::HeadingStyle;

#[test]
fn md003_check_errors_for_consistent() {
    let text = "# ATX style H1

## Closed ATX style H2 ##

Setext style H1
==============="
        .to_owned();
    let path = "test.md".to_owned();
    let doc = Document::new(path.clone(), text);
    let rule = MD003::default();
    let actual = rule.check(&doc).unwrap();
    let expected = vec![
        rule.to_violation(path.clone(), Sourcepos::new(3, 1, 3, 25)),
        rule.to_violation(path, Sourcepos::new(5, 1, 6, 15)),
    ];
    assert_eq!(actual, expected);
}

#[test]
fn md003_check_errors_for_atx() {
    let text = "# ATX style H1

## Closed ATX style H2 ##

Setext style H1
==============="
        .to_owned();
    let path = "test.md".to_owned();
    let doc = Document::new(path.clone(), text);
    let rule = MD003::new(HeadingStyle::Atx);
    let actual = rule.check(&doc).unwrap();
    let expected = vec![
        rule.to_violation(path.clone(), Sourcepos::new(3, 1, 3, 25)),
        rule.to_violation(path, Sourcepos::new(5, 1, 6, 15)),
    ];
    assert_eq!(actual, expected);
}

#[test]
fn check_errors_for_atx_closed() {
    let text = "# ATX style H1

## Closed ATX style H2 ##

Setext style H1
==============="
        .to_owned();
    let path = "test.md".to_owned();
    let doc = Document::new(path.clone(), text);
    let rule = MD003::new(HeadingStyle::AtxClosed);
    let actual = rule.check(&doc).unwrap();
    let expected = vec![
        rule.to_violation(path.clone(), Sourcepos::new(1, 1, 1, 14)),
        rule.to_violation(path, Sourcepos::new(5, 1, 6, 15)),
    ];
    assert_eq!(actual, expected);
}

#[test]
fn md003_check_errors_for_setext() {
    let text = "# ATX style H1

## Closed ATX style H2 ##

Setext style H1
==============="
        .to_owned();
    let path = "test.md".to_owned();
    let doc = Document::new(path.clone(), text);
    let rule = MD003::new(HeadingStyle::Setext);
    let actual = rule.check(&doc).unwrap();
    let expected = vec![
        rule.to_violation(path.clone(), Sourcepos::new(1, 1, 1, 14)),
        rule.to_violation(path.clone(), Sourcepos::new(3, 1, 3, 25)),
    ];
    assert_eq!(actual, expected);
}

#[test]
fn check_errors_for_setext_with_atx() {
    let text = "# ATX style H1

## ATX style H2

### ATX style H3"
        .to_owned();
    let path = "test.md".to_owned();
    let doc = Document::new(path.clone(), text);
    let rule = MD003::new(HeadingStyle::SetextWithAtx);
    let actual = rule.check(&doc).unwrap();
    let expected = vec![
        rule.to_violation(path.clone(), Sourcepos::new(1, 1, 1, 14)),
        rule.to_violation(path, Sourcepos::new(3, 1, 3, 15)),
    ];
    assert_eq!(actual, expected);
}

#[test]
fn md003_check_no_errors_for_consistent() {
    let text = "# ATX style H1

## ATX style H2"
        .to_owned();
    let path = "test.md".to_owned();
    let doc = Document::new(path.clone(), text);
    let rule = MD003::default();
    let actual = rule.check(&doc).unwrap();
    let expected: Vec<Violation> = vec![];
    assert_eq!(actual, expected);
}

#[test]
fn check_no_errors_for_atx() {
    let text = "# ATX style H1

## ATX style H2"
        .to_owned();
    let path = "test.md".to_owned();
    let doc = Document::new(path.clone(), text);
    let rule = MD003::new(HeadingStyle::Atx);
    let actual = rule.check(&doc).unwrap();
    let expected: Vec<Violation> = vec![];
    assert_eq!(actual, expected);
}

#[test]
fn check_no_errors_for_atx_closed() {
    let text = "# ATX style H1 #

## ATX style H2 ##"
        .to_owned();
    let path = "test.md".to_owned();
    let doc = Document::new(path.clone(), text);
    let rule = MD003::new(HeadingStyle::AtxClosed);
    let actual = rule.check(&doc).unwrap();
    let expected: Vec<Violation> = vec![];
    assert_eq!(actual, expected);
}

#[test]
fn md003_check_no_errors_for_setext() {
    let text = "Setext style H1
===============

Setext style H2
---------------"
        .to_owned();
    let path = "test.md".to_owned();
    let doc = Document::new(path.clone(), text);
    let rule = MD003::new(HeadingStyle::Setext);
    let actual = rule.check(&doc).unwrap();
    let expected: Vec<Violation> = vec![];
    assert_eq!(actual, expected);
}

#[test]
fn check_no_errors_for_setext_with_atx() {
    let text = "Setext style H1
===============

Setext style H2
---------------

### ATX style H3"
        .to_owned();
    let path = "test.md".to_owned();
    let doc = Document::new(path.clone(), text);
    let rule = MD003::new(HeadingStyle::SetextWithAtx);
    let actual = rule.check(&doc).unwrap();
    let expected: Vec<Violation> = vec![];
    assert_eq!(actual, expected);
}

#[test]
fn check_no_errors_with_front_matter() {
    let text = r#"---
author: "John Smith"
---

# Header 1"#
        .to_owned();
    let path = "test.md".to_owned();
    let doc = Document::new(path.clone(), text);
    let rule = MD003::new(HeadingStyle::Consistent);
    let actual = rule.check(&doc).unwrap();
    let expected: Vec<Violation> = vec![];
    assert_eq!(actual, expected);
}
