use downlint::Document;
use downlint::Sourcepos;
use downlint::Violation;
use downlint::rule::MD021;

#[test]
fn md021_check_errors() {
    let text = "#  Header 1  #

## Header 2  ##

##  Header 3 ##"
        .to_owned();
    let path = "test.md".to_owned();
    let doc = Document::new(path.clone(), text);
    let rule = MD021::new();
    let actual = rule.check(&doc).unwrap();
    let expected = vec![
        rule.to_violation(path.clone(), Sourcepos::new(1, 1, 1, 14)),
        rule.to_violation(path.clone(), Sourcepos::new(3, 1, 3, 15)),
        rule.to_violation(path, Sourcepos::new(5, 1, 5, 15)),
    ];
    assert_eq!(actual, expected);
}

#[test]
fn md021_check_no_errors() {
    let text = "# Header 1 #

## Header 2 ##"
        .to_owned();
    let path = "test.md".to_owned();
    let doc = Document::new(path.clone(), text);
    let rule = MD021::new();
    let actual = rule.check(&doc).unwrap();
    let expected: Vec<Violation> = vec![];
    assert_eq!(actual, expected);
}

#[test]
fn check_no_errors_with_escaped_hash() {
    let text = "#  Header 1  \\#

\\##  Header 2  ##

## Header 3  \\##

\\## Header 4  ##

##  Header 5 \\##

\\##  Header 6 ##"
        .to_owned();
    let path = "test.md".to_owned();
    let doc = Document::new(path.clone(), text);
    let rule = MD021::default();
    let actual = rule.check(&doc).unwrap();
    let expected: Vec<Violation> = vec![];
    assert_eq!(actual, expected);
}

#[test]
fn md021_check_no_errors_with_atx() {
    let text = "#  Header 1

##  Header 2"
        .to_owned();
    let path = "test.md".to_owned();
    let doc = Document::new(path.clone(), text);
    let rule = MD021::new();
    let actual = rule.check(&doc).unwrap();
    let expected: Vec<Violation> = vec![];
    assert_eq!(actual, expected);
}

#[test]
fn md021_check_no_errors_with_setext() {
    let text = "  Header 1
========"
        .to_owned();
    let path = "test.md".to_owned();
    let doc = Document::new(path.clone(), text);
    let rule = MD021::new();
    let actual = rule.check(&doc).unwrap();
    let expected: Vec<Violation> = vec![];
    assert_eq!(actual, expected);
}

#[test]
fn md021_check_no_errors_for_multiple_children() {
    let text = "# Header with `code` and text #".to_owned();
    let path = "test.md".to_owned();
    let doc = Document::new(path.clone(), text);
    let rule = MD021::new();
    let actual = rule.check(&doc).unwrap();
    let expected: Vec<Violation> = vec![];
    assert_eq!(actual, expected);
}
