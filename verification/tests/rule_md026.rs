use downlint::Document;
use downlint::Sourcepos;
use downlint::Violation;
use downlint::rule::MD026;

#[test]
fn md026_check_errors() {
    let text = "# This is a header.".to_owned();
    let path = "test.md".to_owned();
    let doc = Document::with_delimiter(path.clone(), text.to_string(), None);
    let rule = MD026::default();
    let actual = rule.check(&doc).unwrap();
    let expected = vec![rule.to_violation(path.clone(), Sourcepos::new(1, 1, 1, 19))];
    assert_eq!(actual, expected);
}

#[test]
fn check_errors_with_link() {
    let text = "# [This is a header](http://example.com).".to_owned();
    let path = "test.md".to_owned();
    let doc = Document::with_delimiter(path.clone(), text.to_string(), None);
    let rule = MD026::default();
    let actual = rule.check(&doc).unwrap();
    let expected = vec![rule.to_violation(path.clone(), Sourcepos::new(1, 1, 1, 41))];
    assert_eq!(actual, expected);
}

#[test]
fn check_errors_with_code() {
    let text = "# `This is a header`.".to_owned();
    let path = "test.md".to_owned();
    let doc = Document::with_delimiter(path.clone(), text.to_string(), None);
    let rule = MD026::default();
    let actual = rule.check(&doc).unwrap();
    let expected = vec![rule.to_violation(path.clone(), Sourcepos::new(1, 1, 1, 21))];
    assert_eq!(actual, expected);
}

#[test]
fn check_errors_with_emph() {
    let text = "# *This is a header*.".to_owned();
    let path = "test.md".to_owned();
    let doc = Document::with_delimiter(path.clone(), text.to_string(), None);
    let rule = MD026::default();
    let actual = rule.check(&doc).unwrap();
    let expected = vec![rule.to_violation(path.clone(), Sourcepos::new(1, 1, 1, 21))];
    assert_eq!(actual, expected);
}

#[test]
fn md026_check_no_errors() {
    let text = "# This is a header".to_owned();
    let path = "test.md".to_owned();
    let doc = Document::with_delimiter(path.clone(), text.to_string(), None);
    let rule = MD026::default();
    let actual = rule.check(&doc).unwrap();
    let expected: Vec<Violation> = vec![];
    assert_eq!(actual, expected);
}

#[test]
fn md026_check_no_errors_with_link() {
    let text = "# [This is a header.](http://example.com)".to_owned();
    let path = "test.md".to_owned();
    let doc = Document::with_delimiter(path.clone(), text.to_string(), None);
    let rule = MD026::default();
    let actual = rule.check(&doc).unwrap();
    let expected: Vec<Violation> = vec![];
    assert_eq!(actual, expected);
}

#[test]
fn md026_check_no_errors_with_code() {
    let text = "# `This is a header.`".to_owned();
    let path = "test.md".to_owned();
    let doc = Document::with_delimiter(path.clone(), text.to_string(), None);
    let rule = MD026::default();
    let actual = rule.check(&doc).unwrap();
    let expected: Vec<Violation> = vec![];
    assert_eq!(actual, expected);
}

#[test]
fn check_no_errors_with_emph() {
    let text = "# *This is a header.*".to_owned();
    let path = "test.md".to_owned();
    let doc = Document::with_delimiter(path.clone(), text.to_string(), None);
    let rule = MD026::default();
    let actual = rule.check(&doc).unwrap();
    let expected: Vec<Violation> = vec![];
    assert_eq!(actual, expected);
}
