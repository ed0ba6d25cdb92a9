use downlint::Document;
use downlint::Sourcepos;
use downlint::Violation;
use downlint::rule::MD018;

#[test]
fn md018_check_errors() {
    let text = "#Header 1

##Header 2";
    let path = "test.md".to_owned();
    let doc = Document::with_delimiter(path.clone(), text.to_string(), None);
    let rule = MD018::default();
    let actual = rule.check(&doc).unwrap();
    let expected = vec![
        rule.to_violation(path.clone(), Sourcepos::new(1, 1, 1, 9)),
        rule.to_violation(path, Sourcepos::new(3, 1, 3, 10)),
    ];
    assert_eq!(actual, expected);
}

#[test]
fn md018_check_no_errors() {
    let text = "# Header 1

## Header 2";
    let path = "test.md".to_owned();
    let doc = Document::with_delimiter(path.clone(), text.to_string(), None);
    let rule = MD018::default();
    let actual = rule.check(&doc).unwrap();
    let expected: Vec<Violation> = vec![];
    assert_eq!(actual, expected);
}
