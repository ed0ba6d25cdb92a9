use downlint::Document;
use downlint::Sourcepos;
use downlint::Violation;
use downlint::rule::MD038;

#[test]
fn md038_check_errors() {
    let text = "` some text `

`some text `

` some text`"
        .to_owned();
    let path = "test.md".to_owned();
    let doc = Document::with_delimiter(path.clone(), text.to_string(), None);
    let rule = MD038::new();
    let actual = rule.check(&doc).unwrap();
    let expected = vec![
        rule.to_violation(path.clone(), Sourcepos::new(1, 2, 1, 12)),
        rule.to_violation(path.clone(), Sourcepos::new(3, 2, 3, 11)),
        rule.to_violation(path, Sourcepos::new(5, 2, 5, 11)),
    ];
    assert_eq!(actual, expected);
}

#[test]
fn md038_check_no_errors() {
    let text = "`some text`".to_owned();
    let path = "test.md".to_owned();
    let doc = Document::with_delimiter(path.clone(), text.to_string(), None);
    let rule = MD038::new();
    let actual = rule.check(&doc).unwrap();
    let expected: Vec<Violation> = vec![];
    assert_eq!(actual, expected);
}
