use downlint::Document;
use downlint::Sourcepos;
use downlint::Violation;
use downlint::rule::MD035;
use downlint::rule::md035::HorizontalRuleStyle;

#[test]
fn md035_check_errors_for_consistent() {
    let text = "---

- - -

***

* * *

****"
        .to_owned();
    let path = "test.md".to_owned();
    let doc = Document::with_delimiter(path.clone(), text.to_string(), None);
    let rule = MD035::default();
    let actual = rule.check(&doc).unwrap();
    let expected = vec![
        rule.to_violation(path.clone(), Sourcepos::new(3, 1, 3, 5)),
        rule.to_violation(path.clone(), Sourcepos::new(5, 1, 5, 3)),
        rule.to_violation(path.clone(), Sourcepos::new(7, 1, 7, 5)),
        rule.to_violation(path, Sourcepos::new(9, 1, 9, 4)),
    ];
    assert_eq!(actual, expected);
}

#[test]
fn check_errors_for_custom() {
    let text = "---

- - -

***

* * *

****"
        .to_owned();
    let path = "test.md".to_owned();
    let doc = Document::with_delimiter(path.clone(), text.to_string(), None);
    let rule = MD035::new(HorizontalRuleStyle::Custom("***".to_owned()));
    let actual = rule.check(&doc).unwrap();
    let expected = vec![
        rule.to_violation(path.clone(), Sourcepos::new(1, 1, 1, 3)),
        rule.to_violation(path.clone(), Sourcepos::new(3, 1, 3, 5)),
        rule.to_violation(path.clone(), Sourcepos::new(7, 1, 7, 5)),
        rule.to_violation(path, Sourcepos::new(9, 1, 9, 4)),
    ];
    assert_eq!(actual, expected);
}

#[test]
fn md035_check_no_errors_for_consistent() {
    let text = "---

---"
    .to_owned();
    let path = "test.md".to_owned();
    let doc = Document::with_delimiter(path.clone(), text.to_string(), None);
    let rule = MD035::default();
    let actual = rule.check(&doc).unwrap();
    let expected: Vec<Violation> = vec![];
    assert_eq!(actual, expected);
}

#[test]
fn check_no_errors_for_custom() {
    let text = "***

***"
    .to_owned();
    let path = "test.md".to_owned();
    let doc = Document::with_delimiter(path.clone(), text.to_string(), None);
    let rule = MD035::new(HorizontalRuleStyle::Custom("***".to_owned()));
    let actual = rule.check(&doc).unwrap();
    let expected: Vec<Violation> = vec![];
    assert_eq!(actual, expected);
}
