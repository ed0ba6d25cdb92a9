use downlint::Document;
use downlint::Sourcepos;
use downlint::Violation;
use downlint::rule::MD039;

#[test]
fn md039_check_errors() {
    let text = "[ a link ](http://www.example.com/)
[a link ](http://www.example.com/)
[ a link](http://www.example.com/)
"
    .to_owned();
    let path = "test.md".to_owned();
    let doc = Document::new(path.clone(), text);
    let rule = MD039::new();
    let actual = rule.check(&doc).unwrap();
    let expected = vec![
        rule.to_violation(path.clone(), Sourcepos::new(1, 2, 1, 9)),
        rule.to_violation(path.clone(), Sourcepos::new(2, 2, 2, 8)),
        rule.to_violation(path, Sourcepos::new(3, 2, 3, 8)),
    ];
    assert_eq!(actual, expected);
}

#[test]
fn check_errors_code() {
    let text = "[ a `link` ](http://www.example.com/)
[ `link` ](http://www.example.com)
[`link` ](http://www.example.com)
[ `link`](http://www.example.com)
"
    .to_owned();
    let path = "test.md".to_owned();
    let doc = Document::new(path.clone(), text);
    let rule = MD039::new();
    let actual = rule.check(&doc).unwrap();
    let expected = vec![
        rule.to_violation(path.clone(), Sourcepos::new(1, 2, 1, 4)),
        rule.to_violation(path.clone(), Sourcepos::new(2, 2, 2, 2)),
        rule.to_violation(path.clone(), Sourcepos::new(3, 8, 3, 8)),
        rule.to_violation(path, Sourcepos::new(4, 2, 4, 2)),
    ];
    assert_eq!(actual, expected);
}

#[test]
fn md039_check_no_errors() {
    let text = "[a link](http://www.example.com/)".to_owned();
    let path = "test.md".to_owned();
    let doc = Document::new(path.clone(), text);
    let rule = MD039::new();
    let actual = rule.check(&doc).unwrap();
    let expected: Vec<Violation> = vec![];
    assert_eq!(actual, expected);
}

#[test]
fn check_no_errors_url() {
    let text = "[a link]( http://www.example.com/ )".to_owned();
    let path = "test.md".to_owned();
    let doc = Document::new(path.clone(), text);
    let rule = MD039::new();
    let actual = rule.check(&doc).unwrap();
    let expected: Vec<Violation> = vec![];
    assert_eq!(actual, expected);
}

#[test]
fn check_no_errors_bracket() {
    let text = "< http://www.example.com/ >".to_owned();
    let path = "test.md".to_owned();
    let doc = Document::new(path.clone(), text);
    let rule = MD039::new();
    let actual = rule.check(&doc).unwrap();
    let expected: Vec<Violation> = vec![];
    assert_eq!(actual, expected);
}

#[test]
fn check_no_errors_code() {
    let text = "[a `link`](http://www.example.com)
[`link`](http://www.example.com)
"
    .to_owned();
    let path = "test.md".to_owned();
    let doc = Document::new(path.clone(), text);
    let rule = MD039::new();
    let actual = rule.check(&doc).unwrap();
    let expected: Vec<Violation> = vec![];
    assert_eq!(actual, expected);
}
