use downlint::Document;
use downlint::Sourcepos;
use downlint::Violation;
use downlint::rule::MD034;

#[test]
fn md034_check_errors() {
    let text = "For more information, see http://www.example.com/.".to_owned();
    let path = "test.md".to_owned();
    let doc = Document::new(path.clone(), text);
    let rule = MD034::default();
    let actual = rule.check(&doc).unwrap();
    let expected = vec![rule.to_violation(path, Sourcepos::new(1, 27, 1, 50))];
    assert_eq!(actual, expected);
}

#[test]
fn check_no_errors_with_brackets() {
    let text = "For more information, see <http://www.example.com/>.".to_owned();
    let path = "test.md".to_owned();
    let doc = Document::new(path.clone(), text);
    let rule = MD034::default();
    let actual = rule.check(&doc).unwrap();
    let expected: Vec<Violation> = vec![];
    assert_eq!(actual, expected);
}

#[test]
fn md034_check_no_errors_with_link() {
    let text = "For more information, see [http://www.example.com/](http://www.example.com/)."
        .to_owned();
    let path = "test.md".to_owned();
    let doc = Document::new(path.clone(), text);
    let rule = MD034::default();
    let actual = rule.check(&doc).unwrap();
    let expected: Vec<Violation> = vec![];
    assert_eq!(actual, expected);
}

#[test]
fn md034_check_no_errors_with_code() {
    let text = "For more information, see `http://www.example.com/`.".to_owned();
    let path = "test.md".to_owned();
    let doc = Document::new(path.clone(), text);
    let rule = MD034::default();
    let actual = rule.check(&doc).unwrap();
    let expected: Vec<Violation> = vec![];
    assert_eq!(actual, expected);
}
