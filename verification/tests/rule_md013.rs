use downlint::Document;
use downlint::Sourcepos;
use downlint::Violation;
use downlint::rule::MD013;

#[test]
fn md013_check_errors() {
    let text = "
IF THIS LINE IS THE MAXIMUM LENGTH
This line is a violation because there are spaces beyond that length"
        .to_owned();
    let path = "test.md".to_owned();
    let doc = Document::with_delimiter(path.clone(), text.to_string(), None);
    let rule = MD013::new(34, true, true);
    let actual = rule.check(&doc).unwrap();
    let expected = vec![rule.to_violation(path, Sourcepos::new(3, 35, 3, 68))];
    assert_eq!(actual, expected);
}

#[test]
fn check_errors_with_other_nodes() {
    let text = "
IF THIS LINE IS THE MAXIMUM LENGTH
This line is a violation because [there are spaces beyond that](https://example.com)
This line is a violation because `there are spaces beyond that`"
        .to_owned();
    let path = "test.md".to_owned();
    let doc = Document::with_delimiter(path.clone(), text.to_string(), None);
    let rule = MD013::new(34, true, true);
    let actual = rule.check(&doc).unwrap();
    let expected = vec![
        rule.to_violation(path.clone(), Sourcepos::new(3, 35, 3, 84)),
        rule.to_violation(path, Sourcepos::new(4, 35, 4, 63)),
    ];
    assert_eq!(actual, expected);
}

#[test]
fn check_errors_table() {
    let text = "
IF THIS LINE IS THE MAXIMUM LENGTH
| foo | bar | baz | foo | bar | baz |
|-----|-----|-----|-----|-----|-----|
| foo | bar | baz | foo | bar | baz |"
        .to_owned();
    let path = "test.md".to_owned();
    let doc = Document::with_delimiter(path.clone(), text.to_string(), None);
    let rule = MD013::new(34, true, true);
    let actual = rule.check(&doc).unwrap();
    let expected = vec![
        rule.to_violation(path.clone(), Sourcepos::new(3, 35, 3, 37)),
        rule.to_violation(path, Sourcepos::new(5, 35, 5, 37)),
    ];
    assert_eq!(actual, expected);
}

#[test]
fn check_errors_codeblock() {
    let text = "
IF THIS LINE IS THE MAXIMUM LENGTH

```ruby
puts 'This line is a violation because there are spaces beyond that length'
```"
    .to_owned();
    let path = "test.md".to_owned();
    let doc = Document::with_delimiter(path.clone(), text.to_string(), None);
    let rule = MD013::new(34, true, true);
    let actual = rule.check(&doc).unwrap();
    let expected = vec![rule.to_violation(path, Sourcepos::new(5, 35, 5, 75))];
    assert_eq!(actual, expected);
}

#[test]
fn md013_check_no_errors() {
    let text = "
IF THIS LINE IS THE MAXIMUM LENGTH
This line is okay because there are-no-spaces-beyond-that-length
This-line-is-okay-because-there-are-no-spaces-anywhere-within"
        .to_owned();
    let path = "test.md".to_owned();
    let doc = Document::with_delimiter(path.clone(), text.to_string(), None);
    let rule = MD013::new(34, true, true);
    let actual = rule.check(&doc).unwrap();
    let expected: Vec<Violation> = vec![];
    assert_eq!(actual, expected);
}

#[test]
fn check_no_errors_with_other_nodes() {
    let text = "
IF THIS LINE IS THE MAXIMUM LENGTH
This line is okay because there [are-no-spaces-beyond-that-length](https://example.com)
This line is okay because there `are-no-spaces-beyond-that-length`"
        .to_owned();
    let path = "test.md".to_owned();
    let doc = Document::with_delimiter(path.clone(), text.to_string(), None);
    let rule = MD013::new(34, true, true);
    let actual = rule.check(&doc).unwrap();
    let expected: Vec<Violation> = vec![];
    assert_eq!(actual, expected);
}

#[test]
fn check_no_errors_table() {
    let text = "
IF THIS LINE IS THE MAXIMUM LENGTH
|foo|bar|baz|foo|bar|baz|foo|bar|baz|foo|bar|baz|foo|bar|baz|foo|bar|baz|foo|bar|baz|
|---|---|---|---|---|---|---|---|---|---|---|---|---|---|---|---|---|---|---|---|---|
|foo|bar|baz|foo|bar|baz|foo|bar|baz|foo|bar|baz|foo|bar|baz|foo|bar|baz|foo|bar|baz|"
        .to_owned();
    let path = "test.md".to_owned();
    let doc = Document::with_delimiter(path.clone(), text.to_string(), None);
    let rule = MD013::new(34, true, true);
    let actual = rule.check(&doc).unwrap();
    let expected: Vec<Violation> = vec![];
    assert_eq!(actual, expected);
}

#[test]
fn check_no_errors_codeblock() {
    let text = "
IF THIS LINE IS THE MAXIMUM LENGTH

```ruby
puts 'This line is okay because there-are-no-spaces-beyond-that-length'
puts 'This-line-is-okay-because-there-are-no-spaces-anywhere-within'
```"
    .to_owned();
    let path = "test.md".to_owned();
    let doc = Document::with_delimiter(path.clone(), text.to_string(), None);
    let rule = MD013::new(34, true, true);
    let actual = rule.check(&doc).unwrap();
    let expected: Vec<Violation> = vec![];
    assert_eq!(actual, expected);
}
