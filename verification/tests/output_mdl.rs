use downlint::Diagnostic;
use downlint::Sourcepos;
use downlint::Violation;
use downlint::output::Mdl;
use downlint::rule::Metadata;
use downlint::rule::Tag;

#[test]
fn mdl_writes_an_error_without_a_line_number() {
    colored::control::set_override(false);
    let error = Diagnostic::IoError(downlint::error::IoError::new("file.md".to_owned(), "denied".to_owned()));
    assert_eq!(Mdl::new(&error).to_string(), "file.md: denied");
    let failed =
        Diagnostic::LintError(downlint::error::LintError::new("file.md".to_owned(), "bad pattern".to_owned()));
    assert_eq!(Mdl::new(&failed).to_string(), "file.md: bad pattern");
    assert_eq!(Mdl::new(&failed).diagnostic(), &failed);
}

#[test]
fn mdl_orders_by_path_then_name_then_start() {
    let metadata = |name: &'static str| Metadata {
        name,
        description: "description",
        tags: vec![Tag::Headers],
        aliases: vec!["alias"],
    };
    let finding = |path: &str, name: &'static str, line: usize, end: usize| {
        Diagnostic::Violation(Violation::new(path.to_owned(), &metadata(name), Sourcepos::new(line, 1, line, end)))
    };
    let order = |a: &Diagnostic, b: &Diagnostic| Mdl::new(a).order(&Mdl::new(b));
    assert_eq!(order(&finding("a.md", "MD002", 9, 9), &finding("b.md", "MD001", 1, 1)), downlint::text::Order::Less);
    assert_eq!(order(&finding("a.md", "MD002", 1, 9), &finding("a.md", "MD001", 9, 1)), downlint::text::Order::Greater);
    assert_eq!(order(&finding("a.md", "MD001", 1, 9), &finding("a.md", "MD001", 2, 1)), downlint::text::Order::Less);
    assert_eq!(order(&finding("a.md", "MD001", 1, 9), &finding("a.md", "MD001", 1, 2)), downlint::text::Order::Equal);
    let error = Diagnostic::IoError(downlint::error::IoError::new("a.md".to_owned(), "denied".to_owned()));
    assert_eq!(order(&finding("a.md", "MD001", 1, 9), &error), downlint::text::Order::Less);
    assert_eq!(order(&error, &finding("a.md", "MD001", 1, 9)), downlint::text::Order::Greater);
}

#[test]
fn mdl_wrappers_are_equal_where_their_diagnostics_are() {
    let a = Diagnostic::IoError(downlint::error::IoError::new("a.md".to_owned(), "denied".to_owned()));
    let same = a.clone();
    let other = Diagnostic::IoError(downlint::error::IoError::new("b.md".to_owned(), "denied".to_owned()));
    assert_eq!(Mdl::new(&a), Mdl::new(&same));
    assert_ne!(Mdl::new(&a), Mdl::new(&other));
    assert_eq!(Mdl::new(&a).diagnostic(), &a);
}
