use downlint::command::check::report;
use downlint::config::lint::RuleSet;
use downlint::error::ConcurrencyError;
use downlint::error::IoError;
use downlint::output::Format;
use downlint::rule::MD001;
use downlint::service::runner::collect;
use downlint::service::runner::conclude;
use downlint::service::runner::into_diagnostics;
use downlint::service::runner::lint_document;
use downlint::service::runner::lint_text;
use downlint::service::runner::visit;
use downlint::service::runner::DEFAULT_CAPACITY;
use downlint::text::Order;
use downlint::Config;
use downlint::Diagnostic;
use downlint::Linter;
use downlint::Sourcepos;

fn linter() -> Linter {
    let mut config = Config::default();
    config.lint.rules = vec![RuleSet::MD001];
    Linter::new(&config)
}

fn skipped(path: &str, line: usize, end: usize) -> Diagnostic {
    Diagnostic::Violation(MD001::new().to_violation(path.to_owned(), Sourcepos::new(line, 1, line, end)))
}

#[test]
fn capacity_defaults_to_one_hundred_batches() {
    assert_eq!(DEFAULT_CAPACITY, 100);
}

#[test]
fn lint_text_reports_the_findings_of_a_text() {
    let batch = lint_text(&linter(), "a.md".to_owned(), "# H1\n\n### H3\n".to_owned());
    assert_eq!(batch, vec![skipped("a.md", 3, 6)]);
    assert_eq!(lint_text(&linter(), "a.md".to_owned(), "# H1\n".to_owned()), vec![]);
}

#[test]
fn lint_document_reports_the_findings_of_a_document() {
    let doc = downlint::Document::new("a.md".to_owned(), "# H1\n\n### H3\n".to_owned());
    assert_eq!(lint_document(&linter(), &doc), vec![skipped("a.md", 3, 6)]);
}

#[test]
fn visit_reports_the_findings_of_a_file() {
    let batch = visit(&linter(), "a.md".to_owned(), Ok(b"# H1\n\n### H3\n".to_vec()));
    assert_eq!(batch, vec![skipped("a.md", 3, 6)]);
}

#[test]
fn visit_reports_a_file_that_could_not_be_read() {
    let batch = visit(&linter(), "gone.md".to_owned(), Err("No such file or directory".to_owned()));
    let expected =
        vec![Diagnostic::IoError(IoError::new("gone.md".to_owned(), "No such file or directory".to_owned()))];
    assert_eq!(batch, expected);
}

#[test]
fn visit_reports_a_file_that_is_not_utf8() {
    let batch = visit(&linter(), "binary.md".to_owned(), Ok(vec![0xc3, 0x28]));
    let expected = vec![Diagnostic::IoError(IoError::new(
        "binary.md".to_owned(),
        "invalid utf-8 sequence of 1 bytes from index 0".to_owned(),
    ))];
    assert_eq!(batch, expected);
}

#[test]
fn into_diagnostics_keeps_the_order() {
    let rule = MD001::new();
    let violations = vec![
        rule.to_violation("a.md".to_owned(), Sourcepos::new(3, 1, 3, 6)),
        rule.to_violation("a.md".to_owned(), Sourcepos::new(1, 1, 1, 6)),
        rule.to_violation("a.md".to_owned(), Sourcepos::new(2, 1, 2, 6)),
    ];
    let expected = vec![skipped("a.md", 3, 6), skipped("a.md", 1, 6), skipped("a.md", 2, 6)];
    assert_eq!(into_diagnostics(violations), expected);
}

#[test]
fn collect_joins_the_batches_as_they_arrived() {
    let batches = vec![
        vec![skipped("b.md", 3, 6), skipped("b.md", 5, 6)],
        vec![],
        vec![skipped("a.md", 3, 6)],
    ];
    let expected = vec![skipped("b.md", 3, 6), skipped("b.md", 5, 6), skipped("a.md", 3, 6)];
    assert_eq!(collect(batches), expected);
    assert_eq!(collect(vec![]), vec![]);
}

#[test]
fn conclude_hands_the_collection_on() {
    let collected = vec![skipped("a.md", 3, 6)];
    assert_eq!(conclude(Ok(collected.clone())), Ok(collected));
}

#[test]
fn conclude_fails_where_the_collector_could_not_be_joined() {
    let result = conclude(Err("Failed to join thread.".to_owned()));
    assert_eq!(result, Err(ConcurrencyError::new("Failed to join thread.".to_owned())));
    assert_eq!(result.unwrap_err().message(), "Failed to join thread.");
}

#[test]
fn diagnostics_are_ordered_by_path_then_kind() {
    let finding = skipped("a.md", 3, 6);
    let later = skipped("a.md", 4, 6);
    let unreadable = Diagnostic::IoError(IoError::new("a.md".to_owned(), "denied".to_owned()));
    let other = Diagnostic::IoError(IoError::new("0.md".to_owned(), "denied".to_owned()));
    assert_eq!(finding.order(&later), Order::Less);
    assert_eq!(finding.order(&unreadable), Order::Less);
    assert_eq!(unreadable.order(&finding), Order::Greater);
    assert_eq!(other.order(&finding), Order::Less);
    assert_eq!(unreadable.order(&unreadable.clone()), Order::Equal);
    assert_eq!(unreadable.path(), "a.md");
    assert_eq!(unreadable.message(), "denied");
    assert_eq!(finding.message(), "");
    assert_eq!(finding.kind(), 0);
    assert_eq!(unreadable.kind(), 1);
}

#[test]
fn run_over_files_with_one_unreadable_reports_the_others_and_the_error() {
    colored::control::set_override(false);
    let linter = linter();
    let batches = vec![
        visit(&linter, "c.md".to_owned(), Ok(b"# H1\n\n### H3\n".to_vec())),
        visit(&linter, "b.md".to_owned(), Err("Permission denied".to_owned())),
        visit(&linter, "a.md".to_owned(), Ok(b"## H2\n\n#### H4\n".to_vec())),
    ];
    let collected = conclude(Ok(collect(batches))).unwrap();
    assert_eq!(collected.len(), 3);
    assert!(collected.contains(&skipped("a.md", 3, 7)));
    assert!(collected.contains(&skipped("c.md", 3, 6)));
    assert!(collected
        .contains(&Diagnostic::IoError(IoError::new("b.md".to_owned(), "Permission denied".to_owned()))));
    let outcome = report(collected, Format::Mdl);
    assert!(!outcome.success);
    let expected = vec![
        "a.md:3: MD001 Header levels should only increment by one level at a time".to_owned(),
        "b.md: Permission denied".to_owned(),
        "c.md:3: MD001 Header levels should only increment by one level at a time".to_owned(),
        "\nFound 3 errors.".to_owned(),
    ];
    assert_eq!(outcome.lines, expected);
}

#[test]
fn report_does_not_depend_on_the_order_of_arrival() {
    colored::control::set_override(false);
    let linter = linter();
    let a = visit(&linter, "a.md".to_owned(), Ok(b"# H1\n\n### H3\n\n##### H5\n".to_vec()));
    let b = visit(&linter, "b.md".to_owned(), Ok(b"# H1\n\n### H3\n".to_vec()));
    let c = visit(&linter, "c.md".to_owned(), Err("denied".to_owned()));
    let one = collect(vec![a.clone(), b.clone(), c.clone()]);
    let other = collect(vec![c, b, a]);
    assert_ne!(one, other);
    assert_eq!(report(one, Format::Mdl), report(other, Format::Mdl));
}
