use downlint::command::check::report;
use downlint::command::check::succeeded;
use downlint::command::check::summary;
use downlint::command::check::Options;
use downlint::output::Format;
use downlint::rule::MD001;
use downlint::Config;
use downlint::Diagnostic;
use downlint::Sourcepos;

#[test]
fn summary_tells_one_error_from_many() {
    assert_eq!(summary(0), "All checks passed!");
    assert_eq!(summary(1), "Found 1 error.");
    assert_eq!(summary(2), "Found 2 errors.");
    assert_eq!(summary(120), "Found 120 errors.");
}

#[test]
fn run_succeeds_without_findings_only() {
    assert!(succeeded(0));
    assert!(!succeeded(1));
    assert!(!succeeded(usize::MAX));
}

#[test]
fn options_override_the_output_format() {
    let options = Options { config_path: None, output_format: Some(Format::Mdl) };
    let actual = options.apply(Config::default());
    let mut expected = Config::default();
    expected.lint.output_format = Format::Mdl;
    assert_eq!(actual, expected);
}

#[test]
fn options_without_format_keep_the_configuration() {
    let options = Options { config_path: Some("mado.toml".to_owned()), output_format: None };
    let mut loaded = Config::default();
    loaded.lint.output_format = Format::Markdownlint;
    loaded.lint.md013.line_length = 120;
    assert_eq!(options.apply(loaded.clone()), loaded);
    assert_eq!(Config::default().lint.output_format, Format::Concise);
    assert_eq!(Format::default(), Format::Concise);
}

#[test]
fn report_without_findings_says_that_all_checks_passed() {
    let outcome = report(vec![], Format::Concise);
    assert!(outcome.success);
    assert_eq!(outcome.lines, vec!["All checks passed!".to_owned()]);
}

#[test]
fn report_with_one_finding_fails() {
    colored::control::set_override(false);
    let finding = Diagnostic::Violation(MD001::new().to_violation("a.md".to_owned(), Sourcepos::new(3, 1, 3, 6)));
    let outcome = report(vec![finding], Format::Mdl);
    assert!(!outcome.success);
    let expected = vec![
        "a.md:3: MD001 Header levels should only increment by one level at a time".to_owned(),
        "\nFound 1 error.".to_owned(),
    ];
    assert_eq!(outcome.lines, expected);
}
