use downlint::command::check::report;
use downlint::error::IoError;
use downlint::error::LintError;
use downlint::output::write_line;
use downlint::output::Concise;
use downlint::output::Format;
use downlint::output::Markdownlint;
use downlint::rule::MD001;
use downlint::Diagnostic;
use downlint::Sourcepos;

fn finding() -> Diagnostic {
    Diagnostic::Violation(MD001::new().to_violation("docs/a.md".to_owned(), Sourcepos::new(12, 3, 12, 9)))
}

#[test]
fn concise_writes_line_and_column() {
    colored::control::set_override(false);
    let expected = "docs/a.md:12:3: MD001 Header levels should only increment by one level at a time";
    assert_eq!(Concise::new(&finding()).to_string(), expected);
    assert_eq!(write_line(&finding(), Format::Concise), expected);
    assert_eq!(Concise::new(&finding()).diagnostic(), &finding());
}

#[test]
fn markdownlint_writes_the_alias_of_the_rule() {
    colored::control::set_override(false);
    let expected =
        "docs/a.md:12:3 MD001/header-increment Header levels should only increment by one level at a time";
    assert_eq!(Markdownlint::new(&finding()).to_string(), expected);
    assert_eq!(write_line(&finding(), Format::Markdownlint), expected);
    assert_eq!(Markdownlint::new(&finding()).diagnostic(), &finding());
}

#[test]
fn errors_are_written_with_their_message_in_every_style() {
    colored::control::set_override(false);
    let unreadable = Diagnostic::IoError(IoError::new("a.md".to_owned(), "denied".to_owned()));
    let failed = Diagnostic::LintError(LintError::new("b.md".to_owned(), "bad pattern".to_owned()));
    for format in [Format::Concise, Format::Mdl, Format::Markdownlint] {
        assert_eq!(write_line(&unreadable, format), "a.md: denied");
        assert_eq!(write_line(&failed, format), "b.md: bad pattern");
    }
}

#[test]
fn mdl_style_writes_the_line_only() {
    colored::control::set_override(false);
    let expected = "docs/a.md:12: MD001 Header levels should only increment by one level at a time";
    assert_eq!(write_line(&finding(), Format::Mdl), expected);
}

#[test]
fn report_writes_in_the_given_style() {
    colored::control::set_override(false);
    let lines = |format: Format| report(vec![finding()], format).lines;
    assert_eq!(lines(Format::Concise)[0], write_line(&finding(), Format::Concise));
    assert_eq!(lines(Format::Mdl)[0], write_line(&finding(), Format::Mdl));
    assert_eq!(lines(Format::Markdownlint)[0], write_line(&finding(), Format::Markdownlint));
    assert_eq!(lines(Format::Concise)[1], "\nFound 1 error.");
}
