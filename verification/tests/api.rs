use downlint::collection::reversed;
use downlint::config::lint;
use downlint::config::lint::RuleSet;
use downlint::config::Lint;
use downlint::output::Format;
use downlint::rule::md003::HeadingStyle;
use downlint::rule::md029::OrderedListStyle;
use downlint::rule::md034::link_positions_of;
use downlint::rule::md035::HorizontalRuleStyle;
use downlint::rule::md046::CodeBlockStyle;
use downlint::rule::RuleLike;
use downlint::rule::Tag;
use downlint::rule::MD001;
use downlint::rule::MD002;
use downlint::rule::MD007;
use downlint::rule::MD013;
use downlint::rule::MD025;
use downlint::rule::MD026;
use downlint::rule::MD029;
use downlint::rule::MD033;
use downlint::rule::MD035;
use downlint::rule::MD036;
use downlint::rule::MD041;
use downlint::rule::MD046;
use downlint::sorting::sort;
use downlint::Config;
use downlint::Diagnostic;
use downlint::Document;
use downlint::LineColumn;
use downlint::Rule;
use downlint::Sourcepos;
use downlint::Violation;

fn findings_of<R: RuleLike>(rule: &R, doc: &Document) -> Vec<Violation> {
    rule.check(doc).unwrap()
}

#[test]
fn rules_are_checked_through_the_trait() {
    let path = "a.md".to_owned();
    let doc = Document::new(path.clone(), "# H1\n\n### H3\n".to_owned());
    let rule = MD001::new();
    let expected = vec![RuleLike::to_violation(&rule, path, Sourcepos::new(3, 1, 3, 6))];
    assert_eq!(findings_of(&rule, &doc), expected);
    assert_eq!(findings_of(&Rule::MD001(MD001::new()), &doc), expected);
    assert_eq!(RuleLike::metadata(&rule).aliases, vec!["header-increment"]);
}

#[test]
fn rule_dispatches_to_the_rule_it_holds() {
    let path = "a.md".to_owned();
    let doc = Document::new(path.clone(), "## H2\n".to_owned());
    let rule = Rule::MD002(MD002::default());
    assert_eq!(rule.metadata().name, "MD002");
    assert_eq!(rule.metadata().description, "First header should be a top level header");
    assert_eq!(rule.metadata().tags, vec![Tag::Headers]);
    let expected = vec![MD002::default().to_violation(path, Sourcepos::new(1, 1, 1, 5))];
    assert_eq!(rule.check(&doc).unwrap(), expected);
    assert_eq!(Rule::MD002(MD002::new(2)).check(&doc).unwrap(), vec![]);
}

#[test]
fn rules_have_their_default_parameters() {
    assert_eq!(MD002::default(), MD002::new(1));
    assert_eq!(MD007::default(), MD007::new(4));
    assert_eq!(MD013::default(), MD013::new(80, true, true));
    assert_eq!(MD025::default(), MD025::new(1));
    assert_eq!(MD026::default(), MD026::new(".,;:!?".to_owned()));
    assert_eq!(MD029::default(), MD029::new(OrderedListStyle::One));
    assert_eq!(MD033::default(), MD033::new(&[]));
    assert_eq!(MD035::default(), MD035::new(HorizontalRuleStyle::Consistent));
    assert_eq!(MD036::default(), MD036::new(".,;:!?".to_owned()));
    assert_eq!(MD041::default(), MD041::new(1));
    assert_eq!(MD046::default(), MD046::new(CodeBlockStyle::Fenced));
    assert_eq!(MD002::DEFAULT_LEVEL, 1);
    assert_eq!(MD013::DEFAULT_LINE_LENGTH, 80);
    assert_eq!(MD026::DEFAULT_PUNCTUATION, ".,;:!?");
}

#[test]
fn configuration_has_its_default_parameters() {
    let lint = Lint::default();
    assert_eq!(lint.output_format, Format::Concise);
    assert_eq!(lint.md002, lint::MD002 { level: 1 });
    assert_eq!(lint.md003, lint::MD003 { style: HeadingStyle::Consistent });
    assert_eq!(lint.md007, lint::MD007 { indent: 4 });
    assert_eq!(lint.md013, lint::MD013 { line_length: 80, code_blocks: true, tables: true });
    assert_eq!(lint.md025, lint::MD025 { level: 1 });
    assert_eq!(lint.md026, lint::MD026 { punctuation: ".,;:!?".to_owned() });
    assert_eq!(lint.md029, lint::MD029 { style: OrderedListStyle::One });
    assert_eq!(lint.md033, lint::MD033 { allowed_elements: vec![] });
    assert_eq!(lint.md035, lint::MD035 { style: HorizontalRuleStyle::Consistent });
    assert_eq!(lint.md036, lint::MD036 { punctuation: ".,;:!?".to_owned() });
    assert_eq!(lint.md041, lint::MD041 { level: 1 });
    assert_eq!(lint.md046, lint::MD046 { style: CodeBlockStyle::Fenced });
    assert_eq!(lint.rules[1], RuleSet::MD002);
    assert_eq!(Config::default().lint, lint);
}

#[test]
fn long_line_gives_the_span_behind_the_length() {
    let rule = MD013::new(10, true, true);
    assert_eq!(rule.long_line(3, 12, true), Some(Sourcepos::new(3, 11, 3, 12)));
    assert_eq!(rule.long_line(3, 12, false), None);
    assert_eq!(rule.long_line(3, 10, true), None);
}

#[test]
fn raw_html_is_flagged_by_the_names_of_its_elements() {
    let rule = MD033::new(&["br".to_owned()]);
    let names = |list: &[&str]| list.iter().map(|name| (*name).to_owned()).collect::<Vec<String>>();
    assert!(!rule.is_flagged_among("<br>", &names(&["html", "br"])));
    assert!(rule.is_flagged_among("<br><p>", &names(&["html", "br", "p"])));
    assert!(rule.is_flagged_among("<html>", &names(&["html"])));
    assert!(!MD033::new(&["html".to_owned()]).is_flagged_among("<html>", &names(&["html"])));
    assert!(!rule.is_flagged_among("text", &names(&[])));
}

#[test]
fn links_lie_on_the_line_of_their_text() {
    let origin = LineColumn::new(4, 3);
    let positions = link_positions_of(origin, &vec![(0, 19), (24, 30)]);
    assert_eq!(positions, vec![Sourcepos::new(4, 3, 4, 22), Sourcepos::new(4, 27, 4, 33)]);
    assert_eq!(link_positions_of(origin, &vec![]), vec![]);
    assert_eq!(LineColumn::new(1, usize::MAX).column_add(2), LineColumn::new(1, usize::MAX));
    assert!(LineColumn::new(1, 9).is_before(&LineColumn::new(2, 1)));
    assert!(!LineColumn::new(2, 1).is_before(&LineColumn::new(2, 1)));
}

#[test]
fn style_of_horizontal_rules_is_copied() {
    let style = HorizontalRuleStyle::Custom("***".to_owned());
    assert_eq!(style.duplicate(), style);
    assert_eq!(HorizontalRuleStyle::Consistent.duplicate(), HorizontalRuleStyle::Consistent);
}

#[test]
fn lists_are_reversed_and_sorted() {
    assert_eq!(reversed(vec![1, 2, 3]), vec![3, 2, 1]);
    assert_eq!(reversed(Vec::<u8>::new()), Vec::<u8>::new());
    let rule = MD001::new();
    let finding = |path: &str, line: usize| {
        Diagnostic::Violation(rule.to_violation(path.to_owned(), Sourcepos::new(line, 1, line, 2)))
    };
    let sorted = sort(vec![finding("b.md", 1), finding("a.md", 2), finding("a.md", 1)]);
    assert_eq!(sorted, vec![finding("a.md", 1), finding("a.md", 2), finding("b.md", 1)]);
}

#[test]
fn indentation_of_zero_width_allows_no_indentation() {
    let path = "a.md".to_owned();
    let doc = Document::new(path.clone(), "* a\n  * b\n".to_owned());
    let rule = MD007::new(0);
    let actual = rule.check(&doc).unwrap();
    assert_eq!(actual.len(), 1);
    assert_eq!(actual[0].position().start, LineColumn::new(2, 3));
    assert_eq!(MD007::new(2).check(&doc).unwrap(), vec![]);
}

#[test]
fn rule_says_the_same_about_itself_whatever_its_parameters() {
    let rule = Rule::MD002(MD002::new(3));
    let metadata = rule.metadata();
    assert_eq!(metadata.name, "MD002");
    assert_eq!(metadata.description, "First header should be a top level header");
    assert_eq!(metadata.tags, vec![Tag::Headers]);
    assert_eq!(metadata.aliases, vec!["first-header-h1"]);
    assert_eq!(Rule::MD002(MD002::new(1)).metadata(), metadata);
    assert_eq!(RuleLike::metadata(&MD002::new(6)), metadata);
    assert_eq!(Rule::MD013(MD013::new(1, false, false)).metadata(), Rule::MD013(MD013::default()).metadata());
    assert_eq!(Rule::MD013(MD013::default()).metadata().name, "MD013");
}

#[test]
fn no_two_rules_go_by_one_name() {
    let rules = downlint::Linter::new(&Config::default());
    let names: Vec<&str> = rules.rules().iter().map(|rule| rule.metadata().name).collect();
    for (i, name) in names.iter().enumerate() {
        assert!(!names[..i].contains(name));
        assert_eq!(rules.rules()[i].metadata().aliases.len(), 1);
    }
}
