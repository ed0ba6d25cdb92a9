use downlint::Config;
use downlint::Document;
use downlint::Linter;
use downlint::Rule;
use downlint::Sourcepos;
use downlint::config::lint::RuleSet;
use downlint::rule::MD001;
use downlint::rule::MD002;
use downlint::rule::MD003;
use downlint::rule::MD005;
use downlint::rule::MD007;
use downlint::rule::MD010;
use downlint::rule::MD012;
use downlint::rule::MD013;
use downlint::rule::MD014;
use downlint::rule::MD018;
use downlint::rule::MD019;
use downlint::rule::MD020;
use downlint::rule::MD021;
use downlint::rule::MD022;
use downlint::rule::MD023;
use downlint::rule::MD024;
use downlint::rule::MD025;
use downlint::rule::MD026;
use downlint::rule::MD029;
use downlint::rule::MD033;
use downlint::rule::MD034;
use downlint::rule::MD035;
use downlint::rule::MD036;
use downlint::rule::MD038;
use downlint::rule::MD039;
use downlint::rule::MD041;
use downlint::rule::MD046;
use downlint::rule::md003::HeadingStyle;
use downlint::rule::md029::OrderedListStyle;
use downlint::rule::md035::HorizontalRuleStyle;
use downlint::rule::md046::CodeBlockStyle;

#[test]
fn new_md001() {
    let md001 = Rule::MD001(MD001::new());
    let rules = vec![RuleSet::MD001];
    let mut config = Config::default();
    config.lint.rules = rules;
    let linter = Linter::new(&config);
    assert_eq!(linter.rules(), &vec![md001]);
}

#[test]
fn new_md002() {
    let level = 3;
    let md002 = Rule::MD002(MD002::new(level));
    let rules = vec![RuleSet::MD002];
    let mut config = Config::default();
    config.lint.md002.level = level;
    config.lint.rules = rules;
    let linter = Linter::new(&config);
    assert_eq!(linter.rules(), &vec![md002]);
}

#[test]
fn new_md003() {
    let style = HeadingStyle::SetextWithAtx;
    let md003 = Rule::MD003(MD003::new(style.clone()));
    let rules = vec![RuleSet::MD003];
    let mut config = Config::default();
    config.lint.md003.style = style;
    config.lint.rules = rules;
    let linter = Linter::new(&config);
    assert_eq!(linter.rules(), &vec![md003]);
}

#[test]
fn new_md005() {
    let md005 = Rule::MD005(MD005::new());
    let rules = vec![RuleSet::MD005];
    let mut config = Config::default();
    config.lint.rules = rules;
    let linter = Linter::new(&config);
    assert_eq!(linter.rules(), &vec![md005]);
}

#[test]
fn new_md007() {
    let indent = 9;
    let md007 = Rule::MD007(MD007::new(indent));
    let rules = vec![RuleSet::MD007];
    let mut config = Config::default();
    config.lint.rules = rules;
    config.lint.md007.indent = indent;
    let linter = Linter::new(&config);
    assert_eq!(linter.rules(), &vec![md007]);
}

#[test]
fn new_md010() {
    let md010 = Rule::MD010(MD010::new());
    let rules = vec![RuleSet::MD010];
    let mut config = Config::default();
    config.lint.rules = rules;
    let linter = Linter::new(&config);
    assert_eq!(linter.rules(), &vec![md010]);
}

#[test]
fn new_md012() {
    let md012 = Rule::MD012(MD012::new());
    let rules = vec![RuleSet::MD012];
    let mut config = Config::default();
    config.lint.rules = rules;
    let linter = Linter::new(&config);
    assert_eq!(linter.rules(), &vec![md012]);
}

#[test]
fn new_md013() {
    let line_length = 33;
    let code_blocks = false;
    let tables = false;
    let md013 = Rule::MD013(MD013::new(line_length, code_blocks, tables));
    let rules = vec![RuleSet::MD013];
    let mut config = Config::default();
    config.lint.rules = rules;
    config.lint.md013.line_length = line_length;
    config.lint.md013.code_blocks = code_blocks;
    config.lint.md013.tables = tables;
    let linter = Linter::new(&config);
    assert_eq!(linter.rules(), &vec![md013]);
}

#[test]
fn new_md014() {
    let md014 = Rule::MD014(MD014::new());
    let rules = vec![RuleSet::MD014];
    let mut config = Config::default();
    config.lint.rules = rules;
    let linter = Linter::new(&config);
    assert_eq!(linter.rules(), &vec![md014]);
}

#[test]
fn new_md018() {
    let md018 = Rule::MD018(MD018::new());
    let rules = vec![RuleSet::MD018];
    let mut config = Config::default();
    config.lint.rules = rules;
    let linter = Linter::new(&config);
    assert_eq!(linter.rules(), &vec![md018]);
}

#[test]
fn new_md019() {
    let md019 = Rule::MD019(MD019::new());
    let rules = vec![RuleSet::MD019];
    let mut config = Config::default();
    config.lint.rules = rules;
    let linter = Linter::new(&config);
    assert_eq!(linter.rules(), &vec![md019]);
}

#[test]
fn new_md020() {
    let md020 = Rule::MD020(MD020::new());
    let rules = vec![RuleSet::MD020];
    let mut config = Config::default();
    config.lint.rules = rules;
    let linter = Linter::new(&config);
    assert_eq!(linter.rules(), &vec![md020]);
}

#[test]
fn new_md021() {
    let md021 = Rule::MD021(MD021::new());
    let rules = vec![RuleSet::MD021];
    let mut config = Config::default();
    config.lint.rules = rules;
    let linter = Linter::new(&config);
    assert_eq!(linter.rules(), &vec![md021]);
}

#[test]
fn new_md022() {
    let md022 = Rule::MD022(MD022::new());
    let rules = vec![RuleSet::MD022];
    let mut config = Config::default();
    config.lint.rules = rules;
    let linter = Linter::new(&config);
    assert_eq!(linter.rules(), &vec![md022]);
}

#[test]
fn new_md023() {
    let md023 = Rule::MD023(MD023::new());
    let rules = vec![RuleSet::MD023];
    let mut config = Config::default();
    config.lint.rules = rules;
    let linter = Linter::new(&config);
    assert_eq!(linter.rules(), &vec![md023]);
}

#[test]
fn new_md024() {
    let md024 = Rule::MD024(MD024::new());
    let rules = vec![RuleSet::MD024];
    let mut config = Config::default();
    config.lint.rules = rules;
    let linter = Linter::new(&config);
    assert_eq!(linter.rules(), &vec![md024]);
}

#[test]
fn new_md025() {
    let level = 3;
    let md025 = Rule::MD025(MD025::new(level));
    let rules = vec![RuleSet::MD025];
    let mut config = Config::default();
    config.lint.rules = rules;
    config.lint.md025.level = level;
    let linter = Linter::new(&config);
    assert_eq!(linter.rules(), &vec![md025]);
}

#[test]
fn new_md029() {
    let style = OrderedListStyle::Ordered;
    let md029 = Rule::MD029(MD029::new(style.clone()));
    let rules = vec![RuleSet::MD029];
    let mut config = Config::default();
    config.lint.rules = rules;
    config.lint.md029.style = style;
    let linter = Linter::new(&config);
    assert_eq!(linter.rules(), &vec![md029]);
}

#[test]
fn new_md033() {
    let allowed_elements = vec!["br".to_owned()];
    let md033 = Rule::MD033(MD033::new(&allowed_elements));
    let rules = vec![RuleSet::MD033];
    let mut config = Config::default();
    config.lint.rules = rules;
    config.lint.md033.allowed_elements = allowed_elements;
    let linter = Linter::new(&config);
    assert_eq!(linter.rules(), &vec![md033]);
}

#[test]
fn new_md034() {
    let md034 = Rule::MD034(MD034::new());
    let rules = vec![RuleSet::MD034];
    let mut config = Config::default();
    config.lint.rules = rules;
    let linter = Linter::new(&config);
    assert_eq!(linter.rules(), &vec![md034]);
}

#[test]
fn new_md035() {
    let style = HorizontalRuleStyle::Custom("~~~".to_owned());
    let md035 = Rule::MD035(MD035::new(style.clone()));
    let rules = vec![RuleSet::MD035];
    let mut config = Config::default();
    config.lint.rules = rules;
    config.lint.md035.style = style;
    let linter = Linter::new(&config);
    assert_eq!(linter.rules(), &vec![md035]);
}

#[test]
fn new_md036() {
    let punctuation = "!?".to_owned();
    let md036 = Rule::MD036(MD036::new(punctuation.clone()));
    let rules = vec![RuleSet::MD036];
    let mut config = Config::default();
    config.lint.rules = rules;
    config.lint.md036.punctuation = punctuation;
    let linter = Linter::new(&config);
    assert_eq!(linter.rules(), &vec![md036]);
}

#[test]
fn new_md038() {
    let md038 = Rule::MD038(MD038::new());
    let rules = vec![RuleSet::MD038];
    let mut config = Config::default();
    config.lint.rules = rules;
    let linter = Linter::new(&config);
    assert_eq!(linter.rules(), &vec![md038]);
}

#[test]
fn new_md039() {
    let md039 = Rule::MD039(MD039::new());
    let rules = vec![RuleSet::MD039];
    let mut config = Config::default();
    config.lint.rules = rules;
    let linter = Linter::new(&config);
    assert_eq!(linter.rules(), &vec![md039]);
}

#[test]
fn new_md041() {
    let level = 3;
    let md041 = Rule::MD041(MD041::new(level));
    let rules = vec![RuleSet::MD041];
    let mut config = Config::default();
    config.lint.rules = rules;
    config.lint.md041.level = level;
    let linter = Linter::new(&config);
    assert_eq!(linter.rules(), &vec![md041]);
}

#[test]
fn new_md046() {
    let style = CodeBlockStyle::Indented;
    let md046 = Rule::MD046(MD046::new(style.clone()));
    let rules = vec![RuleSet::MD046];
    let mut config = Config::default();
    config.lint.rules = rules;
    config.lint.md046.style = style;
    let linter = Linter::new(&config);
    assert_eq!(linter.rules(), &vec![md046]);
}

#[test]
fn check_with_front_matter() {
    let text = "---
comments: false
description: Some text
---

# This is a header."
        .to_owned();
    let path = "test.md".to_owned();
    let doc = Document::new(path.clone(), text);
    let md026 = MD026::default();
    let rules = vec![RuleSet::MD026];
    let mut config = Config::default();
    config.lint.rules = rules;
    let linter = Linter::new(&config);
    let actual = linter.check(&doc).unwrap();
    let expected = vec![md026.to_violation(path, Sourcepos::new(6, 1, 6, 19))];
    assert_eq!(actual, expected);
}
