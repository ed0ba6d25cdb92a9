use downlint::rule::Metadata;
use downlint::rule::Tag;
use downlint::rule::MD001;
use downlint::rule::MD013;
use downlint::text::Order;
use downlint::violation::sort_violations;
use downlint::Sourcepos;
use downlint::Violation;

fn metadata(name: &'static str) -> Metadata {
    Metadata { name, description: "description", tags: vec![Tag::Headers], aliases: vec!["alias", "other"] }
}

fn violation(path: &str, name: &'static str, line: usize, column: usize) -> Violation {
    Violation::new(path.to_owned(), &metadata(name), Sourcepos::new(line, column, line, column + 1))
}

#[test]
fn violation_carries_the_metadata_of_its_rule() {
    let v = Violation::new("a.md".to_owned(), &metadata("MD999"), Sourcepos::new(1, 2, 3, 4));
    assert_eq!(v.path(), "a.md");
    assert_eq!(v.name(), "MD999");
    assert_eq!(v.description(), "description");
    assert_eq!(v.alias(), "alias");
    assert_eq!(v.position(), Sourcepos::new(1, 2, 3, 4));
}

#[test]
fn to_violation_carries_the_metadata_of_the_rule() {
    let rule = MD001::new();
    let v = rule.to_violation("a.md".to_owned(), Sourcepos::new(3, 1, 3, 12));
    assert_eq!(v.name(), "MD001");
    assert_eq!(v.description(), "Header levels should only increment by one level at a time");
    assert_eq!(v.alias(), "header-increment");
    assert_eq!(rule.metadata().tags, vec![Tag::Headers]);
    assert_eq!(MD013::default().metadata().tags, vec![Tag::LineLength]);
}

#[test]
fn violations_are_ordered_by_path_then_name_then_start() {
    let a = violation("a.md", "MD002", 9, 9);
    let b = violation("b.md", "MD001", 1, 1);
    assert_eq!(a.order(&b), Order::Less);
    assert_eq!(b.order(&a), Order::Greater);
    let c = violation("a.md", "MD001", 9, 9);
    let d = violation("a.md", "MD002", 1, 1);
    assert_eq!(c.order(&d), Order::Less);
    let e = violation("a.md", "MD001", 2, 9);
    let f = violation("a.md", "MD001", 3, 1);
    assert_eq!(e.order(&f), Order::Less);
    let g = violation("a.md", "MD001", 3, 1);
    let h = violation("a.md", "MD001", 3, 2);
    assert_eq!(g.order(&h), Order::Less);
    assert_eq!(g.order(&g.clone()), Order::Equal);
}

#[test]
fn violations_that_tie_are_told_apart_by_the_end_of_the_span() {
    let short = Violation::new("a.md".to_owned(), &metadata("MD001"), Sourcepos::new(1, 1, 1, 2));
    let long = Violation::new("a.md".to_owned(), &metadata("MD001"), Sourcepos::new(1, 1, 1, 9));
    assert_eq!(short.order(&long), Order::Less);
    assert_eq!(long.order(&short), Order::Greater);
}

#[test]
fn sort_violations_sorts() {
    let unsorted = vec![
        violation("b.md", "MD001", 1, 1),
        violation("a.md", "MD002", 1, 1),
        violation("a.md", "MD001", 3, 1),
        violation("a.md", "MD001", 2, 5),
        violation("a.md", "MD001", 2, 1),
    ];
    let expected = vec![
        violation("a.md", "MD001", 2, 1),
        violation("a.md", "MD001", 2, 5),
        violation("a.md", "MD001", 3, 1),
        violation("a.md", "MD002", 1, 1),
        violation("b.md", "MD001", 1, 1),
    ];
    assert_eq!(sort_violations(unsorted), expected);
    assert_eq!(sort_violations(vec![]), vec![]);
}

#[test]
fn sort_violations_forgets_the_order_of_arrival() {
    let one = vec![
        violation("b.md", "MD001", 1, 1),
        violation("a.md", "MD001", 1, 1),
        violation("a.md", "MD001", 1, 1),
        violation("c.md", "MD001", 1, 1),
    ];
    let mut other = one.clone();
    other.reverse();
    other.swap(0, 2);
    assert_eq!(sort_violations(one), sort_violations(other));
}
