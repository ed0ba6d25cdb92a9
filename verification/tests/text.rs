use downlint::text::byte_count;
use downlint::text::chars_of;
use downlint::text::contains_char;
use downlint::text::contains_text;
use downlint::text::decimal_of;
use downlint::text::ends_with_char;
use downlint::text::ends_with_space;
use downlint::text::find_char;
use downlint::text::first_char;
use downlint::text::last_char;
use downlint::text::lines_of;
use downlint::text::same_text;
use downlint::text::starts_with;
use downlint::text::starts_with_char;
use downlint::text::starts_with_space;
use downlint::text::str_order;
use downlint::text::string_of;
use downlint::text::width_of;
use downlint::text::Order;

#[test]
fn chars_and_strings_convert_both_ways() {
    assert_eq!(chars_of("aé🙂"), vec!['a', 'é', '🙂']);
    assert_eq!(chars_of(""), Vec::<char>::new());
    assert_eq!(string_of(&vec!['a', 'é', '🙂']), "aé🙂");
}

#[test]
fn first_and_last_characters() {
    assert_eq!(first_char("#a"), Some('#'));
    assert_eq!(last_char("a#"), Some('#'));
    assert_eq!(first_char(""), None);
    assert_eq!(last_char(""), None);
    assert!(starts_with_char("#a", '#'));
    assert!(!starts_with_char("a#", '#'));
    assert!(ends_with_char("a#", '#'));
    assert!(!ends_with_char("", '#'));
}

#[test]
fn membership_and_prefixes() {
    assert!(contains_char(".,;:!?", '!'));
    assert!(!contains_char(".,;:!?", 'a'));
    assert!(starts_with("$ ls", "$ "));
    assert!(!starts_with("$", "$ "));
    assert!(starts_with("abc", ""));
    assert!(same_text("abc", "abc"));
    assert!(!same_text("abc", "abd"));
    let texts = vec!["br".to_owned(), "p".to_owned()];
    assert!(contains_text(&texts, "p"));
    assert!(!contains_text(&texts, "pre"));
}

#[test]
fn white_space_at_the_ends() {
    assert!(starts_with_space(" a"));
    assert!(starts_with_space("\u{3000}a"));
    assert!(!starts_with_space("a "));
    assert!(ends_with_space("a\t"));
    assert!(!ends_with_space(""));
}

#[test]
fn bytes_are_counted_in_utf8() {
    assert_eq!(byte_count(""), 0);
    assert_eq!(byte_count("aé€🙂"), 1 + 2 + 3 + 4);
    assert_eq!(width_of('a'), 1);
    assert_eq!(width_of('é'), 2);
    assert_eq!(width_of('€'), 3);
    assert_eq!(width_of('🙂'), 4);
}

#[test]
fn find_char_counts_the_bytes_before() {
    assert_eq!(find_char("\tx", '\t'), Some(0));
    assert_eq!(find_char("é€\tx\t", '\t'), Some(5));
    assert_eq!(find_char("no tab", '\t'), None);
}

#[test]
fn strings_compare_by_code_point() {
    assert_eq!(str_order("a", "b"), Order::Less);
    assert_eq!(str_order("b", "a"), Order::Greater);
    assert_eq!(str_order("ab", "ab"), Order::Equal);
    assert_eq!(str_order("a", "ab"), Order::Less);
    assert_eq!(str_order("", ""), Order::Equal);
    assert_eq!(str_order("Z", "a"), Order::Less);
    assert_eq!(str_order("é", "z"), Order::Greater);
}

#[test]
fn string_order_agrees_with_the_standard_library() {
    let samples = ["", "a", "ab", "b", "B", "é", "z", "日本", "a.md", "a/b.md"];
    for left in samples {
        for right in samples {
            let expected = match left.cmp(right) {
                std::cmp::Ordering::Less => Order::Less,
                std::cmp::Ordering::Equal => Order::Equal,
                std::cmp::Ordering::Greater => Order::Greater,
            };
            assert_eq!(str_order(left, right), expected);
        }
    }
}

#[test]
fn numbers_are_written_in_decimal() {
    assert_eq!(decimal_of(0), "0");
    assert_eq!(decimal_of(7), "7");
    assert_eq!(decimal_of(10), "10");
    assert_eq!(decimal_of(1234567890), "1234567890");
    assert_eq!(decimal_of(usize::MAX), usize::MAX.to_string());
}

#[test]
fn lines_of_splits_a_text() {
    assert_eq!(lines_of("a\nb\r\nc"), vec!["a", "b", "c"]);
    assert_eq!(lines_of(""), Vec::<String>::new());
    assert_eq!(lines_of("\n"), vec![""]);
}

#[test]
fn white_space_is_what_unicode_lists() {
    let listed = |c: char| {
        matches!(
            c,
            '\u{9}'..='\u{d}'
                | ' '
                | '\u{85}'
                | '\u{a0}'
                | '\u{1680}'
                | '\u{2000}'..='\u{200a}'
                | '\u{2028}'
                | '\u{2029}'
                | '\u{202f}'
                | '\u{205f}'
                | '\u{3000}'
        )
    };
    let mut count = 0;
    for code in 0..=0x10ffff_u32 {
        if let Some(c) = char::from_u32(code) {
            let mut text = String::new();
            text.push(c);
            assert_eq!(starts_with_space(&text), listed(c), "U+{:04X}", code);
            assert_eq!(ends_with_space(&text), listed(c), "U+{:04X}", code);
            if listed(c) {
                count += 1;
            }
        }
    }
    assert_eq!(count, 25);
}
