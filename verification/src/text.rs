//! Verified helpers over strings: character access, byte widths, lexicographic
//! order and line splitting.

use vstd::prelude::*;
use vstd::std_specs::iter::IteratorSpec;
use vstd::utf8::encode_scalar;
use vstd::utf8::encode_utf8;

verus! {

/// The characters of `s`, in order.
pub fn chars_of(s: &str) -> (v: Vec<char>)
    ensures
        v@ == s@,
{
    broadcast use vstd::string::group_string_axioms;

    let mut v: Vec<char> = Vec::new();
    let mut it = s.chars();
    loop
        invariant
            it.obeys_prophetic_iter_laws(),
            it.decrease() is Some,
            v@ + it.remaining() == s@,
        decreases it.decrease()->0,
    {
        match it.next() {
            Some(c) => {
                proof {
                    assert(v@.push(c) + it.remaining() =~= s@);
                }
                v.push(c);
            },
            None => {
                proof {
                    assert(v@ =~= s@);
                }
                return v;
            },
        }
    }
}

/// `String::push` appends one character to the string.
pub assume_specification[ String::push ](s: &mut String, c: char)
    ensures
        final(s)@ == old(s)@.push(c),
;

/// The string made of `chars`, in order.
pub fn string_of(chars: &Vec<char>) -> (s: String)
    ensures
        s@ == chars@,
{
    let mut s = String::new();
    let mut i: usize = 0;
    while i < chars.len()
        invariant
            i <= chars.len(),
            s@ == chars@.take(i as int),
        decreases chars.len() - i,
    {
        s.push(chars[i]);
        proof {
            assert(chars@.take(i as int).push(chars@[i as int]) =~= chars@.take(i + 1));
        }
        i = i + 1;
    }
    proof {
        assert(chars@.take(chars.len() as int) =~= chars@);
    }
    s
}

/// `line` without one trailing carriage return.
pub open spec fn strip_cr(line: Seq<char>) -> Seq<char> {
    if line.len() > 0 && line.last() == '\r' {
        line.drop_last()
    } else {
        line
    }
}

/// The lines that `text` has finished, and the characters of the line it has begun.
///
/// A line feed finishes a line; a carriage return just before it belongs to
/// the line ending.
pub open spec fn scan_lines(text: Seq<char>) -> (Seq<Seq<char>>, Seq<char>)
    decreases text.len(),
{
    if text.len() == 0 {
        (Seq::empty(), Seq::empty())
    } else {
        let (done, pending) = scan_lines(text.drop_last());
        if text.last() == '\n' {
            (done.push(strip_cr(pending)), Seq::empty())
        } else {
            (done, pending.push(text.last()))
        }
    }
}

/// The lines of `text`, without their line endings. A final line ending is
/// optional: it begins no further line.
pub open spec fn split_lines(text: Seq<char>) -> Seq<Seq<char>> {
    let (done, pending) = scan_lines(text);
    if pending.len() > 0 {
        done.push(pending)
    } else {
        done
    }
}

/// The contents of a list of strings.
pub open spec fn line_views(lines: Seq<String>) -> Seq<Seq<char>> {
    lines.map_values(|line: String| line@)
}

/// Splits `text` into its lines.
pub fn lines_of(text: &str) -> (lines: Vec<String>)
    ensures
        line_views(lines@) == split_lines(text@),
{
    let chars = chars_of(text);
    let mut lines: Vec<String> = Vec::new();
    let mut pending: Vec<char> = Vec::new();
    let mut i: usize = 0;
    proof {
        assert(line_views(lines@) =~= scan_lines(chars@.take(0)).0);
    }
    while i < chars.len()
        invariant
            i <= chars.len(),
            line_views(lines@) == scan_lines(chars@.take(i as int)).0,
            pending@ == scan_lines(chars@.take(i as int)).1,
        decreases chars.len() - i,
    {
        let c = chars[i];
        proof {
            assert(chars@.take(i + 1).drop_last() =~= chars@.take(i as int));
        }
        let ghost before = line_views(lines@);
        if c == '\n' {
            if pending.len() > 0 && pending[pending.len() - 1] == '\r' {
                pending.pop();
            }
            lines.push(string_of(&pending));
            pending = Vec::new();
            proof {
                assert(line_views(lines@) =~= before.push(lines@.last()@));
            }
        } else {
            pending.push(c);
        }
        i = i + 1;
    }
    proof {
        assert(chars@.take(chars.len() as int) =~= chars@);
    }
    let ghost before = line_views(lines@);
    if pending.len() > 0 {
        lines.push(string_of(&pending));
        proof {
            assert(line_views(lines@) =~= before.push(lines@.last()@));
        }
    }
    lines
}

/// The first character of `s`, if it has one.
pub fn first_char(s: &str) -> (first: Option<char>)
    ensures
        first == (if s@.len() > 0 {
            Some(s@.first())
        } else {
            None
        }),
{
    broadcast use vstd::string::group_string_axioms;

    let mut it = s.chars();
    it.next()
}

/// The last character of `s`, if it has one.
pub fn last_char(s: &str) -> (last: Option<char>)
    ensures
        last == (if s@.len() > 0 {
            Some(s@.last())
        } else {
            None
        }),
{
    let chars = chars_of(s);
    if chars.len() > 0 {
        Some(chars[chars.len() - 1])
    } else {
        None
    }
}

/// Whether `s` begins with the character `c`.
pub fn starts_with_char(s: &str, c: char) -> (r: bool)
    ensures
        r == (s@.len() > 0 && s@.first() == c),
{
    match first_char(s) {
        Some(first) => first == c,
        None => false,
    }
}

/// Whether `s` ends with the character `c`.
pub fn ends_with_char(s: &str, c: char) -> (r: bool)
    ensures
        r == (s@.len() > 0 && s@.last() == c),
{
    match last_char(s) {
        Some(last) => last == c,
        None => false,
    }
}

/// Whether the character `c` occurs in `s`.
pub fn contains_char(s: &str, c: char) -> (r: bool)
    ensures
        r == s@.contains(c),
{
    let chars = chars_of(s);
    let mut i: usize = 0;
    while i < chars.len()
        invariant
            i <= chars.len(),
            chars@ == s@,
            forall|j: int| 0 <= j < i ==> s@[j] != c,
        decreases chars.len() - i,
    {
        if chars[i] == c {
            return true;
        }
        i = i + 1;
    }
    false
}

/// Whether `s` begins with `prefix`.
pub fn starts_with(s: &str, prefix: &str) -> (r: bool)
    ensures
        r == prefix@.is_prefix_of(s@),
{
    let chars = chars_of(s);
    let wanted = chars_of(prefix);
    if wanted.len() > chars.len() {
        return false;
    }
    let mut i: usize = 0;
    while i < wanted.len()
        invariant
            i <= wanted.len() <= chars.len(),
            chars@ == s@,
            wanted@ == prefix@,
            forall|j: int| 0 <= j < i ==> s@[j] == prefix@[j],
        decreases wanted.len() - i,
    {
        if chars[i] != wanted[i] {
            return false;
        }
        i = i + 1;
    }
    proof {
        assert(prefix@ =~= s@.subrange(0, prefix@.len() as int));
    }
    true
}

/// Whether two strings hold the same characters.
pub fn same_text(a: &str, b: &str) -> (r: bool)
    ensures
        r == (a@ == b@),
{
    proof {
        lemma_lex_order_equal(a@, b@);
    }
    str_order(a, b) == Order::Equal
}

/// Whether `text` occurs among `texts`.
pub fn contains_text(texts: &Vec<String>, text: &str) -> (r: bool)
    ensures
        r == line_views(texts@).contains(text@),
{
    let mut i: usize = 0;
    while i < texts.len()
        invariant
            i <= texts.len(),
            forall|j: int| 0 <= j < i ==> line_views(texts@)[j] != text@,
        decreases texts.len() - i,
    {
        if same_text(texts[i].as_str(), text) {
            proof {
                assert(line_views(texts@)[i as int] == text@);
            }
            return true;
        }
        i = i + 1;
    }
    false
}

/// `c` has the Unicode property `White_Space`: it is one of the 25 code
/// points that the Unicode Character Database lists under that name.
pub open spec fn is_white_space(c: char) -> bool {
    ||| '\u{9}' <= c <= '\u{d}'
    ||| c == ' '
    ||| c == '\u{85}'
    ||| c == '\u{a0}'
    ||| c == '\u{1680}'
    ||| '\u{2000}' <= c <= '\u{200a}'
    ||| c == '\u{2028}'
    ||| c == '\u{2029}'
    ||| c == '\u{202f}'
    ||| c == '\u{205f}'
    ||| c == '\u{3000}'
}

/// Calls `char::is_whitespace`, which tells whether a character has the
/// Unicode property `White_Space`.
#[verifier::external_body]
pub(crate) fn char_is_whitespace(c: char) -> (r: bool)
    ensures
        r == is_white_space(c),
{
    c.is_whitespace()
}

/// `s` begins with white space, so that trimming its start changes it.
pub open spec fn has_leading_space(s: Seq<char>) -> bool {
    s.len() > 0 && is_white_space(s.first())
}

/// `s` ends with white space, so that trimming its end changes it.
pub open spec fn has_trailing_space(s: Seq<char>) -> bool {
    s.len() > 0 && is_white_space(s.last())
}

/// Whether trimming the start of `s` would change it.
pub fn starts_with_space(s: &str) -> (r: bool)
    ensures
        r == has_leading_space(s@),
{
    match first_char(s) {
        Some(first) => char_is_whitespace(first),
        None => false,
    }
}

/// Whether trimming the end of `s` would change it.
pub fn ends_with_space(s: &str) -> (r: bool)
    ensures
        r == has_trailing_space(s@),
{
    match last_char(s) {
        Some(last) => char_is_whitespace(last),
        None => false,
    }
}

/// The number of bytes that `s` takes in UTF-8.
pub open spec fn byte_len(s: Seq<char>) -> nat {
    encode_utf8(s).len()
}

/// The number of bytes that `c` takes in UTF-8.
pub open spec fn char_width(c: char) -> nat {
    encode_scalar(c as u32).len()
}

/// One more character adds its width.
pub proof fn lemma_byte_len_push(s: Seq<char>, c: char)
    ensures
        byte_len(s.push(c)) == byte_len(s) + char_width(c),
    decreases s.len(),
{
    if s.len() == 0 {
        assert(s.push(c).drop_first() =~= s);
        assert(encode_utf8(s) =~= Seq::<u8>::empty());
    } else {
        assert(s.push(c).drop_first() =~= s.drop_first().push(c));
        lemma_byte_len_push(s.drop_first(), c);
    }
}

/// The number of bytes that `c` takes in UTF-8.
pub fn width_of(c: char) -> (width: usize)
    ensures
        width == char_width(c),
        1 <= width <= 4,
{
    broadcast use vstd::utf8::char_is_scalar;

    let code = c as u32;
    if code < 0x80 {
        1
    } else if code < 0x800 {
        2
    } else if code < 0x10000 {
        3
    } else {
        4
    }
}

/// The number of bytes that `s` takes in UTF-8.
pub fn byte_count(s: &str) -> (n: usize)
    ensures
        n == byte_len(s@),
{
    s.as_bytes().len()
}

/// The index of the first `c` in `s`, if `c` occurs in it.
pub open spec fn first_index_of(s: Seq<char>, c: char) -> Option<int> {
    s.index_of_first(c)
}

/// The byte offset of the first `c` in `s`, if `c` occurs in it.
pub open spec fn byte_offset_of(s: Seq<char>, c: char) -> Option<nat> {
    match first_index_of(s, c) {
        Some(i) => Some(byte_len(s.take(i))),
        None => None,
    }
}

/// Finds the first `c` in `s` and tells how many bytes stand before it.
pub fn find_char(s: &str, c: char) -> (offset: Option<usize>)
    ensures
        offset matches Some(n) ==> byte_offset_of(s@, c) == Some(n as nat),
        offset matches Some(n) ==> n < byte_len(s@) <= usize::MAX,
        offset is None ==> byte_offset_of(s@, c) is None,
{
    let chars = chars_of(s);
    let total = byte_count(s);
    let mut bytes: usize = 0;
    let mut i: usize = 0;
    proof {
        assert(encode_utf8(s@.take(0)) =~= Seq::<u8>::empty());
    }
    while i < chars.len()
        invariant
            i <= chars.len(),
            chars@ == s@,
            total == byte_len(s@),
            bytes == byte_len(s@.take(i as int)),
            forall|j: int| 0 <= j < i ==> s@[j] != c,
        decreases chars.len() - i,
    {
        proof {
            lemma_byte_len_push(s@.take(i as int), s@[i as int]);
            assert(s@.take(i + 1) =~= s@.take(i as int).push(s@[i as int]));
            lemma_byte_len_prefix(s@, i + 1);
        }
        if chars[i] == c {
            proof {
                s@.index_of_first_ensures(c);
            }
            return Some(bytes);
        }
        bytes = bytes + width_of(chars[i]);
        i = i + 1;
    }
    proof {
        s@.index_of_first_ensures(c);
    }
    None
}

/// A prefix takes no more bytes than the whole.
pub proof fn lemma_byte_len_prefix(s: Seq<char>, n: int)
    requires
        0 <= n <= s.len(),
    ensures
        byte_len(s.take(n)) <= byte_len(s),
    decreases s.len() - n,
{
    if n < s.len() {
        lemma_byte_len_push(s.take(n), s[n]);
        assert(s.take(n + 1) =~= s.take(n).push(s[n]));
        lemma_byte_len_prefix(s, n + 1);
    } else {
        assert(s.take(n) =~= s);
    }
}

/// The character of the decimal digit `d`.
pub open spec fn digit(d: nat) -> char {
    ('0' as u8 + d) as u8 as char
}

/// `n` written in decimal digits.
pub open spec fn decimal(n: nat) -> Seq<char>
    decreases n,
{
    if n < 10 {
        seq![digit(n)]
    } else {
        decimal(n / 10).push(digit(n % 10))
    }
}

/// Writes `n` in decimal digits.
pub fn decimal_of(n: usize) -> (s: String)
    ensures
        s@ == decimal(n as nat),
{
    let mut digits: Vec<char> = Vec::new();
    let mut rest = n;
    while rest >= 10
        invariant
            decimal(n as nat) == decimal(rest as nat) + digits@.reverse(),
        decreases rest,
    {
        let d: u8 = (rest % 10) as u8;
        let ghost before = digits@;
        digits.push((48u8 + d) as char);
        proof {
            assert(digits@.reverse() =~= seq![digit((rest % 10) as nat)] + before.reverse());
            assert(decimal(rest as nat) + before.reverse() =~= decimal((rest / 10) as nat)
                + digits@.reverse());
        }
        rest = rest / 10;
    }
    let mut s = String::new();
    s.push((48u8 + rest as u8) as char);
    let mut i: usize = digits.len();
    while i > 0
        invariant
            i <= digits.len(),
            s@ == seq![digit(rest as nat)] + digits@.reverse().take(digits.len() - i),
        decreases i,
    {
        i = i - 1;
        s.push(digits[i]);
        proof {
            let r = digits@.reverse();
            assert(r[digits.len() - 1 - i] == digits@[i as int]);
            let written = digits.len() - 1 - i;
            assert(r.take(written + 1) =~= r.take(written).push(digits@[i as int]));
        }
    }
    proof {
        assert(digits@.reverse().take(digits.len() as int) =~= digits@.reverse());
    }
    s
}

/// How two sequences of characters compare.
#[derive(Debug, Clone, Copy, PartialEq, Eq, Structural)]
pub enum Order {
    Less,
    Equal,
    Greater,
}

/// Lexicographic comparison by code point; a proper prefix comes first.
pub open spec fn lex_order(a: Seq<char>, b: Seq<char>) -> Order
    decreases a.len(),
{
    if a.len() == 0 && b.len() == 0 {
        Order::Equal
    } else if a.len() == 0 {
        Order::Less
    } else if b.len() == 0 {
        Order::Greater
    } else if a[0] < b[0] {
        Order::Less
    } else if a[0] > b[0] {
        Order::Greater
    } else {
        lex_order(a.drop_first(), b.drop_first())
    }
}

/// Compares two strings lexicographically by code point.
pub fn str_order(a: &str, b: &str) -> (r: Order)
    ensures
        r == lex_order(a@, b@),
{
    broadcast use vstd::string::group_string_axioms;

    let mut ia = a.chars();
    let mut ib = b.chars();
    loop
        invariant
            ia.obeys_prophetic_iter_laws(),
            ib.obeys_prophetic_iter_laws(),
            ia.decrease() is Some,
            lex_order(a@, b@) == lex_order(ia.remaining(), ib.remaining()),
        decreases ia.decrease()->0,
    {
        let ca = ia.next();
        let cb = ib.next();
        match (ca, cb) {
            (None, None) => {
                return Order::Equal;
            },
            (None, Some(_)) => {
                return Order::Less;
            },
            (Some(_), None) => {
                return Order::Greater;
            },
            (Some(x), Some(y)) => {
                if x < y {
                    return Order::Less;
                } else if x > y {
                    return Order::Greater;
                }
            },
        }
    }
}

/// The order with its arguments swapped.
pub open spec fn reversed(order: Order) -> Order {
    match order {
        Order::Less => Order::Greater,
        Order::Equal => Order::Equal,
        Order::Greater => Order::Less,
    }
}

/// Swapping the arguments reverses the order.
pub proof fn lemma_lex_order_flip(a: Seq<char>, b: Seq<char>)
    ensures
        lex_order(b, a) == reversed(lex_order(a, b)),
    decreases a.len(),
{
    if a.len() > 0 && b.len() > 0 && a[0] == b[0] {
        lemma_lex_order_flip(a.drop_first(), b.drop_first());
    }
}

/// Only identical sequences tie.
pub proof fn lemma_lex_order_equal(a: Seq<char>, b: Seq<char>)
    ensures
        lex_order(a, b) == Order::Equal <==> a == b,
    decreases a.len(),
{
    if a.len() > 0 && b.len() > 0 && a[0] == b[0] {
        lemma_lex_order_equal(a.drop_first(), b.drop_first());
        if a.drop_first() == b.drop_first() {
            assert(a =~= seq![a[0]] + a.drop_first());
            assert(b =~= seq![b[0]] + b.drop_first());
        }
    } else if a.len() == 0 && b.len() == 0 {
        assert(a =~= b);
    }
}

/// The order is transitive, and strict as soon as one step is.
pub proof fn lemma_lex_order_transitive(a: Seq<char>, b: Seq<char>, c: Seq<char>)
    ensures
        lex_order(a, b) != Order::Greater && lex_order(b, c) != Order::Greater ==> lex_order(a, c)
            != Order::Greater,
        lex_order(a, b) != Order::Greater && lex_order(b, c) != Order::Greater && (lex_order(a, b)
            == Order::Less || lex_order(b, c) == Order::Less) ==> lex_order(a, c) == Order::Less,
    decreases a.len(),
{
    if a.len() > 0 && b.len() > 0 && c.len() > 0 && a[0] == b[0] && b[0] == c[0] {
        lemma_lex_order_transitive(a.drop_first(), b.drop_first(), c.drop_first());
    }
}

} // verus!
