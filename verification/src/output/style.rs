//! Colours and weights for what is written to a terminal.

use vstd::prelude::*;

verus! {

/// The sequence that ends every style.
pub open spec fn reset() -> Seq<char> {
    seq!['\u{1b}', '[', '0', 'm']
}

/// `text` holds the sequence that ends a style.
pub open spec fn holds_reset(text: Seq<char>) -> bool {
    exists|i: int| 0 <= i && i + 4 <= text.len() && #[trigger] text.subrange(i, i + 4) == reset()
}

/// `styled` is `text` written in the style with the code `code`: the
/// text alone where the terminal takes no colours, and otherwise the text
/// between the sequence that begins the style and the one that ends it.
/// Nothing is said of a text that itself ends a style.
pub open spec fn styled_as(styled: Seq<char>, text: Seq<char>, code: Seq<char>) -> bool {
    !holds_reset(text) ==> styled == text || styled == seq!['\u{1b}', '['] + code + seq!['m'] + text
        + reset()
}

/// `styled` is `text` in bold.
pub open spec fn in_bold(styled: Seq<char>, text: Seq<char>) -> bool {
    styled_as(styled, text, seq!['1'])
}

/// `styled` is `text` in blue.
pub open spec fn in_blue(styled: Seq<char>, text: Seq<char>) -> bool {
    styled_as(styled, text, seq!['3', '4'])
}

/// `styled` is `text` in bold red.
pub open spec fn in_red_bold(styled: Seq<char>, text: Seq<char>) -> bool {
    styled_as(styled, text, seq!['1', ';', '3', '1'])
}

/// `text` in bold, as `colored::Colorize::bold` styles it and `to_string`
/// writes it. Whether the escape sequences are written depends on the
/// terminal and the environment; either way the text stands in the
/// result, unless it ends a style itself.
#[verifier::external_body]
pub(crate) fn bold(text: &str) -> (styled: String)
    ensures
        in_bold(styled@, text@),
{
    colored::Colorize::bold(text).to_string()
}

/// `text` in blue, as `colored::Colorize::blue` styles it and `to_string`
/// writes it. Whether the escape sequences are written depends on the
/// terminal and the environment; either way the text stands in the
/// result, unless it ends a style itself.
#[verifier::external_body]
pub(crate) fn blue(text: &str) -> (styled: String)
    ensures
        in_blue(styled@, text@),
{
    colored::Colorize::blue(text).to_string()
}

/// `text` in bold red, as `colored::Colorize::red` and then `bold` style
/// it and `to_string` writes it. Whether the escape sequences are written
/// depends on the terminal and the environment; either way the text stands
/// in the result, unless it ends a style itself.
#[verifier::external_body]
pub(crate) fn red_bold(text: &str) -> (styled: String)
    ensures
        in_red_bold(styled@, text@),
{
    colored::Colorize::bold(colored::Colorize::red(text)).to_string()
}

} // verus!
