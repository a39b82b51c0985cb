//! Colour and weight of text on a terminal, as escape sequences around the
//! text. The sequences are written by owo-colors.

use vstd::prelude::*;
use owo_colors::OwoColorize;

verus! {

/// The escape sequence that switches the foreground colour to green.
pub open spec fn green_on() -> Seq<char> {
    seq!['\u{1b}', '[', '3', '2', 'm']
}

/// The escape sequence that switches the foreground colour to red.
pub open spec fn red_on() -> Seq<char> {
    seq!['\u{1b}', '[', '3', '1', 'm']
}

/// The escape sequence that switches the foreground colour back.
pub open spec fn colour_off() -> Seq<char> {
    seq!['\u{1b}', '[', '3', '9', 'm']
}

/// The escape sequence that switches to bold letters.
pub open spec fn bold_on() -> Seq<char> {
    seq!['\u{1b}', '[', '1', 'm']
}

/// The escape sequence that switches every style off.
pub open spec fn style_off() -> Seq<char> {
    seq!['\u{1b}', '[', '0', 'm']
}

/// A text between the two escape sequences that show it in green.
pub open spec fn green_text(s: Seq<char>) -> Seq<char> {
    green_on() + s + colour_off()
}

/// A text between the two escape sequences that show it in red.
pub open spec fn red_text(s: Seq<char>) -> Seq<char> {
    red_on() + s + colour_off()
}

/// A text between the two escape sequences that show it in bold letters.
pub open spec fn bold_text(s: Seq<char>) -> Seq<char> {
    bold_on() + s + style_off()
}

/// `OwoColorize::green` of owo-colors, written out through `Display`: the
/// crate writes the sequence for a green foreground, then the text as it is,
/// then the sequence that resets the foreground.
#[verifier::external_body]
pub(crate) fn green(s: &str) -> (r: String)
    ensures
        r@ == green_text(s@),
{
    s.green().to_string()
}

/// `OwoColorize::red` of owo-colors, written out through `Display`: the
/// crate writes the sequence for a red foreground, then the text as it is,
/// then the sequence that resets the foreground.
#[verifier::external_body]
pub(crate) fn red(s: &str) -> (r: String)
    ensures
        r@ == red_text(s@),
{
    s.red().to_string()
}

/// `OwoColorize::bold` of owo-colors, written out through `Display`: the
/// crate writes the sequence for bold letters, then the text as it is, then
/// the sequence that resets every style.
#[verifier::external_body]
pub(crate) fn bold(s: &str) -> (r: String)
    ensures
        r@ == bold_text(s@),
{
    s.bold().to_string()
}

} // verus!
