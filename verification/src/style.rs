//! Terminal styling through `owo_colors`: each wrapper states the exact ANSI
//! escape sequences that the crate's `Display` impls write around the text.

use owo_colors::OwoColorize;
use vstd::prelude::*;

verus! {

/// The escape sequence `ESC [ code m`.
pub open spec fn sgr(code: Seq<char>) -> Seq<char> {
    seq!['\u{1b}', '['] + code + seq!['m']
}

/// `s` in a foreground colour with the given SGR code, then the default
/// foreground restored (`ESC[39m`).
pub open spec fn in_fg(code: Seq<char>, s: Seq<char>) -> Seq<char> {
    sgr(code) + s + sgr(seq!['3', '9'])
}

/// `s` with an SGR attribute switched on, then all attributes reset (`ESC[0m`).
pub open spec fn in_style(code: Seq<char>, s: Seq<char>) -> Seq<char> {
    sgr(code) + s + sgr(seq!['0'])
}

pub open spec fn bright_red_text(s: Seq<char>) -> Seq<char> {
    in_fg(seq!['9', '1'], s)
}

pub open spec fn bright_green_text(s: Seq<char>) -> Seq<char> {
    in_fg(seq!['9', '2'], s)
}

pub open spec fn bright_yellow_text(s: Seq<char>) -> Seq<char> {
    in_fg(seq!['9', '3'], s)
}

pub open spec fn bright_blue_text(s: Seq<char>) -> Seq<char> {
    in_fg(seq!['9', '4'], s)
}

pub open spec fn bold_text(s: Seq<char>) -> Seq<char> {
    in_style(seq!['1'], s)
}

pub open spec fn underline_text(s: Seq<char>) -> Seq<char> {
    in_style(seq!['4'], s)
}

/// `OwoColorize::bright_red`, rendered: `FgColorDisplay` writes
/// `BrightRed::ANSI_FG` ("\x1b[91m"), the text, then "\x1b[39m".
#[verifier::external_body]
pub(crate) fn bright_red(s: &str) -> (r: String)
    ensures
        r@ == bright_red_text(s@),
{
    format!("{}", s.bright_red())
}

/// `OwoColorize::bright_green`, rendered: "\x1b[92m", the text, "\x1b[39m".
#[verifier::external_body]
pub(crate) fn bright_green(s: &str) -> (r: String)
    ensures
        r@ == bright_green_text(s@),
{
    format!("{}", s.bright_green())
}

/// `OwoColorize::bright_yellow`, rendered: "\x1b[93m", the text, "\x1b[39m".
#[verifier::external_body]
pub(crate) fn bright_yellow(s: &str) -> (r: String)
    ensures
        r@ == bright_yellow_text(s@),
{
    format!("{}", s.bright_yellow())
}

/// `OwoColorize::bright_blue`, rendered: "\x1b[94m", the text, "\x1b[39m".
#[verifier::external_body]
pub(crate) fn bright_blue(s: &str) -> (r: String)
    ensures
        r@ == bright_blue_text(s@),
{
    format!("{}", s.bright_blue())
}

/// `OwoColorize::bold`, rendered: `BoldDisplay` writes "\x1b[1m", the text,
/// then "\x1b[0m".
#[verifier::external_body]
pub(crate) fn bold(s: &str) -> (r: String)
    ensures
        r@ == bold_text(s@),
{
    format!("{}", s.bold())
}

/// `OwoColorize::underline`, rendered: `UnderlineDisplay` writes "\x1b[4m",
/// the text, then "\x1b[0m".
#[verifier::external_body]
pub(crate) fn underline(s: &str) -> (r: String)
    ensures
        r@ == underline_text(s@),
{
    format!("{}", s.underline())
}

} // verus!
