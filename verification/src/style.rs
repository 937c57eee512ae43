//! Terminal styling through `owo_colors`: each style wraps its text in an
//! ANSI SGR sequence and the matching reset.
use owo_colors::OwoColorize;
use vstd::prelude::*;

verus! {

/// `ESC [ code m`.
pub open spec fn sgr(code: Seq<char>) -> Seq<char> {
    seq!['\u{1b}', '['] + code + seq!['m']
}

/// Text in a foreground colour: the colour's code, the text, then `ESC[39m`.
pub open spec fn fg(code: Seq<char>, s: Seq<char>) -> Seq<char> {
    sgr(code) + s + sgr(seq!['3', '9'])
}

/// Text in an effect such as bold: the effect's code, the text, then `ESC[0m`.
pub open spec fn effect(code: Seq<char>, s: Seq<char>) -> Seq<char> {
    sgr(code) + s + sgr(seq!['0'])
}

pub open spec fn bold_of(s: Seq<char>) -> Seq<char> {
    effect(seq!['1'], s)
}

pub open spec fn dimmed_of(s: Seq<char>) -> Seq<char> {
    effect(seq!['2'], s)
}

pub open spec fn yellow_of(s: Seq<char>) -> Seq<char> {
    fg(seq!['3', '3'], s)
}

pub open spec fn cyan_of(s: Seq<char>) -> Seq<char> {
    fg(seq!['3', '6'], s)
}

pub open spec fn bright_green_of(s: Seq<char>) -> Seq<char> {
    fg(seq!['9', '2'], s)
}

pub open spec fn bright_cyan_of(s: Seq<char>) -> Seq<char> {
    fg(seq!['9', '6'], s)
}

pub open spec fn bright_white_of(s: Seq<char>) -> Seq<char> {
    fg(seq!['9', '7'], s)
}

/// `OwoColorize::bold`, rendered: `ESC[1m`, the text, `ESC[0m`.
#[verifier::external_body]
pub(crate) fn bold(s: &str) -> (r: String)
    ensures
        r@ == bold_of(s@),
{
    s.bold().to_string()
}

/// `OwoColorize::dimmed`, rendered: `ESC[2m`, the text, `ESC[0m`.
#[verifier::external_body]
pub(crate) fn dimmed(s: &str) -> (r: String)
    ensures
        r@ == dimmed_of(s@),
{
    s.dimmed().to_string()
}

/// `OwoColorize::yellow`, rendered: `ESC[33m`, the text, `ESC[39m`.
#[verifier::external_body]
pub(crate) fn yellow(s: &str) -> (r: String)
    ensures
        r@ == yellow_of(s@),
{
    s.yellow().to_string()
}

/// `OwoColorize::cyan`, rendered: `ESC[36m`, the text, `ESC[39m`.
#[verifier::external_body]
pub(crate) fn cyan(s: &str) -> (r: String)
    ensures
        r@ == cyan_of(s@),
{
    s.cyan().to_string()
}

/// `OwoColorize::bright_green`, rendered: `ESC[92m`, the text, `ESC[39m`.
#[verifier::external_body]
pub(crate) fn bright_green(s: &str) -> (r: String)
    ensures
        r@ == bright_green_of(s@),
{
    s.bright_green().to_string()
}

/// `OwoColorize::bright_cyan`, rendered: `ESC[96m`, the text, `ESC[39m`.
#[verifier::external_body]
pub(crate) fn bright_cyan(s: &str) -> (r: String)
    ensures
        r@ == bright_cyan_of(s@),
{
    s.bright_cyan().to_string()
}

/// `OwoColorize::bright_white`, rendered: `ESC[97m`, the text, `ESC[39m`.
#[verifier::external_body]
pub(crate) fn bright_white(s: &str) -> (r: String)
    ensures
        r@ == bright_white_of(s@),
{
    s.bright_white().to_string()
}

} // verus!
