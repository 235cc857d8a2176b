//! Terminal styling of report text (ANSI escape sequences of `owo_colors`).
use vstd::prelude::*;
use owo_colors::OwoColorize;

verus! {

/// Text in bold: `ESC[1m`, the text, `ESC[0m`.
pub open spec fn bold_s(s: Seq<char>) -> Seq<char> {
    "\x1b[1m"@ + s + "\x1b[0m"@
}

/// Dimmed text: `ESC[2m`, the text, `ESC[0m`.
pub open spec fn dimmed_s(s: Seq<char>) -> Seq<char> {
    "\x1b[2m"@ + s + "\x1b[0m"@
}

/// Text in the foreground color with the given ANSI code: `ESC[<code>m`, the text, `ESC[39m`.
pub open spec fn fg_s(code: Seq<char>, s: Seq<char>) -> Seq<char> {
    "\x1b["@ + code + "m"@ + s + "\x1b[39m"@
}

/// `OwoColorize::bold`, displayed: the text between the bold and reset sequences.
#[verifier::external_body]
pub fn bold(s: &str) -> (r: String)
    ensures
        r@ == bold_s(s@),
{
    s.bold().to_string()
}

/// `OwoColorize::dimmed`, displayed: the text between the dim and reset sequences.
#[verifier::external_body]
pub fn dimmed(s: &str) -> (r: String)
    ensures
        r@ == dimmed_s(s@),
{
    s.dimmed().to_string()
}

/// `OwoColorize::red`, displayed: foreground code 31, then the default-foreground sequence.
#[verifier::external_body]
pub fn red(s: &str) -> (r: String)
    ensures
        r@ == fg_s("31"@, s@),
{
    s.red().to_string()
}

/// `OwoColorize::green`, displayed: foreground code 32, then the default-foreground sequence.
#[verifier::external_body]
pub fn green(s: &str) -> (r: String)
    ensures
        r@ == fg_s("32"@, s@),
{
    s.green().to_string()
}

/// `OwoColorize::yellow`, displayed: foreground code 33, then the default-foreground sequence.
#[verifier::external_body]
pub fn yellow(s: &str) -> (r: String)
    ensures
        r@ == fg_s("33"@, s@),
{
    s.yellow().to_string()
}

/// `OwoColorize::cyan`, displayed: foreground code 36, then the default-foreground sequence.
#[verifier::external_body]
pub fn cyan(s: &str) -> (r: String)
    ensures
        r@ == fg_s("36"@, s@),
{
    s.cyan().to_string()
}

} // verus!
