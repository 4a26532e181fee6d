//! Terminal styling of log text through `owo_colors`. Each function renders one
//! style around a text; the escape sequences are those that the crate's `Display`
//! implementations write.
use owo_colors::OwoColorize;
use vstd::prelude::*;

verus! {

/// `text` between the escape sequences `open` and `close`.
pub open spec fn styled(open: Seq<char>, text: Seq<char>, close: Seq<char>) -> Seq<char> {
    open + text + close
}

/// The sequence that ends a text style (bold, dim).
pub open spec fn style_reset() -> Seq<char> {
    "\x1b[0m"@
}

/// The sequence that restores the default foreground color.
pub open spec fn color_reset() -> Seq<char> {
    "\x1b[39m"@
}

/// `OwoColorize::dimmed`, rendered with `to_string`: the text between `ESC[2m` and `ESC[0m`.
#[verifier::external_body]
pub(crate) fn dimmed(text: &str) -> (r: String)
    ensures
        r@ == styled("\x1b[2m"@, text@, style_reset()),
{
    text.dimmed().to_string()
}

/// `OwoColorize::bold`, rendered with `to_string`: the text between `ESC[1m` and `ESC[0m`.
#[verifier::external_body]
pub(crate) fn bold(text: &str) -> (r: String)
    ensures
        r@ == styled("\x1b[1m"@, text@, style_reset()),
{
    text.bold().to_string()
}

/// `OwoColorize::red`, rendered with `to_string`: the text between `ESC[31m` and `ESC[39m`.
#[verifier::external_body]
pub(crate) fn red(text: &str) -> (r: String)
    ensures
        r@ == styled("\x1b[31m"@, text@, color_reset()),
{
    text.red().to_string()
}

/// `OwoColorize::green`, rendered with `to_string`: the text between `ESC[32m` and `ESC[39m`.
#[verifier::external_body]
pub(crate) fn green(text: &str) -> (r: String)
    ensures
        r@ == styled("\x1b[32m"@, text@, color_reset()),
{
    text.green().to_string()
}

/// `OwoColorize::yellow`, rendered with `to_string`: the text between `ESC[33m` and `ESC[39m`.
#[verifier::external_body]
pub(crate) fn yellow(text: &str) -> (r: String)
    ensures
        r@ == styled("\x1b[33m"@, text@, color_reset()),
{
    text.yellow().to_string()
}

/// `OwoColorize::blue`, rendered with `to_string`: the text between `ESC[34m` and `ESC[39m`.
#[verifier::external_body]
pub(crate) fn blue(text: &str) -> (r: String)
    ensures
        r@ == styled("\x1b[34m"@, text@, color_reset()),
{
    text.blue().to_string()
}

/// `OwoColorize::magenta`, rendered with `to_string`: the text between `ESC[35m` and `ESC[39m`.
#[verifier::external_body]
pub(crate) fn magenta(text: &str) -> (r: String)
    ensures
        r@ == styled("\x1b[35m"@, text@, color_reset()),
{
    text.magenta().to_string()
}

} // verus!
