//! Terminal colours, as `owo_colors` writes them.

use owo_colors::OwoColorize;
use vstd::prelude::*;

verus! {

/// The foreground colours that the rendering uses.
#[derive(Clone, Copy)]
pub enum Color {
    Green,
    Magenta,
    Cyan,
    Yellow,
    BrightBlack,
}

/// The SGR parameter of a foreground colour.
pub open spec fn sgr_code(c: Color) -> Seq<char> {
    match c {
        Color::Green => "32"@,
        Color::Magenta => "35"@,
        Color::Cyan => "36"@,
        Color::Yellow => "33"@,
        Color::BrightBlack => "90"@,
    }
}

/// `s` displayed in colour `c`: the colour's escape sequence, `s`, and the
/// sequence that restores the default foreground colour.
pub open spec fn colored_text(c: Color, s: Seq<char>) -> Seq<char> {
    "\x1b["@ + sgr_code(c) + "m"@ + s + "\x1b[39m"@
}

/// `s` in colour `c` when `colored`, as it is otherwise.
pub open spec fn paint(colored: bool, c: Color, s: Seq<char>) -> Seq<char> {
    if colored {
        colored_text(c, s)
    } else {
        s
    }
}

/// `OwoColorize::green`, displayed.
#[verifier::external_body]
fn green(s: &str) -> (r: String)
    ensures
        r@ == colored_text(Color::Green, s@),
{
    format!("{}", s.green())
}

/// `OwoColorize::magenta`, displayed.
#[verifier::external_body]
fn magenta(s: &str) -> (r: String)
    ensures
        r@ == colored_text(Color::Magenta, s@),
{
    format!("{}", s.magenta())
}

/// `OwoColorize::cyan`, displayed.
#[verifier::external_body]
fn cyan(s: &str) -> (r: String)
    ensures
        r@ == colored_text(Color::Cyan, s@),
{
    format!("{}", s.cyan())
}

/// `OwoColorize::yellow`, displayed.
#[verifier::external_body]
fn yellow(s: &str) -> (r: String)
    ensures
        r@ == colored_text(Color::Yellow, s@),
{
    format!("{}", s.yellow())
}

/// `OwoColorize::bright_black`, displayed.
#[verifier::external_body]
fn bright_black(s: &str) -> (r: String)
    ensures
        r@ == colored_text(Color::BrightBlack, s@),
{
    format!("{}", s.bright_black())
}

/// `s` displayed in colour `c`.
pub fn colorize(c: Color, s: &str) -> (r: String)
    ensures
        r@ == colored_text(c, s@),
{
    match c {
        Color::Green => green(s),
        Color::Magenta => magenta(s),
        Color::Cyan => cyan(s),
        Color::Yellow => yellow(s),
        Color::BrightBlack => bright_black(s),
    }
}

/// Appends `s` to `out`, in colour `c` when `colored`.
pub fn push_painted(out: &mut String, colored: bool, c: Color, s: &str)
    ensures
        final(out)@ == old(out)@ + paint(colored, c, s@),
{
    if colored {
        let t = colorize(c, s);
        crate::text::push_str(out, t.as_str());
    } else {
        crate::text::push_str(out, s);
    }
}

} // verus!
