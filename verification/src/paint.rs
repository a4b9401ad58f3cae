//! The style of each category and the painting of text for a terminal.
//!
//! The painting itself is done by the crate `colored`, which decides from
//! the terminal and the environment whether colours are written at all. The
//! painters below are the calls into it; what they state of its results is
//! believed, not proved.

use crate::classify::Category;
use crate::colour::{rainbow, rainbow_of, Rgb};
use crate::number::decimal_digits;
use crate::text::{occurs_at, occurs_in};
use colored::Colorize;
use vstd::prelude::*;

verus! {

/// How a token is painted.
#[derive(Clone, Copy, Debug, PartialEq, Eq, Structural)]
pub enum Style {
    /// Blue: the timestamp.
    Blue,
    /// Red and bold: an error word.
    BoldRed,
    /// Green: a token with the hex marker, and an integer.
    Green,
    /// Yellow: a token that holds the pattern to highlight.
    Yellow,
    /// The colour that the text of a generic token gives.
    TrueColor(Rgb),
}

/// The style of the token `text` of the category `category`: a fixed style
/// for every category but `Generic`, whose colour comes from the text.
pub open spec fn style_of(category: Category, text: Seq<char>) -> Style {
    match category {
        Category::Timestamp => Style::Blue,
        Category::Error => Style::BoldRed,
        Category::Hex => Style::Green,
        Category::Integer => Style::Green,
        Category::Highlight => Style::Yellow,
        Category::Generic => Style::TrueColor(rainbow_of(text)),
    }
}

/// The style of the token `text` of the category `category`.
pub fn style_for(category: Category, text: &str) -> (style: Style)
    ensures
        style == style_of(category, text@),
{
    match category {
        Category::Timestamp => Style::Blue,
        Category::Error => Style::BoldRed,
        Category::Hex => Style::Green,
        Category::Integer => Style::Green,
        Category::Highlight => Style::Yellow,
        Category::Generic => Style::TrueColor(rainbow(text)),
    }
}

/// The sequence that ends a painted text.
pub open spec fn reset_sequence() -> Seq<char> {
    "\u{1b}[0m"@
}

/// The sequence that starts a painted text and selects `codes`.
pub open spec fn start_sequence(codes: Seq<char>) -> Seq<char> {
    "\u{1b}["@ + codes + "m"@
}

/// The code that selects `colour` on a terminal that has all colours.
pub open spec fn true_colour_code(colour: Rgb) -> Seq<char> {
    "38;2;"@ + decimal_digits(colour.r as nat) + ";"@ + decimal_digits(colour.g as nat) + ";"@
        + decimal_digits(colour.b as nat)
}

/// Whether `codes` selects one of the sixteen plain colours as the colour
/// of the text: `30` to `37` and `90` to `97`.
pub open spec fn is_plain_colour_code(codes: Seq<char>) -> bool {
    &&& codes.len() == 2
    &&& codes[0] == '3' || codes[0] == '9'
    &&& 0x30 <= codes[1] as u32 <= 0x37
}

/// Whether `codes` are codes that select `style`. The fixed styles have one
/// code each. A derived colour has its own code, and every plain colour can
/// stand in for it on a terminal that has no more.
pub open spec fn is_code_of(style: Style, codes: Seq<char>) -> bool {
    match style {
        Style::Blue => codes == "34"@,
        Style::BoldRed => codes == "1;31"@,
        Style::Green => codes == "32"@,
        Style::Yellow => codes == "33"@,
        Style::TrueColor(colour) => codes == true_colour_code(colour) || is_plain_colour_code(
            codes,
        ),
    }
}

/// Whether `painted` is `text` painted in `style`: the text between the
/// start sequence with codes of the style and the reset sequence; or, where
/// colours are switched off, the text alone; or, where they are switched off
/// while the text is written, the text and the reset sequence.
pub open spec fn painted_in(style: Style, text: Seq<char>, painted: Seq<char>) -> bool {
    ||| painted == text
    ||| painted == text + reset_sequence()
    ||| exists|codes: Seq<char>|
        is_code_of(style, codes) && painted == #[trigger] start_sequence(codes) + text
            + reset_sequence()
}

/// What holds of `painted`, the result of painting `text` in `style`, in
/// every environment: a text that holds no reset sequence is painted in the
/// style. A text that holds one has the codes repeated inside it, and
/// nothing is said of it here.
pub open spec fn paints(style: Style, text: Seq<char>, painted: Seq<char>) -> bool {
    !occurs_in(text, reset_sequence()) ==> painted_in(style, text, painted)
}

/// Renders `text` in blue: `colored::Colorize::blue`, then the `Display` of
/// the `ColoredString`.
///
/// Whether colours are on is for the crate to find out, from the terminal
/// and the environment of the process. Claimed is that a text without a
/// reset sequence is written out alone where they are off, and where they
/// are on between the start sequence with the code of blue, `34`, and the
/// reset sequence; and that the text with the reset sequence alone is all
/// that can come out if they are switched off in between.
#[verifier::external_body]
fn paint_blue(text: &str) -> (painted: String)
    ensures
        paints(Style::Blue, text@, painted@),
{
    format!("{}", text.blue())
}

/// Renders `text` in bold red: `colored::Colorize::red` and
/// `colored::Colorize::bold`, then the `Display` of the `ColoredString`.
/// Claimed is what is claimed of `paint_blue`, with the codes of bold and
/// of red, `1;31`.
#[verifier::external_body]
fn paint_bold_red(text: &str) -> (painted: String)
    ensures
        paints(Style::BoldRed, text@, painted@),
{
    format!("{}", text.red().bold())
}

/// Renders `text` in green: `colored::Colorize::green`, then the `Display`
/// of the `ColoredString`. Claimed is what is claimed of `paint_blue`, with
/// the code of green, `32`.
#[verifier::external_body]
fn paint_green(text: &str) -> (painted: String)
    ensures
        paints(Style::Green, text@, painted@),
{
    format!("{}", text.green())
}

/// Renders `text` in yellow: `colored::Colorize::yellow`, then the `Display`
/// of the `ColoredString`. Claimed is what is claimed of `paint_blue`, with
/// the code of yellow, `33`.
#[verifier::external_body]
fn paint_yellow(text: &str) -> (painted: String)
    ensures
        paints(Style::Yellow, text@, painted@),
{
    format!("{}", text.yellow())
}

/// Renders `text` in the colour `r`, `g`, `b`: `colored::Colorize::truecolor`,
/// then the `Display` of the `ColoredString`. Claimed is what is claimed of
/// `paint_blue`, with the code `38;2;` and the three numbers in decimal
/// where the environment announces all colours, and else with the code of
/// the plain colour that the crate finds nearest; which one that is, is not
/// claimed.
#[verifier::external_body]
fn paint_truecolor(text: &str, r: u8, g: u8, b: u8) -> (painted: String)
    ensures
        paints(Style::TrueColor(Rgb { r, g, b }), text@, painted@),
{
    format!("{}", text.truecolor(r, g, b))
}

/// Paints `text` in `style` for the terminal.
pub fn paint(text: &str, style: Style) -> (painted: String)
    ensures
        paints(style, text@, painted@),
{
    match style {
        Style::Blue => paint_blue(text),
        Style::BoldRed => paint_bold_red(text),
        Style::Green => paint_green(text),
        Style::Yellow => paint_yellow(text),
        Style::TrueColor(colour) => paint_truecolor(text, colour.r, colour.g, colour.b),
    }
}

/// A painted text holds the text: painting adds codes around it and drops
/// nothing.
pub proof fn lemma_painted_holds_text(style: Style, text: Seq<char>, painted: Seq<char>)
    requires
        painted_in(style, text, painted),
    ensures
        occurs_in(painted, text),
{
    if painted == text {
        assert(painted.subrange(0, text.len() as int) =~= text);
        assert(occurs_at(painted, text, 0));
    } else if painted == text + reset_sequence() {
        assert(painted.subrange(0, text.len() as int) =~= text);
        assert(occurs_at(painted, text, 0));
    } else {
        let codes = choose|codes: Seq<char>|
            is_code_of(style, codes) && painted == #[trigger] start_sequence(codes) + text
                + reset_sequence();
        let at = start_sequence(codes).len() as int;
        assert(painted.subrange(at, at + text.len()) =~= text);
        assert(occurs_at(painted, text, at));
    }
}

} // verus!
