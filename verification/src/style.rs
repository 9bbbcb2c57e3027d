use vstd::prelude::*;
use crate::parts::PaletteColor;

verus! {

/// The characters that the styling layer produces for the given colours,
/// boldness and text: the escape-code prefix of the style, the text itself,
/// then the reset suffix. The result depends on the arguments alone.
pub uninterp spec fn styled_of(fg: PaletteColor, bg: PaletteColor, bold: bool, text: Seq<char>) -> Seq<char>;

/// Relies on `ansi_term::Style::paint` and the `Display` impl of the
/// `ANSIString` it returns (`write_to_any` in ansi_term's `display.rs`): it
/// writes the style's escape-code prefix, the text unchanged, then the reset
/// suffix — a pure function of the colours, the boldness flag and the text.
#[verifier::external_body]
pub fn paint_styled(fg: PaletteColor, bg: PaletteColor, bold: bool, text: &str) -> (r: String)
    ensures
        r@ == styled_of(fg, bg, bold, text@),
{
    let fg_colour = match fg {
        PaletteColor::Rgb(r, g, b) => ansi_term::Colour::RGB(r, g, b),
        PaletteColor::EightBit(c) => ansi_term::Colour::Fixed(c),
    };
    let bg_colour = match bg {
        PaletteColor::Rgb(r, g, b) => ansi_term::Colour::RGB(r, g, b),
        PaletteColor::EightBit(c) => ansi_term::Colour::Fixed(c),
    };
    let mut style = ansi_term::Style::new().fg(fg_colour).on(bg_colour);
    if bold {
        style = style.bold();
    }
    format!("{}", style.paint(text))
}

} // verus!
