//! Coloured text for a terminal.
use vstd::prelude::*;

verus! {

/// The colours in which a session writes.
#[derive(Clone, Copy, Debug, PartialEq, Eq, Structural)]
pub enum Colour {
    Black,
    Red,
    Green,
    Yellow,
    Blue,
}

/// How a piece of text looks.
#[derive(Clone, Copy, Debug, PartialEq, Eq, Structural)]
pub struct Style {
    pub colour: Colour,
    pub bold: bool,
    pub underline: bool,
}

/// The parameter that selects `colour` as the foreground.
pub open spec fn colour_code(colour: Colour) -> Seq<char> {
    match colour {
        Colour::Black => "30"@,
        Colour::Red => "31"@,
        Colour::Green => "32"@,
        Colour::Yellow => "33"@,
        Colour::Blue => "34"@,
    }
}

/// The escape sequence that turns `style` on.
pub open spec fn style_prefix(style: Style) -> Seq<char> {
    let bold = if style.bold {
        "1;"@
    } else {
        ""@
    };
    let underline = if style.underline {
        "4;"@
    } else {
        ""@
    };
    "\x1B["@ + bold + underline + colour_code(style.colour) + "m"@
}

/// `text` between the escape sequence that turns `style` on and the one that
/// turns all styles off.
pub open spec fn painted(style: Style, text: Seq<char>) -> Seq<char> {
    style_prefix(style) + text + "\x1B[0m"@
}

/// Text in an ordinary colour, neither bold nor underlined.
pub open spec fn plain(colour: Colour) -> Style {
    Style { colour, bold: false, underline: false }
}

/// The style of the code to which an error points.
pub open spec fn error_style() -> Style {
    Style { colour: Colour::Red, bold: true, underline: true }
}

/// Calls `ansi_term::Style::paint` and writes the painted text with `format`: the
/// result is the escape sequence of the style, the text as it was, and the
/// escape sequence that resets the terminal.
#[verifier::external_body]
pub(crate) fn paint(style: Style, text: &str) -> (result: String)
    ensures
        result@ == painted(style, text@),
{
    let colour = match style.colour {
        Colour::Black => ansi_term::Colour::Black,
        Colour::Red => ansi_term::Colour::Red,
        Colour::Green => ansi_term::Colour::Green,
        Colour::Yellow => ansi_term::Colour::Yellow,
        Colour::Blue => ansi_term::Colour::Blue,
    };
    let mut outside = colour.normal();
    outside.is_bold = style.bold;
    outside.is_underline = style.underline;
    format!("{}", outside.paint(text))
}

/// Paints `text` in `colour`.
pub fn paint_plain(colour: Colour, text: &str) -> (result: String)
    ensures
        result@ == painted(plain(colour), text@),
{
    paint(Style { colour, bold: false, underline: false }, text)
}

/// Paints `text` as code to which an error points.
pub fn paint_error(text: &str) -> (result: String)
    ensures
        result@ == painted(error_style(), text@),
{
    paint(Style { colour: Colour::Red, bold: true, underline: true }, text)
}

/// A painted text is the text as it was between two escape sequences: the first has
/// the code of the colour, behind those for bold and underlined, and the second
/// resets the terminal.
pub proof fn paint_stands_around_the_text(text: Seq<char>)
    ensures
        painted(plain(Colour::Black), text) == "\x1B[30m"@ + text + "\x1B[0m"@,
        painted(plain(Colour::Red), text) == "\x1B[31m"@ + text + "\x1B[0m"@,
        painted(plain(Colour::Green), text) == "\x1B[32m"@ + text + "\x1B[0m"@,
        painted(plain(Colour::Yellow), text) == "\x1B[33m"@ + text + "\x1B[0m"@,
        painted(plain(Colour::Blue), text) == "\x1B[34m"@ + text + "\x1B[0m"@,
        painted(error_style(), text) == "\x1B[1;4;31m"@ + text + "\x1B[0m"@,
{
    reveal_strlit("");
    reveal_strlit("1;");
    reveal_strlit("4;");
    reveal_strlit("m");
    reveal_strlit("30");
    reveal_strlit("31");
    reveal_strlit("32");
    reveal_strlit("33");
    reveal_strlit("34");
    reveal_strlit("\x1B[");
    reveal_strlit("\x1B[30m");
    reveal_strlit("\x1B[31m");
    reveal_strlit("\x1B[32m");
    reveal_strlit("\x1B[33m");
    reveal_strlit("\x1B[34m");
    reveal_strlit("\x1B[1;4;31m");
    assert(style_prefix(plain(Colour::Black)) =~= "\x1B[30m"@);
    assert(style_prefix(plain(Colour::Red)) =~= "\x1B[31m"@);
    assert(style_prefix(plain(Colour::Green)) =~= "\x1B[32m"@);
    assert(style_prefix(plain(Colour::Yellow)) =~= "\x1B[33m"@);
    assert(style_prefix(plain(Colour::Blue)) =~= "\x1B[34m"@);
    assert(style_prefix(error_style()) =~= "\x1B[1;4;31m"@);
}

} // verus!
