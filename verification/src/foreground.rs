//! Factory functions for foreground colorizers.

use vstd::prelude::*;

use crate::color::Color;
use crate::colorizer::Colorizer;

verus! {

/// A colorizer with only the foreground set to the given color.
pub open spec fn spec_fg(c: Color) -> Colorizer {
    Colorizer { foreground: Some(c), background: None, style_set: None }
}

/// Black foreground colorizer.
pub fn black() -> (r: Colorizer)
    ensures
        r == spec_fg(Color::Black),
{
    Colorizer::new().foreground(Color::Black)
}

/// Red foreground colorizer.
pub fn red() -> (r: Colorizer)
    ensures
        r == spec_fg(Color::Red),
{
    Colorizer::new().foreground(Color::Red)
}

/// Green foreground colorizer.
pub fn green() -> (r: Colorizer)
    ensures
        r == spec_fg(Color::Green),
{
    Colorizer::new().foreground(Color::Green)
}

/// Yellow foreground colorizer.
pub fn yellow() -> (r: Colorizer)
    ensures
        r == spec_fg(Color::Yellow),
{
    Colorizer::new().foreground(Color::Yellow)
}

/// Blue foreground colorizer.
pub fn blue() -> (r: Colorizer)
    ensures
        r == spec_fg(Color::Blue),
{
    Colorizer::new().foreground(Color::Blue)
}

/// Magenta foreground colorizer.
pub fn magenta() -> (r: Colorizer)
    ensures
        r == spec_fg(Color::Magenta),
{
    Colorizer::new().foreground(Color::Magenta)
}

/// Cyan foreground colorizer.
pub fn cyan() -> (r: Colorizer)
    ensures
        r == spec_fg(Color::Cyan),
{
    Colorizer::new().foreground(Color::Cyan)
}

/// White foreground colorizer.
pub fn white() -> (r: Colorizer)
    ensures
        r == spec_fg(Color::White),
{
    Colorizer::new().foreground(Color::White)
}

/// Bright black foreground colorizer.
pub fn bright_black() -> (r: Colorizer)
    ensures
        r == spec_fg(Color::BrightBlack),
{
    Colorizer::new().foreground(Color::BrightBlack)
}

/// Bright red foreground colorizer.
pub fn bright_red() -> (r: Colorizer)
    ensures
        r == spec_fg(Color::BrightRed),
{
    Colorizer::new().foreground(Color::BrightRed)
}

/// Bright green foreground colorizer.
pub fn bright_green() -> (r: Colorizer)
    ensures
        r == spec_fg(Color::BrightGreen),
{
    Colorizer::new().foreground(Color::BrightGreen)
}

/// Bright yellow foreground colorizer.
pub fn bright_yellow() -> (r: Colorizer)
    ensures
        r == spec_fg(Color::BrightYellow),
{
    Colorizer::new().foreground(Color::BrightYellow)
}

/// Bright blue foreground colorizer.
pub fn bright_blue() -> (r: Colorizer)
    ensures
        r == spec_fg(Color::BrightBlue),
{
    Colorizer::new().foreground(Color::BrightBlue)
}

/// Bright magenta foreground colorizer.
pub fn bright_magenta() -> (r: Colorizer)
    ensures
        r == spec_fg(Color::BrightMagenta),
{
    Colorizer::new().foreground(Color::BrightMagenta)
}

/// Bright cyan foreground colorizer.
pub fn bright_cyan() -> (r: Colorizer)
    ensures
        r == spec_fg(Color::BrightCyan),
{
    Colorizer::new().foreground(Color::BrightCyan)
}

/// Bright white foreground colorizer.
pub fn bright_white() -> (r: Colorizer)
    ensures
        r == spec_fg(Color::BrightWhite),
{
    Colorizer::new().foreground(Color::BrightWhite)
}

/// A foreground colorizer for the explicit red, green and blue values
/// given.
pub fn true_color(red: u8, green: u8, blue: u8) -> (r: Colorizer)
    ensures
        r == spec_fg(Color::TrueColor { r: red, g: green, b: blue }),
{
    Colorizer::new().foreground(Color::TrueColor { r: red, g: green, b: blue })
}

} // verus!
