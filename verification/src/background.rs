//! Factory functions for background colorizers.

use vstd::prelude::*;

use crate::color::Color;
use crate::colorizer::Colorizer;

verus! {

/// A colorizer with only the background set to the given color.
pub open spec fn spec_bg(c: Color) -> Colorizer {
    Colorizer { foreground: None, background: Some(c), style_set: None }
}

/// Black background colorizer.
pub fn black() -> (r: Colorizer)
    ensures
        r == spec_bg(Color::Black),
{
    Colorizer::new().background(Color::Black)
}

/// Red background colorizer.
pub fn red() -> (r: Colorizer)
    ensures
        r == spec_bg(Color::Red),
{
    Colorizer::new().background(Color::Red)
}

/// Green background colorizer.
pub fn green() -> (r: Colorizer)
    ensures
        r == spec_bg(Color::Green),
{
    Colorizer::new().background(Color::Green)
}

/// Yellow background colorizer.
pub fn yellow() -> (r: Colorizer)
    ensures
        r == spec_bg(Color::Yellow),
{
    Colorizer::new().background(Color::Yellow)
}

/// Blue background colorizer.
pub fn blue() -> (r: Colorizer)
    ensures
        r == spec_bg(Color::Blue),
{
    Colorizer::new().background(Color::Blue)
}

/// Magenta background colorizer.
pub fn magenta() -> (r: Colorizer)
    ensures
        r == spec_bg(Color::Magenta),
{
    Colorizer::new().background(Color::Magenta)
}

/// Cyan background colorizer.
pub fn cyan() -> (r: Colorizer)
    ensures
        r == spec_bg(Color::Cyan),
{
    Colorizer::new().background(Color::Cyan)
}

/// White background colorizer.
pub fn white() -> (r: Colorizer)
    ensures
        r == spec_bg(Color::White),
{
    Colorizer::new().background(Color::White)
}

/// Bright black background colorizer.
pub fn bright_black() -> (r: Colorizer)
    ensures
        r == spec_bg(Color::BrightBlack),
{
    Colorizer::new().background(Color::BrightBlack)
}

/// Bright red background colorizer.
pub fn bright_red() -> (r: Colorizer)
    ensures
        r == spec_bg(Color::BrightRed),
{
    Colorizer::new().background(Color::BrightRed)
}

/// Bright green background colorizer.
pub fn bright_green() -> (r: Colorizer)
    ensures
        r == spec_bg(Color::BrightGreen),
{
    Colorizer::new().background(Color::BrightGreen)
}

/// Bright yellow background colorizer.
pub fn bright_yellow() -> (r: Colorizer)
    ensures
        r == spec_bg(Color::BrightYellow),
{
    Colorizer::new().background(Color::BrightYellow)
}

/// Bright blue background colorizer.
pub fn bright_blue() -> (r: Colorizer)
    ensures
        r == spec_bg(Color::BrightBlue),
{
    Colorizer::new().background(Color::BrightBlue)
}

/// Bright magenta background colorizer.
pub fn bright_magenta() -> (r: Colorizer)
    ensures
        r == spec_bg(Color::BrightMagenta),
{
    Colorizer::new().background(Color::BrightMagenta)
}

/// Bright cyan background colorizer.
pub fn bright_cyan() -> (r: Colorizer)
    ensures
        r == spec_bg(Color::BrightCyan),
{
    Colorizer::new().background(Color::BrightCyan)
}

/// Bright white background colorizer.
pub fn bright_white() -> (r: Colorizer)
    ensures
        r == spec_bg(Color::BrightWhite),
{
    Colorizer::new().background(Color::BrightWhite)
}

/// A background colorizer for the explicit red, green and blue values
/// given.
pub fn true_color(red: u8, green: u8, blue: u8) -> (r: Colorizer)
    ensures
        r == spec_bg(Color::TrueColor { r: red, g: green, b: blue }),
{
    Colorizer::new().background(Color::TrueColor { r: red, g: green, b: blue })
}

} // verus!
