//! The color value type: sixteen named terminal colors plus explicit RGB.

use vstd::prelude::*;

verus! {

/// A terminal color: one of the sixteen named basic/bright colors, or an
/// explicit red/green/blue byte triple.
#[derive(Clone, Copy, PartialEq, Eq, Structural, Debug)]
pub enum Color {
    Black,
    Red,
    Green,
    Yellow,
    Blue,
    Magenta,
    Cyan,
    White,
    BrightBlack,
    BrightRed,
    BrightGreen,
    BrightYellow,
    BrightBlue,
    BrightMagenta,
    BrightCyan,
    BrightWhite,
    TrueColor { r: u8, g: u8, b: u8 },
}

} // verus!
