//! The renderer: turns a text slice and a [`Colorizer`] into an
//! escape-coded string.
//!
//! The nesting order is a fixed contract: styles are applied first, each
//! wrapping the whole string with its own start/reset pair in the order
//! Bold, Dimmed, Underline, Reversed, Italic, Blink, Hidden,
//! Strikethrough (`Clear` produces no escape of its own); then the
//! background wraps, then the foreground wraps.  A descriptor with no
//! color and no (or an empty, or a `{Clear}`-only) style set leaves the
//! text unchanged, with zero escape bytes added.

use vstd::prelude::*;

use crate::color::Color;
use crate::colorizer::Colorizer;
use crate::style::{Style, StyleSet};

verus! {

/// The decimal digit character for `d`, for `0 <= d <= 9`.
pub open spec fn spec_digit(d: int) -> char {
    if d == 0 {
        '0'
    } else if d == 1 {
        '1'
    } else if d == 2 {
        '2'
    } else if d == 3 {
        '3'
    } else if d == 4 {
        '4'
    } else if d == 5 {
        '5'
    } else if d == 6 {
        '6'
    } else if d == 7 {
        '7'
    } else if d == 8 {
        '8'
    } else {
        '9'
    }
}

/// The decimal digits of `n`, without leading zeros, for `0 <= n <= 999`.
pub open spec fn spec_dec(n: int) -> Seq<char> {
    if n < 10 {
        seq![spec_digit(n)]
    } else if n < 100 {
        seq![spec_digit(n / 10), spec_digit(n % 10)]
    } else {
        seq![spec_digit(n / 100), spec_digit((n / 10) % 10), spec_digit(n % 10)]
    }
}

/// A control sequence: the escape character and `[`, the parameter
/// characters, and the final `m`.
pub open spec fn spec_csi(params: Seq<char>) -> Seq<char> {
    seq!['\u{1b}', '['] + params + seq!['m']
}

/// The reset sequence that closes every wrap.
pub open spec fn spec_reset() -> Seq<char> {
    spec_csi(spec_dec(0))
}

/// The parameter number of the foreground code for a named color; the
/// basic colors use 30 through 37, the bright ones 90 through 97.
pub open spec fn spec_fg_number(c: Color) -> int {
    match c {
        Color::Black => 30,
        Color::Red => 31,
        Color::Green => 32,
        Color::Yellow => 33,
        Color::Blue => 34,
        Color::Magenta => 35,
        Color::Cyan => 36,
        Color::White => 37,
        Color::BrightBlack => 90,
        Color::BrightRed => 91,
        Color::BrightGreen => 92,
        Color::BrightYellow => 93,
        Color::BrightBlue => 94,
        Color::BrightMagenta => 95,
        Color::BrightCyan => 96,
        Color::BrightWhite => 97,
        Color::TrueColor { .. } => 38,
    }
}

/// The parameter characters of a truecolor code: the lead number, then
/// `;2;` and the three byte values separated by `;`.
pub open spec fn spec_rgb_params(lead: int, r: u8, g: u8, b: u8) -> Seq<char> {
    spec_dec(lead) + seq![';', '2', ';'] + spec_dec(r as int) + seq![';'] + spec_dec(g as int)
        + seq![';'] + spec_dec(b as int)
}

/// The foreground escape code of a color.
pub open spec fn spec_fg_code(c: Color) -> Seq<char> {
    match c {
        Color::TrueColor { r, g, b } => spec_csi(spec_rgb_params(38, r, g, b)),
        _ => spec_csi(spec_dec(spec_fg_number(c))),
    }
}

/// The parameter number of the background code for a named color; the
/// basic colors use 40 through 47, the bright ones 100 through 107.
pub open spec fn spec_bg_number(c: Color) -> int {
    match c {
        Color::Black => 40,
        Color::Red => 41,
        Color::Green => 42,
        Color::Yellow => 43,
        Color::Blue => 44,
        Color::Magenta => 45,
        Color::Cyan => 46,
        Color::White => 47,
        Color::BrightBlack => 100,
        Color::BrightRed => 101,
        Color::BrightGreen => 102,
        Color::BrightYellow => 103,
        Color::BrightBlue => 104,
        Color::BrightMagenta => 105,
        Color::BrightCyan => 106,
        Color::BrightWhite => 107,
        Color::TrueColor { .. } => 48,
    }
}

/// The background escape code of a color.
pub open spec fn spec_bg_code(c: Color) -> Seq<char> {
    match c {
        Color::TrueColor { r, g, b } => spec_csi(spec_rgb_params(48, r, g, b)),
        _ => spec_csi(spec_dec(spec_bg_number(c))),
    }
}

/// The parameter number of a style's escape code; `Clear` maps to the
/// reset number and is never emitted by the renderer.
pub open spec fn spec_style_number(s: Style) -> int {
    match s {
        Style::Clear => 0,
        Style::Bold => 1,
        Style::Dimmed => 2,
        Style::Italic => 3,
        Style::Underline => 4,
        Style::Blink => 5,
        Style::Reversed => 7,
        Style::Hidden => 8,
        Style::Strikethrough => 9,
    }
}

/// The escape code of a style.
pub open spec fn spec_style_code(s: Style) -> Seq<char> {
    spec_csi(spec_dec(spec_style_number(s)))
}

/// One wrap: the start code, the text, and the reset sequence.
pub open spec fn spec_wrap(code: Seq<char>, text: Seq<char>) -> Seq<char> {
    code + text + spec_reset()
}

/// The text after wrapping with each member of the style set, in the
/// fixed order; `Clear` is skipped.
pub open spec fn spec_styled(text: Seq<char>, ss: StyleSet) -> Seq<char> {
    let t = text;
    let t = if ss.bold {
        spec_wrap(spec_style_code(Style::Bold), t)
    } else {
        t
    };
    let t = if ss.dimmed {
        spec_wrap(spec_style_code(Style::Dimmed), t)
    } else {
        t
    };
    let t = if ss.underline {
        spec_wrap(spec_style_code(Style::Underline), t)
    } else {
        t
    };
    let t = if ss.reversed {
        spec_wrap(spec_style_code(Style::Reversed), t)
    } else {
        t
    };
    let t = if ss.italic {
        spec_wrap(spec_style_code(Style::Italic), t)
    } else {
        t
    };
    let t = if ss.blink {
        spec_wrap(spec_style_code(Style::Blink), t)
    } else {
        t
    };
    let t = if ss.hidden {
        spec_wrap(spec_style_code(Style::Hidden), t)
    } else {
        t
    };
    if ss.strikethrough {
        spec_wrap(spec_style_code(Style::Strikethrough), t)
    } else {
        t
    }
}

/// The rendered form of a text under a descriptor: style wraps first,
/// then the background wrap, then the foreground wrap.
pub open spec fn spec_render(text: Seq<char>, c: Colorizer) -> Seq<char> {
    let t = match c.style_set {
        Some(ss) => spec_styled(text, ss),
        None => text,
    };
    let t = match c.background {
        Some(b) => spec_wrap(spec_bg_code(b), t),
        None => t,
    };
    match c.foreground {
        Some(f) => spec_wrap(spec_fg_code(f), t),
        None => t,
    }
}

/// The one-character string for a decimal digit.
fn digit_str(d: u8) -> (r: &'static str)
    requires
        d < 10,
    ensures
        r@ == seq![spec_digit(d as int)],
{
    match d {
        0 => {
            proof {
                reveal_strlit("0");
            }
            "0"
        },
        1 => {
            proof {
                reveal_strlit("1");
            }
            "1"
        },
        2 => {
            proof {
                reveal_strlit("2");
            }
            "2"
        },
        3 => {
            proof {
                reveal_strlit("3");
            }
            "3"
        },
        4 => {
            proof {
                reveal_strlit("4");
            }
            "4"
        },
        5 => {
            proof {
                reveal_strlit("5");
            }
            "5"
        },
        6 => {
            proof {
                reveal_strlit("6");
            }
            "6"
        },
        7 => {
            proof {
                reveal_strlit("7");
            }
            "7"
        },
        8 => {
            proof {
                reveal_strlit("8");
            }
            "8"
        },
        _ => {
            proof {
                reveal_strlit("9");
            }
            "9"
        },
    }
}

/// Appends the decimal digits of `n` to `out`.
fn push_dec_u8(out: &mut String, n: u8)
    ensures
        final(out)@ == old(out)@ + spec_dec(n as int),
{
    if n >= 100 {
        out.append(digit_str(n / 100));
    }
    if n >= 10 {
        out.append(digit_str((n / 10) % 10));
    }
    out.append(digit_str(n % 10));
    proof {
        assert(final(out)@ =~= old(out)@ + spec_dec(n as int));
    }
}

/// Builds the control sequence whose parameters are the decimal digits
/// of `n`.
fn csi_dec(n: u8) -> (r: String)
    ensures
        r@ == spec_csi(spec_dec(n as int)),
{
    let mut out = String::from_str("\u{1b}[");
    push_dec_u8(&mut out, n);
    out.append("m");
    proof {
        reveal_strlit("\u{1b}[");
        reveal_strlit("m");
        assert(out@ =~= spec_csi(spec_dec(n as int)));
    }
    out
}

/// Builds the control sequence for a truecolor code with the given lead
/// number and byte values.
fn csi_rgb(lead: u8, r: u8, g: u8, b: u8) -> (out: String)
    ensures
        out@ == spec_csi(spec_rgb_params(lead as int, r, g, b)),
{
    let mut out = String::from_str("\u{1b}[");
    push_dec_u8(&mut out, lead);
    out.append(";2;");
    push_dec_u8(&mut out, r);
    out.append(";");
    push_dec_u8(&mut out, g);
    out.append(";");
    push_dec_u8(&mut out, b);
    out.append("m");
    proof {
        reveal_strlit("\u{1b}[");
        reveal_strlit(";2;");
        reveal_strlit(";");
        reveal_strlit("m");
        assert(out@ =~= spec_csi(spec_rgb_params(lead as int, r, g, b)));
    }
    out
}

/// Builds the foreground escape code of a color.
fn fg_code(c: &Color) -> (r: String)
    ensures
        r@ == spec_fg_code(*c),
{
    match c {
        Color::Black => csi_dec(30),
        Color::Red => csi_dec(31),
        Color::Green => csi_dec(32),
        Color::Yellow => csi_dec(33),
        Color::Blue => csi_dec(34),
        Color::Magenta => csi_dec(35),
        Color::Cyan => csi_dec(36),
        Color::White => csi_dec(37),
        Color::BrightBlack => csi_dec(90),
        Color::BrightRed => csi_dec(91),
        Color::BrightGreen => csi_dec(92),
        Color::BrightYellow => csi_dec(93),
        Color::BrightBlue => csi_dec(94),
        Color::BrightMagenta => csi_dec(95),
        Color::BrightCyan => csi_dec(96),
        Color::BrightWhite => csi_dec(97),
        Color::TrueColor { r, g, b } => csi_rgb(38, *r, *g, *b),
    }
}

/// Builds the background escape code of a color.
fn bg_code(c: &Color) -> (r: String)
    ensures
        r@ == spec_bg_code(*c),
{
    match c {
        Color::Black => csi_dec(40),
        Color::Red => csi_dec(41),
        Color::Green => csi_dec(42),
        Color::Yellow => csi_dec(43),
        Color::Blue => csi_dec(44),
        Color::Magenta => csi_dec(45),
        Color::Cyan => csi_dec(46),
        Color::White => csi_dec(47),
        Color::BrightBlack => csi_dec(100),
        Color::BrightRed => csi_dec(101),
        Color::BrightGreen => csi_dec(102),
        Color::BrightYellow => csi_dec(103),
        Color::BrightBlue => csi_dec(104),
        Color::BrightMagenta => csi_dec(105),
        Color::BrightCyan => csi_dec(106),
        Color::BrightWhite => csi_dec(107),
        Color::TrueColor { r, g, b } => csi_rgb(48, *r, *g, *b),
    }
}

/// Builds the escape code of a style.
fn style_code(s: Style) -> (r: String)
    ensures
        r@ == spec_style_code(s),
{
    match s {
        Style::Clear => csi_dec(0),
        Style::Bold => csi_dec(1),
        Style::Dimmed => csi_dec(2),
        Style::Italic => csi_dec(3),
        Style::Underline => csi_dec(4),
        Style::Blink => csi_dec(5),
        Style::Reversed => csi_dec(7),
        Style::Hidden => csi_dec(8),
        Style::Strikethrough => csi_dec(9),
    }
}

/// Wraps `text` between `code` and the reset sequence.
fn wrap_with(code: String, text: &str) -> (r: String)
    ensures
        r@ == spec_wrap(code@, text@),
{
    let mut out = code;
    out.append(text);
    out.append("\u{1b}[0m");
    proof {
        reveal_strlit("\u{1b}[0m");
        assert(out@ =~= spec_wrap(code@, text@));
    }
    out
}

impl Colorizer {
    /// Applies the foreground color, background color and styles to an
    /// owned copy of `input` and returns it, leaving the input intact.
    pub fn apply(&self, input: &str) -> (r: String)
        ensures
            r@ == spec_render(input@, *self),
    {
        let mut output = input.to_owned();
        match self.style_set {
            Some(ss) => {
                if ss.bold {
                    output = wrap_with(style_code(Style::Bold), output.as_str());
                }
                if ss.dimmed {
                    output = wrap_with(style_code(Style::Dimmed), output.as_str());
                }
                if ss.underline {
                    output = wrap_with(style_code(Style::Underline), output.as_str());
                }
                if ss.reversed {
                    output = wrap_with(style_code(Style::Reversed), output.as_str());
                }
                if ss.italic {
                    output = wrap_with(style_code(Style::Italic), output.as_str());
                }
                if ss.blink {
                    output = wrap_with(style_code(Style::Blink), output.as_str());
                }
                if ss.hidden {
                    output = wrap_with(style_code(Style::Hidden), output.as_str());
                }
                if ss.strikethrough {
                    output = wrap_with(style_code(Style::Strikethrough), output.as_str());
                }
            },
            None => {},
        }
        match &self.background {
            Some(b) => {
                output = wrap_with(bg_code(b), output.as_str());
            },
            None => {},
        }
        match &self.foreground {
            Some(f) => {
                output = wrap_with(fg_code(f), output.as_str());
            },
            None => {},
        }
        output
    }
}

} // verus!
