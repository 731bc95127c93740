//! Styling of substrings of a text with terminal escape sequences.
//!
//! A [`Colorizer`] bundles an optional foreground color, an optional
//! background color and an optional [`StyleSet`].  The [`colorize`]
//! entry point applies an ordered list of rules — each an absolute
//! half-open range paired with a colorizer — to an input string that
//! occupies a stated range of the same offset space: a rule whose range
//! does not genuinely overlap the input's is foreign and silently
//! contributes nothing.  Overlapping rules are resolved by splitting
//! the input at every retained rule's edges and folding the applicable
//! colorizers in order, later rules taking precedence and the optional
//! general colorizer lowest; each resulting segment is rendered and the
//! rendered pieces are spliced back right to left, so that earlier
//! offsets stay valid while the string grows.
//!
//! The process-wide styling switch of the `colored` crate is consulted
//! once per [`colorize`] call; [`colorize_with`] takes the switch as an
//! explicit argument instead.
//!
//! Module map: [`color`] and [`style`] hold the value types,
//! [`colorizer`] the descriptor and its merge rules, [`render`] the
//! escape-sequence renderer, [`resolver`] the range resolver,
//! [`colorize`](mod@colorize) the entry points, and [`laws`] and
//! [`strip`] the proved laws, among them the round trip: stripping all
//! escape sequences from an output restores the input.

pub mod background;
pub mod color;
pub mod colorize;
pub mod colorizer;
pub mod foreground;
pub mod laws;
pub mod render;
pub mod resolver;
pub mod strip;
pub mod style;

pub use color::Color;
pub use colorize::{colorize, colorize_with};
pub use colorizer::Colorizer;
pub use resolver::{range_contains_other, resolve};
pub use style::{Style, StyleSet};
