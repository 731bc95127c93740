//! Text styles and the style-set type.
//!
//! A [`StyleSet`] is an explicit set over the nine styles.  A `Colorizer`
//! holds an `Option<StyleSet>`: an *absent* set ("no style information")
//! is distinct from a *present but empty* one ("explicitly no styles").
//! The `Clear` member is not a visual style but a reset instruction: it
//! only matters to the merge rules and produces no escape sequence.

use vstd::prelude::*;

use crate::colorizer::Colorizer;

verus! {

/// One of the nine text styles a [`crate::Colorizer`] can carry.
#[derive(Clone, Copy, PartialEq, Eq, Structural, Debug)]
pub enum Style {
    Clear,
    Bold,
    Dimmed,
    Underline,
    Reversed,
    Italic,
    Blink,
    Hidden,
    Strikethrough,
}

/// A set over the nine [`Style`] values, one flag per member.
#[derive(Clone, Copy, PartialEq, Eq, Structural, Debug)]
pub struct StyleSet {
    pub clear: bool,
    pub bold: bool,
    pub dimmed: bool,
    pub underline: bool,
    pub reversed: bool,
    pub italic: bool,
    pub blink: bool,
    pub hidden: bool,
    pub strikethrough: bool,
}

impl StyleSet {
    /// The set with no member.
    pub open spec fn spec_empty() -> StyleSet {
        StyleSet {
            clear: false,
            bold: false,
            dimmed: false,
            underline: false,
            reversed: false,
            italic: false,
            blink: false,
            hidden: false,
            strikethrough: false,
        }
    }

    /// Whether `s` is a member of the set.
    pub open spec fn spec_has(self, s: Style) -> bool {
        match s {
            Style::Clear => self.clear,
            Style::Bold => self.bold,
            Style::Dimmed => self.dimmed,
            Style::Underline => self.underline,
            Style::Reversed => self.reversed,
            Style::Italic => self.italic,
            Style::Blink => self.blink,
            Style::Hidden => self.hidden,
            Style::Strikethrough => self.strikethrough,
        }
    }

    /// The set extended with `s`.
    pub open spec fn spec_insert(self, s: Style) -> StyleSet {
        match s {
            Style::Clear => StyleSet { clear: true, ..self },
            Style::Bold => StyleSet { bold: true, ..self },
            Style::Dimmed => StyleSet { dimmed: true, ..self },
            Style::Underline => StyleSet { underline: true, ..self },
            Style::Reversed => StyleSet { reversed: true, ..self },
            Style::Italic => StyleSet { italic: true, ..self },
            Style::Blink => StyleSet { blink: true, ..self },
            Style::Hidden => StyleSet { hidden: true, ..self },
            Style::Strikethrough => StyleSet { strikethrough: true, ..self },
        }
    }

    /// The member-wise union of two sets.
    pub open spec fn spec_union(self, other: StyleSet) -> StyleSet {
        StyleSet {
            clear: self.clear || other.clear,
            bold: self.bold || other.bold,
            dimmed: self.dimmed || other.dimmed,
            underline: self.underline || other.underline,
            reversed: self.reversed || other.reversed,
            italic: self.italic || other.italic,
            blink: self.blink || other.blink,
            hidden: self.hidden || other.hidden,
            strikethrough: self.strikethrough || other.strikethrough,
        }
    }

    /// Builds the empty set.
    pub fn empty() -> (r: StyleSet)
        ensures
            r == StyleSet::spec_empty(),
    {
        StyleSet {
            clear: false,
            bold: false,
            dimmed: false,
            underline: false,
            reversed: false,
            italic: false,
            blink: false,
            hidden: false,
            strikethrough: false,
        }
    }

    /// Tests membership of `s`.
    pub fn has(&self, s: Style) -> (r: bool)
        ensures
            r == self.spec_has(s),
    {
        match s {
            Style::Clear => self.clear,
            Style::Bold => self.bold,
            Style::Dimmed => self.dimmed,
            Style::Underline => self.underline,
            Style::Reversed => self.reversed,
            Style::Italic => self.italic,
            Style::Blink => self.blink,
            Style::Hidden => self.hidden,
            Style::Strikethrough => self.strikethrough,
        }
    }

    /// Returns the set extended with `s`.
    pub fn insert(self, s: Style) -> (r: StyleSet)
        ensures
            r == self.spec_insert(s),
    {
        match s {
            Style::Clear => StyleSet { clear: true, ..self },
            Style::Bold => StyleSet { bold: true, ..self },
            Style::Dimmed => StyleSet { dimmed: true, ..self },
            Style::Underline => StyleSet { underline: true, ..self },
            Style::Reversed => StyleSet { reversed: true, ..self },
            Style::Italic => StyleSet { italic: true, ..self },
            Style::Blink => StyleSet { blink: true, ..self },
            Style::Hidden => StyleSet { hidden: true, ..self },
            Style::Strikethrough => StyleSet { strikethrough: true, ..self },
        }
    }

    /// Builds the set holding exactly `s`.
    pub fn just(s: Style) -> (r: StyleSet)
        ensures
            r == StyleSet::spec_empty().spec_insert(s),
    {
        StyleSet::empty().insert(s)
    }

    /// Returns the member-wise union with `other`.
    pub fn union(self, other: StyleSet) -> (r: StyleSet)
        ensures
            r == self.spec_union(other),
    {
        StyleSet {
            clear: self.clear || other.clear,
            bold: self.bold || other.bold,
            dimmed: self.dimmed || other.dimmed,
            underline: self.underline || other.underline,
            reversed: self.reversed || other.reversed,
            italic: self.italic || other.italic,
            blink: self.blink || other.blink,
            hidden: self.hidden || other.hidden,
            strikethrough: self.strikethrough || other.strikethrough,
        }
    }
}

/// A colorizer carrying only the given style.
pub fn styled(s: Style) -> (r: Colorizer)
    ensures
        r == Colorizer::spec_new().spec_with_style(s),
{
    Colorizer::new().style(s)
}

/// Clear-styled colorizer: it resets everything merged before it.
pub fn clear() -> (r: Colorizer)
    ensures
        r == Colorizer::spec_new().spec_with_style(Style::Clear),
{
    styled(Style::Clear)
}

/// Bold-styled colorizer.
pub fn bold() -> (r: Colorizer)
    ensures
        r == Colorizer::spec_new().spec_with_style(Style::Bold),
{
    styled(Style::Bold)
}

/// Dimmed-styled colorizer.
pub fn dimmed() -> (r: Colorizer)
    ensures
        r == Colorizer::spec_new().spec_with_style(Style::Dimmed),
{
    styled(Style::Dimmed)
}

/// Underline-styled colorizer.
pub fn underline() -> (r: Colorizer)
    ensures
        r == Colorizer::spec_new().spec_with_style(Style::Underline),
{
    styled(Style::Underline)
}

/// Reversed-styled colorizer.
pub fn reversed() -> (r: Colorizer)
    ensures
        r == Colorizer::spec_new().spec_with_style(Style::Reversed),
{
    styled(Style::Reversed)
}

/// Italic-styled colorizer.
pub fn italic() -> (r: Colorizer)
    ensures
        r == Colorizer::spec_new().spec_with_style(Style::Italic),
{
    styled(Style::Italic)
}

/// Blink-styled colorizer.
pub fn blink() -> (r: Colorizer)
    ensures
        r == Colorizer::spec_new().spec_with_style(Style::Blink),
{
    styled(Style::Blink)
}

/// Hidden-styled colorizer.
pub fn hidden() -> (r: Colorizer)
    ensures
        r == Colorizer::spec_new().spec_with_style(Style::Hidden),
{
    styled(Style::Hidden)
}

/// Strikethrough-styled colorizer.
pub fn strikethrough() -> (r: Colorizer)
    ensures
        r == Colorizer::spec_new().spec_with_style(Style::Strikethrough),
{
    styled(Style::Strikethrough)
}

} // verus!
