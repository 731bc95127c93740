//! The style descriptor and its order-sensitive merge operation.

use vstd::prelude::*;

use crate::color::Color;
use crate::style::{Style, StyleSet};

verus! {

/// An immutable bundle of an optional foreground color, an optional
/// background color and an optional [`StyleSet`], built by successive
/// narrowing ([`Colorizer::foreground`], [`Colorizer::background`],
/// [`Colorizer::style`]) or by merging two descriptors
/// ([`Colorizer::join_with`]).  Equality is structural.
#[derive(Clone, Copy, PartialEq, Eq, Structural, Debug)]
pub struct Colorizer {
    /// Lettering color, if any was set.
    pub foreground: Option<Color>,
    /// Background color, if any was set.
    pub background: Option<Color>,
    /// Styles applied to the text.  `None` means "no style information",
    /// which is distinct from `Some` of the empty set.
    pub style_set: Option<StyleSet>,
}

impl Colorizer {
    /// The descriptor with no foreground, no background and no style set.
    pub open spec fn spec_new() -> Colorizer {
        Colorizer { foreground: None, background: None, style_set: None }
    }

    /// The descriptor after adding one style, per the builder rules:
    /// `Clear` discards both colors and makes the set exactly `{Clear}`;
    /// any other style is inserted into the set, which is first
    /// initialised to the empty set if it was absent.
    pub open spec fn spec_with_style(self, s: Style) -> Colorizer {
        match s {
            Style::Clear => Colorizer {
                foreground: None,
                background: None,
                style_set: Some(StyleSet::spec_empty().spec_insert(Style::Clear)),
            },
            _ => {
                let base = match self.style_set {
                    Some(set) => set,
                    None => StyleSet::spec_empty(),
                };
                Colorizer { style_set: Some(base.spec_insert(s)), ..self }
            },
        }
    }

    /// The descriptor after adding each style of `styles` in order.
    pub open spec fn spec_with_styles(self, styles: Seq<Style>) -> Colorizer
        decreases styles.len(),
    {
        if styles.len() == 0 {
            self
        } else {
            self.spec_with_style(styles[0]).spec_with_styles(styles.drop_first())
        }
    }

    /// The merge of `old` with `new`, `new` taking precedence:
    /// each color of `new` overrides the same color of `old` where
    /// present; an absent style set yields the other side's set; when
    /// both sets are present and `new`'s contains `Clear`, the result is
    /// exactly `new` (a full reset, colors included); when both are
    /// present without `Clear` in `new`, the sets are united.
    pub open spec fn spec_merge(old: Colorizer, new: Colorizer) -> Colorizer {
        let fg = if new.foreground is Some {
            new.foreground
        } else {
            old.foreground
        };
        let bg = if new.background is Some {
            new.background
        } else {
            old.background
        };
        match (old.style_set, new.style_set) {
            (Some(old_set), Some(new_set)) => {
                if new_set.clear {
                    Colorizer {
                        foreground: new.foreground,
                        background: new.background,
                        style_set: new.style_set,
                    }
                } else {
                    Colorizer {
                        foreground: fg,
                        background: bg,
                        style_set: Some(old_set.spec_union(new_set)),
                    }
                }
            },
            (Some(old_set), None) => Colorizer {
                foreground: fg,
                background: bg,
                style_set: Some(old_set),
            },
            (None, new_set) => Colorizer { foreground: fg, background: bg, style_set: new_set },
        }
    }

    /// Creates a descriptor where no foreground, background or style has
    /// been set.
    pub fn new() -> (r: Colorizer)
        ensures
            r == Colorizer::spec_new(),
    {
        Colorizer { foreground: None, background: None, style_set: None }
    }

    /// Sets the lettering color.
    pub fn foreground(self, color: Color) -> (r: Colorizer)
        ensures
            r == (Colorizer { foreground: Some(color), ..self }),
    {
        Colorizer { foreground: Some(color), ..self }
    }

    /// Sets the background color.
    pub fn background(self, color: Color) -> (r: Colorizer)
        ensures
            r == (Colorizer { background: Some(color), ..self }),
    {
        Colorizer { background: Some(color), ..self }
    }

    /// Adds one style.  Adding [`Style::Clear`] discards both colors and
    /// makes the style set exactly `{Clear}`; adding any other style
    /// inserts it into the set, initialising the set to empty first if it
    /// was absent.
    pub fn style(self, style: Style) -> (r: Colorizer)
        ensures
            r == self.spec_with_style(style),
    {
        match style {
            Style::Clear => Colorizer {
                foreground: None,
                background: None,
                style_set: Some(StyleSet::empty().insert(Style::Clear)),
            },
            _ => {
                let base = match self.style_set {
                    Some(set) => set,
                    None => StyleSet::empty(),
                };
                Colorizer { style_set: Some(base.insert(style)), ..self }
            },
        }
    }

    /// Adds each style of `styles` in order, as [`Colorizer::style`]
    /// would one by one.
    pub fn styles(self, styles: &Vec<Style>) -> (r: Colorizer)
        ensures
            r == self.spec_with_styles(styles@),
    {
        let mut current = self;
        let mut i: usize = 0;
        proof {
            assert(styles@.skip(0) =~= styles@);
        }
        while i < styles.len()
            invariant
                i <= styles.len(),
                current.spec_with_styles(styles@.skip(i as int)) == self.spec_with_styles(
                    styles@,
                ),
            decreases styles.len() - i,
        {
            proof {
                assert(styles@.skip(i as int)[0] == styles@[i as int]);
                assert(styles@.skip(i as int).drop_first() =~= styles@.skip(i as int + 1));
            }
            current = current.style(styles[i]);
            i = i + 1;
        }
        proof {
            assert(styles@.skip(styles@.len() as int) =~= Seq::<Style>::empty());
        }
        current
    }

    /// Joins two descriptors, the second taking precedence, per
    /// [`Colorizer::spec_merge`].
    pub fn join_with(self, new: Self) -> (r: Self)
        ensures
            r == Colorizer::spec_merge(self, new),
    {
        let mut out = self;
        if new.foreground.is_some() {
            out.foreground = new.foreground;
        }
        if new.background.is_some() {
            out.background = new.background;
        }
        match (self.style_set, new.style_set) {
            (Some(old_set), Some(new_set)) => {
                if new_set.has(Style::Clear) {
                    out.style_set = new.style_set;
                    out.foreground = new.foreground;
                    out.background = new.background;
                } else {
                    out.style_set = Some(old_set.union(new_set));
                }
            },
            (_, Some(_)) => {
                out.style_set = new.style_set;
            },
            (_, None) => {
            },
        }
        out
    }

    /// Joins two descriptors, the second taking precedence; the same
    /// operation as [`Colorizer::join_with`] spelled as a plain function.
    pub fn join_const(old: Self, new: Self) -> (r: Self)
        ensures
            r == Colorizer::spec_merge(old, new),
    {
        old.join_with(new)
    }
}

} // verus!
