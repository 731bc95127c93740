//! The escape-stripping model and the round-trip law: removing every
//! escape sequence from a colorized output reproduces the input.

use vstd::prelude::*;

use crate::color::Color;
use crate::colorize::{spec_colorized, spec_emit};
use crate::colorizer::Colorizer;
use crate::render::{
    spec_bg_code, spec_csi, spec_dec, spec_fg_code, spec_render, spec_reset, spec_rgb_params,
    spec_style_code, spec_styled, spec_wrap,
};
use crate::resolver::{lemma_resolved_wf, spec_resolved, spec_segs_wf, Rule, Segment};
use crate::style::Style;

verus! {

/// No escape character anywhere in the text.
pub open spec fn spec_esc_free(s: Seq<char>) -> bool {
    forall|i: int| 0 <= i < s.len() ==> s[i] != '\u{1b}'
}

/// The text left after removing every escape sequence: an escape
/// character and everything up to and including the next `m` are
/// dropped; every other character is kept.
pub open spec fn spec_strip(s: Seq<char>) -> Seq<char>
    decreases s.len(),
{
    if s.len() == 0 {
        Seq::empty()
    } else if s[0] == '\u{1b}' {
        spec_strip_esc(s.drop_first())
    } else {
        seq![s[0]] + spec_strip(s.drop_first())
    }
}

/// Stripping while inside an escape sequence: everything up to and
/// including the next `m` is dropped.
pub open spec fn spec_strip_esc(s: Seq<char>) -> Seq<char>
    decreases s.len(),
{
    if s.len() == 0 {
        Seq::empty()
    } else if s[0] == 'm' {
        spec_strip(s.drop_first())
    } else {
        spec_strip_esc(s.drop_first())
    }
}

/// The shape of every code the renderer emits: it opens with the escape
/// character, closes with `m`, and holds no `m` before the end.
pub open spec fn spec_is_code(w: Seq<char>) -> bool {
    &&& w.len() >= 2
    &&& w[0] == '\u{1b}'
    &&& w.last() == 'm'
    &&& forall|i: int| 1 <= i < w.len() - 1 ==> w[i] != 'm'
}

/// Skipping an in-escape run that ends at its final `m` lands right
/// after it.
proof fn lemma_strip_esc_until(u: Seq<char>, rest: Seq<char>)
    requires
        u.len() >= 1,
        u.last() == 'm',
        forall|i: int| 0 <= i < u.len() - 1 ==> u[i] != 'm',
    ensures
        spec_strip_esc(u + rest) == spec_strip(rest),
    decreases u.len(),
{
    if u.len() == 1 {
        assert((u + rest)[0] == 'm');
        assert((u + rest).drop_first() =~= rest);
    } else {
        assert((u + rest)[0] == u[0]);
        assert(u[0] != 'm');
        assert((u + rest).drop_first() =~= u.drop_first() + rest);
        let v = u.drop_first();
        assert(forall|i: int| 0 <= i < v.len() ==> v[i] == u[i + 1]);
        assert(v.last() == u.last());
        lemma_strip_esc_until(v, rest);
    }
}

/// A whole code strips away, whatever follows it.
proof fn lemma_strip_code(w: Seq<char>, rest: Seq<char>)
    requires
        spec_is_code(w),
    ensures
        spec_strip(w + rest) == spec_strip(rest),
{
    let u = w.drop_first();
    assert((w + rest)[0] == '\u{1b}');
    assert((w + rest).drop_first() =~= u + rest);
    assert(forall|i: int| 0 <= i < u.len() ==> u[i] == w[i + 1]);
    assert(u.last() == w.last());
    lemma_strip_esc_until(u, rest);
}

/// Escape-free text strips to itself, whatever follows it.
proof fn lemma_strip_plain(t: Seq<char>, rest: Seq<char>)
    requires
        spec_esc_free(t),
    ensures
        spec_strip(t + rest) == t + spec_strip(rest),
    decreases t.len(),
{
    if t.len() == 0 {
        assert(t + rest =~= rest);
        assert(t + spec_strip(rest) =~= spec_strip(rest));
    } else {
        assert((t + rest)[0] == t[0]);
        assert((t + rest).drop_first() =~= t.drop_first() + rest);
        let v = t.drop_first();
        assert(forall|i: int| 0 <= i < v.len() ==> v[i] == t[i + 1]);
        lemma_strip_plain(v, rest);
        assert(seq![t[0]] + (v + spec_strip(rest)) =~= t + spec_strip(rest));
    }
}

/// A control sequence whose parameters hold no `m` is a code.
proof fn lemma_is_code_csi(params: Seq<char>)
    requires
        forall|i: int| 0 <= i < params.len() ==> params[i] != 'm',
    ensures
        spec_is_code(spec_csi(params)),
{
    let w = spec_csi(params);
    assert(w.len() == params.len() + 3);
    assert(w[0] == '\u{1b}');
    assert(w.last() == 'm');
    assert forall|i: int| 1 <= i < w.len() - 1 implies w[i] != 'm' by {
        if i == 1 {
            assert(w[1] == '[');
        } else {
            assert(w[i] == params[i - 2]);
        }
    }
}

/// Decimal digits never hold an `m`.
proof fn lemma_dec_no_m(n: int)
    ensures
        forall|i: int| 0 <= i < spec_dec(n).len() ==> #[trigger] spec_dec(n)[i] != 'm',
{
}

/// Truecolor parameters never hold an `m`.
proof fn lemma_rgb_no_m(lead: int, r: u8, g: u8, b: u8)
    ensures
        forall|i: int|
            0 <= i < spec_rgb_params(lead, r, g, b).len() ==> #[trigger] spec_rgb_params(
                lead,
                r,
                g,
                b,
            )[i] != 'm',
{
    let p = spec_rgb_params(lead, r, g, b);
    lemma_dec_no_m(lead);
    lemma_dec_no_m(r as int);
    lemma_dec_no_m(g as int);
    lemma_dec_no_m(b as int);
    let n0 = spec_dec(lead).len() as int;
    let n1 = n0 + 3;
    let n2 = n1 + spec_dec(r as int).len();
    let n3 = n2 + 1;
    let n4 = n3 + spec_dec(g as int).len();
    let n5 = n4 + 1;
    assert forall|i: int| 0 <= i < p.len() implies p[i] != 'm' by {
        if i < n0 {
            assert(p[i] == spec_dec(lead)[i]);
        } else if i < n1 {
            assert(p[i] == seq![';', '2', ';'][i - n0]);
        } else if i < n2 {
            assert(p[i] == spec_dec(r as int)[i - n1]);
        } else if i < n3 {
            assert(p[i] == ';');
        } else if i < n4 {
            assert(p[i] == spec_dec(g as int)[i - n3]);
        } else if i < n5 {
            assert(p[i] == ';');
        } else {
            assert(p[i] == spec_dec(b as int)[i - n5]);
        }
    }
}

/// The foreground code of every color is a code.
proof fn lemma_is_code_fg(c: Color)
    ensures
        spec_is_code(spec_fg_code(c)),
{
    match c {
        Color::TrueColor { r, g, b } => {
            lemma_rgb_no_m(38, r, g, b);
            lemma_is_code_csi(spec_rgb_params(38, r, g, b));
        },
        _ => {
            lemma_dec_no_m(crate::render::spec_fg_number(c));
            lemma_is_code_csi(spec_dec(crate::render::spec_fg_number(c)));
        },
    }
}

/// The background code of every color is a code.
proof fn lemma_is_code_bg(c: Color)
    ensures
        spec_is_code(spec_bg_code(c)),
{
    match c {
        Color::TrueColor { r, g, b } => {
            lemma_rgb_no_m(48, r, g, b);
            lemma_is_code_csi(spec_rgb_params(48, r, g, b));
        },
        _ => {
            lemma_dec_no_m(crate::render::spec_bg_number(c));
            lemma_is_code_csi(spec_dec(crate::render::spec_bg_number(c)));
        },
    }
}

/// The code of every style is a code, and so is the reset sequence.
proof fn lemma_is_code_style(s: Style)
    ensures
        spec_is_code(spec_style_code(s)),
{
    lemma_dec_no_m(crate::render::spec_style_number(s));
    lemma_is_code_csi(spec_dec(crate::render::spec_style_number(s)));
}

/// The reset sequence is a code.
proof fn lemma_is_code_reset()
    ensures
        spec_is_code(spec_reset()),
{
    lemma_dec_no_m(0);
    lemma_is_code_csi(spec_dec(0));
}

/// One wrap preserves the stripping relation between a rendered form
/// and its underlying text.
proof fn lemma_strip_wrap_step(code: Seq<char>, s: Seq<char>, text: Seq<char>)
    requires
        spec_is_code(code),
        forall|rest: Seq<char>|
            #[trigger] spec_strip(s + rest) == text + spec_strip(rest),
    ensures
        forall|rest: Seq<char>|
            #[trigger] spec_strip(spec_wrap(code, s) + rest) == text + spec_strip(rest),
{
    assert forall|rest: Seq<char>|
        #[trigger] spec_strip(spec_wrap(code, s) + rest) == text + spec_strip(rest) by {
        lemma_is_code_reset();
        lemma_strip_code(code, s + (spec_reset() + rest));
        lemma_strip_code(spec_reset(), rest);
        assert(spec_strip(s + (spec_reset() + rest)) == text + spec_strip(spec_reset() + rest));
        assert(spec_wrap(code, s) + rest =~= code + (s + (spec_reset() + rest)));
    }
}

/// Rendered escape-free text strips back to that text, whatever
/// follows it.
proof fn lemma_strip_render(text: Seq<char>, c: Colorizer)
    requires
        spec_esc_free(text),
    ensures
        forall|rest: Seq<char>|
            #[trigger] spec_strip(spec_render(text, c) + rest) == text + spec_strip(rest),
{
    assert forall|rest: Seq<char>| #[trigger] spec_strip(text + rest) == text + spec_strip(
        rest,
    ) by {
        lemma_strip_plain(text, rest);
    }
    let t1 = match c.style_set {
        Some(ss) => spec_styled(text, ss),
        None => text,
    };
    match c.style_set {
        Some(ss) => {
            let a0 = text;
            let a1 = if ss.bold {
                spec_wrap(spec_style_code(Style::Bold), a0)
            } else {
                a0
            };
            if ss.bold {
                lemma_is_code_style(Style::Bold);
                lemma_strip_wrap_step(spec_style_code(Style::Bold), a0, text);
            }
            let a2 = if ss.dimmed {
                spec_wrap(spec_style_code(Style::Dimmed), a1)
            } else {
                a1
            };
            if ss.dimmed {
                lemma_is_code_style(Style::Dimmed);
                lemma_strip_wrap_step(spec_style_code(Style::Dimmed), a1, text);
            }
            let a3 = if ss.underline {
                spec_wrap(spec_style_code(Style::Underline), a2)
            } else {
                a2
            };
            if ss.underline {
                lemma_is_code_style(Style::Underline);
                lemma_strip_wrap_step(spec_style_code(Style::Underline), a2, text);
            }
            let a4 = if ss.reversed {
                spec_wrap(spec_style_code(Style::Reversed), a3)
            } else {
                a3
            };
            if ss.reversed {
                lemma_is_code_style(Style::Reversed);
                lemma_strip_wrap_step(spec_style_code(Style::Reversed), a3, text);
            }
            let a5 = if ss.italic {
                spec_wrap(spec_style_code(Style::Italic), a4)
            } else {
                a4
            };
            if ss.italic {
                lemma_is_code_style(Style::Italic);
                lemma_strip_wrap_step(spec_style_code(Style::Italic), a4, text);
            }
            let a6 = if ss.blink {
                spec_wrap(spec_style_code(Style::Blink), a5)
            } else {
                a5
            };
            if ss.blink {
                lemma_is_code_style(Style::Blink);
                lemma_strip_wrap_step(spec_style_code(Style::Blink), a5, text);
            }
            let a7 = if ss.hidden {
                spec_wrap(spec_style_code(Style::Hidden), a6)
            } else {
                a6
            };
            if ss.hidden {
                lemma_is_code_style(Style::Hidden);
                lemma_strip_wrap_step(spec_style_code(Style::Hidden), a6, text);
            }
            let a8 = if ss.strikethrough {
                spec_wrap(spec_style_code(Style::Strikethrough), a7)
            } else {
                a7
            };
            if ss.strikethrough {
                lemma_is_code_style(Style::Strikethrough);
                lemma_strip_wrap_step(spec_style_code(Style::Strikethrough), a7, text);
            }
            assert(t1 == a8);
        },
        None => {},
    }
    let t2 = match c.background {
        Some(b) => spec_wrap(spec_bg_code(b), t1),
        None => t1,
    };
    match c.background {
        Some(b) => {
            lemma_is_code_bg(b);
            lemma_strip_wrap_step(spec_bg_code(b), t1, text);
        },
        None => {},
    }
    match c.foreground {
        Some(f) => {
            lemma_is_code_fg(f);
            lemma_strip_wrap_step(spec_fg_code(f), t2, text);
            let t3 = spec_wrap(spec_fg_code(f), t2);
            assert forall|rest: Seq<char>|
                #[trigger] spec_strip(spec_render(text, c) + rest) == text + spec_strip(rest) by {
                assert(spec_render(text, c) == t3);
                assert(spec_strip(t3 + rest) == text + spec_strip(rest));
            }
        },
        None => {
            assert forall|rest: Seq<char>|
                #[trigger] spec_strip(spec_render(text, c) + rest) == text + spec_strip(rest) by {
                assert(spec_render(text, c) == t2);
                assert(spec_strip(t2 + rest) == text + spec_strip(rest));
            }
        },
    }
}

/// Stripping the emission from `from` on yields the input from `from`
/// on, for escape-free input and well-formed segments.
proof fn lemma_strip_emit(input: Seq<char>, segs: Seq<Segment>, from: int)
    requires
        spec_esc_free(input),
        spec_segs_wf(segs, input.len() as int),
        0 <= from,
        segs.len() > 0 ==> from <= segs[0].0,
        segs.len() == 0 ==> from <= input.len(),
    ensures
        spec_strip(spec_emit(input, segs, from)) == input.subrange(from, input.len() as int),
    decreases segs.len(),
{
    let len = input.len() as int;
    if segs.len() == 0 {
        let t = input.subrange(from, len);
        assert(spec_esc_free(t));
        lemma_strip_plain(t, Seq::empty());
        assert(t + Seq::<char>::empty() =~= t);
        assert(spec_strip(Seq::<char>::empty()) == Seq::<char>::empty());
        assert(t + spec_strip(Seq::<char>::empty()) =~= t);
    } else {
        let s0 = segs[0].0 as int;
        let e0 = segs[0].1 as int;
        let gap = input.subrange(from, s0);
        let mid = input.subrange(s0, e0);
        let tail_segs = segs.drop_first();
        let tail = spec_emit(input, tail_segs, e0);
        assert(spec_esc_free(gap));
        assert(spec_esc_free(mid));
        assert(spec_segs_wf(tail_segs, len)) by {
            assert(forall|k: int| 0 <= k < tail_segs.len() ==> tail_segs[k] == segs[k + 1]);
        }
        if tail_segs.len() > 0 {
            assert(segs[0].1 == segs[1].0);
        }
        lemma_strip_emit(input, tail_segs, e0);
        lemma_strip_render(mid, segs[0].2);
        let rendered = spec_render(mid, segs[0].2);
        assert(spec_strip(rendered + tail) == mid + spec_strip(tail));
        lemma_strip_plain(gap, rendered + tail);
        assert(spec_emit(input, segs, from) =~= gap + (rendered + tail));
        assert(spec_strip(spec_emit(input, segs, from)) == gap + (mid + spec_strip(tail)));
        assert(gap + (mid + input.subrange(e0, len)) =~= input.subrange(from, len));
    }
}

/// Round trip: for any escape-free input and any rule set, stripping
/// all escape sequences from the colorized output reproduces the input
/// exactly.
pub proof fn lemma_strip_colorized(
    input: Seq<char>,
    input_start: int,
    general: Option<Colorizer>,
    rules: Seq<Rule>,
)
    requires
        spec_esc_free(input),
        input.len() <= usize::MAX,
    ensures
        spec_strip(spec_colorized(input, input_start, general, rules)) == input,
{
    lemma_resolved_wf(input.len() as int, input_start, general, rules);
    lemma_strip_emit(
        input,
        spec_resolved(input.len() as int, input_start, general, rules),
        0,
    );
    assert(input.subrange(0, input.len() as int) =~= input);
}

} // verus!
