//! The entry point: resolves the rules into segments, renders each
//! segment, and splices the rendered pieces back into the output.
//!
//! Splicing changes the string's length, so the segments are rendered
//! and spliced in descending order of start offset: the rightmost
//! segment first, so that the offsets of the not-yet-processed segments
//! to its left stay valid.

use vstd::prelude::*;

use crate::colorizer::Colorizer;
use crate::render::spec_render;
use crate::resolver::{resolve, spec_resolved, spec_segs_wf, Rule, Segment};

verus! {

/// The emitted output from offset `from` on: the untouched gap up to
/// the first segment, that segment's slice rendered under its
/// descriptor, and the emission of the remaining segments; with no
/// segment left, the untouched tail of the input.
pub open spec fn spec_emit(input: Seq<char>, segs: Seq<Segment>, from: int) -> Seq<char>
    decreases segs.len(),
{
    if segs.len() == 0 {
        input.subrange(from, input.len() as int)
    } else {
        input.subrange(from, segs[0].0 as int) + spec_render(
            input.subrange(segs[0].0 as int, segs[0].1 as int),
            segs[0].2,
        ) + spec_emit(input, segs.drop_first(), segs[0].1 as int)
    }
}

/// The colorized form of an input under an identity offset, an optional
/// general descriptor and an ordered rule list.
pub open spec fn spec_colorized(
    input: Seq<char>,
    input_start: int,
    general: Option<Colorizer>,
    rules: Seq<Rule>,
) -> Seq<char> {
    spec_emit(input, spec_resolved(input.len() as int, input_start, general, rules), 0)
}

/// Emission from `c1` is the untouched slice `[c1, c2)` followed by
/// emission from `c2`, for any `c2` at or before the first segment.
proof fn lemma_emit_split(input: Seq<char>, segs: Seq<Segment>, c1: int, c2: int)
    requires
        spec_segs_wf(segs, input.len() as int),
        0 <= c1 <= c2,
        segs.len() > 0 ==> c2 <= segs[0].0,
        segs.len() == 0 ==> c2 <= input.len(),
    ensures
        spec_emit(input, segs, c1) == input.subrange(c1, c2) + spec_emit(input, segs, c2),
{
    if segs.len() == 0 {
        assert(input.subrange(c1, input.len() as int) =~= input.subrange(c1, c2)
            + input.subrange(c2, input.len() as int));
    } else {
        let s0 = segs[0].0 as int;
        let e0 = segs[0].1 as int;
        let rendered = spec_render(input.subrange(s0, e0), segs[0].2);
        let rest = spec_emit(input, segs.drop_first(), e0);
        assert(input.subrange(c1, s0) =~= input.subrange(c1, c2) + input.subrange(c2, s0));
        assert((input.subrange(c1, c2) + input.subrange(c2, s0)) + rendered + rest
            =~= input.subrange(c1, c2) + (input.subrange(c2, s0) + rendered + rest));
    }
}

/// Relies on colored's `control::SHOULD_COLORIZE.should_colorize`: it
/// reads the process-wide styling switch, whose value depends on the
/// environment and on earlier overrides, so nothing is promised of the
/// result.
#[verifier::external_body]
fn styling_enabled() -> bool {
    colored::control::SHOULD_COLORIZE.should_colorize()
}

/// Resolves and renders unconditionally: the full pipeline without the
/// styling switch.
#[verifier::rlimit(60)]
fn colorize_styled(
    input: &str,
    input_start: usize,
    general: Option<Colorizer>,
    rules: &Vec<Rule>,
) -> (r: String)
    requires
        input_start + input@.len() <= usize::MAX,
    ensures
        r@ == spec_colorized(input@, input_start as int, general, rules@),
{
    let input_len = input.unicode_len();
    let segs = resolve(input_len, input_start, general, rules);
    let ghost gsegs = segs@;
    let mut output = input.to_owned();
    let mut i: usize = segs.len();
    proof {
        assert(gsegs.skip(i as int) =~= Seq::<Segment>::empty());
        assert(input@.subrange(0, input@.len() as int) =~= input@);
    }
    while i > 0
        invariant
            i <= segs.len(),
            segs@ == gsegs,
            gsegs == spec_resolved(input@.len() as int, input_start as int, general, rules@),
            spec_segs_wf(gsegs, input@.len() as int),
            output@ == spec_emit(input@, gsegs.skip(i as int), 0),
        decreases i,
    {
        i = i - 1;
        let seg = segs[i];
        let s = seg.0;
        let e = seg.1;
        let ghost done = gsegs.skip(i as int + 1);
        let ghost tail = spec_emit(input@, done, e as int);
        proof {
            assert(spec_segs_wf(done, input@.len() as int)) by {
                assert(forall|k: int|
                    0 <= k < done.len() ==> done[k] == gsegs[k + i + 1]);
            }
            if done.len() > 0 {
                assert(gsegs[i as int].1 == gsegs[i as int + 1].0);
            }
            lemma_emit_split(input@, done, 0, e as int);
            assert(output@ == input@.subrange(0, e as int) + tail);
            assert(input@.subrange(0, e as int).len() == e as int);
        }
        let out_len: usize = output.as_str().unicode_len();
        let before = output.as_str().substring_char(0, s);
        let mid = output.as_str().substring_char(s, e);
        let after = output.as_str().substring_char(e, out_len);
        let rendered = seg.2.apply(mid);
        let mut next = String::from_str(before);
        next.append(rendered.as_str());
        next.append(after);
        proof {
            assert(before@ =~= input@.subrange(0, s as int)) by {
                assert(before@ == output@.subrange(0, s as int));
            }
            assert(mid@ =~= input@.subrange(s as int, e as int)) by {
                assert(mid@ == output@.subrange(s as int, e as int));
            }
            assert(after@ =~= tail) by {
                assert(after@ == output@.subrange(e as int, output@.len() as int));
            }
            assert(spec_emit(input@, gsegs.skip(i as int), 0) == input@.subrange(0, s as int)
                + spec_render(input@.subrange(s as int, e as int), seg.2) + tail) by {
                assert(gsegs.skip(i as int)[0] == gsegs[i as int]);
                assert(gsegs.skip(i as int).drop_first() =~= done);
            }
            assert(next@ == spec_emit(input@, gsegs.skip(i as int), 0)) by {
                assert(next@ == before@ + rendered@ + after@);
            }
        }
        output = next;
    }
    proof {
        assert(gsegs.skip(0) =~= gsegs);
    }
    output
}

/// Colorizes with the styling capability supplied explicitly: with
/// styling disabled the input comes back unchanged, with no rule
/// evaluated; with styling enabled the resolved segments are rendered
/// and spliced.
pub fn colorize_with(
    enabled: bool,
    input: &str,
    input_start: usize,
    general_colorization: Option<Colorizer>,
    input_modifiers: &Vec<Rule>,
) -> (r: String)
    requires
        input_start + input@.len() <= usize::MAX,
    ensures
        r@ == if enabled {
            spec_colorized(input@, input_start as int, general_colorization, input_modifiers@)
        } else {
            input@
        },
{
    if !enabled {
        return input.to_owned();
    }
    colorize_styled(input, input_start, general_colorization, input_modifiers)
}

/// Colorizes every rule's range over the input and returns a string
/// where each range has been stylized accordingly.
///
/// * `input` - the text whose sub-ranges are to be colorized; it
///   occupies `[input_start, input_start + len)` of the offset space
///   the rules speak of.
/// * `general_colorization` - applied where no rule reaches.
/// * `input_modifiers` - ordered rules, each an absolute half-open
///   range with a descriptor; where ranges overlap, later rules take
///   precedence.  A rule whose range does not overlap the input's is
///   foreign and silently contributes nothing.
///
/// The process-wide styling switch is consulted first: with styling
/// disabled the input comes back unchanged.
pub fn colorize(
    input: &str,
    input_start: usize,
    general_colorization: Option<Colorizer>,
    input_modifiers: &Vec<Rule>,
) -> (r: String)
    requires
        input_start + input@.len() <= usize::MAX,
    ensures
        r@ == input@ || r@ == spec_colorized(
            input@,
            input_start as int,
            general_colorization,
            input_modifiers@,
        ),
{
    let enabled = styling_enabled();
    colorize_with(enabled, input, input_start, general_colorization, input_modifiers)
}

} // verus!
