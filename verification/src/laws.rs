//! Laws of the engine, stated once over the specification functions and
//! proved for every input.

use vstd::prelude::*;

use crate::colorize::{spec_colorized, spec_emit};
use crate::colorizer::Colorizer;
use crate::render::spec_render;
use crate::resolver::{
    lemma_resolved_wf, spec_all_rules, spec_resolved, spec_retained, spec_segs_wf, Rule, Segment,
};

verus! {

/// Identity when inert: with no general descriptor and no rule, the
/// colorized output is the input itself, character for character.
pub proof fn lemma_colorize_inert(input: Seq<char>, input_start: int)
    ensures
        spec_colorized(input, input_start, None, Seq::empty()) == input,
{
    let len = input.len() as int;
    assert(spec_all_rules(input_start, len, None, Seq::<Rule>::empty())
        == Seq::<Rule>::empty());
    assert(spec_retained(Seq::<Rule>::empty(), input_start, len) == Seq::<Rule>::empty());
    assert(spec_resolved(len, input_start, None, Seq::<Rule>::empty())
        == Seq::<Segment>::empty());
    assert(spec_emit(input, Seq::<Segment>::empty(), 0) == input.subrange(0, len));
    assert(input.subrange(0, len) =~= input);
}

/// Clear resets fully: whenever both descriptors carry an attribute
/// set and the newer one's contains the Clear marker, the merge is
/// exactly the newer descriptor — colors included, whatever was merged
/// before.
pub proof fn lemma_merge_clear_resets(old: Colorizer, new: Colorizer)
    requires
        old.style_set is Some,
        new.style_set matches Some(ns) && ns.clear,
    ensures
        Colorizer::spec_merge(old, new) == new,
{
}

/// Rendering never loses characters: the rendered form of a text is at
/// least as long as the text.
pub proof fn lemma_render_len(text: Seq<char>, c: Colorizer)
    ensures
        spec_render(text, c).len() >= text.len(),
{
}

/// Emission from `from` on is at least as long as what remains of the
/// input.
proof fn lemma_emit_len(input: Seq<char>, segs: Seq<Segment>, from: int)
    requires
        spec_segs_wf(segs, input.len() as int),
        0 <= from,
        segs.len() > 0 ==> from <= segs[0].0,
        segs.len() == 0 ==> from <= input.len(),
    ensures
        spec_emit(input, segs, from).len() >= input.len() - from,
    decreases segs.len(),
{
    if segs.len() > 0 {
        let s0 = segs[0].0 as int;
        let e0 = segs[0].1 as int;
        let tail_segs = segs.drop_first();
        assert(spec_segs_wf(tail_segs, input.len() as int)) by {
            assert(forall|k: int| 0 <= k < tail_segs.len() ==> tail_segs[k] == segs[k + 1]);
        }
        if tail_segs.len() > 0 {
            assert(segs[0].1 == segs[1].0);
        }
        lemma_emit_len(input, tail_segs, e0);
        lemma_render_len(input.subrange(s0, e0), segs[0].2);
    }
}

/// The colorized output is never shorter than the input, and is empty
/// exactly when the input is empty.
pub proof fn lemma_colorized_len(
    input: Seq<char>,
    input_start: int,
    general: Option<Colorizer>,
    rules: Seq<Rule>,
)
    requires
        input.len() <= usize::MAX,
    ensures
        spec_colorized(input, input_start, general, rules).len() >= input.len(),
        spec_colorized(input, input_start, general, rules).len() == 0 <==> input.len() == 0,
{
    let len = input.len() as int;
    lemma_resolved_wf(len, input_start, general, rules);
    let segs = spec_resolved(len, input_start, general, rules);
    lemma_emit_len(input, segs, 0);
    if input.len() == 0 {
        assert(segs.len() == 0) by {
            if segs.len() > 0 {
                assert(segs[0].0 < segs[0].1 <= 0);
            }
        }
        assert(spec_emit(input, segs, 0) =~= Seq::<char>::empty());
    }
}

} // verus!
