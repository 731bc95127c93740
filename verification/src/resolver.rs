//! The range resolver: decides which rules reference the input being
//! processed, partitions the input at every retained rule's edges, and
//! composes one descriptor per partition segment.
//!
//! Ranges live in an explicit offset space: the input occupies the
//! half-open range `[input_start, input_start + input_len)` and every
//! rule carries an absolute half-open range in the same space.  A rule
//! whose range does not genuinely overlap the input's range is foreign
//! and contributes nothing, silently; a rule whose range is empty after
//! clamping into the input is dropped the same way.

use vstd::prelude::*;

use crate::colorizer::Colorizer;

verus! {

/// A rule: an absolute half-open range and the descriptor to apply
/// there.
pub type Rule = (usize, usize, Colorizer);

/// A resolved segment: a half-open range of offsets into the input and
/// the composed descriptor for it.
pub type Segment = (usize, usize, Colorizer);

/// Strict overlap of two half-open ranges: touching endpoints do not
/// count.
pub open spec fn spec_overlaps(a_start: int, a_end: int, b_start: int, b_end: int) -> bool {
    b_end > a_start && b_start < a_end
}

/// Checks whether the range `range_2_start..range_2_end` overlaps the
/// range `range_1_start..range_1_end`, partially or completely; ranges
/// that only touch at an endpoint do not overlap.
pub fn range_contains_other(
    range_1_start: usize,
    range_1_end: usize,
    range_2_start: usize,
    range_2_end: usize,
) -> (r: bool)
    ensures
        r == spec_overlaps(
            range_1_start as int,
            range_1_end as int,
            range_2_start as int,
            range_2_end as int,
        ),
{
    range_2_end > range_1_start && range_2_start < range_1_end
}

/// An absolute offset translated into the input's relative offset
/// space, clamped into `[0, input_len]`.
pub open spec fn spec_clamp(off: int, input_start: int, input_len: int) -> int {
    if off <= input_start {
        0
    } else if off - input_start >= input_len {
        input_len
    } else {
        off - input_start
    }
}

/// Whether a rule is retained: its absolute range overlaps the input's
/// range, and its clamped relative range is nonempty.
pub open spec fn spec_rule_kept(rule: Rule, input_start: int, input_len: int) -> bool {
    &&& spec_overlaps(rule.0 as int, rule.1 as int, input_start, input_start + input_len)
    &&& spec_clamp(rule.1 as int, input_start, input_len) > spec_clamp(
        rule.0 as int,
        input_start,
        input_len,
    )
}

/// The retained rules, in their original order, with their ranges
/// translated into the input's relative offset space.
pub open spec fn spec_retained(
    rules: Seq<Rule>,
    input_start: int,
    input_len: int,
) -> Seq<Rule>
    decreases rules.len(),
{
    if rules.len() == 0 {
        Seq::empty()
    } else {
        let rest = spec_retained(rules.drop_last(), input_start, input_len);
        let r = rules.last();
        if spec_rule_kept(r, input_start, input_len) {
            rest.push(
                (
                    spec_clamp(r.0 as int, input_start, input_len) as usize,
                    spec_clamp(r.1 as int, input_start, input_len) as usize,
                    r.2,
                ),
            )
        } else {
            rest
        }
    }
}

/// Every retained rule has a nonempty range within `[0, input_len]`.
proof fn lemma_retained_wf(rules: Seq<Rule>, input_start: int, input_len: int)
    requires
        0 <= input_len <= usize::MAX,
    ensures
        forall|i: int|
            0 <= i < spec_retained(rules, input_start, input_len).len()
                ==> (#[trigger] spec_retained(rules, input_start, input_len)[i]).0
                < spec_retained(rules, input_start, input_len)[i].1 <= input_len,
    decreases rules.len(),
{
    if rules.len() > 0 {
        lemma_retained_wf(rules.drop_last(), input_start, input_len);
        let rest = spec_retained(rules.drop_last(), input_start, input_len);
        let whole = spec_retained(rules, input_start, input_len);
        assert forall|i: int| 0 <= i < whole.len() implies (#[trigger] whole[i]).0 < whole[i].1
            <= input_len by {
            if i < rest.len() {
                assert(whole[i] == rest[i]);
            }
        }
    }
}

/// The sorted distinct breakpoint sequence extended with one value.
pub open spec fn spec_insert_bound(bounds: Seq<usize>, v: usize) -> Seq<usize>
    decreases bounds.len(),
{
    if bounds.len() == 0 {
        seq![v]
    } else if bounds[0] < v {
        seq![bounds[0]] + spec_insert_bound(bounds.drop_first(), v)
    } else if bounds[0] == v {
        bounds
    } else {
        seq![v] + bounds
    }
}

/// The breakpoints of a retained rule sequence: every range start and
/// end, sorted ascending, without duplicates.
pub open spec fn spec_bounds(rel: Seq<Rule>) -> Seq<usize>
    decreases rel.len(),
{
    if rel.len() == 0 {
        Seq::empty()
    } else {
        spec_insert_bound(
            spec_insert_bound(spec_bounds(rel.drop_last()), rel.last().0),
            rel.last().1,
        )
    }
}

/// Strictly ascending order.
pub open spec fn spec_sorted_strict(s: Seq<usize>) -> bool {
    forall|i: int, j: int| 0 <= i < j < s.len() ==> s[i] < s[j]
}

/// Inserting a value of `(lo, hi]` into a strictly sorted sequence over
/// `(lo, hi]` keeps it strictly sorted over `(lo, hi]`.
proof fn lemma_insert_bound(bounds: Seq<usize>, v: usize, lo: int, hi: int)
    requires
        spec_sorted_strict(bounds),
        forall|i: int| 0 <= i < bounds.len() ==> lo < #[trigger] bounds[i] <= hi,
        lo < v <= hi,
    ensures
        spec_sorted_strict(spec_insert_bound(bounds, v)),
        forall|i: int|
            0 <= i < spec_insert_bound(bounds, v).len() ==> lo < #[trigger] spec_insert_bound(
                bounds,
                v,
            )[i] <= hi,
    decreases bounds.len(),
{
    let r = spec_insert_bound(bounds, v);
    if bounds.len() == 0 {
        assert(r == seq![v]);
    } else if bounds[0] < v {
        let tail = bounds.drop_first();
        assert(forall|i: int| 0 <= i < tail.len() ==> tail[i] == bounds[i + 1]);
        lemma_insert_bound(tail, v, bounds[0] as int, hi);
        let rt = spec_insert_bound(tail, v);
        assert(r == seq![bounds[0]] + rt);
        assert(forall|i: int| 1 <= i < r.len() ==> r[i] == rt[i - 1]);
        assert(spec_sorted_strict(r));
        assert(forall|i: int| 0 <= i < r.len() ==> lo < #[trigger] r[i] <= hi);
    } else if bounds[0] == v {
        assert(r == bounds);
    } else {
        assert(r == seq![v] + bounds);
        assert(forall|i: int| 1 <= i < r.len() ==> r[i] == bounds[i - 1]);
        assert(forall|i: int, j: int| 0 <= i < j < r.len() && i >= 1 ==> r[i] < r[j]);
        assert forall|j: int| 1 <= j < r.len() implies r[0] < #[trigger] r[j] by {
            if j > 1 {
                assert(bounds[0] < bounds[j - 1]);
            }
        }
        assert(spec_sorted_strict(r));
    }
}

/// The breakpoints of a retained rule sequence whose endpoints lie in
/// `[0, input_len]` are strictly sorted and lie in `[0, input_len]`.
proof fn lemma_bounds_wf(rel: Seq<Rule>, input_len: int)
    requires
        forall|i: int| 0 <= i < rel.len() ==> (#[trigger] rel[i]).0 < rel[i].1 <= input_len,
    ensures
        spec_sorted_strict(spec_bounds(rel)),
        forall|i: int|
            0 <= i < spec_bounds(rel).len() ==> #[trigger] spec_bounds(rel)[i] <= input_len,
    decreases rel.len(),
{
    if rel.len() > 0 {
        let prefix = rel.drop_last();
        assert(forall|i: int| 0 <= i < prefix.len() ==> prefix[i] == rel[i]);
        lemma_bounds_wf(prefix, input_len);
        let b0 = spec_bounds(prefix);
        let last = rel.last();
        lemma_insert_bound(b0, last.0, -1, input_len);
        let b1 = spec_insert_bound(b0, last.0);
        lemma_insert_bound(b1, last.1, -1, input_len);
    }
}

/// The descriptor for one segment: the retained rules that overlap it,
/// folded in order by merge, seeded with the empty descriptor.
pub open spec fn spec_fold_rules(rel: Seq<Rule>, start: int, end: int) -> Colorizer
    decreases rel.len(),
{
    if rel.len() == 0 {
        Colorizer::spec_new()
    } else {
        let prev = spec_fold_rules(rel.drop_last(), start, end);
        let r = rel.last();
        if spec_overlaps(start, end, r.0 as int, r.1 as int) {
            Colorizer::spec_merge(prev, r.2)
        } else {
            prev
        }
    }
}

/// The rule list with the synthetic general rule prepended: when a
/// general descriptor is given it covers the whole input range and is
/// listed first, so it takes part in composition with lowest
/// precedence.
pub open spec fn spec_all_rules(
    input_start: int,
    input_len: int,
    general: Option<Colorizer>,
    rules: Seq<Rule>,
) -> Seq<Rule> {
    match general {
        Some(g) => seq![((input_start as usize), ((input_start + input_len) as usize), g)]
            + rules,
        None => rules,
    }
}

/// The breakpoints of an input and rule list: the sorted distinct edges
/// of the retained rules, the synthetic general rule included.
pub open spec fn spec_breakpoints(
    input_len: int,
    input_start: int,
    general: Option<Colorizer>,
    rules: Seq<Rule>,
) -> Seq<usize> {
    spec_bounds(
        spec_retained(
            spec_all_rules(input_start, input_len, general, rules),
            input_start,
            input_len,
        ),
    )
}

/// The resolved segments of an input and rule list.
pub open spec fn spec_resolved(
    input_len: int,
    input_start: int,
    general: Option<Colorizer>,
    rules: Seq<Rule>,
) -> Seq<Segment> {
    let rel = spec_retained(
        spec_all_rules(input_start, input_len, general, rules),
        input_start,
        input_len,
    );
    spec_segments(rel, spec_bounds(rel))
}

/// Well-formed segment sequences: each segment is a nonempty range
/// within the input, and consecutive segments are contiguous.
pub open spec fn spec_segs_wf(segs: Seq<Segment>, input_len: int) -> bool {
    &&& forall|k: int| 0 <= k < segs.len() ==> (#[trigger] segs[k]).0 < segs[k].1 <= input_len
    &&& forall|k: int| 0 <= k < segs.len() - 1 ==> (#[trigger] segs[k]).1 == segs[k + 1].0
}

/// One segment per adjacent breakpoint pair, each with its composed
/// descriptor.
pub open spec fn spec_segments(rel: Seq<Rule>, bounds: Seq<usize>) -> Seq<Segment> {
    if bounds.len() == 0 {
        Seq::empty()
    } else {
        Seq::new(
            (bounds.len() - 1) as nat,
            |i: int|
                (
                    bounds[i],
                    bounds[i + 1],
                    spec_fold_rules(rel, bounds[i] as int, bounds[i + 1] as int),
                ),
        )
    }
}

/// The resolved segments of any input and rule list are well formed:
/// nonempty ranges within the input, consecutive segments contiguous.
pub proof fn lemma_resolved_wf(
    input_len: int,
    input_start: int,
    general: Option<Colorizer>,
    rules: Seq<Rule>,
)
    requires
        0 <= input_len <= usize::MAX,
    ensures
        spec_segs_wf(spec_resolved(input_len, input_start, general, rules), input_len),
{
    let all = spec_all_rules(input_start, input_len, general, rules);
    let rel = spec_retained(all, input_start, input_len);
    let bounds = spec_bounds(rel);
    let segs = spec_segments(rel, bounds);
    lemma_retained_wf(all, input_start, input_len);
    lemma_bounds_wf(rel, input_len);
    assert forall|k: int| 0 <= k < segs.len() implies (#[trigger] segs[k]).0 < segs[k].1
        <= input_len by {
        assert(bounds[k] < bounds[k + 1]);
    }
    assert forall|k: int| 0 <= k < segs.len() - 1 implies (#[trigger] segs[k]).1 == segs[k + 1].0
        by {}
}

/// Translates an absolute offset into the input's relative offset
/// space, clamping into `[0, input_len]`.
fn clamp_offset(off: usize, input_start: usize, input_len: usize) -> (r: usize)
    ensures
        r as int == spec_clamp(off as int, input_start as int, input_len as int),
{
    if off <= input_start {
        0
    } else {
        let d: usize = off - input_start;
        if d >= input_len {
            input_len
        } else {
            d
        }
    }
}

/// Keeps the rules whose range genuinely overlaps the input's range,
/// relativized and clamped, dropping the ones left empty.
fn retained_rules(rules: &Vec<Rule>, input_start: usize, input_len: usize) -> (rel: Vec<Rule>)
    requires
        input_start + input_len <= usize::MAX,
    ensures
        rel@ == spec_retained(rules@, input_start as int, input_len as int),
{
    let mut rel: Vec<Rule> = Vec::new();
    let input_end = input_start + input_len;
    let mut i: usize = 0;
    while i < rules.len()
        invariant
            i <= rules.len(),
            input_end == input_start + input_len,
            input_start + input_len <= usize::MAX,
            rel@ == spec_retained(rules@.take(i as int), input_start as int, input_len as int),
        decreases rules.len() - i,
    {
        let r = rules[i];
        proof {
            assert(rules@.take(i as int + 1).drop_last() =~= rules@.take(i as int));
            assert(rules@.take(i as int + 1).last() == rules@[i as int]);
        }
        if range_contains_other(r.0, r.1, input_start, input_end) {
            let s = clamp_offset(r.0, input_start, input_len);
            let e = clamp_offset(r.1, input_start, input_len);
            if e > s {
                rel.push((s, e, r.2));
            }
        }
        i = i + 1;
    }
    proof {
        assert(rules@.take(rules@.len() as int) =~= rules@);
    }
    rel
}

/// Inserts one breakpoint into the sorted distinct breakpoint list.
fn insert_bound(bounds: &mut Vec<usize>, v: usize)
    ensures
        final(bounds)@ == spec_insert_bound(old(bounds)@, v),
{
    let ghost orig = old(bounds)@;
    let mut i: usize = 0;
    proof {
        assert(orig.skip(0) =~= orig);
        assert(orig.take(0) =~= Seq::<usize>::empty());
    }
    while i < bounds.len() && bounds[i] < v
        invariant
            i <= bounds.len(),
            bounds@ == orig,
            spec_insert_bound(orig, v) == orig.take(i as int) + spec_insert_bound(
                orig.skip(i as int),
                v,
            ),
        decreases bounds.len() - i,
    {
        proof {
            assert(orig.skip(i as int)[0] == orig[i as int]);
            assert(orig.skip(i as int).drop_first() =~= orig.skip(i as int + 1));
            assert(orig.take(i as int) + seq![orig[i as int]] =~= orig.take(i as int + 1));
            assert(orig.take(i as int) + (seq![orig[i as int]] + spec_insert_bound(
                orig.skip(i as int + 1),
                v,
            )) =~= orig.take(i as int + 1) + spec_insert_bound(orig.skip(i as int + 1), v));
        }
        i = i + 1;
    }
    if i < bounds.len() {
        let b: usize = bounds[i];
        if b == v {
            proof {
                assert(orig.skip(i as int)[0] == v);
                assert(spec_insert_bound(orig.skip(i as int), v) == orig.skip(i as int));
                assert(orig.take(i as int) + orig.skip(i as int) =~= orig);
            }
            return ;
        }
        bounds.insert(i, v);
        proof {
            assert(orig.skip(i as int)[0] > v);
            assert(spec_insert_bound(orig.skip(i as int), v) == seq![v] + orig.skip(i as int));
            assert(orig.insert(i as int, v) =~= orig.take(i as int) + (seq![v] + orig.skip(
                i as int,
            )));
        }
    } else {
        bounds.insert(i, v);
        proof {
            assert(orig.skip(i as int) =~= Seq::<usize>::empty());
            assert(spec_insert_bound(orig.skip(i as int), v) == seq![v]);
            assert(orig.insert(i as int, v) =~= orig.take(i as int) + seq![v]);
        }
    }
}

/// Collects the sorted distinct breakpoints of the retained rules.
fn collect_bounds(rel: &Vec<Rule>) -> (bounds: Vec<usize>)
    ensures
        bounds@ == spec_bounds(rel@),
{
    let mut bounds: Vec<usize> = Vec::new();
    let mut i: usize = 0;
    while i < rel.len()
        invariant
            i <= rel.len(),
            bounds@ == spec_bounds(rel@.take(i as int)),
        decreases rel.len() - i,
    {
        proof {
            assert(rel@.take(i as int + 1).drop_last() =~= rel@.take(i as int));
            assert(rel@.take(i as int + 1).last() == rel@[i as int]);
        }
        let r = rel[i];
        insert_bound(&mut bounds, r.0);
        insert_bound(&mut bounds, r.1);
        i = i + 1;
    }
    proof {
        assert(rel@.take(rel@.len() as int) =~= rel@);
    }
    bounds
}

/// Folds the retained rules that overlap one segment, in their original
/// order, seeded with the empty descriptor.
fn compose_segment(rel: &Vec<Rule>, start: usize, end: usize) -> (c: Colorizer)
    ensures
        c == spec_fold_rules(rel@, start as int, end as int),
{
    let mut col = Colorizer::new();
    let mut i: usize = 0;
    while i < rel.len()
        invariant
            i <= rel.len(),
            col == spec_fold_rules(rel@.take(i as int), start as int, end as int),
        decreases rel.len() - i,
    {
        proof {
            assert(rel@.take(i as int + 1).drop_last() =~= rel@.take(i as int));
            assert(rel@.take(i as int + 1).last() == rel@[i as int]);
        }
        let r = rel[i];
        if range_contains_other(start, end, r.0, r.1) {
            col = col.join_with(r.2);
        }
        i = i + 1;
    }
    proof {
        assert(rel@.take(rel@.len() as int) =~= rel@);
    }
    col
}

/// Resolves an input's identity range, an optional general descriptor
/// and an ordered rule list into the ordered, disjoint, contiguous
/// segments between adjacent breakpoints, each with its composed
/// descriptor.  The number of segments is the number of distinct
/// breakpoints minus one (or zero when no rule is retained).
pub fn resolve(
    input_len: usize,
    input_start: usize,
    general: Option<Colorizer>,
    rules: &Vec<Rule>,
) -> (segs: Vec<Segment>)
    requires
        input_start + input_len <= usize::MAX,
    ensures
        segs@ == spec_resolved(input_len as int, input_start as int, general, rules@),
        spec_segs_wf(segs@, input_len as int),
        segs@.len() == (if spec_breakpoints(input_len as int, input_start as int, general, rules@).len()
            == 0 {
            0int
        } else {
            spec_breakpoints(input_len as int, input_start as int, general, rules@).len() - 1
        }),
{
    let ghost all_spec = spec_all_rules(input_start as int, input_len as int, general, rules@);
    let mut all: Vec<Rule> = Vec::new();
    match general {
        Some(g) => {
            all.push((input_start, input_start + input_len, g));
        },
        None => {},
    }
    let mut i: usize = 0;
    while i < rules.len()
        invariant
            i <= rules.len(),
            all@ =~= (match general {
                Some(g) => seq![((input_start), ((input_start + input_len) as usize), g)]
                    + rules@.take(i as int),
                None => rules@.take(i as int),
            }),
            input_start + input_len <= usize::MAX,
        decreases rules.len() - i,
    {
        all.push(rules[i]);
        proof {
            assert(rules@.take(i as int + 1) =~= rules@.take(i as int).push(rules@[i as int]));
        }
        i = i + 1;
    }
    proof {
        assert(rules@.take(rules@.len() as int) =~= rules@);
        assert(all@ =~= all_spec);
    }
    let rel = retained_rules(&all, input_start, input_len);
    proof {
        lemma_retained_wf(all@, input_start as int, input_len as int);
        lemma_bounds_wf(rel@, input_len as int);
    }
    let bounds = collect_bounds(&rel);
    let mut segs: Vec<Segment> = Vec::new();
    if bounds.len() > 0 {
        let last: usize = bounds.len() - 1;
        let mut k: usize = 0;
        while k < last
            invariant
                k <= last,
                last == bounds.len() - 1,
                bounds.len() >= 1,
                bounds@ == spec_bounds(rel@),
                spec_sorted_strict(bounds@),
                forall|j: int| 0 <= j < bounds@.len() ==> #[trigger] bounds@[j] <= input_len,
                segs@.len() == k,
                forall|j: int|
                    0 <= j < k ==> #[trigger] segs@[j] == (
                        bounds@[j],
                        bounds@[j + 1],
                        spec_fold_rules(rel@, bounds@[j] as int, bounds@[j + 1] as int),
                    ),
            decreases last - k,
        {
            let start = bounds[k];
            let end = bounds[k + 1];
            let c = compose_segment(&rel, start, end);
            segs.push((start, end, c));
            k = k + 1;
        }
    }
    proof {
        assert(segs@ =~= spec_segments(rel@, spec_bounds(rel@)));
        assert forall|k: int| 0 <= k < segs@.len() implies (#[trigger] segs@[k]).0 < segs@[k].1
            <= input_len by {
            assert(spec_bounds(rel@)[k] < spec_bounds(rel@)[k + 1]);
        }
        assert forall|k: int| 0 <= k < segs@.len() - 1 implies (#[trigger] segs@[k]).1 == segs@[k
            + 1].0 by {}
    }
    segs
}

} // verus!
