use string_colorization::foreground;
use string_colorization::{range_contains_other, resolve};

#[test]
fn overlap_is_strict() {
    assert!(range_contains_other(2, 4, 3, 5));
    assert!(range_contains_other(2, 4, 1, 3));
    assert!(range_contains_other(2, 4, 2, 4));
    assert!(!range_contains_other(2, 4, 4, 5));
    assert!(!range_contains_other(2, 4, 0, 2));
    assert!(!range_contains_other(2, 4, 10, 20));
}

#[test]
fn segment_count_is_breakpoints_minus_one() {
    // Three overlapping rules with six distinct breakpoints.
    let rules = vec![
        (0usize, 4usize, foreground::red()),
        (2, 6, foreground::green()),
        (5, 8, foreground::blue()),
    ];
    let segs = resolve(10, 0, None, &rules);
    assert_eq!(segs.len(), 5);
    let starts: Vec<usize> = segs.iter().map(|s| s.0).collect();
    let ends: Vec<usize> = segs.iter().map(|s| s.1).collect();
    assert_eq!(starts, vec![0, 2, 4, 5, 6]);
    assert_eq!(ends, vec![2, 4, 5, 6, 8]);
}

#[test]
fn no_rules_means_no_segments() {
    let segs = resolve(10, 0, None, &vec![]);
    assert_eq!(segs.len(), 0);
}

#[test]
fn general_covers_whole_input() {
    let segs = resolve(7, 0, Some(foreground::white()), &vec![]);
    assert_eq!(segs.len(), 1);
    assert_eq!(segs[0].0, 0);
    assert_eq!(segs[0].1, 7);
    assert_eq!(segs[0].2, foreground::white());
}

#[test]
fn later_rule_wins_in_composition() {
    let rules = vec![
        (0usize, 4usize, foreground::red()),
        (0, 4, foreground::green()),
    ];
    let segs = resolve(4, 0, None, &rules);
    assert_eq!(segs.len(), 1);
    assert_eq!(segs[0].2, foreground::green());
}

#[test]
fn degenerate_rule_is_dropped() {
    let rules = vec![(3usize, 3usize, foreground::red())];
    let segs = resolve(10, 0, None, &rules);
    assert_eq!(segs.len(), 0);
}

#[test]
fn foreign_rule_is_dropped_by_resolver() {
    // The input sits at [100, 110); a range from elsewhere never overlaps it.
    let rules = vec![
        (0usize, 10usize, foreground::red()),
        (105, 108, foreground::green()),
    ];
    let segs = resolve(10, 100, None, &rules);
    assert_eq!(segs.len(), 1);
    assert_eq!(segs[0].0, 5);
    assert_eq!(segs[0].1, 8);
    assert_eq!(segs[0].2, foreground::green());
}

#[test]
fn rule_crossing_input_start_is_clamped() {
    let rules = vec![(90usize, 103usize, foreground::red())];
    let segs = resolve(11, 100, None, &rules);
    assert_eq!(segs.len(), 1);
    assert_eq!(segs[0].0, 0);
    assert_eq!(segs[0].1, 3);
}

#[test]
fn rule_crossing_input_end_is_clamped() {
    let rules = vec![(5usize, 100usize, foreground::red())];
    let segs = resolve(11, 0, None, &rules);
    assert_eq!(segs.len(), 1);
    assert_eq!(segs[0].0, 5);
    assert_eq!(segs[0].1, 11);
}
