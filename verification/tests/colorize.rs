use string_colorization::background;
use string_colorization::foreground;
use string_colorization::{colorize, colorize_with, Colorizer};

/// Removes every escape sequence: an escape character and everything up
/// to and including the following `m` are dropped.
fn strip_escapes(s: &str) -> String {
    let mut out = String::new();
    let mut in_escape = false;
    for c in s.chars() {
        if in_escape {
            if c == 'm' {
                in_escape = false;
            }
        } else if c == '\u{1b}' {
            in_escape = true;
        } else {
            out.push(c);
        }
    }
    out
}

#[test]
fn inert_call_returns_input_when_enabled() {
    colored::control::set_override(true);
    let s = "nothing to change";
    assert_eq!(colorize(s, 0, None, &vec![]), s);
    colored::control::unset_override();
}

#[test]
fn inert_call_returns_input_when_disabled() {
    colored::control::set_override(false);
    let s = "nothing to change";
    assert_eq!(colorize(s, 0, None, &vec![]), s);
    colored::control::unset_override();
}

#[test]
fn disabled_styling_bypasses_all_rules() {
    colored::control::set_override(false);
    let s = "Rainbow";
    let rules = vec![(0usize, 6usize, foreground::red()), (1, 6, foreground::green())];
    assert_eq!(colorize(s, 0, Some(foreground::white()), &rules), s);
    colored::control::unset_override();
}

#[test]
fn explicit_switch_bypasses_without_the_global() {
    let s = "Rainbow";
    let rules = vec![(0usize, 6usize, foreground::red())];
    assert_eq!(colorize_with(false, s, 0, Some(foreground::white()), &rules), s);
}

#[test]
fn foreign_range_has_no_effect() {
    // The input sits at [1000, 1011).  The second rule's range was
    // carved from another string's offset space and never overlaps the
    // input's identity range, so it contributes nothing, even though
    // the other string's bytes there spell "red" just like the input's.
    let a = "Red, no red";
    let a_start = 1000usize;
    let rules = vec![
        (a_start, a_start + 3, foreground::red()),
        (5000usize, 5003usize, foreground::green()),
    ];
    let out = colorize_with(true, a, a_start, None, &rules);
    assert_eq!(out, "\u{1b}[31mRed\u{1b}[0m, no red");
}

#[test]
fn overlap_precedence_end_to_end() {
    let rainbow = "Rainbow";
    let rules = vec![
        (0usize, 6usize, foreground::red()),
        (1, 6, foreground::true_color(255, 160, 0)),
        (2, 6, foreground::yellow()),
        (3, 6, foreground::green()),
        (4, 6, foreground::blue()),
        (5, 6, foreground::magenta()),
    ];
    let out = colorize_with(true, rainbow, 0, Some(foreground::white()), &rules);
    let expected = [
        "\u{1b}[31mR\u{1b}[0m",
        "\u{1b}[38;2;255;160;0ma\u{1b}[0m",
        "\u{1b}[33mi\u{1b}[0m",
        "\u{1b}[32mn\u{1b}[0m",
        "\u{1b}[34mb\u{1b}[0m",
        "\u{1b}[35mo\u{1b}[0m",
        "\u{1b}[37mw\u{1b}[0m",
    ]
    .concat();
    assert_eq!(out, expected);
}

#[test]
fn uncovered_gap_passes_through() {
    let s = "abcdef";
    let rules = vec![(0usize, 2usize, foreground::red()), (4, 6, foreground::blue())];
    let out = colorize_with(true, s, 0, None, &rules);
    assert_eq!(out, "\u{1b}[31mab\u{1b}[0mcd\u{1b}[34mef\u{1b}[0m");
}

#[test]
fn stripping_escapes_restores_input() {
    let s = "Rainbow";
    let rules = vec![
        (0usize, 6usize, foreground::red()),
        (1, 6, foreground::true_color(255, 160, 0)),
        (2, 5, background::blue()),
    ];
    let out = colorize_with(true, s, 0, Some(foreground::white()), &rules);
    assert_eq!(strip_escapes(&out), s);
}

#[test]
fn stripping_escapes_restores_input_with_styles() {
    let s = "styled text here";
    let rules = vec![
        (2usize, 9usize, string_colorization::style::bold()),
        (4, 12, string_colorization::style::italic().join_with(background::cyan())),
    ];
    let out = colorize_with(true, s, 0, None, &rules);
    assert_eq!(strip_escapes(&out), s);
    assert!(out.len() >= s.len());
}

#[test]
fn empty_input_stays_empty() {
    let out = colorize_with(true, "", 0, Some(foreground::white()), &vec![]);
    assert_eq!(out, "");
    let rules = vec![(0usize, 5usize, foreground::red())];
    let out = colorize_with(true, "", 0, Some(foreground::white()), &rules);
    assert_eq!(out, "");
}

#[test]
fn general_alone_styles_everything() {
    let out = colorize_with(true, "all", 0, Some(foreground::green()), &vec![]);
    assert_eq!(out, "\u{1b}[32mall\u{1b}[0m");
}

#[test]
fn fully_overlapping_contradictory_rules_are_deterministic() {
    let s = "xy";
    let rules = vec![
        (0usize, 2usize, foreground::red()),
        (0, 2, foreground::blue()),
        (0, 2, foreground::green()),
    ];
    let out = colorize_with(true, s, 0, None, &rules);
    assert_eq!(out, "\u{1b}[32mxy\u{1b}[0m");
}
