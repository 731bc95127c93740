use string_colorization::background;
use string_colorization::foreground;
use string_colorization::style;
use string_colorization::{Color, Colorizer, Style, StyleSet};

#[test]
fn merge_foreground_not_commutative() {
    let blue_then_green = foreground::blue().join_with(foreground::green());
    let green_then_blue = foreground::green().join_with(foreground::blue());
    assert_eq!(blue_then_green, foreground::green());
    assert_eq!(green_then_blue, foreground::blue());
    assert_ne!(blue_then_green, green_then_blue);
}

#[test]
fn merge_second_wins_per_field() {
    let a = foreground::red().join_with(background::blue());
    let b = Colorizer::new().foreground(Color::Red).background(Color::Blue);
    assert_eq!(a, b);
    let overridden = b.join_with(foreground::green());
    assert_eq!(
        overridden,
        Colorizer::new().foreground(Color::Green).background(Color::Blue)
    );
}

#[test]
fn merge_clear_resets_fully() {
    let styled = foreground::red().background(Color::Blue).style(Style::Bold);
    let cleared = styled.join_with(style::clear());
    assert_eq!(cleared, Colorizer::new().style(Style::Clear));
    assert_eq!(cleared, style::clear());
    assert_ne!(cleared, styled);
    assert_eq!(cleared.foreground, None);
    assert_eq!(cleared.background, None);
    assert_eq!(cleared.style_set, Some(StyleSet::just(Style::Clear)));
}

#[test]
fn merge_clear_with_absent_old_set_keeps_colors() {
    // Clear forces a full reset only when both sides carry an attribute
    // set; against a side with no set at all, the set is simply taken.
    let colored_only = foreground::red().background(Color::Blue);
    let merged = colored_only.join_with(style::clear());
    assert_eq!(merged.foreground, Some(Color::Red));
    assert_eq!(merged.background, Some(Color::Blue));
    assert_eq!(merged.style_set, Some(StyleSet::just(Style::Clear)));
}

#[test]
fn merge_unions_style_sets() {
    let merged = style::bold().join_with(style::italic());
    let built = Colorizer::new().style(Style::Bold).style(Style::Italic);
    assert_eq!(merged, built);
}

#[test]
fn merge_absent_style_set_takes_present_one() {
    let merged = foreground::red().join_with(style::bold());
    let built = Colorizer::new().foreground(Color::Red).style(Style::Bold);
    assert_eq!(merged, built);
    let merged_other_way = style::bold().join_with(foreground::red());
    assert_eq!(merged_other_way, built);
}

#[test]
fn join_const_matches_join_with() {
    let a = Colorizer::join_const(foreground::blue(), background::red());
    let b = foreground::blue().join_with(background::red());
    assert_eq!(a, b);
}

#[test]
fn builder_clear_discards_colors() {
    let chained = foreground::red().background(Color::Blue).style(Style::Clear);
    assert_eq!(chained, style::clear());
}

#[test]
fn builder_style_initialises_empty_set() {
    let bold = Colorizer::new().style(Style::Bold);
    let mut expected_set = StyleSet::empty();
    expected_set = expected_set.insert(Style::Bold);
    assert_eq!(bold.style_set, Some(expected_set));
    assert_eq!(bold.foreground, None);
    assert_eq!(bold.background, None);
}

#[test]
fn styles_adds_each_in_order() {
    let using_styles = Colorizer::new().styles(&vec![Style::Bold, Style::Italic]);
    let using_style = Colorizer::new().style(Style::Bold).style(Style::Italic);
    assert_eq!(using_styles, using_style);
}

#[test]
fn styles_with_clear_last_resets() {
    let using_styles = foreground::red().styles(&vec![Style::Bold, Style::Clear]);
    assert_eq!(using_styles, style::clear());
}

#[test]
fn true_color_factories() {
    let fg = foreground::true_color(1, 2, 3);
    assert_eq!(fg.foreground, Some(Color::TrueColor { r: 1, g: 2, b: 3 }));
    let bg = background::true_color(200, 200, 200);
    assert_eq!(bg.background, Some(Color::TrueColor { r: 200, g: 200, b: 200 }));
}
