use string_colorization::background;
use string_colorization::foreground;
use string_colorization::style;
use string_colorization::{Color, Colorizer, Style};

#[test]
fn apply_plain_descriptor_is_identity() {
    assert_eq!(Colorizer::new().apply("plain text"), "plain text");
}

#[test]
fn apply_clear_only_is_identity() {
    // Clear matters to merging only; it emits no escape of its own.
    assert_eq!(style::clear().apply("plain text"), "plain text");
}

#[test]
fn apply_foreground_wraps_once() {
    let red_foreground = foreground::red().apply("Red foreground");
    assert_eq!("\u{1b}[31mRed foreground\u{1b}[0m", red_foreground);
}

#[test]
fn apply_background_wraps_once() {
    let red_background = background::red().apply("Red background");
    assert_eq!("\u{1b}[41mRed background\u{1b}[0m", red_background);
}

#[test]
fn apply_foreground_wraps_outside_background() {
    let both = background::blue().join_with(foreground::green());
    let output = both.apply("Blue background with green letters!");
    assert_eq!(
        output,
        "\u{1b}[32m\u{1b}[44mBlue background with green letters!\u{1b}[0m\u{1b}[0m"
    );
}

#[test]
fn apply_styles_wrap_in_fixed_order() {
    // Bold is applied first, so its pair sits closest to the text.
    let bold_and_italic = style::italic().join_with(style::bold()).apply("Italic and bold");
    assert_eq!(
        "\u{1b}[3m\u{1b}[1mItalic and bold\u{1b}[0m\u{1b}[0m",
        bold_and_italic
    );
}

#[test]
fn apply_true_color_formats_decimal_bytes() {
    let output = foreground::true_color(255, 160, 0).apply("a");
    assert_eq!(output, "\u{1b}[38;2;255;160;0ma\u{1b}[0m");
    let output = background::true_color(0, 9, 42).apply("b");
    assert_eq!(output, "\u{1b}[48;2;0;9;42mb\u{1b}[0m");
}

#[test]
fn apply_bright_colors_use_high_codes() {
    assert_eq!(
        Colorizer::new().foreground(Color::BrightWhite).apply("w"),
        "\u{1b}[97mw\u{1b}[0m"
    );
    assert_eq!(
        Colorizer::new().background(Color::BrightBlack).apply("b"),
        "\u{1b}[100mb\u{1b}[0m"
    );
}

#[test]
fn apply_every_visual_style_has_its_code() {
    assert_eq!(style::bold().apply("x"), "\u{1b}[1mx\u{1b}[0m");
    assert_eq!(style::dimmed().apply("x"), "\u{1b}[2mx\u{1b}[0m");
    assert_eq!(style::italic().apply("x"), "\u{1b}[3mx\u{1b}[0m");
    assert_eq!(style::underline().apply("x"), "\u{1b}[4mx\u{1b}[0m");
    assert_eq!(style::blink().apply("x"), "\u{1b}[5mx\u{1b}[0m");
    assert_eq!(style::reversed().apply("x"), "\u{1b}[7mx\u{1b}[0m");
    assert_eq!(style::hidden().apply("x"), "\u{1b}[8mx\u{1b}[0m");
    assert_eq!(style::strikethrough().apply("x"), "\u{1b}[9mx\u{1b}[0m");
}

#[test]
fn apply_full_descriptor_nests_styles_background_foreground() {
    let full = Colorizer::new().style(Style::Bold).background(Color::White).foreground(
        Color::Black,
    );
    let output = full.apply("t");
    assert_eq!(output, "\u{1b}[30m\u{1b}[47m\u{1b}[1mt\u{1b}[0m\u{1b}[0m\u{1b}[0m");
}
