use base16_colorizer::color::Color;
use base16_colorizer::error::RenderError;

fn color(red: u8, green: u8, blue: u8) -> Color {
    Color { red, green, blue }
}

#[test]
fn parse_then_format_uppercases() {
    let c = Color::parse("a1b2c3").unwrap();
    assert_eq!(c, color(0xA1, 0xB2, 0xC3));
    assert_eq!(c.format(), "A1B2C3");
}

#[test]
fn parse_accepts_either_letter_case() {
    let lower = Color::parse("ffa0ff").unwrap();
    let mixed = Color::parse("FFa0fF").unwrap();
    assert_eq!(lower, mixed);
    assert_eq!(mixed.format(), "FFA0FF");
}

#[test]
fn parse_rejects_short_text() {
    let err = Color::parse("12345").unwrap_err();
    assert_eq!(err, RenderError::ColorFormat { text: "12345".to_string() });
}

#[test]
fn parse_rejects_long_text() {
    let err = Color::parse("1234567").unwrap_err();
    assert_eq!(err, RenderError::ColorFormat { text: "1234567".to_string() });
}

#[test]
fn parse_rejects_non_hex_character() {
    let err = Color::parse("12345G").unwrap_err();
    assert_eq!(err, RenderError::ColorFormat { text: "12345G".to_string() });
}

#[test]
fn parse_rejects_surrounding_whitespace() {
    assert!(Color::parse(" 12345").is_err());
    assert!(Color::parse("12345 ").is_err());
}

#[test]
fn parse_rejects_six_non_ascii_characters() {
    assert!(Color::parse("ffffüü").is_err());
}

#[test]
fn format_zero_pads_channels() {
    assert_eq!(color(1, 2, 3).format(), "010203");
    assert_eq!(color(0, 0, 0).format(), "000000");
    assert_eq!(color(255, 255, 255).format(), "FFFFFF");
}

#[test]
fn lighten_by_zero_is_identity() {
    let c = color(12, 200, 0);
    assert_eq!(c.lighten(0), c);
}

#[test]
fn darken_by_zero_is_identity() {
    let c = color(12, 200, 0);
    assert_eq!(c.darken(0), c);
}

#[test]
fn lighten_truncates_the_scaled_value() {
    // 100 * 1.5 = 150 = 0x96 per channel.
    assert_eq!(color(100, 100, 100).lighten(50), color(150, 150, 150));
    // 33 * 1.1 = 36.3, truncated to 36.
    assert_eq!(color(33, 33, 33).lighten(10), color(36, 36, 36));
}

#[test]
fn lighten_clamps_at_full_scale() {
    assert_eq!(color(200, 255, 0).lighten(50), color(255, 255, 0));
    assert_eq!(color(1, 2, 3).lighten(255), color(3, 7, 10));
}

#[test]
fn darken_scales_down() {
    assert_eq!(color(100, 100, 100).darken(50), color(50, 50, 50));
    // 99 * 0.9 = 89.1, truncated to 89.
    assert_eq!(color(99, 0, 10).darken(10), color(89, 0, 9));
}

#[test]
fn darken_by_hundred_or_more_zeroes_channels() {
    assert_eq!(color(255, 128, 1).darken(100), color(0, 0, 0));
    assert_eq!(color(255, 128, 1).darken(200), color(0, 0, 0));
}

#[test]
fn describe_color_format_error() {
    let err = Color::parse("nope").unwrap_err();
    assert_eq!(err.describe(), "Invalid hex color \"nope\"");
}
