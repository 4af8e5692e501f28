use base16_colorizer::apply_colors::apply_colors;
use base16_colorizer::color::Color;
use base16_colorizer::error::RenderError;
use base16_colorizer::scheme::ColorScheme;

fn gray(v: u8) -> Color {
    Color { red: v, green: v, blue: v }
}

/// A scheme whose color at index `n` is RGB(n, 2n, 3n), so every slot is
/// distinguishable.
fn test_scheme() -> ColorScheme {
    let mut colors = Vec::new();
    for n in 0..16u8 {
        colors.push(Color { red: n, green: 2 * n, blue: 3 * n });
    }
    ColorScheme { author: "An Author".to_string(), name: "A Scheme".to_string(), colors }
}

fn scheme_with_base00(c: Color) -> ColorScheme {
    let mut s = test_scheme();
    s.colors[0] = c;
    s
}

#[test]
fn literal_text_renders_unchanged() {
    let s = test_scheme();
    let input = "no placeholders here, just text: } { ;+10 base00-hex";
    assert_eq!(apply_colors(&s, input).unwrap(), input);
}

#[test]
fn empty_template_renders_empty() {
    assert_eq!(apply_colors(&test_scheme(), "").unwrap(), "");
}

#[test]
fn scheme_author_renders_verbatim() {
    assert_eq!(apply_colors(&test_scheme(), "{{scheme-author}}").unwrap(), "An Author");
}

#[test]
fn scheme_name_renders_verbatim() {
    assert_eq!(apply_colors(&test_scheme(), "{{scheme-name}}").unwrap(), "A Scheme");
}

#[test]
fn metadata_with_special_characters_renders_verbatim() {
    let mut s = test_scheme();
    s.author = "we{{ird }} author".to_string();
    assert_eq!(apply_colors(&s, "by {{scheme-author}}!").unwrap(), "by we{{ird }} author!");
}

#[test]
fn base00_black_renders_zeroes() {
    let s = scheme_with_base00(gray(0));
    assert_eq!(apply_colors(&s, "{{base00-hex}}").unwrap(), "000000");
}

#[test]
fn base00_lightened_fifty_percent() {
    let s = scheme_with_base00(gray(100));
    assert_eq!(apply_colors(&s, "{{base00-hex;+50}}").unwrap(), "969696");
}

#[test]
fn base01_darkened_fifty_percent() {
    let mut s = test_scheme();
    s.colors[1] = gray(100);
    assert_eq!(apply_colors(&s, "{{base01-hex;-50}}").unwrap(), "323232");
}

#[test]
fn color_between_prefix_and_suffix() {
    let s = scheme_with_base00(Color { red: 255, green: 0, blue: 0 });
    let out = apply_colors(&s, "prefix {{base00-hex}} suffix").unwrap();
    assert_eq!(out, "prefix FF0000 suffix");
}

#[test]
fn all_sixteen_indices_resolve() {
    let s = test_scheme();
    assert_eq!(apply_colors(&s, "{{base0F-hex}}").unwrap(), "0F1E2D");
    assert_eq!(apply_colors(&s, "{{base0f-hex}}").unwrap(), "0F1E2D");
    assert_eq!(apply_colors(&s, "{{base0A-hex}}").unwrap(), "0A141E");
}

#[test]
fn index_sixteen_is_unknown() {
    let err = apply_colors(&test_scheme(), "{{base10-hex}}").unwrap_err();
    assert_eq!(err, RenderError::UnknownColorIndex { index: 16 });
}

#[test]
fn index_ff_is_unknown() {
    let err = apply_colors(&test_scheme(), "{{baseFF-hex}}").unwrap_err();
    assert_eq!(err, RenderError::UnknownColorIndex { index: 255 });
}

#[test]
fn unknown_index_reported_before_adjustment() {
    let err = apply_colors(&test_scheme(), "{{base10-hex;+10}}").unwrap_err();
    assert_eq!(err, RenderError::UnknownColorIndex { index: 16 });
}

#[test]
fn unterminated_placeholder_passes_through() {
    let input = "{{scheme-name and the rest";
    assert_eq!(apply_colors(&test_scheme(), input).unwrap(), input);
}

#[test]
fn lone_open_brace_passes_through() {
    let input = "a { b {c d";
    assert_eq!(apply_colors(&test_scheme(), input).unwrap(), input);
}

#[test]
fn unrecognized_content_is_malformed() {
    let err = apply_colors(&test_scheme(), "{{foo}}").unwrap_err();
    assert_eq!(err, RenderError::MalformedPlaceholder { fragment: "foo".to_string() });
}

#[test]
fn trailing_garbage_in_color_ref_is_malformed() {
    let err = apply_colors(&test_scheme(), "{{base00-hexX}} tail").unwrap_err();
    assert_eq!(err, RenderError::MalformedPlaceholder { fragment: "base00-hexX".to_string() });
}

#[test]
fn percent_above_255_is_malformed() {
    let err = apply_colors(&test_scheme(), "{{base00-hex;+999}}").unwrap_err();
    assert_eq!(err, RenderError::MalformedPercent { fragment: "999".to_string() });
}

#[test]
fn empty_percent_is_malformed() {
    let err = apply_colors(&test_scheme(), "{{base00-hex;+}}").unwrap_err();
    assert_eq!(err, RenderError::MalformedPercent { fragment: "".to_string() });
}

#[test]
fn percent_255_saturates() {
    let s = scheme_with_base00(gray(100));
    assert_eq!(apply_colors(&s, "{{base00-hex;+255}}").unwrap(), "FFFFFF");
}

#[test]
fn failure_returns_no_partial_output() {
    let err = apply_colors(&test_scheme(), "long prefix {{base10-hex}}").unwrap_err();
    assert_eq!(err, RenderError::UnknownColorIndex { index: 16 });
}

#[test]
fn several_placeholders_in_one_template() {
    let s = scheme_with_base00(Color { red: 1, green: 2, blue: 3 });
    let out = apply_colors(&s, "{{scheme-name}}: {{base00-hex}} / {{base01-hex;+0}}").unwrap();
    assert_eq!(out, "A Scheme: 010203 / 010203");
}

#[test]
fn multibyte_text_passes_through() {
    let s = scheme_with_base00(gray(255));
    let out = apply_colors(&s, "ünïcödé 🎨 {{base00-hex}} ✓").unwrap();
    assert_eq!(out, "ünïcödé 🎨 FFFFFF ✓");
}

#[test]
fn scheme_new_requires_sixteen_colors() {
    let fifteen = vec![gray(0); 15];
    assert!(ColorScheme::new("a".to_string(), "n".to_string(), fifteen).is_none());
    let sixteen = vec![gray(0); 16];
    let s = ColorScheme::new("a".to_string(), "n".to_string(), sixteen).unwrap();
    assert_eq!(s.colors.len(), 16);
    assert_eq!(s.author, "a");
    assert_eq!(s.name, "n");
}

#[test]
fn describe_unknown_index() {
    let err = apply_colors(&test_scheme(), "{{base1A-hex}}").unwrap_err();
    assert_eq!(err.describe(), "Color number must be between 00 and 0F, found 1A");
}

#[test]
fn describe_malformed_placeholder() {
    let err = apply_colors(&test_scheme(), "{{oops}}").unwrap_err();
    assert_eq!(err.describe(), "Malformed placeholder \"{{oops}}\"");
}

#[test]
fn describe_malformed_percent() {
    let err = apply_colors(&test_scheme(), "{{base00-hex;-9999}}").unwrap_err();
    assert_eq!(err.describe(), "Malformed percentage \"9999\"");
}
