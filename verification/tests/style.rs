use valhalla::props::{JsonValue, PropMap, PropValue};
use valhalla::style::{apply, apply_one, parse_color, Color, Length, StyleDecl, StyleProp, StyleValue};

#[test]
fn parses_hex() {
    assert!(parse_color("#a855f7").is_some());
    assert!(parse_color("#fff").is_some());
    assert!(parse_color("not-a-color").is_none());
}

#[test]
fn parses_rgb() {
    assert!(parse_color("rgb(255, 0, 0)").is_some());
    assert!(parse_color("rgba(255, 0, 0, 0.5)").is_some());
}

#[test]
fn colors_have_exact_values() {
    assert_eq!(parse_color("#a855f7"), Some(Color::Rgb(0xA855F7)));
    assert_eq!(parse_color("#fff"), Some(Color::Rgb(0xFFFFFF)));
    assert_eq!(parse_color("#1a2"), Some(Color::Rgb(0x11AA22)));
    assert_eq!(parse_color("#11223380"), Some(Color::Rgba(0x11223380)));
    assert_eq!(parse_color("  rgb(255, 0, 0) "), Some(Color::Rgb(0xFF0000)));
    assert_eq!(parse_color("rgb(1,2,3)"), Some(Color::Rgb(0x010203)));
    assert_eq!(
        parse_color("rgba(255, 0, 0, 0.5)"),
        Some(Color::RgbAlpha(0xFF0000, "0.5".to_string()))
    );
    assert_eq!(parse_color("White"), Some(Color::Rgb(0xFFFFFF)));
    assert_eq!(parse_color("GREEN"), Some(Color::Rgb(0x008000)));
    assert_eq!(parse_color("blue"), Some(Color::Rgb(0x0000FF)));
}

#[test]
fn bad_colors_are_rejected() {
    assert_eq!(parse_color("transparent"), None);
    assert_eq!(parse_color("#ggg"), None);
    assert_eq!(parse_color("#12345"), None);
    assert_eq!(parse_color("rgb(256, 0, 0)"), None);
    assert_eq!(parse_color("rgb(1, 2)"), None);
    assert_eq!(parse_color("rgb(1, 2, 3, 4)"), None);
    assert_eq!(parse_color("rgba(1, 2, 3)"), None);
    assert_eq!(parse_color("rgba(1, 2, 3, x)"), None);
    assert_eq!(parse_color("rgb(1, 2, 3"), None);
    assert_eq!(parse_color(""), None);
}

#[test]
fn lengths_read_numbers_percent_and_px() {
    let num = apply_one("padding", &JsonValue::Number("17".to_string()));
    assert_eq!(
        num,
        Some(StyleDecl { prop: StyleProp::Padding, value: StyleValue::Length(Length::Number("17".to_string())) })
    );
    let pct = apply_one("width", &JsonValue::Str("50%".to_string()));
    assert_eq!(
        pct,
        Some(StyleDecl { prop: StyleProp::Width, value: StyleValue::Length(Length::Percent("50".to_string())) })
    );
    let px = apply_one("marginHorizontal", &JsonValue::Str("12px".to_string()));
    assert_eq!(
        px,
        Some(StyleDecl { prop: StyleProp::MarginX, value: StyleValue::Length(Length::Px("12".to_string())) })
    );
    let bare = apply_one("gap", &JsonValue::Str("3.5".to_string()));
    assert_eq!(
        bare,
        Some(StyleDecl { prop: StyleProp::Gap, value: StyleValue::Length(Length::Px("3.5".to_string())) })
    );
    assert_eq!(apply_one("height", &JsonValue::Str("tall".to_string())), None);
    assert_eq!(apply_one("height", &JsonValue::Bool(true)), None);
}

#[test]
fn radii_take_no_percent() {
    assert_eq!(apply_one("borderRadius", &JsonValue::Str("50%".to_string())), None);
    assert_eq!(
        apply_one("borderTopLeftRadius", &JsonValue::Str("4px".to_string())),
        Some(StyleDecl {
            prop: StyleProp::BorderTopLeftRadius,
            value: StyleValue::Length(Length::Px("4".to_string())),
        })
    );
}

#[test]
fn colors_and_opacity() {
    assert_eq!(
        apply_one("backgroundColor", &JsonValue::Str("#000".to_string())),
        Some(StyleDecl { prop: StyleProp::BackgroundColor, value: StyleValue::Color(Color::Rgb(0)) })
    );
    assert_eq!(apply_one("color", &JsonValue::Number("3".to_string())), None);
    assert_eq!(
        apply_one("opacity", &JsonValue::Number("0.5".to_string())),
        Some(StyleDecl { prop: StyleProp::Opacity, value: StyleValue::Scalar("0.5".to_string()) })
    );
    assert_eq!(apply_one("opacity", &JsonValue::Str("0.5".to_string())), None);
}

#[test]
fn unknown_keys_are_dropped_and_order_is_kept() {
    let mut style: PropMap<PropValue> = PropMap::new();
    style.insert("fontFamily".to_string(), JsonValue::Str("serif".to_string()));
    style.insert("padding".to_string(), JsonValue::Number("4".to_string()));
    style.insert("color".to_string(), JsonValue::Str("red".to_string()));
    let decls = apply(&style);
    assert_eq!(decls.len(), 2);
    assert_eq!(decls[0].prop, StyleProp::Padding);
    assert_eq!(decls[1].value, StyleValue::Color(Color::Rgb(0xFF0000)));
}
