use valhalla::tailwind::{palette, parse, parse_one, ClassStyle, Spacing, StyleOp};

fn apply_all(classes: &[&str]) -> Vec<StyleOp> {
    let owned: Vec<String> = classes.iter().map(|s| s.to_string()).collect();
    parse(&owned)
}

#[test]
fn parses_known_layout_classes() {
    let ops = apply_all(&["flex", "flex-col", "items-center", "justify-center"]);
    assert_eq!(
        ops,
        vec![ClassStyle::Flex, ClassStyle::FlexCol, ClassStyle::ItemsCenter, ClassStyle::JustifyCenter]
    );
}

#[test]
fn parses_spacing_and_color() {
    let ops = apply_all(&["p-4", "gap-2", "bg-slate-900", "text-white"]);
    assert_eq!(
        ops,
        vec![
            ClassStyle::Spaced(Spacing::P, "4".to_string()),
            ClassStyle::Gap("2".to_string()),
            ClassStyle::Bg(0x0F172A),
            ClassStyle::TextColor(0xFFFFFF),
        ]
    );
}

#[test]
fn unknown_classes_are_dropped() {
    let ops = parse(&["totally-made-up".into(), "p-2".into()]);
    assert_eq!(ops.len(), 1);
}

#[test]
fn parses_typography_and_flex_grow() {
    let _ = apply_all(&["flex-1", "font-bold", "font-semibold", "line-through", "text-5xl"]);
    let ops = parse(&[
        "flex-1".into(),
        "font-bold".into(),
        "text-4xl".into(),
        "text-5xl".into(),
        "line-through".into(),
    ]);
    assert_eq!(ops.len(), 5);
    assert_eq!(ops[2], ClassStyle::TextSize(36));
    assert_eq!(ops[3], ClassStyle::TextSize(48));
}

#[test]
fn orange_palette_resolves() {
    assert_eq!(palette("orange-500"), Some(0xF97316));
    let ops = parse(&["bg-orange-500".into(), "text-orange-500".into()]);
    assert_eq!(ops.len(), 2);
}

#[test]
fn palette_covers_every_color_and_shade() {
    for color in ["slate", "gray", "blue", "red", "green", "purple", "orange", "yellow"] {
        for shade in [50, 100, 200, 300, 400, 500, 600, 700, 800, 900] {
            assert!(palette(&format!("{}-{}", color, shade)).is_some(), "{}-{}", color, shade);
        }
    }
    assert_eq!(palette("white"), Some(0xFFFFFF));
    assert_eq!(palette("black"), Some(0x000000));
    assert_eq!(palette("purple-500"), Some(0xA855F7));
    assert_eq!(palette("slate-50"), Some(0xF8FAFC));
    assert_eq!(palette("yellow-900"), Some(0x713F12));
}

#[test]
fn palette_rejects_unknown_names_and_shades() {
    assert_eq!(palette("pink-500"), None);
    assert_eq!(palette("red-550"), None);
    assert_eq!(palette("red-0"), None);
    assert_eq!(palette("red"), None);
    assert_eq!(palette("red-"), None);
    assert_eq!(palette("red-99999"), None);
    assert_eq!(palette(""), None);
}

#[test]
fn palette_reads_the_shade_as_u16_parsing_does() {
    assert_eq!(palette("red-+500"), Some(0xEF4444));
    assert_eq!(palette("red-0500"), Some(0xEF4444));
    assert_eq!(palette("red- 500"), None);
}

#[test]
fn keyword_classes_map_to_their_styles() {
    assert_eq!(parse_one("rounded"), Some(ClassStyle::Rounded(4)));
    assert_eq!(parse_one("rounded-md"), Some(ClassStyle::Rounded(6)));
    assert_eq!(parse_one("rounded-lg"), Some(ClassStyle::Rounded(8)));
    assert_eq!(parse_one("rounded-full"), Some(ClassStyle::Rounded(9999)));
    assert_eq!(parse_one("border"), Some(ClassStyle::Border));
    assert_eq!(parse_one("w-full"), Some(ClassStyle::WFull));
    assert_eq!(parse_one("text-xs"), Some(ClassStyle::TextXs));
    assert_eq!(parse_one("justify-between"), Some(ClassStyle::JustifyBetween));
}

#[test]
fn spacing_classes_take_float_amounts() {
    assert_eq!(parse_one("px-2"), Some(ClassStyle::Spaced(Spacing::Px, "2".to_string())));
    assert_eq!(parse_one("mt-0.5"), Some(ClassStyle::Spaced(Spacing::Mt, "0.5".to_string())));
    assert_eq!(parse_one("ml-1e1"), Some(ClassStyle::Spaced(Spacing::Ml, "1e1".to_string())));
    assert_eq!(parse_one("m--3"), Some(ClassStyle::Spaced(Spacing::M, "-3".to_string())));
    assert_eq!(parse_one("p-abc"), None);
    assert_eq!(parse_one("w-12"), Some(ClassStyle::Width("12".to_string())));
    assert_eq!(parse_one("h-.5"), Some(ClassStyle::Height(".5".to_string())));
    assert_eq!(parse_one("gap-x"), None);
    assert_eq!(parse_one("gap-1.5"), Some(ClassStyle::Gap("1.5".to_string())));
}

#[test]
fn color_classes_use_the_palette() {
    assert_eq!(parse_one("border-red-500"), Some(ClassStyle::BorderColor(0xEF4444)));
    assert_eq!(parse_one("text-blue-600"), Some(ClassStyle::TextColor(0x2563EB)));
    assert_eq!(parse_one("bg-black"), Some(ClassStyle::Bg(0x000000)));
    assert_eq!(parse_one("bg-chartreuse"), None);
}
