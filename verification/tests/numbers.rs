use valhalla::numbers::{chars_of, is_float_text};
use valhalla::style::{parse_color, Color};
use valhalla::tailwind::palette;

const SAMPLES: &[&str] = &[
    "", "0", "4", "12", "-3", "+3", "0.5", ".5", "5.", ".", "-.", "+.5", "1e3", "1E3", "1e", "1e+", "1e-2",
    "e3", "1.5e10", "1.e2", ".e2", "inf", "INF", "Infinity", "-infinity", "+NaN", "nan", "na", "infin",
    "1_000", "0x10", " 1", "1 ", "1.2.3", "--1", "+-1", "1e1e1", "∞", "١", "3f", "1e99999",
];

#[test]
fn float_literals_match_str_parse() {
    for s in SAMPLES {
        assert_eq!(is_float_text(s), s.parse::<f32>().is_ok(), "{:?}", s);
    }
}

#[test]
fn integer_parsers_follow_std() {
    // Channels of `rgb(...)` are read as `u8`.
    assert_eq!(parse_color("rgb(255, 0, 0)"), Some(Color::Rgb(0xFF0000)));
    assert_eq!(parse_color("rgb(256, 0, 0)"), None);
    assert_eq!(parse_color("rgb(+7, 0, 0)"), Some(Color::Rgb(0x070000)));
    assert_eq!(parse_color("rgb(-0, 0, 0)"), None);
    assert_eq!(parse_color("rgb(, 0, 0)"), None);
    // Shades are read as `u16`.
    assert_eq!(palette("orange-0500"), Some(0xF97316));
    assert_eq!(palette("orange-65536"), None);
    assert_eq!(palette("orange-+50"), Some(0xFFF7ED));
    // Hex colours are read with `u32::from_str_radix(_, 16)`.
    assert_eq!(parse_color("#a855f7"), Some(Color::Rgb(0xA855F7)));
    assert_eq!(parse_color("#FFFFFFFF"), Some(Color::Rgba(0xFFFF_FFFF)));
    assert_eq!(parse_color("#xyzxyz"), None);
    assert_eq!(parse_color("#+12345"), Some(Color::Rgb(0x12345)));
}

#[test]
fn chars_of_keeps_every_char() {
    assert_eq!(chars_of("aé✓"), vec!['a', 'é', '✓']);
    assert_eq!(chars_of(""), Vec::<char>::new());
}
