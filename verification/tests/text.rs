use valhalla::text::{
    contains_str, ends_with, rsplit_once_char, split_char, starts_with, str_eq, strip_prefix,
    strip_suffix, trim, utf8_len_of,
};

#[test]
fn comparisons_and_affixes() {
    assert!(str_eq("flex", "flex"));
    assert!(!str_eq("flex", "flex-col"));
    assert!(starts_with("gap-2", "gap-"));
    assert!(!starts_with("ga", "gap-"));
    assert!(ends_with("12px", "px"));
    assert_eq!(strip_prefix("bg-red-500", "bg-"), Some("red-500"));
    assert_eq!(strip_prefix("bg", "bg-"), None);
    assert_eq!(strip_suffix("50%", "%"), Some("50"));
    assert_eq!(strip_suffix("50", "%"), None);
}

#[test]
fn trim_matches_std() {
    for s in ["", "  a b  ", "\t\n x\u{a0}", "\u{3000}y\u{2028}", "none", "   "] {
        assert_eq!(trim(s), s.trim(), "{:?}", s);
    }
}

#[test]
fn splitting() {
    assert_eq!(rsplit_once_char("slate-900", '-'), Some(("slate", "900")));
    assert_eq!(rsplit_once_char("a-b-c", '-'), Some(("a-b", "c")));
    assert_eq!(rsplit_once_char("white", '-'), None);
    assert_eq!(split_char("1, 2,3", ','), vec!["1", " 2", "3"]);
    assert_eq!(split_char("", ','), vec![""]);
    assert_eq!(split_char(",", ','), vec!["", ""]);
}

#[test]
fn substring_search_and_byte_length() {
    assert!(contains_str("Add item", "Add"));
    assert!(contains_str("abc", ""));
    assert!(!contains_str("ab", "abc"));
    assert!(!contains_str("abc", "ac"));
    for s in ["", "abc", "é", "✓ ok", "𝄞"] {
        assert_eq!(utf8_len_of(s), s.len() as u128, "{:?}", s);
    }
}
