use valhalla::props::{JsonValue, PropMap, PropValue};

#[test]
fn get_reads_back_the_last_insert() {
    let mut m: PropMap<u32> = PropMap::new();
    assert_eq!(m.get("onClick"), None);
    m.insert("onClick".to_string(), 1);
    m.insert("onPress".to_string(), 2);
    assert_eq!(m.get("onClick"), Some(&1));
    m.insert("onClick".to_string(), 3);
    assert_eq!(m.get("onClick"), Some(&3));
    assert_eq!(m.get("onPress"), Some(&2));
    assert_eq!(m.len(), 2);
    // An overwritten key keeps its place.
    assert_eq!(m.entry(0), (&"onClick".to_string(), &3));
    assert_eq!(m.entry(1), (&"onPress".to_string(), &2));
}

#[test]
fn json_value_accessors() {
    let b: PropValue = JsonValue::Bool(true);
    let s: PropValue = JsonValue::Str("x".into());
    let n: PropValue = JsonValue::Number("1.5".into());
    assert_eq!(b.as_bool(), Some(true));
    assert_eq!(s.as_bool(), None);
    assert_eq!(s.as_str(), Some("x"));
    assert_eq!(n.as_str(), None);
    assert_eq!(JsonValue::<String>::Null.as_bool(), None);
}
