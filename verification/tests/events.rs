use valhalla::events::free_handlers;

#[test]
fn free_handlers_writes_a_compact_json_array() {
    assert_eq!(free_handlers(&[1, 22, 333]).as_deref(), Some("[1,22,333]"));
    assert_eq!(free_handlers(&[0]).as_deref(), Some("[0]"));
    assert_eq!(free_handlers(&[u32::MAX, 7]).as_deref(), Some("[4294967295,7]"));
}

#[test]
fn free_handlers_sends_nothing_for_no_ids() {
    assert_eq!(free_handlers(&[]), None);
}
