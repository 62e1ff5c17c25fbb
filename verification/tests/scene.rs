use valhalla::props::{JsonValue, PropMap, PropValue};
use valhalla::scene::{Node, Op, SceneTree, ROOT_PARENT};

fn create(id: u32, tag: &str) -> Op {
    Op::Create { id, tag: tag.to_string() }
}

fn text(id: u32, value: &str) -> Op {
    Op::CreateText { id, value: value.to_string() }
}

fn append(parent: u32, child: u32) -> Op {
    Op::Append { parent, child }
}

fn set_classes(id: u32, classes: &[&str]) -> Op {
    Op::SetProps {
        id,
        classes: classes.iter().map(|c| c.to_string()).collect(),
        style: PropMap::new(),
        handlers: PropMap::new(),
        attrs: PropMap::new(),
    }
}

fn children(t: &SceneTree, id: u32) -> Vec<u32> {
    match t.get(id) {
        Some(Node::Element { children, .. }) => children.clone(),
        _ => panic!("expected element"),
    }
}

#[test]
fn creates_and_appends_element() {
    let mut t = SceneTree::new();
    t.apply(create(1, "div"));
    t.apply(set_classes(1, &["flex"]));
    t.apply(append(0, 1));
    assert_eq!(t.root(), Some(1));
}

#[test]
fn insert_before_orders_children() {
    let mut t = SceneTree::new();
    t.apply(create(1, "div"));
    t.apply(create(2, "span"));
    t.apply(create(3, "span"));
    t.apply(append(1, 2));
    t.apply(Op::Insert { parent: 1, child: 3, before: 2 });
    if let Some(Node::Element { children, .. }) = t.get(1) {
        assert_eq!(children, &[3, 2]);
    } else {
        panic!("expected element");
    }
}

#[test]
fn drop_recursive_removes_subtree() {
    let mut t = SceneTree::new();
    t.apply(create(1, "div"));
    t.apply(create(2, "span"));
    t.apply(append(1, 2));
    t.apply(Op::Drop { id: 1 });
    assert!(t.get(1).is_none());
    assert!(t.get(2).is_none());
}

#[test]
fn set_props_replaces_the_bundle_and_keeps_children() {
    let mut t = SceneTree::new();
    t.apply(create(1, "div"));
    t.apply(create(2, "span"));
    t.apply(append(1, 2));
    t.apply(set_classes(1, &["flex", "p-4"]));
    let mut handlers = PropMap::new();
    handlers.insert("onClick".to_string(), 7u32);
    let mut attrs: PropMap<PropValue> = PropMap::new();
    attrs.insert("disabled".to_string(), JsonValue::Bool(true));
    t.apply(Op::SetProps { id: 1, classes: vec!["m-2".to_string()], style: PropMap::new(), handlers, attrs });
    match t.get(1) {
        Some(Node::Element { tag, props, children }) => {
            assert_eq!(tag, "div");
            assert_eq!(props.classes, vec!["m-2".to_string()]);
            assert_eq!(props.handlers.get("onClick"), Some(&7));
            assert_eq!(children, &vec![2]);
        }
        _ => panic!("expected element"),
    }
}

#[test]
fn set_props_on_a_text_node_changes_nothing() {
    let mut t = SceneTree::new();
    t.apply(text(5, "hi"));
    t.apply(set_classes(5, &["flex"]));
    match t.get(5) {
        Some(Node::Text { value }) => assert_eq!(value, "hi"),
        _ => panic!("expected text"),
    }
}

#[test]
fn update_text_replaces_value_only_on_text_nodes() {
    let mut t = SceneTree::new();
    t.apply(text(2, "Count: 0"));
    t.apply(Op::UpdateText { id: 2, value: "Count: 1".to_string() });
    match t.get(2) {
        Some(Node::Text { value }) => assert_eq!(value, "Count: 1"),
        _ => panic!("expected text"),
    }
    t.apply(create(3, "div"));
    t.apply(Op::UpdateText { id: 3, value: "nope".to_string() });
    assert!(matches!(t.get(3), Some(Node::Element { .. })));
    t.apply(Op::UpdateText { id: 99, value: "nope".to_string() });
    assert!(t.get(99).is_none());
}

#[test]
fn append_moves_an_existing_child_to_the_end() {
    let mut t = SceneTree::new();
    for id in 1..=4 {
        t.apply(create(id, "div"));
    }
    t.apply(append(1, 2));
    t.apply(append(1, 3));
    t.apply(append(1, 4));
    t.apply(append(1, 2));
    assert_eq!(children(&t, 1), vec![3, 4, 2]);
}

#[test]
fn insert_without_before_appends() {
    let mut t = SceneTree::new();
    for id in 1..=3 {
        t.apply(create(id, "div"));
    }
    t.apply(append(1, 2));
    t.apply(Op::Insert { parent: 1, child: 3, before: 42 });
    assert_eq!(children(&t, 1), vec![2, 3]);
}

#[test]
fn insert_moves_a_child_before_another() {
    let mut t = SceneTree::new();
    for id in 1..=4 {
        t.apply(create(id, "div"));
    }
    t.apply(append(1, 2));
    t.apply(append(1, 3));
    t.apply(append(1, 4));
    t.apply(Op::Insert { parent: 1, child: 4, before: 2 });
    assert_eq!(children(&t, 1), vec![4, 2, 3]);
}

#[test]
fn remove_detaches_but_keeps_the_node() {
    let mut t = SceneTree::new();
    t.apply(create(1, "div"));
    t.apply(create(2, "span"));
    t.apply(append(1, 2));
    t.apply(Op::Remove { parent: 1, child: 2 });
    assert_eq!(children(&t, 1), Vec::<u32>::new());
    assert!(t.get(2).is_some());
}

#[test]
fn container_ops_set_and_clear_the_root() {
    let mut t = SceneTree::new();
    assert_eq!(t.root(), None);
    t.apply(Op::Insert { parent: ROOT_PARENT, child: 7, before: 3 });
    assert_eq!(t.root(), Some(7));
    t.apply(Op::Remove { parent: ROOT_PARENT, child: 8 });
    assert_eq!(t.root(), Some(7));
    t.apply(Op::Remove { parent: ROOT_PARENT, child: 7 });
    assert_eq!(t.root(), None);
    t.apply(Op::SetRoot { id: 9 });
    assert_eq!(t.root(), Some(9));
}

#[test]
fn drop_keeps_unrelated_nodes_and_survives_cycles() {
    let mut t = SceneTree::new();
    for id in 1..=5 {
        t.apply(create(id, "div"));
    }
    t.apply(append(1, 2));
    t.apply(append(2, 3));
    t.apply(append(3, 1));
    t.apply(append(4, 5));
    t.apply(Op::Drop { id: 2 });
    assert!(t.get(1).is_none());
    assert!(t.get(2).is_none());
    assert!(t.get(3).is_none());
    assert!(t.get(4).is_some());
    assert!(t.get(5).is_some());
    assert_eq!(t.len(), 2);
}

#[test]
fn drop_of_a_missing_node_does_nothing() {
    let mut t = SceneTree::new();
    t.apply(create(1, "div"));
    t.apply(Op::Drop { id: 2 });
    assert_eq!(t.len(), 1);
}

#[test]
fn apply_ops_applies_in_order_and_reports_change() {
    let mut t = SceneTree::new();
    assert!(!t.apply_ops(Vec::new()));
    let changed = t.apply_ops(vec![create(1, "div"), create(2, "span"), append(1, 2), append(0, 1)]);
    assert!(changed);
    assert_eq!(t.root(), Some(1));
    assert_eq!(children(&t, 1), vec![2]);
}
