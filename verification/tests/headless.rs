use valhalla::headless::{find_press_handler, parse_cli, subtree_text, CliError};
use valhalla::props::PropMap;
use valhalla::scene::{Op, SceneTree};

fn button(t: &mut SceneTree, id: u32, parent: u32, handler: u32, label: &str) {
    t.apply(Op::Create { id, tag: "pressable".into() });
    let mut handlers = PropMap::new();
    handlers.insert("onPress".to_string(), handler);
    t.apply(Op::SetProps { id, classes: vec![], style: PropMap::new(), handlers, attrs: PropMap::new() });
    t.apply(Op::CreateText { id: id + 100, value: label.into() });
    t.apply(Op::Append { parent: id, child: id + 100 });
    t.apply(Op::Append { parent, child: id });
}

fn calculator() -> SceneTree {
    let mut t = SceneTree::new();
    t.apply(Op::Create { id: 1, tag: "view".into() });
    t.apply(Op::Append { parent: 0, child: 1 });
    button(&mut t, 2, 1, 20, " 7 ");
    button(&mut t, 3, 1, 30, "+");
    button(&mut t, 4, 1, 40, "Add item");
    button(&mut t, 5, 1, 50, "Add");
    t
}

#[test]
fn subtree_text_concatenates_in_document_order() {
    let t = calculator();
    assert_eq!(subtree_text(&t, 1), " 7 +Add itemAdd");
    assert_eq!(subtree_text(&t, 3), "+");
    assert_eq!(subtree_text(&t, 999), "");
}

#[test]
fn press_prefers_exact_then_shortest_containing() {
    let t = calculator();
    assert_eq!(find_press_handler(&t, "7"), Some(20));
    assert_eq!(find_press_handler(&t, "+"), Some(30));
    assert_eq!(find_press_handler(&t, "Add"), Some(50));
    assert_eq!(find_press_handler(&t, "item"), Some(40));
    assert_eq!(find_press_handler(&t, "="), None);
    assert_eq!(find_press_handler(&SceneTree::new(), "7"), None);
}

#[test]
fn press_terminates_on_a_cyclic_table() {
    let mut t = calculator();
    t.apply(Op::Append { parent: 2, child: 1 });
    let _ = find_press_handler(&t, "7");
}

#[test]
fn cli_parsing() {
    let args = |v: &[&str]| v.iter().map(|s| s.to_string()).collect::<Vec<_>>();
    let cli = parse_cli(args(&["b.js", "--press", "7", "--quiet-ops", "--press", "+"])).unwrap();
    assert_eq!(cli.bundle, "b.js");
    assert_eq!(cli.presses, vec!["7".to_string(), "+".to_string()]);
    assert!(cli.quiet_ops);
    assert_eq!(parse_cli(args(&["b.js", "--press"])).unwrap_err(), CliError::MissingPressLabel);
    let e = parse_cli(args(&["a.js", "b.js"])).unwrap_err();
    assert_eq!(e, CliError::UnexpectedArgument("b.js".into()));
    assert_eq!(e.message(), "unexpected argument: b.js");
    assert_eq!(parse_cli(args(&["--quiet-ops"])).unwrap_err(), CliError::MissingBundle);
    assert!(CliError::MissingBundle.message().starts_with("usage: valhalla-headless"));
}

#[test]
fn walks_reach_the_bottom_of_a_chain() {
    // A chain as deep as the table is large: every node sits on one path.
    let mut t = SceneTree::new();
    for id in 1..=5u32 {
        t.apply(Op::Create { id, tag: "view".into() });
        if id > 1 {
            t.apply(Op::Append { parent: id - 1, child: id });
        }
    }
    t.apply(Op::CreateText { id: 6, value: "deep".into() });
    t.apply(Op::Append { parent: 5, child: 6 });
    t.apply(Op::Append { parent: 0, child: 1 });
    assert_eq!(t.len(), 6);
    assert_eq!(subtree_text(&t, 1), "deep");
    let mut handlers = PropMap::new();
    handlers.insert("onClick".to_string(), 9u32);
    t.apply(Op::SetProps { id: 5, classes: vec![], style: PropMap::new(), handlers, attrs: PropMap::new() });
    assert_eq!(find_press_handler(&t, "deep"), Some(9));
}
