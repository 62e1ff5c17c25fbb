use valhalla::assets::{get_assets_dir, resolve, set_assets_dir, AssetsRoot};

#[test]
fn first_assets_dir_wins() {
    let mut root = AssetsRoot::new();
    assert!(get_assets_dir(&root).is_none());
    set_assets_dir(&mut root, "/app/assets".into());
    set_assets_dir(&mut root, "/other".into());
    assert_eq!(get_assets_dir(&root).map(|s| s.as_str()), Some("/app/assets"));
}

#[test]
fn resolve_joins_relative_paths() {
    let mut root = AssetsRoot::new();
    assert_eq!(resolve("icons/x.svg", &root, "/cwd"), "/cwd/icons/x.svg");
    assert_eq!(resolve("/abs/x.svg", &root, "/cwd"), "/abs/x.svg");
    set_assets_dir(&mut root, "/app/assets/".into());
    assert_eq!(resolve("icons/x.svg", &root, "/cwd"), "/app/assets/icons/x.svg");
    let mut bare = AssetsRoot::new();
    set_assets_dir(&mut bare, "".into());
    assert_eq!(resolve("x.png", &bare, "/cwd"), "x.png");
}

#[test]
fn resolve_agrees_with_path_join() {
    let mut root = AssetsRoot::new();
    set_assets_dir(&mut root, "/a/b".into());
    for src in ["c.svg", "d/e.png", ""] {
        let expected = std::path::Path::new("/a/b").join(src);
        assert_eq!(resolve(src, &root, "."), expected.to_string_lossy());
    }
}
