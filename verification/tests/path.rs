use oxc_zed::path::{join_text, FsPath};

fn text(p: &FsPath) -> String {
    p.render()
}

#[test]
fn parse_drops_empty_and_current_components() {
    let p = FsPath::parse("/repo//packages/./app/");
    assert_eq!(text(&p), "/repo/packages/app");
    assert!(p.is_absolute());
    assert_eq!(p, FsPath::parse("/repo/packages/app"));
}

#[test]
fn parse_relative_path() {
    let p = FsPath::parse("packages/app");
    assert!(!p.is_absolute());
    assert_eq!(text(&p), "packages/app");
}

#[test]
fn root_has_no_parent() {
    let root = FsPath::parse("/");
    assert_eq!(text(&root), "/");
    assert_eq!(root.parent(), None);
    assert_eq!(FsPath::parse("").parent(), None);
}

#[test]
fn parent_drops_last_component() {
    let p = FsPath::parse("/repo/packages/app");
    let up = p.parent().unwrap();
    assert_eq!(text(&up), "/repo/packages");
    let top = FsPath::parse("/repo").parent().unwrap();
    assert_eq!(text(&top), "/");
    assert_eq!(text(&FsPath::parse("app").parent().unwrap()), "");
}

#[test]
fn join_appends_or_replaces() {
    let base = FsPath::parse("/repo");
    assert_eq!(text(&base.join("package.json")), "/repo/package.json");
    assert_eq!(text(&base.join("node_modules/vite-plus")), "/repo/node_modules/vite-plus");
    assert_eq!(text(&base.join("/usr/bin")), "/usr/bin");
    assert_eq!(text(&base.join("")), "/repo");
    assert_eq!(text(&FsPath::parse("/").join("package.json")), "/package.json");
}

#[test]
fn parent_undoes_join_of_one_component() {
    let base = FsPath::parse("/repo/packages");
    assert_eq!(base.join("app").parent(), Some(base));
}

#[test]
fn parse_of_render_gives_the_path_back() {
    let p = FsPath::parse("/a//b/./c/");
    assert_eq!(FsPath::parse(&p.render()), p);
}

#[test]
fn strip_prefix_is_relative_to_an_ancestor() {
    let p = FsPath::parse("/repo/packages/app/package.json");
    let root = FsPath::parse("/repo");
    assert_eq!(
        text(&p.strip_prefix(&root).unwrap()),
        "packages/app/package.json"
    );
    assert_eq!(text(&root.strip_prefix(&root).unwrap()), "");
    assert_eq!(FsPath::parse("/other/x").strip_prefix(&root), None);
    assert_eq!(FsPath::parse("/").strip_prefix(&root), None);
    assert_eq!(FsPath::parse("/repository").strip_prefix(&root), None);
    assert_eq!(FsPath::parse("repo/x").strip_prefix(&root), None);
}

#[test]
fn join_text_pushes_like_a_path_buffer() {
    assert_eq!(join_text("/repo", "node_modules"), "/repo/node_modules");
    assert_eq!(join_text("/repo/", "node_modules"), "/repo/node_modules");
    assert_eq!(join_text("", "node_modules"), "node_modules");
    assert_eq!(join_text("/repo", "/opt/tsgolint"), "/opt/tsgolint");
    assert_eq!(join_text("/repo", ""), "/repo/");
    assert_eq!(join_text("/repo", "bin/tsgolint"), "/repo/bin/tsgolint");
}

#[test]
fn leading_current_dir_of_a_relative_path_is_kept() {
    let p = FsPath::parse("./repo");
    assert_eq!(text(&p), "./repo");
    assert_ne!(p, FsPath::parse("repo"));
    assert_eq!(text(&p.parent().unwrap()), ".");
    assert_eq!(text(&FsPath::parse(".").parent().unwrap()), "");
    assert_eq!(text(&FsPath::parse(".//a/./b")), "./a/b");
    assert_eq!(text(&FsPath::parse("/./a")), "/a");
    assert_eq!(text(&FsPath::parse(".hidden/x")), ".hidden/x");
    assert_eq!(FsPath::parse("./repo").parent(), Some(FsPath::parse(".")));
}

#[test]
fn join_drops_a_leading_current_dir_inside_a_path() {
    assert_eq!(text(&FsPath::parse("/repo").join("./x")), "/repo/x");
    assert_eq!(text(&FsPath::parse(".").join("./x")), "./x");
    assert_eq!(text(&FsPath::parse("").join("./x")), "./x");
    assert_eq!(text(&FsPath::parse("./repo").join("package.json")), "./repo/package.json");
}
