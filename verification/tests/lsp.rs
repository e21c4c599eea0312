use oxc_zed::lsp::{
    is_latest_installed, runnable_vp, server_args, worktree_relative_path, BinaryCommand,
    ZedLspSupport, OXFMT_SERVER_ID, OXLINT_SERVER_ID,
};
use oxc_zed::oxfmt::{binary_command, ZedOxfmtLsp};
use oxc_zed::oxlint::{
    binary_command as oxlint_binary_command, normalize_tsgolint_env, ZedOxlintLsp,
};
use oxc_zed::path::FsPath;
use oxc_zed::vite_plus::DetectResult;

fn strings(items: &[&str]) -> Vec<String> {
    items.iter().map(|s| s.to_string()).collect()
}

fn runnable(root: &str, vp: &str) -> Option<DetectResult> {
    Some(DetectResult {
        root: FsPath::parse(root),
        vp_path: Some(vp.to_string()),
    })
}

fn declared_only(root: &str) -> Option<DetectResult> {
    Some(DetectResult {
        root: FsPath::parse(root),
        vp_path: None,
    })
}

#[test]
fn server_ids_and_package_names() {
    assert_eq!(OXLINT_SERVER_ID, "oxlint");
    assert_eq!(OXFMT_SERVER_ID, "oxfmt");
    assert_eq!(ZedOxlintLsp::new().get_package_name(), "oxlint");
    assert_eq!(ZedOxfmtLsp::new().get_package_name(), "oxfmt");
    assert_eq!(ZedOxlintLsp::new().vite_plus_subcommand(), "lint");
    assert_eq!(ZedOxfmtLsp::new().vite_plus_subcommand(), "fmt");
}

#[test]
fn exe_path_is_the_package_launcher() {
    let lsp = ZedOxlintLsp::new();
    assert_eq!(
        lsp.get_exe_path_from("/repo", "oxlint", "oxlint"),
        "/repo/node_modules/oxlint/bin/oxlint"
    );
    assert_eq!(
        lsp.get_exe_path_from("/ext/", "oxfmt", "oxfmt"),
        "/ext/node_modules/oxfmt/bin/oxfmt"
    );
}

#[test]
fn workspace_exe_only_where_declared() {
    let lsp = ZedOxfmtLsp::new();
    let declared = Some(r#"{ "devDependencies": { "oxfmt": "^0.25.0" } }"#.to_string());
    assert_eq!(
        lsp.workspace_exe_path(declared, "/repo"),
        Some("/repo/node_modules/oxfmt/bin/oxfmt".to_string())
    );
    let other = Some(r#"{ "devDependencies": { "oxlint": "1" } }"#.to_string());
    assert_eq!(lsp.workspace_exe_path(other, "/repo"), None);
    assert_eq!(lsp.workspace_exe_path(None, "/repo"), None);
    assert_eq!(lsp.workspace_exe_path(Some("{".to_string()), "/repo"), None);
}

#[test]
fn runnable_vp_only_when_a_launcher_was_found() {
    assert_eq!(
        runnable_vp(&runnable("/repo", "/repo/node_modules/vite-plus/bin/vp")),
        Some("/repo/node_modules/vite-plus/bin/vp".to_string())
    );
    assert_eq!(runnable_vp(&declared_only("/repo")), None);
    assert_eq!(runnable_vp(&None), None);
}

#[test]
fn vite_plus_args_launch_vp_with_the_subcommand() {
    let detected = runnable("/repo", "/usr/local/bin/vp");
    assert_eq!(
        ZedOxlintLsp::new().vite_plus_args(&detected),
        Some(strings(&["/usr/local/bin/vp", "lint", "--lsp"]))
    );
    assert_eq!(
        ZedOxfmtLsp::new().vite_plus_args(&detected),
        Some(strings(&["/usr/local/bin/vp", "fmt", "--lsp"]))
    );
    assert_eq!(ZedOxlintLsp::new().vite_plus_args(&declared_only("/repo")), None);
    assert_eq!(ZedOxlintLsp::new().vite_plus_args(&None), None);
}

#[test]
fn plain_server_args() {
    assert_eq!(
        server_args("/repo/node_modules/oxlint/bin/oxlint"),
        strings(&["/repo/node_modules/oxlint/bin/oxlint", "--lsp"])
    );
}

#[test]
fn exe_available_with_runnable_vite_plus_or_workspace_install() {
    let lsp = ZedOxlintLsp::new();
    let declared = Some(r#"{ "dependencies": { "oxlint": "1" } }"#.to_string());
    assert!(lsp.exe_available(&runnable("/repo", "/repo/vp"), None, "/repo"));
    assert!(lsp.exe_available(&declared_only("/repo"), declared.clone(), "/repo"));
    assert!(lsp.exe_available(&None, declared, "/repo"));
    assert!(!lsp.exe_available(&declared_only("/repo"), None, "/repo"));
    assert!(!lsp.exe_available(&None, Some("{}".to_string()), "/repo"));
}

#[test]
fn latest_version_check() {
    let latest = "1.2.3".to_string();
    assert!(is_latest_installed(&Some("1.2.3".to_string()), &latest));
    assert!(!is_latest_installed(&Some("1.2.2".to_string()), &latest));
    assert!(!is_latest_installed(&None, &latest));
}

#[test]
fn worktree_relative_paths() {
    let root = FsPath::parse("/repo");
    assert_eq!(
        worktree_relative_path("/repo/packages/app/package.json", &root),
        Some("packages/app/package.json".to_string())
    );
    assert_eq!(worktree_relative_path("/repo", &root), Some(String::new()));
    assert_eq!(worktree_relative_path("/package.json", &root), None);
    assert_eq!(worktree_relative_path("/repository/package.json", &root), None);
}

#[test]
fn binary_settings_need_path_and_arguments_together() {
    let message = "When supplying binary.arguments, binary.path must be supplied (or vice-versa).";
    assert_eq!(
        binary_command(Some("/bin/oxfmt".to_string()), None),
        Err(message.to_string())
    );
    assert_eq!(
        binary_command(None, Some(strings(&["--lsp"]))),
        Err(message.to_string())
    );
    assert_eq!(
        binary_command(Some("/bin/oxfmt".to_string()), Some(strings(&["--lsp"]))),
        Ok(BinaryCommand::Given("/bin/oxfmt".to_string(), strings(&["--lsp"])))
    );
}

#[test]
fn binary_settings_with_only_env_keep_the_default_command() {
    assert_eq!(binary_command(None, None), Ok(BinaryCommand::UseDefault));
    assert_eq!(oxlint_binary_command(None, None), BinaryCommand::UseDefault);
}

#[test]
fn oxlint_binary_settings_name_the_command() {
    assert_eq!(
        oxlint_binary_command(Some("/bin/oxlint".to_string()), Some(strings(&["--lsp"]))),
        BinaryCommand::Given("/bin/oxlint".to_string(), strings(&["--lsp"]))
    );
}

#[test]
fn resolved_exe_prefers_the_workspace_install() {
    let lsp = ZedOxlintLsp::new();
    assert_eq!(
        lsp.resolved_exe_path(Some("/repo/node_modules/oxlint/bin/oxlint".to_string()), "/ext"),
        "/repo/node_modules/oxlint/bin/oxlint"
    );
    assert_eq!(
        lsp.resolved_exe_path(None, "/ext"),
        "/ext/node_modules/oxlint/bin/oxlint"
    );
    assert_eq!(
        ZedOxfmtLsp::new().resolved_exe_path(None, "/ext/"),
        "/ext/node_modules/oxfmt/bin/oxfmt"
    );
}

fn env(pairs: &[(&str, &str)]) -> Vec<(String, String)> {
    pairs
        .iter()
        .map(|(k, v)| (k.to_string(), v.to_string()))
        .collect()
}

#[test]
fn tsgolint_relative_path_resolved_against_root() {
    assert_eq!(
        normalize_tsgolint_env(
            env(&[("A", "1"), ("OXLINT_TSGOLINT_PATH", "bin/tsgolint")]),
            "/repo"
        ),
        env(&[("A", "1"), ("OXLINT_TSGOLINT_PATH", "/repo/bin/tsgolint")])
    );
}

#[test]
fn tsgolint_absolute_path_kept() {
    assert_eq!(
        normalize_tsgolint_env(env(&[("OXLINT_TSGOLINT_PATH", "/opt/tsgolint")]), "/repo"),
        env(&[("OXLINT_TSGOLINT_PATH", "/opt/tsgolint")])
    );
}

#[test]
fn tsgolint_env_without_the_variable_unchanged() {
    let vars = env(&[("PATH", "bin"), ("oxlint_tsgolint_path", "x")]);
    assert_eq!(normalize_tsgolint_env(vars.clone(), "/repo"), vars);
    assert_eq!(normalize_tsgolint_env(Vec::new(), "/repo"), Vec::new());
}

#[test]
fn tsgolint_only_first_entry_resolved() {
    assert_eq!(
        normalize_tsgolint_env(
            env(&[("OXLINT_TSGOLINT_PATH", "a"), ("OXLINT_TSGOLINT_PATH", "b")]),
            "/repo/"
        ),
        env(&[("OXLINT_TSGOLINT_PATH", "/repo/a"), ("OXLINT_TSGOLINT_PATH", "b")])
    );
}

#[test]
fn tsgolint_resolving_twice_changes_nothing() {
    let once = normalize_tsgolint_env(
        env(&[("OXLINT_TSGOLINT_PATH", "bin/tsgolint"), ("B", "2")]),
        "/repo",
    );
    assert_eq!(normalize_tsgolint_env(once.clone(), "/repo"), once);
}

#[test]
fn invocation_args_choose_vp_or_the_plain_server() {
    let lsp = ZedOxlintLsp::new();
    assert_eq!(
        lsp.lsp_invocation_args(&runnable("/repo", "/repo/vp"), "/ext/oxlint"),
        strings(&["/repo/vp", "lint", "--lsp"])
    );
    assert_eq!(
        lsp.lsp_invocation_args(&declared_only("/repo"), "/ext/oxlint"),
        strings(&["/ext/oxlint", "--lsp"])
    );
    assert_eq!(
        ZedOxfmtLsp::new().lsp_invocation_args(&None, "/ext/oxfmt"),
        strings(&["/ext/oxfmt", "--lsp"])
    );
}
