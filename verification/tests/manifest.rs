use oxc_zed::manifest::{
    declares_vite_plus, has_workspaces, is_present, is_string, is_vite_plus_manifest, package_exists,
    JsonSlot,
};

#[test]
fn package_exists_in_dependencies_or_dev_dependencies() {
    assert!(package_exists(r#"{ "dependencies": { "oxlint": "^1.0.0" } }"#, "oxlint"));
    assert!(package_exists(r#"{ "devDependencies": { "oxlint": "1" } }"#, "oxlint"));
    assert!(!package_exists(r#"{ "devDependencies": { "oxfmt": "1" } }"#, "oxlint"));
    assert!(!package_exists(r#"{ "peerDependencies": { "oxlint": "1" } }"#, "oxlint"));
}

#[test]
fn null_or_missing_dependency_is_absent() {
    assert!(!package_exists(r#"{ "dependencies": { "oxlint": null } }"#, "oxlint"));
    assert!(!package_exists(r#"{ "dependencies": [] }"#, "oxlint"));
    assert!(!package_exists("{}", "oxlint"));
}

#[test]
fn any_non_null_version_counts() {
    assert!(package_exists(r#"{ "dependencies": { "oxlint": 3 } }"#, "oxlint"));
    assert!(package_exists(r#"{ "dependencies": { "oxlint": {} } }"#, "oxlint"));
}

#[test]
fn invalid_json_declares_nothing() {
    assert!(!package_exists(r#"{ "dependencies": { "oxlint": "1" } "#, "oxlint"));
    assert!(!declares_vite_plus("not json"));
    assert!(!has_workspaces(""));
    assert!(!is_vite_plus_manifest("{ name: vite-plus }"));
}

#[test]
fn declares_vite_plus_directly() {
    assert!(declares_vite_plus(r#"{ "devDependencies": { "vite-plus": "^1.0.0" } }"#));
    assert!(declares_vite_plus(r#"{ "dependencies": { "vite-plus": "latest" } }"#));
    assert!(!declares_vite_plus(r#"{ "dependencies": { "vite": "^7" } }"#));
}

#[test]
fn workspaces_field() {
    assert!(has_workspaces(r#"{ "workspaces": ["packages/*"] }"#));
    assert!(has_workspaces(r#"{ "workspaces": { "packages": [] } }"#));
    assert!(!has_workspaces(r#"{ "workspaces": null }"#));
    assert!(!has_workspaces(r#"{ "name": "app" }"#));
}

#[test]
fn vite_plus_manifest_name() {
    assert!(is_vite_plus_manifest(r#"{ "name": "vite-plus", "version": "1.0.0" }"#));
    assert!(!is_vite_plus_manifest(r#"{ "name": "imposter" }"#));
    assert!(!is_vite_plus_manifest(r#"{ "name": ["vite-plus"] }"#));
    assert!(!is_vite_plus_manifest(r#"{ "version": "1.0.0" }"#));
}

#[test]
fn slot_presence() {
    assert!(!is_present(&None));
    assert!(!is_present(&Some(JsonSlot::Null)));
    assert!(is_present(&Some(JsonSlot::Other)));
    assert!(is_present(&Some(JsonSlot::Str(String::new()))));
}

#[test]
fn slot_string_comparison() {
    assert!(is_string(&Some(JsonSlot::Str("vite-plus".to_string())), "vite-plus"));
    assert!(!is_string(&Some(JsonSlot::Str("vite".to_string())), "vite-plus"));
    assert!(!is_string(&Some(JsonSlot::Other), "vite-plus"));
    assert!(!is_string(&Some(JsonSlot::Null), "vite-plus"));
    assert!(!is_string(&None, "vite-plus"));
}
