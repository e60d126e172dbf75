use dep_doctor::utils::semver_utils::{normalize_version, space_to_comma_and, version_matches_range};
use dep_doctor::watcher::{is_manifest_path, needs_rescan};
use std::path::Path;

fn file_name(p: &str) -> Option<&str> {
    Path::new(p).file_name().and_then(|n| n.to_str())
}

#[test]
fn test_space_to_comma_and() {
    assert_eq!(space_to_comma_and(">=0.8.1 <1.6.0"), ">=0.8.1, <1.6.0");
    assert_eq!(space_to_comma_and(">=0.8.1"), ">=0.8.1");
    assert_eq!(space_to_comma_and("<4.17.21"), "<4.17.21");
    assert_eq!(space_to_comma_and(">=0.21.0 <0.21.11"), ">=0.21.0, <0.21.11");
}

#[test]
fn test_axios_range() {
    assert!(version_matches_range("0.27.2", ">=0.8.1 <1.6.0"));
    assert!(version_matches_range("1.5.9", ">=0.8.1 <1.6.0"));
    assert!(!version_matches_range("1.6.0", ">=0.8.1 <1.6.0"));
    assert!(!version_matches_range("1.7.0", ">=0.8.1 <1.6.0"));
}

#[test]
fn test_multi_range() {
    let range = ">=0.21.0 <0.21.11,>=0.22.0 <0.22.4";
    assert!(version_matches_range("0.21.5", range));
    assert!(version_matches_range("0.22.3", range));
    assert!(!version_matches_range("0.21.11", range));
    assert!(!version_matches_range("0.23.0", range));
}

#[test]
fn test_normalize_short_version() {
    assert!(version_matches_range("4", "<4.17.21"));
    assert!(version_matches_range("4.17", "<4.17.21"));
}

#[test]
fn test_exact_boundary() {
    assert!(!version_matches_range("1.6.0", ">=0.8.1 <1.6.0"));
    assert!(!version_matches_range("4.17.21", "<4.17.21"));
}

#[test]
fn normalize_version_pads() {
    assert_eq!(normalize_version("4"), "4.0.0");
    assert_eq!(normalize_version("4.17"), "4.17.0");
    assert_eq!(normalize_version("4.17.21"), "4.17.21");
}

#[test]
fn recognizes_manifest_files() {
    assert!(is_manifest_path(file_name("/foo/bar/package.json")));
    assert!(is_manifest_path(file_name("Cargo.toml")));
    assert!(is_manifest_path(file_name("/a/go.mod")));
    assert!(is_manifest_path(file_name("/home/user/project/requirements.txt")));
}

#[test]
fn rejects_non_manifest_files() {
    assert!(!is_manifest_path(file_name("/foo/bar/main.rs")));
    assert!(!is_manifest_path(file_name("README.md")));
    assert!(!is_manifest_path(file_name("/a/b/index.js")));
}

#[test]
fn rescan_only_for_manifest_events() {
    assert!(needs_rescan(&[(false, Some("go.mod".into())), (true, Some("Cargo.lock".into()))]));
    assert!(!needs_rescan(&[(false, Some("go.mod".into())), (true, Some("main.go".into())), (true, None)]));
}
