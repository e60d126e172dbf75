use dep_doctor::scanner::manifest::InstalledPackage;
use dep_doctor::supply_chain::typosquat::{check, levenshtein, MAX_DISTANCE};

#[test]
fn levenshtein_identical() {
    assert_eq!(levenshtein("lodash", "lodash"), 0);
}

#[test]
fn levenshtein_one_off() {
    assert_eq!(levenshtein("lodash", "lodas"), 1);
    assert_eq!(levenshtein("lodash", "l0dash"), 1);
}

#[test]
fn levenshtein_two_off() {
    assert_eq!(levenshtein("lodash", "lodsh"), 1); // deletion
    assert_eq!(levenshtein("express", "exprss"), 1);
}

#[test]
fn levenshtein_too_far() {
    assert!(levenshtein("lodash", "xyz") > MAX_DISTANCE);
}

fn make_pkg(name: &str, eco: &str) -> InstalledPackage {
    InstalledPackage {
        repo_name: "test-repo".to_string(),
        repo_path: "/tmp/test".to_string(),
        name: name.to_string(),
        version: "1.0.0".to_string(),
        ecosystem: eco.to_string(),
    }
}

#[test]
fn check_flags_typosquat() {
    let packages = vec![make_pkg("lodasj", "npm")];
    let warnings = check(&packages);
    assert_eq!(warnings.len(), 1);
    assert_eq!(warnings[0].similar_to, "lodash");
    assert!(warnings[0].edit_distance <= MAX_DISTANCE);
}

#[test]
fn check_skips_exact_popular_name() {
    let packages = vec![make_pkg("lodash", "npm")];
    let warnings = check(&packages);
    assert!(warnings.is_empty());
}

#[test]
fn levenshtein_counts_characters_not_bytes() {
    assert_eq!(levenshtein("é", "e"), 1);
    assert_eq!(levenshtein("", "abc"), 3);
    assert_eq!(levenshtein("kitten", "sitting"), 3);
}

#[test]
fn levenshtein_is_symmetric_on_examples() {
    assert_eq!(levenshtein("flaw", "lawn"), levenshtein("lawn", "flaw"));
    assert_eq!(levenshtein("flaw", "lawn"), 2);
}

#[test]
fn check_reports_each_name_once_per_ecosystem() {
    let packages = vec![make_pkg("lodasj", "npm"), make_pkg("lodasj", "npm"), make_pkg("lodasj", "pip")];
    let warnings = check(&packages);
    assert_eq!(warnings.len(), 1);
    assert_eq!(warnings[0].ecosystem, "npm");
    assert_eq!(warnings[0].scanned_name, "lodasj");
    assert_eq!(warnings[0].edit_distance, 1);
}

#[test]
fn check_orders_by_ecosystem_then_input() {
    let packages = vec![make_pkg("serdee", "cargo"), make_pkg("requestz", "pip"), make_pkg("expres", "npm")];
    let warnings = check(&packages);
    assert_eq!(warnings.len(), 3);
    assert_eq!(warnings[0].similar_to, "express");
    assert_eq!(warnings[1].similar_to, "requests");
    assert_eq!(warnings[2].similar_to, "serde");
}

#[test]
fn check_ignores_unknown_ecosystems_and_far_names() {
    let packages = vec![make_pkg("lodasj", "maven"), make_pkg("completely-different", "npm")];
    assert!(check(&packages).is_empty());
}
