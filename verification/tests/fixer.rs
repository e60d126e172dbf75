use dep_doctor::fixer::cargo::replace_cargo_version;
use dep_doctor::fixer::go::replace_go_mod_version;
use dep_doctor::fixer::npm::{extract_prefix, replace_json_dep_version};
use dep_doctor::fixer::pip::{fix_pyproject_toml, fix_requirements_txt, fix_version};
use dep_doctor::fixer::{
    apply_fixes, apply_single_fix, manifests_for, summary_text, FixCandidate, FixOutcome, FixResult,
    ManifestFile,
};
use dep_doctor::problems::schema::{Finding, Problem, ProblemKind};

fn make_finding<'a>(problem: &'a Problem, version: &str, repo_path: &str) -> Finding<'a> {
    Finding {
        repo_name: "test-repo".into(),
        repo_path: repo_path.into(),
        package: problem.package.clone(),
        installed_version: version.into(),
        problem,
        source_hits: vec![],
    }
}

fn problem(id: &str, eco: &str, package: &str, fixed_in: Option<String>) -> Problem {
    Problem {
        id: id.into(),
        title: "Test".into(),
        severity: "high".into(),
        ecosystem: eco.into(),
        package: package.into(),
        affected_range: ">=1.0.0 <2.0.0".into(),
        fixed_in,
        references: vec![],
        source_patterns: None,
        kind: ProblemKind::Cve,
    }
}

#[test]
fn skips_findings_without_fixed_in() {
    let problem = problem("TEST-001", "npm", "foo", None);
    let findings = vec![make_finding(&problem, "1.5.0", "/tmp/fake")];
    let plan = apply_fixes(&findings);
    let results = plan.results;

    assert_eq!(results.len(), 1);
    assert!(plan.pending.is_empty());
    assert!(!results[0].applied);
    assert_eq!(results[0].reason.as_deref(), Some("no fixed version known"));
}

#[test]
fn skips_findings_with_empty_fixed_in() {
    let problem = problem("TEST-002", "npm", "bar", Some(String::new()));
    let findings = vec![make_finding(&problem, "1.5.0", "/tmp/fake")];
    let plan = apply_fixes(&findings);
    let results = plan.results;

    assert_eq!(results.len(), 1);
    assert!(plan.pending.is_empty());
    assert!(!results[0].applied);
}

#[test]
fn groups_candidates_by_repo_and_lowercase_ecosystem() {
    let a = problem("A", "npm", "axios", Some("1.6.0".into()));
    let b = problem("B", "NPM", "lodash", Some("4.17.21".into()));
    let c = problem("C", "pip", "requests", Some("2.31.0".into()));
    let findings = vec![
        make_finding(&a, "1.5.0", "/r1"),
        make_finding(&c, "2.0.0", "/r1"),
        make_finding(&b, "4.17.0", "/r1"),
        make_finding(&a, "1.0.0", "/r2"),
    ];
    let plan = apply_fixes(&findings);
    assert!(plan.results.is_empty());
    assert_eq!(plan.pending.len(), 3);
    assert_eq!(plan.pending[0].repo_path, "/r1");
    assert_eq!(plan.pending[0].ecosystem, "npm");
    assert_eq!(plan.pending[0].candidates.len(), 2);
    assert_eq!(plan.pending[0].candidates[1].package, "lodash");
    assert_eq!(plan.pending[0].candidates[1].new_version, "4.17.21");
    assert_eq!(plan.pending[1].ecosystem, "pip");
    assert_eq!(plan.pending[2].repo_path, "/r2");
}

fn candidate() -> FixCandidate {
    FixCandidate {
        problem_id: "P".into(),
        package: "axios".into(),
        old_version: "1.5.0".into(),
        new_version: "1.6.0".into(),
    }
}

#[test]
fn single_fix_results() {
    let c = candidate();
    let r = apply_single_fix("npm", &c, FixOutcome::Changed);
    assert!(r.applied);
    assert!(r.reason.is_none());
    assert_eq!(r.new_version, "1.6.0");
    let r = apply_single_fix("npm", &c, FixOutcome::NotFound);
    assert!(!r.applied);
    assert_eq!(r.reason.as_deref(), Some("package not found in manifest"));
    let r = apply_single_fix("go", &c, FixOutcome::Failed("disk full".into()));
    assert_eq!(r.reason.as_deref(), Some("error: disk full"));
    let r = apply_single_fix("maven", &c, FixOutcome::Changed);
    assert!(!r.applied);
    assert_eq!(r.ecosystem, "maven");
    assert_eq!(r.reason.as_deref(), Some("unsupported ecosystem: maven"));
}

#[test]
fn manifests_per_ecosystem() {
    assert_eq!(manifests_for("pip"), vec![ManifestFile::RequirementsTxt, ManifestFile::PyprojectToml]);
    assert_eq!(manifests_for("cargo"), vec![ManifestFile::CargoToml]);
    assert!(manifests_for("maven").is_empty());
    assert_eq!(ManifestFile::GoMod.file_name(), "go.mod");
    let (text, changed) = ManifestFile::PackageJson.rewrite("{\"dependencies\": {\"a\": \"^1.0.0\"}}", "a", "1.1.0");
    assert!(changed);
    assert_eq!(text, "{\"dependencies\": {\"a\": \"^1.1.0\"}}");
}

#[test]
fn summary_lists_fixed_and_skipped() {
    let results = vec![
        FixResult {
            problem_id: "A".into(),
            package: "axios".into(),
            ecosystem: "npm".into(),
            old_version: "1.5.0".into(),
            new_version: "1.6.0".into(),
            applied: true,
            reason: None,
        },
        FixResult {
            problem_id: "B".into(),
            package: "foo".into(),
            ecosystem: "npm".into(),
            old_version: "1.0.0".into(),
            new_version: String::new(),
            applied: false,
            reason: Some("no fixed version known".into()),
        },
    ];
    let text = summary_text(&results);
    assert!(text.contains("Fixed 1 finding(s):"));
    assert!(text.contains("  axios (1.5.0) \u{2192} 1.6.0\n"));
    assert!(text.contains("Skipped 1 finding(s):"));
    assert!(text.contains("  foo \u{2014} no fixed version known\n"));
    assert!(text.contains("Fixed 1/2 findings."));
    assert_eq!(summary_text(&[]), "");
}

// ── cargo ──

#[test]
fn fixes_simple_version() {
    let (result, changed) =
        replace_cargo_version("[dependencies]\nserde = \"1.0.180\"\nregex = \"1.9.0\"\n", "serde", "1.0.197");
    assert!(changed);
    assert!(result.contains("serde = \"1.0.197\""));
    assert!(result.contains("regex = \"1.9.0\"")); // unchanged
}

#[test]
fn fixes_caret_version() {
    let (result, changed) = replace_cargo_version("[dependencies]\ntokio = \"^1.28.0\"\n", "tokio", "1.36.0");
    assert!(changed);
    assert!(result.contains("tokio = \"^1.36.0\""));
}

#[test]
fn fixes_table_form_version() {
    let (result, changed) = replace_cargo_version(
        "[dependencies]\nclap = { version = \"4.4.0\", features = [\"derive\"] }\n",
        "clap",
        "4.5.4",
    );
    assert!(changed);
    assert!(result.contains("version = \"4.5.4\""));
    assert!(result.contains("features = [\"derive\"]")); // preserved
}

#[test]
fn returns_false_when_crate_not_found() {
    let (_, changed) = replace_cargo_version("[dependencies]\nserde = \"1.0.180\"\n", "tokio", "1.36.0");
    assert!(!changed);
}

#[test]
fn fixes_dev_dependencies() {
    let (result, changed) = replace_cargo_version("[dev-dependencies]\ntempfile = \"3.8.0\"\n", "tempfile", "3.10.1");
    assert!(changed);
    assert!(result.contains("tempfile = \"3.10.1\""));
}

// ── go ──

#[test]
fn fixes_require_block_version() {
    let (result, changed) = replace_go_mod_version(
        "module example.com/app\n\ngo 1.21\n\nrequire (\n\tgolang.org/x/net v0.10.0\n\tgolang.org/x/text v0.9.0\n)\n",
        "golang.org/x/net",
        "0.17.0",
    );
    assert!(changed);
    assert!(result.contains("golang.org/x/net v0.17.0"));
    assert!(result.contains("golang.org/x/text v0.9.0")); // unchanged
}

#[test]
fn fixes_single_line_require() {
    let (result, changed) = replace_go_mod_version(
        "module example.com/app\n\ngo 1.21\n\nrequire golang.org/x/net v0.10.0\n",
        "golang.org/x/net",
        "0.17.0",
    );
    assert!(changed);
    assert!(result.contains("golang.org/x/net v0.17.0"));
}

#[test]
fn preserves_indirect_comment() {
    let (result, changed) = replace_go_mod_version(
        "module example.com/app\n\nrequire (\n\tgolang.org/x/net v0.10.0 // indirect\n)\n",
        "golang.org/x/net",
        "0.17.0",
    );
    assert!(changed);
    assert!(result.contains("golang.org/x/net v0.17.0 // indirect"));
}

#[test]
fn returns_false_when_module_not_found() {
    let (_, changed) = replace_go_mod_version(
        "module example.com/app\n\ngo 1.21\n\nrequire golang.org/x/text v0.9.0\n",
        "golang.org/x/net",
        "0.17.0",
    );
    assert!(!changed);
}

#[test]
fn adds_v_prefix_when_missing() {
    let (result, changed) =
        replace_go_mod_version("module example.com/app\n\nrequire golang.org/x/net v0.10.0\n", "golang.org/x/net", "0.17.0");
    assert!(changed);
    assert!(result.contains("v0.17.0"));
}

// ── npm ──

#[test]
fn fixes_dependency_version() {
    let (result, changed) = replace_json_dep_version(
        "{\n  \"dependencies\": {\n    \"axios\": \"^1.5.0\",\n    \"express\": \"^4.18.0\"\n  }\n}",
        "axios",
        "1.7.4",
    );
    assert!(changed);
    assert!(result.contains("\"^1.7.4\""));
    assert!(result.contains("\"^4.18.0\"")); // express unchanged
}

#[test]
fn fixes_dev_dependency_version() {
    let (result, changed) =
        replace_json_dep_version("{\n  \"devDependencies\": {\n    \"jest\": \"~29.0.0\"\n  }\n}", "jest", "29.7.0");
    assert!(changed);
    assert!(result.contains("\"~29.7.0\""));
}

#[test]
fn preserves_exact_version_no_prefix() {
    let (result, changed) =
        replace_json_dep_version("{\n  \"dependencies\": {\n    \"lodash\": \"4.17.20\"\n  }\n}", "lodash", "4.17.21");
    assert!(changed);
    assert!(result.contains("\"4.17.21\""));
}

#[test]
fn npm_returns_false_when_package_not_found() {
    let (_, changed) =
        replace_json_dep_version("{\n  \"dependencies\": {\n    \"express\": \"^4.18.0\"\n  }\n}", "axios", "1.7.4");
    assert!(!changed);
}

#[test]
fn extract_prefix_works() {
    assert_eq!(extract_prefix("^1.5.0"), "^");
    assert_eq!(extract_prefix("~2.0.0"), "~");
    assert_eq!(extract_prefix(">=1.0.0"), ">=");
    assert_eq!(extract_prefix("1.0.0"), "");
}

// ── pip ──

#[test]
fn fixes_requirements_txt_exact_pin() {
    let (result, changed) = fix_requirements_txt("requests==2.28.0\nflask==2.3.0\n", "requests", "2.31.0");
    assert!(changed);
    assert!(result.contains("requests==2.31.0"));
    assert!(result.contains("flask==2.3.0")); // unchanged
}

#[test]
fn fixes_requirements_txt_compatible_release() {
    let (result, changed) = fix_requirements_txt("django~=4.2.0\n", "django", "4.2.11");
    assert!(changed);
    assert!(result.contains("django~=4.2.11"));
}

#[test]
fn handles_hyphen_underscore_normalization() {
    let (result, changed) = fix_requirements_txt("my-package==1.0.0\n", "my_package", "1.1.0");
    assert!(changed);
    assert!(result.contains("my-package==1.1.0"));
}

#[test]
fn go_module_name_must_end_at_whitespace() {
    let (result, changed) = replace_go_mod_version("require a.com/mv2 v1.0.0\n", "a.com/m", "1.1.0");
    assert!(!changed);
    assert_eq!(result, "require a.com/mv2 v1.0.0\n");
    let (result, changed) = replace_go_mod_version("require a.com/m v1.0.0\n", "a.com/m", "1.1.0");
    assert!(changed);
    assert_eq!(result, "require a.com/m v1.1.0\n");
}

#[test]
fn cargo_table_form_for_crate_named_version() {
    let (result, changed) = replace_cargo_version(
        "[dependencies]\nversion_check = { version = \"0.9.4\" }\n",
        "version_check",
        "0.9.5",
    );
    assert!(changed);
    assert_eq!(result, "[dependencies]\nversion_check = { version = \"0.9.5\" }\n");
}

#[test]
fn cargo_bare_version_not_taken_from_crate_name() {
    let (result, changed) = replace_cargo_version("sha1 = \"1\"\n", "sha1", "2");
    assert!(changed);
    assert_eq!(result, "sha1 = \"2\"\n");
}

#[test]
fn pip_returns_false_when_package_not_found() {
    let (_, changed) = fix_requirements_txt("flask==2.3.0\n", "requests", "2.31.0");
    assert!(!changed);
}

#[test]
fn pip_fix_version_rewrites_both_manifests() {
    let fix = fix_version(
        Some("requests==2.28.0\n"),
        Some("[project]\ndependencies = [\n    \"requests>=2.28.0\",\n]\n"),
        "requests",
        "2.31.0",
    );
    assert!(fix.changed);
    assert_eq!(fix.requirements_txt.as_deref(), Some("requests==2.31.0\n"));
    assert_eq!(
        fix.pyproject_toml.as_deref(),
        Some("[project]\ndependencies = [\n    \"requests>=2.31.0\",\n]\n")
    );
    let none = fix_version(None, None, "requests", "2.31.0");
    assert!(!none.changed);
    let (text, changed) = fix_pyproject_toml(
        "[project]\ndependencies = [\n    \"requests>=2.28.0\",\n    \"flask>=2.0\",\n]\n",
        "requests",
        "2.31.0",
    );
    assert!(changed);
    assert_eq!(text, "[project]\ndependencies = [\n    \"requests>=2.31.0\",\n    \"flask>=2.0\",\n]\n");
    let (text, changed) = fix_pyproject_toml("x = 1\n", "requests", "2.31.0");
    assert!(!changed);
    assert_eq!(text, "x = 1\n");
}
