use dep_doctor::scanner::manifest::cargo::{cargo_lock_versions, cargo_toml_dependencies};
use dep_doctor::scanner::manifest::npm::{npm_lock_versions, package_json_dependencies};
use dep_doctor::scanner::manifest::pip::{pyproject_dependencies, read_pyproject};
use dep_doctor::problems::registry::all_problems;
use dep_doctor::scanner::manifest::cargo::{read as cargo_read, DepSpec};
use dep_doctor::scanner::manifest::go::{parse_go_dep_line, parse_go_mod};
use dep_doctor::scanner::manifest::npm::{clean_version, read as npm_read};
use dep_doctor::scanner::manifest::pip::{normalize_pip_name, read as pip_read, split_requirement};
use dep_doctor::scanner::manifest::{read_all, InstalledPackage, RepoManifests};
use dep_doctor::scanner::repo_finder::{dir_name, is_hidden_or_ignored, repo_manifest_files, sort_repos, Repo};
use dep_doctor::scanner::version_matcher::match_problems;

#[test]
fn go_mod_parses_blocks_and_single_requires() {
    let content = "module example.com/app\n\ngo 1.21\n\nrequire (\n\tgolang.org/x/net v0.10.0 // indirect\n\tgithub.com/a/b v1.2.3\n)\n\nrequire golang.org/x/text v0.9.0\nreplace x => y\n";
    let pkgs = parse_go_mod(content, "app", "/repos/app");
    let got: Vec<(&str, &str)> = pkgs.iter().map(|p| (p.name.as_str(), p.version.as_str())).collect();
    assert_eq!(got, vec![("golang.org/x/net", "0.10.0"), ("github.com/a/b", "1.2.3"), ("golang.org/x/text", "0.9.0")]);
    assert!(pkgs.iter().all(|p| p.ecosystem == "go" && p.repo_name == "app" && p.repo_path == "/repos/app"));
}

#[test]
fn go_dep_line_edge_cases() {
    assert!(parse_go_dep_line("// just a comment", "r", "p").is_none());
    assert!(parse_go_dep_line("onlyname", "r", "p").is_none());
    let p = parse_go_dep_line("  mod/x vv1.0.0 // c", "r", "p").unwrap();
    assert_eq!(p.name, "mod/x");
    assert_eq!(p.version, "1.0.0");
}

#[test]
fn clean_version_strips_operators() {
    assert_eq!(clean_version("^1.2.3"), "1.2.3");
    assert_eq!(clean_version(">= 2.0, < 3"), "2.0,");
    assert_eq!(clean_version("~ 4.1.0 || 5"), "4.1.0");
    assert_eq!(clean_version("^"), "");
}

#[test]
fn npm_read_prefers_lock_versions() {
    let deps = vec![("axios".to_string(), "^1.5.0".to_string()), ("left-pad".to_string(), "*".to_string()), ("x".to_string(), "^".to_string())];
    let lock = vec![("axios".to_string(), "1.5.1".to_string())];
    let pkgs = npm_read("web", "/r/web", &deps, &lock);
    assert_eq!(pkgs.len(), 2);
    assert_eq!(pkgs[0].version, "1.5.1");
    assert_eq!(pkgs[1].name, "left-pad");
    assert_eq!(pkgs[1].version, "*");
    assert_eq!(pkgs[0].ecosystem, "npm");
}

#[test]
fn cargo_read_uses_spec_forms() {
    let deps = vec![
        ("serde".to_string(), DepSpec::Text("^1.0".to_string())),
        ("clap".to_string(), DepSpec::Table(Some("4.4.0".to_string()))),
        ("local".to_string(), DepSpec::Table(None)),
        ("weird".to_string(), DepSpec::Other),
        ("rand".to_string(), DepSpec::Text("0.8".to_string())),
    ];
    let lock = vec![("rand".to_string(), "0.8.5".to_string()), ("rand".to_string(), "0.7.3".to_string())];
    let pkgs = cargo_read("svc", "/r/svc", &deps, &lock);
    let got: Vec<(&str, &str)> = pkgs.iter().map(|p| (p.name.as_str(), p.version.as_str())).collect();
    assert_eq!(got, vec![("serde", "1.0"), ("clap", "4.4.0"), ("rand", "0.8.5")]);
}

#[test]
fn pip_read_combines_both_manifests() {
    let pkgs = pip_read(
        "py",
        "/r/py",
        Some("# comment\nRequests==2.28.0\n-e .\nflask>=2.0,<3\n"),
        &["My-Lib==1.0".to_string(), "nover".to_string()],
    );
    let got: Vec<(&str, &str)> = pkgs.iter().map(|p| (p.name.as_str(), p.version.as_str())).collect();
    assert_eq!(got, vec![("requests", "2.28.0"), ("flask", "2.0"), ("my_lib", "1.0")]);
    assert_eq!(normalize_pip_name("Foo-Bar"), "foo_bar");
    assert_eq!(split_requirement("pkg==1.2"), Some(("pkg".to_string(), "1.2".to_string())));
    assert_eq!(split_requirement("pkg[extra]==1.2"), None);
}

#[test]
fn repo_names_and_skips() {
    assert_eq!(dir_name(Some("app")), "app");
    assert_eq!(dir_name(None), "unknown");
    assert!(is_hidden_or_ignored(Some(".git")));
    assert!(is_hidden_or_ignored(Some("node_modules")));
    assert!(!is_hidden_or_ignored(Some("service")));
    assert!(!is_hidden_or_ignored(None));
    assert_eq!(repo_manifest_files().len(), 5);
}

#[test]
fn repos_sorted_by_name() {
    let repos = vec![
        Repo { name: "zeta".into(), path: "/z".into() },
        Repo { name: "alpha".into(), path: "/a".into() },
        Repo { name: "Beta".into(), path: "/b".into() },
        Repo { name: "alp".into(), path: "/ap".into() },
    ];
    let sorted = sort_repos(repos);
    let names: Vec<&str> = sorted.iter().map(|r| r.name.as_str()).collect();
    assert_eq!(names, vec!["Beta", "alp", "alpha", "zeta"]);
}

#[test]
fn repos_of_one_name_keep_their_order() {
    let repos = vec![
        Repo { name: "unknown".into(), path: "/2".into() },
        Repo { name: "app".into(), path: "/1".into() },
        Repo { name: "unknown".into(), path: "/0".into() },
    ];
    let sorted = sort_repos(repos);
    let paths: Vec<&str> = sorted.iter().map(|r| r.path.as_str()).collect();
    assert_eq!(paths, vec!["/1", "/2", "/0"]);
}

#[test]
fn matcher_finds_builtin_axios_problem() {
    let problems = all_problems();
    let pkgs = vec![
        InstalledPackage {
            repo_name: "web".into(),
            repo_path: "/r/web".into(),
            ecosystem: "npm".into(),
            name: "axios".into(),
            version: "1.5.0".into(),
        },
        InstalledPackage {
            repo_name: "web".into(),
            repo_path: "/r/web".into(),
            ecosystem: "npm".into(),
            name: "axios".into(),
            version: "1.6.0".into(),
        },
    ];
    let findings = match_problems(&pkgs, &problems);
    assert_eq!(findings.len(), 1);
    assert_eq!(findings[0].problem.id, "npm-axios-csrf-ssrf-CVE-2023-45857");
    assert_eq!(findings[0].installed_version, "1.5.0");
}

#[test]
fn read_all_orders_ecosystems() {
    let repo = Repo { name: "mono".into(), path: "/r/mono".into() };
    let m = RepoManifests {
        npm_deps: vec![("axios".to_string(), "^1.5.0".to_string())],
        npm_lock: vec![],
        requirements_txt: Some("flask==2.3.0\n".to_string()),
        pyproject_deps: vec![],
        go_mod: Some("require golang.org/x/net v0.10.0\n".to_string()),
        cargo_deps: vec![("serde".to_string(), DepSpec::Text("1.0".to_string()))],
        cargo_lock: vec![],
    };
    let pkgs = read_all(&repo, &m);
    let got: Vec<(&str, &str)> = pkgs.iter().map(|p| (p.ecosystem.as_str(), p.name.as_str())).collect();
    assert_eq!(got, vec![("npm", "axios"), ("pip", "flask"), ("go", "golang.org/x/net"), ("cargo", "serde")]);
    assert!(pkgs.iter().all(|p| p.repo_name == "mono" && p.repo_path == "/r/mono"));
}

#[test]
fn npm_lock_versions_from_packages() {
    let text = r#"{"lockfileVersion":3,"packages":{"":{"name":"app"},"node_modules/axios":{"version":"0.27.2"},"node_modules/@types/node":{"version":"20.1.0"},"node_modules/nover":{}}}"#;
    let v = npm_lock_versions(text);
    assert!(v.contains(&("axios".to_string(), "0.27.2".to_string())));
    assert!(v.contains(&("@types/node".to_string(), "20.1.0".to_string())));
    assert_eq!(v.len(), 2);
    assert!(npm_lock_versions("not json").is_empty());
    assert!(npm_lock_versions(r#"{"packages":[]}"#).is_empty());
}

#[test]
fn cargo_lock_versions_in_order() {
    let text = "version = 3\n\n[[package]]\nname = \"serde\"\nversion = \"1.0.180\"\n\n[[package]]\nname = \"nover\"\n\n[[package]]\nname = \"regex\"\nversion = \"1.9.0\"\n";
    assert_eq!(
        cargo_lock_versions(text),
        vec![("serde".to_string(), "1.0.180".to_string()), ("regex".to_string(), "1.9.0".to_string())]
    );
    assert!(cargo_lock_versions("[[[").is_empty());
}

#[test]
fn pyproject_dependencies_read() {
    let text = "[project]\nname = \"x\"\ndependencies = [\n  \"requests>=2.28.0\",\n  3,\n  \"Flask==2.0.1\",\n]\n";
    assert_eq!(pyproject_dependencies(text), vec!["requests>=2.28.0".to_string(), "Flask==2.0.1".to_string()]);
    let pkgs = read_pyproject("web", "/r/web", text);
    assert_eq!(pkgs.len(), 2);
    assert_eq!(pkgs[0].name, "requests");
    assert_eq!(pkgs[0].version, "2.28.0");
    assert_eq!(pkgs[1].name, "flask");
    assert_eq!(pkgs[1].ecosystem, "pip");
    assert!(pyproject_dependencies("[tool]\nx = 1\n").is_empty());
    assert!(read_pyproject("web", "/r/web", "not = [toml").is_empty());
}

#[test]
fn package_json_dependencies_sections() {
    let text = r#"{"name":"web","dependencies":{"lodash":"^4.17.15","axios":"0.27.2"},"devDependencies":{"jest":"~29.0.0"}}"#;
    let deps = package_json_dependencies(text).unwrap();
    assert_eq!(deps.len(), 3);
    assert!(deps[..2].contains(&("lodash".to_string(), "^4.17.15".to_string())));
    assert!(deps[..2].contains(&("axios".to_string(), "0.27.2".to_string())));
    assert_eq!(deps[2], ("jest".to_string(), "~29.0.0".to_string()));
    assert_eq!(package_json_dependencies(r#"{"name":"x","dependencies":null}"#), Some(vec![]));
    assert_eq!(package_json_dependencies(r#"{"dependencies":{"a":1}}"#), None);
    assert_eq!(package_json_dependencies(r#"{"dependencies":[]}"#), None);
    assert_eq!(package_json_dependencies("not json"), None);
}

#[test]
fn cargo_toml_dependencies_sections() {
    let text = "[package]\nname = \"x\"\n\n[dependencies]\nserde = \"1.0\"\ntokio = { version = \"1.28\", features = [\"full\"] }\nlocal = { path = \"../l\" }\nodd = 3\n\n[dev-dependencies]\ntempfile = \"3.8.0\"\n";
    let deps = cargo_toml_dependencies(text).unwrap();
    let names: Vec<&str> = deps.iter().map(|d| d.0.as_str()).collect();
    assert_eq!(names.len(), 5);
    assert_eq!(names[4], "tempfile");
    for (name, spec) in &deps {
        match name.as_str() {
            "serde" => assert!(matches!(spec, DepSpec::Text(s) if s == "1.0")),
            "tokio" => assert!(matches!(spec, DepSpec::Table(Some(v)) if v == "1.28")),
            "local" => assert!(matches!(spec, DepSpec::Table(None))),
            "odd" => assert!(matches!(spec, DepSpec::Other)),
            "tempfile" => assert!(matches!(spec, DepSpec::Text(s) if s == "3.8.0")),
            _ => panic!("unexpected {name}"),
        }
    }
    assert!(cargo_toml_dependencies("[package]\nname = \"x\"\n").unwrap().is_empty());
    assert!(cargo_toml_dependencies("dependencies = 3\n").is_none());
    assert!(cargo_toml_dependencies("[[[").is_none());
}
