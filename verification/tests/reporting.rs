use std::io::Write;
use dep_doctor::cli::args::{EcosystemArg, ProblemsAction, ProblemsArgs, ReporterArg, ScanArgs, SeverityArg};
use dep_doctor::cli::commands::problems::{run, ProblemsReport};
use dep_doctor::cli::commands::scan::{merge_problems, retain_severity};
use dep_doctor::deep_scan::context_extractor::extract_context;
use dep_doctor::deep_scan::file_walker::{has_wanted_extension, is_skipped_entry};
use dep_doctor::deep_scan::pattern_matcher::scan_content;
use dep_doctor::deep_scan::{languages_to_extensions, scan_repo};
use dep_doctor::feed::cache::is_fresh as feed_is_fresh;
use dep_doctor::harvest::packages::popular_names;
use dep_doctor::harvest::runner::{
    dedup_by_id, eq_ignore_case, first_package_name, matched_package_name, select_advisory_texts,
};
use dep_doctor::problems::registry::all_problems;
use dep_doctor::problems::schema::{Confidence, Finding, Problem, ProblemKind, SourceHit, SourcePattern};
use dep_doctor::reporter::console::{group_by_repo, summary_counts};
use dep_doctor::reporter::markdown::{kind_label, render};
use dep_doctor::supply_chain::typosquat::TyposquatWarning;

fn problem(id: &str, severity: &str, kind: ProblemKind) -> Problem {
    Problem {
        id: id.into(),
        title: "T".into(),
        severity: severity.into(),
        ecosystem: "npm".into(),
        package: "pkg".into(),
        affected_range: "<2.0.0".into(),
        fixed_in: Some("2.0.0".into()),
        references: vec!["https://ref".into()],
        source_patterns: None,
        kind,
    }
}

fn finding<'a>(p: &'a Problem) -> Finding<'a> {
    Finding {
        repo_name: "web".into(),
        repo_path: "/r/web".into(),
        package: "pkg".into(),
        installed_version: "1.0.0".into(),
        problem: p,
        source_hits: vec![],
    }
}

#[test]
fn context_lines_are_numbered_and_marked() {
    let lines = ["a", "b", "c", "d", "e"];
    let ctx = extract_context(&lines, 1, 2);
    assert_eq!(ctx, vec!["     1 | a", ">    2 | b", "     3 | c", "     4 | d"]);
    let ctx = extract_context(&lines, 4, 1);
    assert_eq!(ctx, vec!["     4 | d", ">    5 | e"]);
    let long: Vec<String> = (0..12000).map(|i| format!("l{i}")).collect();
    let refs: Vec<&str> = long.iter().map(|s| s.as_str()).collect();
    assert_eq!(extract_context(&refs, 10000, 0), vec!["> 10001 | l10000"]);
}

fn pattern(regex: &str) -> SourcePattern {
    SourcePattern {
        description: "desc".into(),
        regex: regex.into(),
        confidence: Confidence::Likely,
        remediation: "upgrade".into(),
    }
}

#[test]
fn scan_content_reports_matching_lines() {
    let content = "const a = require('axios');\n  axios.create({})  \nother\n";
    let hits = scan_content("src/app.js", content, &[pattern(r"axios\.create"), pattern("(broken")]);
    assert_eq!(hits.len(), 1);
    let h = &hits[0];
    assert_eq!(h.file, "src/app.js");
    assert_eq!(h.line_number, 2);
    assert_eq!(h.line_content, "axios.create({})");
    assert_eq!(h.confidence, "likely");
    assert_eq!(h.context.len(), 3);
    assert_eq!(h.context[1], ">    2 |   axios.create({})  ");
}

#[test]
fn scan_repo_needs_patterns() {
    let mut p = problem("P", "high", ProblemKind::Cve);
    let files = vec![("a.js".to_string(), "axios.get(x)\n".to_string())];
    assert!(scan_repo(&p, &files).is_empty());
    p.source_patterns = Some(dep_doctor::problems::schema::SourcePatternSet {
        languages: vec!["js".into()],
        patterns: vec![pattern(r"axios\.get")],
    });
    assert_eq!(scan_repo(&p, &files).len(), 1);
}

#[test]
fn extensions_and_walk_filters() {
    let exts = languages_to_extensions(&["ts".to_string(), "cobol".to_string(), "js".to_string()]);
    assert_eq!(exts, vec!["ts", "tsx", "js", "mjs", "cjs"]);
    assert!(has_wanted_extension("tsx", &exts));
    assert!(!has_wanted_extension("py", &exts));
    assert!(is_skipped_entry("node_modules"));
    assert!(!is_skipped_entry("src"));
}

#[test]
fn markdown_report_without_findings() {
    assert_eq!(render(&[], &[]), "# dep-doctor Report\n\n\u{2705} No known problems found.\n");
}

#[test]
fn markdown_report_with_findings() {
    let p = problem("CVE-1", "high", ProblemKind::Cve);
    let mut f = finding(&p);
    f.source_hits = vec![SourceHit {
        file: "a.js".into(),
        line_number: 12,
        line_content: "axios.get(x)".into(),
        context: vec![],
        pattern_description: "d".into(),
        confidence: "likely".into(),
        remediation: "upgrade".into(),
    }];
    let w = TyposquatWarning {
        scanned_name: "lodasj".into(),
        ecosystem: "npm".into(),
        similar_to: "lodash".into(),
        edit_distance: 1,
    };
    let md = render(&[f], &[w]);
    assert!(md.starts_with("# dep-doctor Report\n\n| Repo | Kind | Problem | Package | Version | Fix |\n"));
    assert!(md.contains("| web | HIGH | CVE-1 | pkg | 1.0.0 | 2.0.0 |\n"));
    assert!(md.contains("## web \u{2014} CVE-1\n**T**\n\n- **Package**: `pkg` @ `1.0.0`\n- **Kind**: HIGH\n- **Fix**: upgrade to `>=2.0.0`\n- https://ref\n"));
    assert!(md.contains("**`a.js` line 12** [likely]\n```\naxios.get(x)\n```\n> upgrade\n\n"));
    assert!(md.contains("| `lodasj` | npm | `lodash` | 1 |\n"));
}

#[test]
fn kind_labels() {
    let a = problem("A", "critical", ProblemKind::Cve);
    let b = problem("B", "weird", ProblemKind::Cve);
    let c = problem("C", "low", ProblemKind::SupplyChain);
    assert_eq!(kind_label(&finding(&a)), "CRITICAL");
    assert_eq!(kind_label(&finding(&b)), "INFO");
    assert_eq!(kind_label(&finding(&c)), "SUPPLY CHAIN");
}

fn scan_args(deep: bool, generate: bool, no_summary: bool) -> ScanArgs {
    ScanArgs {
        path: ".".into(),
        deep,
        generate_patterns: generate,
        pattern_stats: false,
        ecosystem: None,
        reporter: ReporterArg::Console,
        output: None,
        online: false,
        severity: SeverityArg::Low,
        no_summary,
    }
}

#[test]
fn scan_args_flags() {
    assert!(scan_args(false, true, false).deep_enabled());
    assert!(!scan_args(false, false, false).deep_enabled());
    assert!(scan_args(false, false, false).summary());
    assert!(!scan_args(false, false, true).summary());
    assert_eq!(SeverityArg::Info.rank(), 1);
    assert_eq!(SeverityArg::Critical.rank(), 5);
}

#[test]
fn problems_list_and_show() {
    match run(ProblemsArgs { action: ProblemsAction::List { ecosystem: Some(EcosystemArg::Npm) } }) {
        ProblemsReport::List(ps) => {
            let ids: Vec<&str> = ps.iter().map(|p| p.id.as_str()).collect();
            assert_eq!(ids, vec!["npm-axios-csrf-ssrf-CVE-2023-45857", "npm-lodash-prototype-pollution-CVE-2019-10744"]);
        },
        _ => panic!("expected a list"),
    }
    match run(ProblemsArgs { action: ProblemsAction::List { ecosystem: None } }) {
        ProblemsReport::List(ps) => assert_eq!(ps.len(), 4),
        _ => panic!("expected a list"),
    }
    match run(ProblemsArgs { action: ProblemsAction::Show { id: "cargo-rustls-MitM-RUSTSEC-2024-0336".into() } }) {
        ProblemsReport::Show(p) => assert_eq!(p.package, "rustls"),
        _ => panic!("expected a problem"),
    }
    match run(ProblemsArgs { action: ProblemsAction::Show { id: "nope".into() } }) {
        ProblemsReport::UnknownId(id) => assert_eq!(id, "nope"),
        _ => panic!("expected an unknown id"),
    }
}

#[test]
fn merge_keeps_base_on_conflict() {
    let mut base = all_problems();
    let mut dup = problem("npm-axios-csrf-ssrf-CVE-2023-45857", "low", ProblemKind::Cve);
    dup.title = "other".into();
    let extra = problem("NEW-1", "low", ProblemKind::Cve);
    merge_problems(&mut base, vec![dup, extra]);
    assert_eq!(base.len(), 5);
    assert_ne!(base[0].title, "other");
    assert_eq!(base[4].id, "NEW-1");
}

#[test]
fn severity_filter_keeps_severe_findings() {
    let hi = problem("H", "high", ProblemKind::Cve);
    let lo = problem("L", "low", ProblemKind::Cve);
    let kept = retain_severity(vec![finding(&hi), finding(&lo)], SeverityArg::Medium);
    assert_eq!(kept.len(), 1);
    assert_eq!(kept[0].problem.id, "H");
}

#[test]
fn harvest_name_matching() {
    assert!(eq_ignore_case("Django", "django"));
    assert!(!eq_ignore_case("Django", "djangO2"));
    let filter = vec!["requests".to_string()];
    let json = r#"{"id":"A","affected":[{"package":{"name":"flask"}},{"package":{"name":"Requests"}}]}"#;
    assert_eq!(matched_package_name(json, &filter).as_deref(), Some("Requests"));
    let json = r#"{"id":"A","affected":[{"package":{"name":"flask"}},{},{"package":{"name":"requests"}}]}"#;
    assert_eq!(matched_package_name(json, &filter), None);
    assert_eq!(first_package_name(json).as_deref(), Some("flask"));
    assert_eq!(first_package_name(r#"{"affected":[{},{"package":{"name":"x"}}]}"#).as_deref(), Some("x"));
    assert_eq!(first_package_name("not json"), None);
    assert_eq!(first_package_name(r#"{"id":"B"}"#), None);
    let ps = vec![problem("A", "low", ProblemKind::Cve), problem("B", "low", ProblemKind::Cve), problem("A", "high", ProblemKind::Cve)];
    let d = dedup_by_id(ps);
    assert_eq!(d.len(), 2);
    assert_eq!(d[0].severity, "low");
    assert!(popular_names("npm").contains(&"lodash"));
    assert!(popular_names("maven").is_empty());
}

#[test]
fn feed_freshness_is_one_day() {
    assert!(feed_is_fresh(Some(86399)));
    assert!(!feed_is_fresh(Some(86400)));
    assert!(!feed_is_fresh(None));
}

#[test]
fn console_groups_and_counts() {
    let hi = problem("H", "high", ProblemKind::Cve);
    let sc = problem("S", "critical", ProblemKind::SupplyChain);
    let mut f1 = finding(&hi);
    f1.repo_name = "zeta".into();
    let f2 = finding(&sc);
    let mut f3 = finding(&hi);
    f3.repo_name = "zeta".into();
    f3.source_hits = vec![SourceHit {
        file: "x".into(),
        line_number: 1,
        line_content: "y".into(),
        context: vec![],
        pattern_description: "d".into(),
        confidence: "likely".into(),
        remediation: "r".into(),
    }];
    let findings = vec![f1, f2, f3];
    let groups = group_by_repo(&findings);
    assert_eq!(groups.len(), 2);
    assert_eq!(groups[0].repo_name, "web");
    assert_eq!(groups[0].indices, vec![1]);
    assert_eq!(groups[1].repo_name, "zeta");
    assert_eq!(groups[1].indices, vec![0, 2]);
    let counts = summary_counts(&findings, 4);
    assert_eq!(counts.by_severity, vec![("critical", 1), ("high", 2)]);
    assert_eq!(counts.supply_chain, 1);
    assert_eq!(counts.typosquats, 4);
    assert_eq!(counts.source_hits, 1);
}

#[test]
fn harvest_archive_selection() {
    let mut w = zip::ZipWriter::new(std::io::Cursor::new(Vec::new()));
    let opts = zip::write::SimpleFileOptions::default().compression_method(zip::CompressionMethod::Stored);
    w.start_file("a.json", opts).unwrap();
    w.write_all(br#"{"id":"A","affected":[{"package":{"name":"Lodash"}}]}"#).unwrap();
    w.start_file("b.txt", opts).unwrap();
    w.write_all(br#"{"id":"B","affected":[{"package":{"name":"lodash"}}]}"#).unwrap();
    w.start_file("c.json", opts).unwrap();
    w.write_all(br#"{"id":"C","affected":[{"package":{"name":"axios"}}]}"#).unwrap();
    let bytes = w.finish().unwrap().into_inner();

    let all = select_advisory_texts(&bytes, None).unwrap();
    let names: Vec<&str> = all.iter().map(|p| p.0.as_str()).collect();
    assert_eq!(names, vec!["Lodash", "axios"]);
    let filter = vec!["lodash".to_string()];
    let kept = select_advisory_texts(&bytes, Some(&filter)).unwrap();
    assert_eq!(kept.len(), 1);
    assert_eq!(kept[0].0, "Lodash");
    assert!(kept[0].1.contains("\"id\":\"A\""));
    assert!(select_advisory_texts(b"not a zip", None).is_none());
}
