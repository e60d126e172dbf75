use dep_doctor::utils::semver_utils::version_matches_range;
use dep_doctor::fetcher::cache::{cache_key, is_fresh};
use dep_doctor::fetcher::converter::{
    extract_fixed_version, extract_range, normalize_ecosystem, range_to_string, to_problems,
};
use dep_doctor::fetcher::osv::{
    Advisory, Affected, Event, Pager, Query, QueryPackage, QueryResult, Range, Reference,
};
use dep_doctor::fetcher::{collect_advisories, dedup_packages, package_query, to_osv_ecosystem};
use dep_doctor::problems::schema::ProblemKind;
use dep_doctor::scanner::manifest::InstalledPackage;

#[test]
fn test_cache_key_sanitizes() {
    assert_eq!(cache_key("npm", "lodash", "4.17.21"), "npm-lodash-4.17.21");
    assert_eq!(cache_key("PyPI", "@scope/pkg", "1.0"), "pypi-_scope_pkg-1.0");
}

#[test]
fn query_batch_returns_empty_for_empty_input() {
    let pager = Pager::new(0);
    assert!(pager.next_queries(&[]).is_none());
    let result = pager.finish();
    assert!(result.is_empty());
}

fn query(name: &str) -> Query {
    Query {
        version: "1.0.0".into(),
        package: QueryPackage { name: name.into(), ecosystem: "npm".into() },
        page_token: None,
    }
}

fn advisory(id: &str) -> Advisory {
    Advisory { id: id.into(), summary: None, severity: vec![], affected: vec![], references: vec![] }
}

#[test]
fn pager_follows_page_tokens_and_merges_pages() {
    let queries = vec![query("a"), query("b")];
    let mut pager = Pager::new(2);
    let first = pager.next_queries(&queries).unwrap();
    assert_eq!(first.len(), 2);
    assert!(first[0].page_token.is_none());
    pager.record_results(vec![
        QueryResult { vulns: vec![advisory("CVE-1")], next_page_token: Some("t1".into()) },
        QueryResult { vulns: vec![advisory("CVE-2")], next_page_token: None },
    ]);
    let second = pager.next_queries(&queries).unwrap();
    assert_eq!(second.len(), 1);
    assert_eq!(second[0].package.name, "a");
    assert_eq!(second[0].page_token.as_deref(), Some("t1"));
    pager.record_results(vec![QueryResult { vulns: vec![advisory("CVE-3")], next_page_token: None }]);
    assert!(pager.next_queries(&queries).is_none());
    let out = pager.finish();
    assert_eq!(out.len(), 2);
    let ids: Vec<&str> = out[0].vulns.iter().map(|a| a.id.as_str()).collect();
    assert_eq!(ids, vec!["CVE-1", "CVE-3"]);
    assert_eq!(out[1].vulns.len(), 1);
    assert!(out[0].next_page_token.is_none());
}

#[test]
fn pager_stops_after_max_pages() {
    let queries = vec![query("a")];
    let mut pager = Pager::new(1);
    let mut rounds = 0;
    while let Some(_batch) = pager.next_queries(&queries) {
        rounds += 1;
        pager.record_results(vec![QueryResult { vulns: vec![], next_page_token: Some("again".into()) }]);
    }
    assert_eq!(rounds, 20);
    assert_eq!(pager.unfinished(), 1);
}

#[test]
fn pager_stops_on_failure() {
    let queries = vec![query("a")];
    let mut pager = Pager::new(1);
    assert!(pager.next_queries(&queries).is_some());
    pager.record_failure();
    assert!(pager.next_queries(&queries).is_none());
    assert_eq!(pager.finish().len(), 1);
}

fn semver_range(events: Vec<(Option<&str>, Option<&str>)>) -> Range {
    Range {
        range_type: "SEMVER".into(),
        events: events
            .into_iter()
            .map(|(i, f)| Event { introduced: i.map(String::from), fixed: f.map(String::from) })
            .collect(),
    }
}

#[test]
fn range_to_string_forms() {
    let r = semver_range(vec![(Some("0.8.1"), None), (None, Some("1.6.0"))]);
    assert_eq!(range_to_string(&r).as_deref(), Some(">=0.8.1 <1.6.0"));
    let r = semver_range(vec![(Some("2.0.0"), None)]);
    assert_eq!(range_to_string(&r).as_deref(), Some(">=2.0.0"));
    let r = semver_range(vec![(None, Some("1.0.0"))]);
    assert_eq!(range_to_string(&r), None);
}

#[test]
fn extract_range_prefers_semver_then_versions() {
    let mut adv = advisory("GHSA-1");
    adv.affected = vec![Affected {
        ranges: vec![
            Range { range_type: "GIT".into(), events: vec![] },
            semver_range(vec![(Some("1.0.0"), Some("1.2.0"))]),
            semver_range(vec![(Some("2.0.0"), Some("2.1.0"))]),
        ],
        versions: vec!["1.0.0".into()],
    }];
    assert_eq!(extract_range(&adv).as_deref(), Some(">=1.0.0 <1.2.0,>=2.0.0 <2.1.0"));
    assert_eq!(extract_fixed_version(&adv).as_deref(), Some("1.2.0"));

    let mut adv2 = advisory("GHSA-2");
    adv2.affected = vec![Affected { ranges: vec![], versions: vec!["1.0.0".into(), "1.0.1".into()] }];
    assert_eq!(extract_range(&adv2).as_deref(), Some("=1.0.0,=1.0.1"));
    assert_eq!(extract_fixed_version(&adv2), None);

    assert_eq!(extract_range(&advisory("GHSA-3")), None);
}

#[test]
fn to_problems_skips_advisories_without_ranges() {
    let mut good = advisory("GHSA-good");
    good.summary = Some("Bad thing".into());
    good.affected = vec![Affected { ranges: vec![semver_range(vec![(Some("0"), Some("1.0.0"))])], versions: vec![] }];
    good.references = vec![Reference { url: Some("https://x".into()) }, Reference { url: None }];
    let bad = advisory("GHSA-bad");
    let problems = to_problems(&[bad, good], &["high".to_string(), "low".to_string()], "PyPI", "requests");
    assert_eq!(problems.len(), 1);
    let p = &problems[0];
    assert_eq!(p.id, "GHSA-good");
    assert_eq!(p.title, "Bad thing");
    assert_eq!(p.severity, "low");
    assert_eq!(p.ecosystem, "pip");
    assert_eq!(p.package, "requests");
    assert_eq!(p.affected_range, ">=0 <1.0.0");
    assert!(version_matches_range("0.5.0", &p.affected_range));
    assert!(!version_matches_range("1.0.0", &p.affected_range));
    assert!(!version_matches_range("2.3.0", &p.affected_range));
    assert_eq!(p.fixed_in.as_deref(), Some("1.0.0"));
    assert_eq!(p.references, vec!["https://x".to_string()]);
    assert!(p.source_patterns.is_none());
    assert_eq!(p.kind, ProblemKind::Cve);
}

#[test]
fn ecosystem_name_mappings() {
    assert_eq!(normalize_ecosystem("crates.io"), "cargo");
    assert_eq!(normalize_ecosystem("Go"), "go");
    assert_eq!(normalize_ecosystem("Maven"), "Maven");
    assert_eq!(to_osv_ecosystem("pip"), "PyPI");
    assert_eq!(to_osv_ecosystem("cargo"), "crates.io");
    assert_eq!(to_osv_ecosystem("other"), "other");
    let q = package_query("go", "golang.org/x/net", "0.1.0");
    assert_eq!(q.package.ecosystem, "Go");
    assert_eq!(q.version, "0.1.0");
    assert!(q.page_token.is_none());
}

fn pkg(eco: &str, name: &str, version: &str) -> InstalledPackage {
    InstalledPackage {
        repo_name: "r".into(),
        repo_path: "/r".into(),
        ecosystem: eco.into(),
        name: name.into(),
        version: version.into(),
    }
}

#[test]
fn dedup_packages_keeps_first_of_each_key() {
    let pkgs = vec![pkg("NPM", "axios", "1.0.0"), pkg("npm", "axios", "1.0.0"), pkg("npm", "axios", "1.1.0")];
    let keys = dedup_packages(&pkgs);
    assert_eq!(keys.len(), 2);
    assert_eq!(keys[0], ("npm".to_string(), "axios".to_string(), "1.0.0".to_string()));
    assert_eq!(keys[1].2, "1.1.0");
}

#[test]
fn collect_advisories_flattens_in_order() {
    let results = vec![
        QueryResult { vulns: vec![advisory("A"), advisory("B")], next_page_token: None },
        QueryResult { vulns: vec![], next_page_token: None },
        QueryResult { vulns: vec![advisory("C")], next_page_token: None },
    ];
    let all = collect_advisories(results);
    let ids: Vec<&str> = all.iter().map(|a| a.id.as_str()).collect();
    assert_eq!(ids, vec!["A", "B", "C"]);
}

#[test]
fn cache_freshness_is_one_hour() {
    assert!(is_fresh(Some(0)));
    assert!(is_fresh(Some(3599)));
    assert!(!is_fresh(Some(3600)));
    assert!(!is_fresh(None));
}
