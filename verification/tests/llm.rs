use dep_doctor::llm::cache::{cache_file_name, sanitize_id};
use dep_doctor::llm::client::{backoff, rate_limit_wait};
use dep_doctor::llm::prompt::{
    build_messages, ecosystem_languages, extract_json, parse_confidence, select_patterns,
    validate_patterns, PatternsError, RawPattern, SYSTEM_PROMPT,
};
use dep_doctor::llm::quality::{hit_rate_lt, is_low_quality, record, report_order, PatternStats, ProblemPatternStats};
use dep_doctor::problems::schema::{Confidence, Problem, ProblemKind};
use std::time::Duration;

#[test]
fn sanitize_id_handles_special_chars() {
    assert_eq!(sanitize_id("CVE-2023-45857"), "CVE-2023-45857");
    assert_eq!(sanitize_id("npm-axios-csrf-ssrf-CVE-2023-45857"), "npm-axios-csrf-ssrf-CVE-2023-45857");
    assert_eq!(sanitize_id("GHSA/2024:foo bar"), "GHSA_2024_foo_bar");
}

#[test]
fn cache_file_names() {
    assert_eq!(cache_file_name("GHSA/x"), "GHSA_x.json");
}

#[test]
fn backoff_increases_exponentially() {
    assert_eq!(Duration::from_secs(backoff(0)), Duration::from_secs(2));
    assert_eq!(Duration::from_secs(backoff(1)), Duration::from_secs(4));
    assert_eq!(Duration::from_secs(backoff(2)), Duration::from_secs(8));
}

#[test]
fn backoff_saturates() {
    assert_eq!(backoff(31), 2 * (1u64 << 31));
    assert_eq!(backoff(32), 2 * u64::from(u32::MAX));
    assert_eq!(backoff(100), 2 * u64::from(u32::MAX));
}

#[test]
fn rate_limit_waits_then_gives_up() {
    assert_eq!(rate_limit_wait(0, None), Some(2));
    assert_eq!(rate_limit_wait(2, None), Some(8));
    assert_eq!(rate_limit_wait(1, Some(30)), Some(30));
    assert_eq!(rate_limit_wait(3, Some(30)), None);
}

fn sample_problem() -> Problem {
    Problem {
        id: "CVE-2023-45857".into(),
        title: "Axios CSRF token leak".into(),
        severity: "high".into(),
        ecosystem: "npm".into(),
        package: "axios".into(),
        affected_range: ">=0.8.1,<1.6.0".into(),
        fixed_in: Some("1.6.0".into()),
        references: vec!["https://example.com/advisory".into()],
        source_patterns: None,
        kind: ProblemKind::Cve,
    }
}

#[test]
fn build_messages_produces_system_and_user() {
    let msgs = build_messages(&sample_problem());
    assert_eq!(msgs.len(), 2);
    assert_eq!(msgs[0].role, "system");
    assert_eq!(msgs[1].role, "user");
    assert!(msgs[1].content.contains("CVE-2023-45857"));
    assert!(msgs[1].content.contains("axios"));
}

#[test]
fn build_messages_exact_user_text() {
    let mut p = sample_problem();
    p.fixed_in = None;
    p.references = vec![];
    let msgs = build_messages(&p);
    assert_eq!(msgs[0].content, SYSTEM_PROMPT);
    assert_eq!(
        msgs[1].content,
        "Generate deep-scan regex patterns for this vulnerability:\n\nID: CVE-2023-45857\nTitle: Axios CSRF token leak\nSeverity: high\nEcosystem: npm\nPackage: axios\nAffected range: >=0.8.1,<1.6.0\nFixed in: unknown\nReferences:\nNone"
    );
    let mut q = sample_problem();
    q.references = vec!["a".into(), "b".into()];
    assert!(build_messages(&q)[1].content.ends_with("Fixed in: 1.6.0\nReferences:\na\nb"));
}

#[test]
fn extract_json_bare_object() {
    let input = "  some preamble {\"a\":1} trailing  ";
    assert_eq!(extract_json(input).unwrap(), "{\"a\":1}");
}

#[test]
fn extract_json_fenced_and_missing() {
    assert_eq!(extract_json("```json\n{\"p\":[]}\n```").as_deref(), Some("{\"p\":[]}"));
    assert_eq!(extract_json("no json here"), None);
    assert_eq!(extract_json("} then {"), None);
    assert_eq!(extract_json("```{\"a\":1}```").as_deref(), Some("{\"a\":1}"));
    assert_eq!(extract_json("text ```").as_deref(), None);
}

#[test]
fn ecosystem_languages_defaults() {
    assert_eq!(ecosystem_languages("npm"), vec!["js", "ts"]);
    assert_eq!(ecosystem_languages("pip"), vec!["py"]);
    assert_eq!(ecosystem_languages("go"), vec!["go"]);
    assert_eq!(ecosystem_languages("cargo"), vec!["rs"]);
    assert_eq!(ecosystem_languages("unknown").len(), 3); // fallback
}

#[test]
fn parse_confidence_labels() {
    assert_eq!(parse_confidence("Definite"), Confidence::Definite);
    assert_eq!(parse_confidence("likely"), Confidence::Likely);
    assert_eq!(parse_confidence("maybe"), Confidence::Possible);
}

fn raw(description: &str, regex: &str, confidence: &str) -> RawPattern {
    RawPattern {
        description: description.into(),
        regex: regex.into(),
        confidence: confidence.into(),
        remediation: "fix".into(),
    }
}

#[test]
fn validate_patterns_keeps_compiling_regexes() {
    let set = validate_patterns(&[raw("bad", "(?<=broken)", "likely"), raw("good", "require\\(.axios", "possible")], "npm")
        .unwrap();
    assert_eq!(set.languages, vec!["js", "ts"]);
    assert_eq!(set.patterns.len(), 1);
    assert_eq!(set.patterns[0].description, "good");
    assert_eq!(set.patterns[0].confidence, Confidence::Possible);
    assert_eq!(validate_patterns(&[], "npm").err(), Some(PatternsError::NoPatterns));
    assert_eq!(validate_patterns(&[raw("d", "(?<=x)", "likely")], "npm").err(), Some(PatternsError::AllRegexBroken));
}

#[test]
fn record_tracks_hits_and_misses() {
    let mut stats = PatternStats::default();
    record(&mut stats, "CVE-2024-001", true);
    record(&mut stats, "CVE-2024-001", false);
    record(&mut stats, "CVE-2024-001", true);

    let s = stats.get("CVE-2024-001").unwrap();
    assert_eq!(s.runs_with_hits, 2);
    assert_eq!(s.runs_with_misses, 1);
    assert_eq!(s.total_runs(), 3);
}

#[test]
fn record_keeps_other_problems() {
    let mut stats = PatternStats::default();
    record(&mut stats, "A", true);
    record(&mut stats, "B", false);
    assert_eq!(stats.problems.len(), 2);
    assert_eq!(stats.get("A"), Some(ProblemPatternStats { runs_with_hits: 1, runs_with_misses: 0 }));
    assert_eq!(stats.get("B"), Some(ProblemPatternStats { runs_with_hits: 0, runs_with_misses: 1 }));
    assert_eq!(stats.get("C"), None);
    assert_eq!(ProblemPatternStats::default().total_runs(), 0);
}

#[test]
fn select_patterns_uses_given_flags() {
    let pats = [raw("a", "x", "definite"), raw("b", "y", "LIKELY"), raw("c", "z", "?")];
    let set = select_patterns(&pats, &[false, true, true], "go").unwrap();
    assert_eq!(set.languages, vec!["go"]);
    assert_eq!(set.patterns.len(), 2);
    assert_eq!(set.patterns[0].description, "b");
    assert_eq!(set.patterns[0].confidence, Confidence::Likely);
    assert_eq!(set.patterns[1].confidence, Confidence::Possible);
    assert_eq!(select_patterns(&pats, &[false, false, false], "go").err(), Some(PatternsError::AllRegexBroken));
}

fn pstats(h: u32, m: u32) -> ProblemPatternStats {
    ProblemPatternStats { runs_with_hits: h, runs_with_misses: m }
}

#[test]
fn quality_report_order_and_flags() {
    assert!(hit_rate_lt(&pstats(1, 3), &pstats(1, 1)));
    assert!(!hit_rate_lt(&pstats(2, 2), &pstats(1, 1)));
    assert!(hit_rate_lt(&pstats(0, 0), &pstats(1, 9)));
    assert!(!hit_rate_lt(&pstats(0, 5), &pstats(0, 0)));
    assert!(hit_rate_lt(&pstats(u32::MAX - 1, u32::MAX), &pstats(u32::MAX, u32::MAX - 1)));
    assert!(is_low_quality(&pstats(0, 3)));
    assert!(!is_low_quality(&pstats(0, 2)));
    assert!(!is_low_quality(&pstats(1, 9)));
    assert!(is_low_quality(&pstats(1, 10)));
    let stats = PatternStats {
        problems: vec![
            ("A".to_string(), pstats(3, 1)),
            ("B".to_string(), pstats(0, 4)),
            ("C".to_string(), pstats(1, 1)),
            ("D".to_string(), pstats(0, 0)),
        ],
    };
    assert_eq!(report_order(&stats), vec![1, 3, 2, 0]);
}
