use vstd::prelude::*;

use crate::problems::schema::{Confidence, Problem, ProblemKind, SourcePattern, SourcePatternSet};
use crate::text::owned;

verus! {

/// Whether `r` is this problem's record, field by field.
pub open spec fn is_problem(r: Problem) -> bool {
    &&& r.id@ == "npm-axios-csrf-ssrf-CVE-2023-45857"@
    &&& r.title@ == "Axios CSRF token leak via cross-origin redirect (SSRF-adjacent)"@
    &&& r.severity@ == "high"@
    &&& r.ecosystem@ == "npm"@
    &&& r.package@ == "axios"@
    &&& r.affected_range@ == ">=0.8.1 <1.6.0"@
    &&& r.fixed_in matches Some(f) && f@ == "1.6.0"@
    &&& r.references@.len() == 2
    &&& r.references@[0]@ == "https://github.com/advisories/GHSA-wf5p-g6vw-rhxx"@
    &&& r.references@[1]@ == "https://nvd.nist.gov/vuln/detail/CVE-2023-45857"@
    &&& r.kind == ProblemKind::Cve
    &&& r.source_patterns matches Some(sp) && {
        &&& sp.languages@.len() == 2
        &&& sp.languages@[0]@ == "js"@
        &&& sp.languages@[1]@ == "ts"@
        &&& sp.patterns@.len() == 3
        &&& sp.patterns@[0].description@ == "axios request with user-controlled URL variable"@
        &&& sp.patterns@[0].regex@ == r"axios\.(get|post|put|delete|patch|request)\s*\(\s*(req\.|res\.|params\.|query\.|body\.|user)"@
        &&& sp.patterns@[0].confidence == Confidence::Likely
        &&& sp.patterns@[0].remediation@ == "Upgrade axios to >=1.6.0. Validate and allowlist URLs before passing to axios."@
        &&& sp.patterns@[1].description@ == "axios.create with withCredentials: true"@
        &&& sp.patterns@[1].regex@ == r"axios\.create\s*\([^)]*withCredentials\s*:\s*true"@
        &&& sp.patterns@[1].confidence == Confidence::Definite
        &&& sp.patterns@[1].remediation@ == "Upgrade axios to >=1.6.0. Avoid withCredentials:true for requests that follow redirects to external origins."@
        &&& sp.patterns@[2].description@ == "axios instance created (any — review manually)"@
        &&& sp.patterns@[2].regex@ == r"axios\.create\s*\("@
        &&& sp.patterns@[2].confidence == Confidence::Possible
        &&& sp.patterns@[2].remediation@ == "Upgrade axios to >=1.6.0 and audit axios.create() instances for withCredentials usage."@
    }
}

/// The axios problem: the CSRF token leaks on a cross-origin redirect.
pub fn problem() -> (r: Problem)
    ensures
        is_problem(r),
{
    let patterns = vec![
            SourcePattern {
                description: owned("axios request with user-controlled URL variable"),
                regex: owned(r"axios\.(get|post|put|delete|patch|request)\s*\(\s*(req\.|res\.|params\.|query\.|body\.|user)"),
                confidence: Confidence::Likely,
                remediation: owned("Upgrade axios to >=1.6.0. Validate and allowlist URLs before passing to axios."),
            },
            SourcePattern {
                description: owned("axios.create with withCredentials: true"),
                regex: owned(r"axios\.create\s*\([^)]*withCredentials\s*:\s*true"),
                confidence: Confidence::Definite,
                remediation: owned("Upgrade axios to >=1.6.0. Avoid withCredentials:true for requests that follow redirects to external origins."),
            },
            SourcePattern {
                description: owned("axios instance created (any — review manually)"),
                regex: owned(r"axios\.create\s*\("),
                confidence: Confidence::Possible,
                remediation: owned("Upgrade axios to >=1.6.0 and audit axios.create() instances for withCredentials usage."),
            },
        ];
    Problem {
        id: owned("npm-axios-csrf-ssrf-CVE-2023-45857"),
        title: owned("Axios CSRF token leak via cross-origin redirect (SSRF-adjacent)"),
        severity: owned("high"),
        ecosystem: owned("npm"),
        package: owned("axios"),
        affected_range: owned(">=0.8.1 <1.6.0"),
        fixed_in: Some(owned("1.6.0")),
        references: vec![owned("https://github.com/advisories/GHSA-wf5p-g6vw-rhxx"), owned("https://nvd.nist.gov/vuln/detail/CVE-2023-45857")],
        kind: ProblemKind::Cve,
        source_patterns: Some(SourcePatternSet { languages: vec![owned("js"), owned("ts")], patterns }),
    }
}

} // verus!
