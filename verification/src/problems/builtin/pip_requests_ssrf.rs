use vstd::prelude::*;

use crate::problems::schema::{Confidence, Problem, ProblemKind, SourcePattern, SourcePatternSet};
use crate::text::owned;

verus! {

/// Whether `r` is this problem's record, field by field.
pub open spec fn is_problem(r: Problem) -> bool {
    &&& r.id@ == "pip-requests-redirect-credential-leak-CVE-2023-32681"@
    &&& r.title@ == "Requests forwards Authorization header across redirects to different hosts"@
    &&& r.severity@ == "medium"@
    &&& r.ecosystem@ == "pip"@
    &&& r.package@ == "requests"@
    &&& r.affected_range@ == ">=2.1.0 <2.31.0"@
    &&& r.fixed_in matches Some(f) && f@ == "2.31.0"@
    &&& r.references@.len() == 2
    &&& r.references@[0]@ == "https://nvd.nist.gov/vuln/detail/CVE-2023-32681"@
    &&& r.references@[1]@ == "https://github.com/psf/requests/security/advisories/GHSA-j8r2-6x86-q33q"@
    &&& r.kind == ProblemKind::Cve
    &&& r.source_patterns matches Some(sp) && {
        &&& sp.languages@.len() == 1
        &&& sp.languages@[0]@ == "py"@
        &&& sp.patterns@.len() == 2
        &&& sp.patterns@[0].description@ == "requests call with Authorization header"@
        &&& sp.patterns@[0].regex@ == r#"requests\.(get|post|put|delete|patch|request|Session)\s*\([^)]*["\']Authorization["\']"#@
        &&& sp.patterns@[0].confidence == Confidence::Likely
        &&& sp.patterns@[0].remediation@ == "Upgrade requests to >=2.31.0."@
        &&& sp.patterns@[1].description@ == "Session with auth set"@
        &&& sp.patterns@[1].regex@ == r"session\.auth\s*="@
        &&& sp.patterns@[1].confidence == Confidence::Possible
        &&& sp.patterns@[1].remediation@ == "Upgrade requests to >=2.31.0. Use allow_redirects=False for sensitive authenticated calls."@
    }
}

/// The requests problem: the Authorization header is forwarded across redirects.
pub fn problem() -> (r: Problem)
    ensures
        is_problem(r),
{
    let patterns = vec![
            SourcePattern {
                description: owned("requests call with Authorization header"),
                regex: owned(r#"requests\.(get|post|put|delete|patch|request|Session)\s*\([^)]*["\']Authorization["\']"#),
                confidence: Confidence::Likely,
                remediation: owned("Upgrade requests to >=2.31.0."),
            },
            SourcePattern {
                description: owned("Session with auth set"),
                regex: owned(r"session\.auth\s*="),
                confidence: Confidence::Possible,
                remediation: owned("Upgrade requests to >=2.31.0. Use allow_redirects=False for sensitive authenticated calls."),
            },
        ];
    Problem {
        id: owned("pip-requests-redirect-credential-leak-CVE-2023-32681"),
        title: owned("Requests forwards Authorization header across redirects to different hosts"),
        severity: owned("medium"),
        ecosystem: owned("pip"),
        package: owned("requests"),
        affected_range: owned(">=2.1.0 <2.31.0"),
        fixed_in: Some(owned("2.31.0")),
        references: vec![owned("https://nvd.nist.gov/vuln/detail/CVE-2023-32681"), owned("https://github.com/psf/requests/security/advisories/GHSA-j8r2-6x86-q33q")],
        kind: ProblemKind::Cve,
        source_patterns: Some(SourcePatternSet { languages: vec![owned("py")], patterns }),
    }
}

} // verus!
