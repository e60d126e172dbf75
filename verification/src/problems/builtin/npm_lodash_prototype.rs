use vstd::prelude::*;

use crate::problems::schema::{Confidence, Problem, ProblemKind, SourcePattern, SourcePatternSet};
use crate::text::owned;

verus! {

/// Whether `r` is this problem's record, field by field.
pub open spec fn is_problem(r: Problem) -> bool {
    &&& r.id@ == "npm-lodash-prototype-pollution-CVE-2019-10744"@
    &&& r.title@ == "Lodash prototype pollution via defaultsDeep / merge / set"@
    &&& r.severity@ == "critical"@
    &&& r.ecosystem@ == "npm"@
    &&& r.package@ == "lodash"@
    &&& r.affected_range@ == "<4.17.21"@
    &&& r.fixed_in matches Some(f) && f@ == "4.17.21"@
    &&& r.references@.len() == 2
    &&& r.references@[0]@ == "https://nvd.nist.gov/vuln/detail/CVE-2019-10744"@
    &&& r.references@[1]@ == "https://github.com/advisories/GHSA-jf85-cpcp-j695"@
    &&& r.kind == ProblemKind::Cve
    &&& r.source_patterns matches Some(sp) && {
        &&& sp.languages@.len() == 2
        &&& sp.languages@[0]@ == "js"@
        &&& sp.languages@[1]@ == "ts"@
        &&& sp.patterns@.len() == 3
        &&& sp.patterns@[0].description@ == "_.defaultsDeep with external input"@
        &&& sp.patterns@[0].regex@ == r"_\.defaultsDeep\s*\("@
        &&& sp.patterns@[0].confidence == Confidence::Likely
        &&& sp.patterns@[0].remediation@ == "Upgrade lodash to >=4.17.21."@
        &&& sp.patterns@[1].description@ == "_.merge with external input"@
        &&& sp.patterns@[1].regex@ == r"_\.merge\s*\("@
        &&& sp.patterns@[1].confidence == Confidence::Possible
        &&& sp.patterns@[1].remediation@ == "Upgrade lodash to >=4.17.21. Sanitize input objects before merging."@
        &&& sp.patterns@[2].description@ == "_.set with user-controlled path"@
        &&& sp.patterns@[2].regex@ == r"_\.set\s*\([^,]+,\s*(req\.|params\.|query\.|body\.)"@
        &&& sp.patterns@[2].confidence == Confidence::Definite
        &&& sp.patterns@[2].remediation@ == "Upgrade lodash to >=4.17.21. Never use user input as the path argument to _.set."@
    }
}

/// The lodash problem: prototype pollution.
pub fn problem() -> (r: Problem)
    ensures
        is_problem(r),
{
    let patterns = vec![
            SourcePattern {
                description: owned("_.defaultsDeep with external input"),
                regex: owned(r"_\.defaultsDeep\s*\("),
                confidence: Confidence::Likely,
                remediation: owned("Upgrade lodash to >=4.17.21."),
            },
            SourcePattern {
                description: owned("_.merge with external input"),
                regex: owned(r"_\.merge\s*\("),
                confidence: Confidence::Possible,
                remediation: owned("Upgrade lodash to >=4.17.21. Sanitize input objects before merging."),
            },
            SourcePattern {
                description: owned("_.set with user-controlled path"),
                regex: owned(r"_\.set\s*\([^,]+,\s*(req\.|params\.|query\.|body\.)"),
                confidence: Confidence::Definite,
                remediation: owned("Upgrade lodash to >=4.17.21. Never use user input as the path argument to _.set."),
            },
        ];
    Problem {
        id: owned("npm-lodash-prototype-pollution-CVE-2019-10744"),
        title: owned("Lodash prototype pollution via defaultsDeep / merge / set"),
        severity: owned("critical"),
        ecosystem: owned("npm"),
        package: owned("lodash"),
        affected_range: owned("<4.17.21"),
        fixed_in: Some(owned("4.17.21")),
        references: vec![owned("https://nvd.nist.gov/vuln/detail/CVE-2019-10744"), owned("https://github.com/advisories/GHSA-jf85-cpcp-j695")],
        kind: ProblemKind::Cve,
        source_patterns: Some(SourcePatternSet { languages: vec![owned("js"), owned("ts")], patterns }),
    }
}

} // verus!
