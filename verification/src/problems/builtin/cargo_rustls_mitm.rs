use vstd::prelude::*;

use crate::problems::schema::{Confidence, Problem, ProblemKind, SourcePattern, SourcePatternSet};
use crate::text::owned;

verus! {

/// Whether `r` is this problem's record, field by field.
pub open spec fn is_problem(r: Problem) -> bool {
    &&& r.id@ == "cargo-rustls-MitM-RUSTSEC-2024-0336"@
    &&& r.title@ == "rustls accepts certificate with invalid revocation status — MitM possible"@
    &&& r.severity@ == "high"@
    &&& r.ecosystem@ == "cargo"@
    &&& r.package@ == "rustls"@
    &&& r.affected_range@ == ">=0.21.0 <0.21.11,>=0.22.0 <0.22.4,>=0.23.0 <0.23.5"@
    &&& r.fixed_in matches Some(f) && f@ == "0.23.5"@
    &&& r.references@.len() == 1
    &&& r.references@[0]@ == "https://rustsec.org/advisories/RUSTSEC-2024-0336.html"@
    &&& r.kind == ProblemKind::Cve
    &&& r.source_patterns matches Some(sp) && {
        &&& sp.languages@.len() == 1
        &&& sp.languages@[0]@ == "rs"@
        &&& sp.patterns@.len() == 1
        &&& sp.patterns@[0].description@ == "ClientConfig with CRL (revocation) configured"@
        &&& sp.patterns@[0].regex@ == r"ClientConfig::builder|with_root_certificates|with_crl"@
        &&& sp.patterns@[0].confidence == Confidence::Possible
        &&& sp.patterns@[0].remediation@ == "Upgrade rustls to >=0.23.5. If using CRL-based revocation, this is a definite risk."@
    }
}

/// The rustls problem: a certificate with an invalid revocation status is accepted.
pub fn problem() -> (r: Problem)
    ensures
        is_problem(r),
{
    let patterns = vec![
            SourcePattern {
                description: owned("ClientConfig with CRL (revocation) configured"),
                regex: owned(r"ClientConfig::builder|with_root_certificates|with_crl"),
                confidence: Confidence::Possible,
                remediation: owned("Upgrade rustls to >=0.23.5. If using CRL-based revocation, this is a definite risk."),
            },
        ];
    Problem {
        id: owned("cargo-rustls-MitM-RUSTSEC-2024-0336"),
        title: owned("rustls accepts certificate with invalid revocation status — MitM possible"),
        severity: owned("high"),
        ecosystem: owned("cargo"),
        package: owned("rustls"),
        affected_range: owned(">=0.21.0 <0.21.11,>=0.22.0 <0.22.4,>=0.23.0 <0.23.5"),
        fixed_in: Some(owned("0.23.5")),
        references: vec![owned("https://rustsec.org/advisories/RUSTSEC-2024-0336.html")],
        kind: ProblemKind::Cve,
        source_patterns: Some(SourcePatternSet { languages: vec![owned("rs")], patterns }),
    }
}

} // verus!
