//! The problem database records and the findings matched against them.

use vstd::prelude::*;

use crate::text::str_eq;

verus! {

/// What kind of problem a record describes.
#[derive(Debug, Clone, Copy, PartialEq, Eq)]
pub enum ProblemKind {
    /// A published vulnerability.
    Cve,
    /// A malicious or hijacked package.
    SupplyChain,
}

/// A known dependency problem (CVE, supply-chain attack).
#[derive(Debug)]
pub struct Problem {
    pub id: String,
    pub title: String,
    /// "critical" | "high" | "medium" | "low" | "info"
    pub severity: String,
    /// "npm" | "pip" | "go" | "cargo"
    pub ecosystem: String,
    pub package: String,
    pub affected_range: String,
    pub fixed_in: Option<String>,
    pub references: Vec<String>,
    pub source_patterns: Option<SourcePatternSet>,
    pub kind: ProblemKind,
}

/// Numeric rank of a severity label (higher = more severe); unknown labels rank as info.
pub open spec fn severity_rank_of(s: Seq<char>) -> u8 {
    if s == "critical"@ {
        5
    } else if s == "high"@ {
        4
    } else if s == "medium"@ {
        3
    } else if s == "low"@ {
        2
    } else {
        1
    }
}

impl Problem {
    /// Numeric rank for severity comparison (higher = more severe).
    pub fn severity_rank(&self) -> (r: u8)
        ensures
            r == severity_rank_of(self.severity@),
            1 <= r <= 5,
    {
        let s = self.severity.as_str();
        if str_eq(s, "critical") {
            5
        } else if str_eq(s, "high") {
            4
        } else if str_eq(s, "medium") {
            3
        } else if str_eq(s, "low") {
            2
        } else {
            1
        }
    }
}

/// Source patterns for the deep scan of one problem.
#[derive(Debug)]
pub struct SourcePatternSet {
    /// Language tags: "js", "ts", "py", "go", "rs".
    pub languages: Vec<String>,
    pub patterns: Vec<SourcePattern>,
}

/// One regex to look for in source lines.
#[derive(Debug)]
pub struct SourcePattern {
    pub description: String,
    pub regex: String,
    pub confidence: Confidence,
    pub remediation: String,
}

/// How sure a pattern hit is to be affected usage.
#[derive(Debug, Clone, Copy, PartialEq, Eq)]
pub enum Confidence {
    Definite,
    Likely,
    Possible,
}

/// A resolved (repo, package, problem) match.
#[derive(Debug)]
pub struct Finding<'a> {
    pub repo_name: String,
    pub repo_path: String,
    pub package: String,
    pub installed_version: String,
    pub problem: &'a Problem,
    pub source_hits: Vec<SourceHit>,
}

/// One source-code location that matched a pattern during deep scan.
#[derive(Debug)]
pub struct SourceHit {
    pub file: String,
    pub line_number: usize,
    pub line_content: String,
    pub context: Vec<String>,
    pub pattern_description: String,
    pub confidence: String,
    pub remediation: String,
}

} // verus!
