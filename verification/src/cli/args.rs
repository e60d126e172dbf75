//! The command line, as plain values.

use vstd::prelude::*;

verus! {

/// The whole command line.
pub struct Cli {
    pub command: Commands,
}

/// The subcommands.
pub enum Commands {
    /// Scan a folder of repos for known dependency problems
    Scan(ScanArgs),
    /// List, filter, or inspect known vulnerability definitions
    Problems(ProblemsArgs),
}

/// Options of `scan`.
pub struct ScanArgs {
    /// Root folder containing repos to scan
    pub path: String,
    /// Deep scan: search source files for affected usage patterns
    pub deep: bool,
    /// Use an LLM to generate deep-scan patterns for problems that lack
    /// them. Implies deep scan.
    pub generate_patterns: bool,
    /// Show the pattern quality report after the scan
    pub pattern_stats: bool,
    /// Only scan a specific ecosystem
    pub ecosystem: Option<EcosystemArg>,
    /// Output format
    pub reporter: ReporterArg,
    /// Output file path (for json/markdown reporters); none prints to stdout
    pub output: Option<String>,
    /// Query OSV.dev for real-time vulnerability data
    pub online: bool,
    /// Minimum severity to report
    pub severity: SeverityArg,
    /// Hide the summary table at the end
    pub no_summary: bool,
}

impl ScanArgs {
    /// Whether to show the summary table (default: true, disabled by --no-summary).
    pub fn summary(&self) -> (r: bool)
        ensures
            r == !self.no_summary,
    {
        !self.no_summary
    }

    /// Whether deep scanning is active (explicit --deep or implied by --generate-patterns).
    pub fn deep_enabled(&self) -> (r: bool)
        ensures
            r == (self.deep || self.generate_patterns),
    {
        self.deep || self.generate_patterns
    }
}

/// Options of `problems`.
pub struct ProblemsArgs {
    pub action: ProblemsAction,
}

/// What `problems` does.
pub enum ProblemsAction {
    /// List all known problems (optionally filter by ecosystem)
    List { ecosystem: Option<EcosystemArg> },
    /// Show full details for a specific problem by ID
    Show { id: String },
}

/// An ecosystem on the command line.
#[derive(Debug, Clone, Copy, PartialEq, Eq, Structural)]
pub enum EcosystemArg {
    /// Node.js / npm packages
    Npm,
    /// Python / pip packages
    Pip,
    /// Go modules
    Go,
    /// Rust / Cargo crates
    Cargo,
}

/// The name of an ecosystem as manifests and problems spell it.
pub open spec fn ecosystem_arg_name(e: EcosystemArg) -> Seq<char> {
    match e {
        EcosystemArg::Npm => "npm"@,
        EcosystemArg::Pip => "pip"@,
        EcosystemArg::Go => "go"@,
        EcosystemArg::Cargo => "cargo"@,
    }
}

impl EcosystemArg {
    /// The ecosystem's name as manifests and problems spell it.
    pub fn name(&self) -> (r: &'static str)
        ensures
            r@ == ecosystem_arg_name(*self),
    {
        match self {
            EcosystemArg::Npm => "npm",
            EcosystemArg::Pip => "pip",
            EcosystemArg::Go => "go",
            EcosystemArg::Cargo => "cargo",
        }
    }
}

/// The output format.
#[derive(Debug, Clone, Copy, PartialEq, Eq, Structural)]
pub enum ReporterArg {
    /// Colored terminal output (default)
    Console,
    /// Machine-readable JSON
    Json,
    /// Markdown table
    Markdown,
}

/// A minimum severity, from least to most severe.
#[derive(Debug, Clone, Copy, PartialEq, Eq, Structural)]
pub enum SeverityArg {
    /// Informational only
    Info,
    /// Low severity
    Low,
    /// Medium severity
    Medium,
    /// High severity
    High,
    /// Critical severity
    Critical,
}

/// The rank of a severity level, from 1 (info) to 5 (critical).
pub open spec fn severity_arg_rank(s: SeverityArg) -> u8 {
    match s {
        SeverityArg::Info => 1,
        SeverityArg::Low => 2,
        SeverityArg::Medium => 3,
        SeverityArg::High => 4,
        SeverityArg::Critical => 5,
    }
}

/// The severity label a level names: `info`, `low`, `medium`, `high`,
/// `critical`.
pub open spec fn severity_arg_label(s: SeverityArg) -> Seq<char> {
    match s {
        SeverityArg::Info => "info"@,
        SeverityArg::Low => "low"@,
        SeverityArg::Medium => "medium"@,
        SeverityArg::High => "high"@,
        SeverityArg::Critical => "critical"@,
    }
}

impl SeverityArg {
    /// The rank of the level, on the scale of `Problem::severity_rank`.
    pub fn rank(&self) -> (r: u8)
        ensures
            r == severity_arg_rank(*self),
    {
        match self {
            SeverityArg::Info => 1,
            SeverityArg::Low => 2,
            SeverityArg::Medium => 3,
            SeverityArg::High => 4,
            SeverityArg::Critical => 5,
        }
    }
}

} // verus!
