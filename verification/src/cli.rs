//! Command-line options of the scanner (the parser itself lives with the binary).
use vstd::prelude::*;
use crate::model::Severity;

verus! {

/// The options of one run of the scanner.
#[derive(Debug, Clone)]
pub struct Cli {
    /// Directory to scan (defaults to current directory)
    pub path: String,
    /// Output format
    pub format: OutputFormat,
    /// Minimum severity to report
    pub severity: SeverityFilter,
    /// Only check specific concept(s)
    pub check: Option<Vec<String>>,
    /// Show explanations for each rule
    pub explain: bool,
    /// Create a template .conflic.toml in the target directory
    pub init: bool,
    /// Path to config file (default: .conflic.toml in scanned dir)
    pub config: Option<String>,
    /// Suppress all output except findings
    pub quiet: bool,
    /// Show all assertions, even when no contradictions found
    pub verbose: bool,
    /// Disable colored output
    pub no_color: bool,
    /// List all available concepts and their extractors
    pub list_concepts: bool,
    /// Diagnostic mode: show discovered files, extractors, and assertions
    pub doctor: bool,
    /// Only scan files changed since the given git ref (e.g. HEAD~1, main)
    pub diff: Option<String>,
    /// Read changed file list from stdin (one path per line)
    pub diff_stdin: bool,
    /// Show proposed fixes based on authority winners
    pub fix: bool,
    /// Only show proposed changes without applying them (use with --fix)
    pub dry_run: bool,
    /// Skip confirmation prompt when applying fixes (use with --fix)
    pub yes: bool,
    /// Don't create .conflic.bak backup files when applying fixes
    pub no_backup: bool,
    /// Only fix a specific concept (use with --fix)
    pub concept: Option<String>,
    /// Path to baseline file to suppress known findings
    pub baseline: Option<String>,
    /// Generate or update a baseline file from current findings
    pub update_baseline: Option<String>,
    /// Start LSP server on stdin/stdout for editor integration
    pub lsp: bool,
}

/// Output format of a report.
#[derive(Clone, Copy, Debug, PartialEq, Eq, Structural)]
pub enum OutputFormat {
    Terminal,
    Json,
    Sarif,
}

/// Minimum severity to report.
#[derive(Clone, Copy, Debug, PartialEq, Eq, Structural)]
pub enum SeverityFilter {
    Error,
    Warning,
    Info,
}

impl SeverityFilter {
    /// The severity that the filter names.
    pub open spec fn severity_of(self) -> Severity {
        match self {
            SeverityFilter::Error => Severity::Error,
            SeverityFilter::Warning => Severity::Warning,
            SeverityFilter::Info => Severity::Info,
        }
    }

    /// The severity that the filter names.
    pub fn to_severity(&self) -> (r: Severity)
        ensures
            r == self.severity_of(),
    {
        match self {
            SeverityFilter::Error => Severity::Error,
            SeverityFilter::Warning => Severity::Warning,
            SeverityFilter::Info => Severity::Info,
        }
    }
}

} // verus!
