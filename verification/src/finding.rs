//! Finding type — the structured output of each auditor run.
//!
//! The fields mirror the auditor specs' output contract; some are optional
//! because the contract differs between trusted, untrusted and privacy specs.
use vstd::prelude::*;

verus! {

/// How serious a finding is, in increasing order.
#[derive(Clone, Copy, Debug, PartialEq, Eq, PartialOrd, Ord, Structural)]
pub enum Severity {
    Info,
    Low,
    Medium,
    High,
    Critical,
}

/// How sure the auditor is of a finding.
#[derive(Clone, Copy, Debug, PartialEq, Eq, Structural)]
pub enum Confidence {
    Low,
    Medium,
    High,
}

/// A place in the subject.
#[derive(Clone, Debug)]
pub struct Location {
    pub file: String,
    pub line: u32,
    pub end_line: Option<u32>,
}

/// One finding of an auditor.
#[derive(Clone, Debug)]
pub struct Finding {
    pub id: String,
    pub severity: Severity,
    pub confidence: Confidence,
    pub title: String,
    pub location: Location,
    pub additional_locations: Vec<Location>,
    pub evidence: String,
    pub explanation: String,
    pub attack_path: Option<String>,
    pub prerequisites: Vec<String>,
    pub impact: Option<String>,
    pub user_input: Option<String>,
    pub suggestion: String,
    pub see_also: Vec<String>,
    // Untrusted-mode additions
    pub benign_explanation: Option<String>,
    pub activation: Option<String>,
    pub impact_if_malicious: Option<String>,
    // Privacy-spec additions
    pub data_categories: Vec<String>,
    pub destinations: Vec<String>,
    pub regulatory_relevance: Vec<String>,
    pub policy_alignment: Option<String>,
    /// The spec that produced this finding (filled in by the runner).
    pub spec: Option<String>,
}

/// The outcome of an audit.
#[derive(Clone, Debug)]
pub struct AuditReport {
    pub findings: Vec<Finding>,
    pub specs_run: Vec<String>,
    pub subject: String,
}

} // verus!
