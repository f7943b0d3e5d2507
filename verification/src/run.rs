//! Per-spec run orchestration.
use crate::finding::AuditReport;
use crate::spec::Spec;
use crate::subject::Subject;
use vstd::prelude::*;

verus! {

/// Why an audit run failed.
#[derive(Clone, Debug, PartialEq, Eq, Structural)]
pub enum RunError {
    /// Running auditors is not available in this version.
    NotImplemented,
}

impl RunError {
    /// The error's message.
    pub fn message(&self) -> (m: String)
        ensures
            m@ == "run::run not yet implemented"@,
    {
        String::from_str("run::run not yet implemented")
    }
}

/// Runs `specs` against `subject`. Not available in this version: always
/// refused.
pub fn run(subject: &Subject, specs: &Vec<Spec>, scope_override: Option<&str>) -> (r: Result<AuditReport, RunError>)
    ensures
        r matches Err(RunError::NotImplemented),
{
    Err(RunError::NotImplemented)
}

} // verus!
