//! `oaudit init` — scaffold `.oaudit/` in the target directory.
use vstd::prelude::*;

verus! {

/// Why scaffolding failed.
#[derive(Clone, Debug, PartialEq, Eq, Structural)]
pub enum InitError {
    /// Scaffolding is not available in this version.
    NotImplemented,
}

impl InitError {
    /// The error's message.
    pub fn message(&self) -> (m: String)
        ensures
            m@ == "init::scaffold not yet implemented"@,
    {
        String::from_str("init::scaffold not yet implemented")
    }
}

/// Scaffolds `.oaudit/` under `root`. Not available in this version:
/// always refused.
pub fn scaffold(root: &str) -> (r: Result<(), InitError>)
    ensures
        r == Err::<(), InitError>(InitError::NotImplemented),
{
    Err(InitError::NotImplemented)
}

} // verus!
