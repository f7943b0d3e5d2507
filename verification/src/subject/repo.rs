//! Repo subject — git URL (cloned to a temporary directory) or local git dir.
use tempfile::TempDir;
use vstd::prelude::*;

verus! {

/// `tempfile`'s temporary directory, held so that a clone is removed when
/// the subject is dropped.
#[verifier::external_type_specification]
#[verifier::external_body]
pub struct ExTempDir(TempDir);

/// A git repository being audited.
pub struct Repo {
    pub root: String,
    /// `Some` when the repository was cloned to a temporary directory.
    pub _tempdir: Option<TempDir>,
    /// The target as the user gave it.
    pub origin: String,
}

/// Why a repository could not be opened.
#[derive(Clone, Debug)]
pub enum RepoError {
    /// Opening repositories is not available in this version.
    NotImplemented,
}

impl RepoError {
    /// The error's message.
    pub fn message(&self) -> (m: String)
        ensures
            m@ == "subject::repo::open not yet implemented"@,
    {
        String::from_str("subject::repo::open not yet implemented")
    }
}

/// Opens a repository subject. Not available in this version: always
/// refused.
pub fn open(target: &str) -> (r: Result<Repo, RepoError>)
    ensures
        r matches Err(RepoError::NotImplemented),
{
    Err(RepoError::NotImplemented)
}

} // verus!
