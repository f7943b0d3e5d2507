//! The agent CLI that auditors run through.
//!
//! Running the CLI is the program's part, and so is its name and where to
//! install it from; this module decides what its answer to `<program>
//! --version` means and how a failure reads.
use crate::strings::{owned, trim, trim_str};
use vstd::prelude::*;

verus! {

/// Why the agent CLI is not usable.
#[derive(Clone, Debug)]
pub enum SessionError {
    /// `program` could not be started (`detail` says why); it is installed
    /// from `install_url`.
    NotFound { program: String, detail: String, install_url: String },
    /// `<program> --version` exited unsuccessfully, printing `stderr`.
    VersionFailed { program: String, stderr: String },
}

/// The message of a session error.
pub open spec fn session_error_message(e: SessionError) -> Seq<char> {
    match e {
        SessionError::NotFound { program, detail, install_url } => "`"@ + program@
            + "` CLI not found on PATH: "@ + detail@ + "\n\nInstall: "@ + install_url@,
        SessionError::VersionFailed { program, stderr } => "`"@ + program@ + " --version` failed: "@
            + stderr@,
    }
}

impl SessionError {
    /// The error's message.
    pub fn message(&self) -> (m: String)
        ensures
            m@ == session_error_message(*self),
    {
        match self {
            SessionError::NotFound { program, detail, install_url } => {
                let mut m = String::from_str("`");
                m.append(program.as_str());
                m.append("` CLI not found on PATH: ");
                m.append(detail.as_str());
                m.append("\n\nInstall: ");
                m.append(install_url.as_str());
                m
            },
            SessionError::VersionFailed { program, stderr } => {
                let mut m = String::from_str("`");
                m.append(program.as_str());
                m.append(" --version` failed: ");
                m.append(stderr.as_str());
                m
            },
        }
    }
}

/// The outcome of `<program> --version`: on success its version line
/// (trimmed stdout), else a failure carrying its stderr.
pub fn preflight_outcome(program: &str, success: bool, stdout: &str, stderr: &str) -> (r: Result<
    String,
    SessionError,
>)
    ensures
        success ==> (r matches Ok(v) && v@ == trim(stdout@)),
        !success ==> (r matches Err(SessionError::VersionFailed { program: p, stderr: e }) && p@
            == program@ && e@ == stderr@),
{
    if success {
        Ok(trim_str(stdout))
    } else {
        Err(SessionError::VersionFailed { program: owned(program), stderr: owned(stderr) })
    }
}

} // verus!
