//! File subject — a single file or a non-git directory.
//!
//! The path the user passed is the root. Whether it exists, and what it is,
//! is found on disk by the caller; this module decides what that means.
use vstd::prelude::*;

verus! {

/// A file or directory being audited.
#[derive(Clone, Debug)]
pub struct File {
    pub root: String,
    pub is_dir: bool,
}

/// What the filesystem says about the target path.
pub enum PathStatus {
    /// The path could not be canonicalized (it does not exist, or is not accessible).
    Missing { detail: String },
    /// It canonicalizes to `canonical`, but its metadata could not be read.
    Unreadable { canonical: String, detail: String },
    /// It exists, at `canonical`, with this file type.
    Found { canonical: String, is_file: bool, is_dir: bool },
}

/// Why a file subject could not be opened.
#[derive(Clone, Debug)]
pub enum FileError {
    Missing { target: String, detail: String },
    Unreadable { canonical: String, detail: String },
    NotFileOrDir { target: String },
}

/// The message of a file-subject error.
pub open spec fn file_error_message(e: FileError) -> Seq<char> {
    match e {
        FileError::Missing { target, detail } => "path `"@ + target@
            + "` does not exist or is not accessible: "@ + detail@,
        FileError::Unreadable { canonical, detail } => "reading metadata for "@ + canonical@ + ": "@
            + detail@,
        FileError::NotFileOrDir { target } => "`"@ + target@
            + "` is neither a file nor a directory (symlink-to-nowhere, special file, etc.)"@,
    }
}

impl FileError {
    /// The error's message, with its cause after a colon.
    pub fn message(&self) -> (m: String)
        ensures
            m@ == file_error_message(*self),
    {
        match self {
            FileError::Missing { target, detail } => {
                let mut m = String::from_str("path `");
                m.append(target.as_str());
                m.append("` does not exist or is not accessible: ");
                m.append(detail.as_str());
                m
            },
            FileError::Unreadable { canonical, detail } => {
                let mut m = String::from_str("reading metadata for ");
                m.append(canonical.as_str());
                m.append(": ");
                m.append(detail.as_str());
                m
            },
            FileError::NotFileOrDir { target } => {
                let mut m = String::from_str("`");
                m.append(target.as_str());
                m.append(
                    "` is neither a file nor a directory (symlink-to-nowhere, special file, etc.)",
                );
                m
            },
        }
    }
}

/// Opens a file subject at `target`, given what the filesystem says about
/// it: a missing or unreadable path is refused, as is anything that is
/// neither a file nor a directory; otherwise the canonical path is the root.
pub fn open(target: &str, status: PathStatus) -> (r: Result<File, FileError>)
    ensures
        match status {
            PathStatus::Missing { detail } => r matches Err(FileError::Missing { target: t, detail: d })
                && t@ == target@ && d@ == detail@,
            PathStatus::Unreadable { canonical, detail } => r matches Err(
                FileError::Unreadable { canonical: c, detail: d },
            ) && c@ == canonical@ && d@ == detail@,
            PathStatus::Found { canonical, is_file, is_dir } => if !is_file && !is_dir {
                r matches Err(FileError::NotFileOrDir { target: t }) && t@ == target@
            } else {
                r matches Ok(f) && f.root@ == canonical@ && f.is_dir == is_dir
            },
        },
{
    match status {
        PathStatus::Missing { detail } => Err(
            FileError::Missing { target: crate::strings::owned(target), detail },
        ),
        PathStatus::Unreadable { canonical, detail } => Err(
            FileError::Unreadable { canonical, detail },
        ),
        PathStatus::Found { canonical, is_file, is_dir } => {
            if !is_file && !is_dir {
                Err(FileError::NotFileOrDir { target: crate::strings::owned(target) })
            } else {
                Ok(File { root: canonical, is_dir })
            }
        },
    }
}

} // verus!
