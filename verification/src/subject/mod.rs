//! Audit subjects — what's being audited.
//!
//! `Repo` (git URL or local git dir), `File` (file or non-git dir) and
//! `Text` (an in-memory string with no filesystem).
pub mod file;
pub mod repo;
pub mod text;

use vstd::prelude::*;

verus! {

/// A resolved subject ready for evidence gathering.
pub enum Subject {
    Repo(repo::Repo),
    File(file::File),
    Text(text::Text),
}

impl Subject {
    /// The filesystem root of a `Repo` or `File` subject.
    pub open spec fn spec_root(&self) -> Seq<char>
        recommends
            !(self is Text),
    {
        match self {
            Subject::Repo(r) => r.root@,
            Subject::File(f) => f.root@,
            Subject::Text(_) => Seq::empty(),
        }
    }

    /// Filesystem anchor for evidence gathering. Only meaningful for `Repo`
    /// and `File`; a `Text` subject has no path on disk, and gathering must
    /// not ask it for one.
    pub fn root(&self) -> (r: &String)
        requires
            !(self is Text),
        ensures
            r@ == self.spec_root(),
    {
        match self {
            Subject::Repo(r) => &r.root,
            Subject::File(f) => &f.root,
            Subject::Text(t) => {
                proof {
                    assert(false);
                }
                &t.label
            },
        }
    }

    /// Display label for the subject in audit output: the root path for
    /// `Repo` and `File`, the user-supplied label for `Text`.
    pub fn label(&self) -> (l: String)
        ensures
            l@ == match self {
                Subject::Repo(r) => r.root@,
                Subject::File(f) => f.root@,
                Subject::Text(t) => t.label@,
            },
    {
        match self {
            Subject::Repo(r) => r.root.clone(),
            Subject::File(f) => f.root.clone(),
            Subject::Text(t) => t.label.clone(),
        }
    }
}

} // verus!
