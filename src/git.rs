//! The repository under analysis.
use crate::text::{trim, trim_string};
use vstd::prelude::*;

verus! {

#[verifier::external_type_specification]
#[verifier::external_body]
pub struct ExPathBuf(std::path::PathBuf);

/// A repository: an identifier taken from its history, and where it lies.
pub struct GitRepository {
    pub id: String,
    pub project_dir: std::path::PathBuf,
}

impl GitRepository {
    /// The repository at `project_dir`, identified by the output of the
    /// history query that names its root commit (surrounding whitespace cut
    /// off).
    pub fn from_root_commit_output(project_dir: std::path::PathBuf, output: &str) -> (r:
        GitRepository)
        ensures
            r.id@ == trim(output@),
            r.project_dir == project_dir,
    {
        GitRepository { id: trim_string(output), project_dir }
    }
}

} // verus!
