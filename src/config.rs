//! Settings that the analysis consumes.
pub mod project;

use vstd::prelude::*;

verus! {

/// The settings of one run: where the project lies and how author names
/// are unified.
pub struct Config {
    pub project_dir: String,
    pub author_mapping: Vec<AuthorAlias>,
}

/// One entry of the alias table: `author` is reported as `map_to`.
pub struct AuthorAlias {
    pub author: String,
    pub map_to: String,
}

} // verus!
