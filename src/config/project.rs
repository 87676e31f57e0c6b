//! Settings of a project analysis that also selects its files.
use crate::select::{regex_compiles, Pattern, PatternError};
use vstd::prelude::*;

verus! {

/// Where the project lies, which files it skips and how author names are
/// unified.
pub struct ProjectConfig {
    pub project_dir: String,
    pub project_files: ProjectFileConfig,
    pub author_mapping: Vec<AuthorAlias>,
}

/// One entry of the alias table: `author` is reported as `map_to`.
pub struct AuthorAlias {
    pub author: String,
    pub map_to: String,
}

/// The patterns of paths that the analysis leaves out.
pub struct ProjectFileConfig {
    pub blacklist: Vec<Pattern>,
}

impl ProjectFileConfig {
    /// Compiles each pattern of `patterns`, in order; fails with the first
    /// one that is no valid regular expression.
    pub fn from_patterns(patterns: &Vec<String>) -> (r: Result<ProjectFileConfig, PatternError>)
        ensures
            r is Ok <==> forall|i: int| 0 <= i < patterns@.len() ==> regex_compiles(#[trigger] patterns@[i]@),
            r matches Ok(c) ==> c.blacklist@.len() == patterns@.len() && forall|i: int|
                0 <= i < patterns@.len() ==> #[trigger] c.blacklist@[i]@ == patterns@[i]@,
            r matches Err(e) ==> exists|i: int|
                0 <= i < patterns@.len() && !regex_compiles(#[trigger] patterns@[i]@) && e.pattern@ == patterns@[i]@
                    && forall|j: int| 0 <= j < i ==> regex_compiles(#[trigger] patterns@[j]@),
    {
        let mut blacklist: Vec<Pattern> = Vec::new();
        let mut i: usize = 0;
        while i < patterns.len()
            invariant
                i <= patterns@.len(),
                blacklist@.len() == i,
                forall|j: int| 0 <= j < i ==> regex_compiles(#[trigger] patterns@[j]@),
                forall|j: int| 0 <= j < i ==> #[trigger] blacklist@[j]@ == patterns@[j]@,
            decreases patterns@.len() - i,
        {
            match Pattern::new(patterns[i].as_str()) {
                Ok(p) => blacklist.push(p),
                Err(e) => {
                    return Err(e);
                },
            }
            i = i + 1;
        }
        Ok(ProjectFileConfig { blacklist })
    }
}

} // verus!
