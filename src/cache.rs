//! The record of an earlier analysis, for reuse across runs.
//!
//! Only the shape is defined: which stored counts may be reused, and when
//! they go stale, is not decided here.
use crate::counts::CountMap;
use vstd::prelude::*;

verus! {

/// The stored analyses of one repository, one per configuration variant.
pub struct ProjectCache {
    pub repository_id: String,
    pub variants: Vec<ConfigVariantCache>,
}

/// The stored analysis under one configuration variant.
pub struct ConfigVariantCache {
    pub config_hash: String,
    /// When the analysis was stored: whole seconds since the Unix epoch, UTC.
    pub last_updated: i64,
    pub project_files: Vec<ProjectFile>,
}

/// The stored counts of one file.
pub struct ProjectFile {
    pub count_map: CountMap,
}

} // verus!
