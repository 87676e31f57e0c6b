//! Lines of code per author, from version-control attribution output.
//!
//! `blame` reads one attribution line, `analysis` counts a file's lines per
//! canonical author and sums the counts over a project, `select` chooses the
//! files to analyze, and `report` orders the result.
pub mod analysis;
pub mod blame;
pub mod cache;
pub mod config;
pub mod counts;
pub mod git;
pub mod report;
pub mod select;
pub mod text;
