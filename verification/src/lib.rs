//! Cross-file index of function definitions in a tree of script sources.
//!
//! The indexer walks a project directory, keeps the plain eligible script
//! files, records for each file the line offset of every function definition
//! and the resolved target of every recognized import, and answers queries
//! for a function's source text wherever that function is actually defined.

pub mod assoc;
pub mod file_index;
pub mod filter;
pub mod indexer;
pub mod paths;
pub mod patterns;
pub mod text;
pub mod utils;
