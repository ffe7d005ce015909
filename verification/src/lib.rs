//! Verified core of a directory-tree cloner.
//!
//! The library holds the decision logic of the clone operation: precondition
//! validation, glob-based include/exclude filtering, destination-directory
//! bookkeeping, and the per-entry copy plan. Filesystem work (walking the
//! source, creating directories, copying bytes) is carried out by a caller
//! that feeds the results back in as plain values.
//!
//! Destination directories are materialized only as parents of copied
//! files: a source directory that ends up containing no included file is
//! not created in the destination.

mod error;
mod filter;
mod glob;
mod options;
mod paths;
mod plan;

pub use error::Error;
pub use filter::Filter;
pub use options::Options;
pub use plan::{clone_tree, validate, ActionView, CopyAction, Entry, EntryView, Plan};

