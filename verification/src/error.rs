//! The closed error taxonomy of the clone operation.

use vstd::prelude::*;

verus! {

/// Everything that can go wrong while cloning a tree. The first four
/// variants are raised before any filesystem mutation; the last three
/// abort the operation mid-way, leaving earlier copies in place.
#[derive(Debug)]
pub enum Error {
    /// The source path does not exist.
    SourceNotFound { path: String },
    /// The source path exists but is not a directory.
    SourceNotDirectory { path: String },
    /// The destination pre-exists and overwrite was not requested.
    DestinationExists { path: String },
    /// A configured pattern failed to compile.
    InvalidGlob { pattern: String, cause: String },
    /// A destination directory could not be materialized.
    CreateDirectory { path: String, cause: String },
    /// One file's content could not be copied.
    Copy { src: String, dest: String, cause: String },
    /// Traversal of the source could not continue.
    WalkFailure { cause: String },
}

} // verus!
