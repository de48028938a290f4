use vstd::prelude::*;

verus! {

/// A portable record of an operating-system failure: the raw error code
/// together with a short human-readable message, kept as plain data so the
/// rest of the library stays independent of any platform error type.
#[derive(Debug, Clone, PartialEq)]
pub struct OsError {
    pub code: i32,
    pub message: String,
}

/// Everything that can go wrong in the snapshot / plan / execute pipeline.
///
/// The first four variants mirror the per-file probe failures; the remaining
/// ones cover configuration validation, manifest parsing and the apply step.
#[derive(Debug, Clone, PartialEq)]
pub enum Error {
    /// A line could not be read from the candidate-path input stream.
    InputFailure(OsError),
    /// The candidate path could not be resolved to a canonical absolute path.
    CanonicalizeFailed(OsError),
    /// The file could not be opened read-only.
    OpenFailed { path: String, error: OsError },
    /// The file's status (modification time) could not be queried.
    StatFailed { path: String, error: OsError },
    /// A rule's destination directory is not a syntactically valid path.
    InvalidDestination { dest: String },
    /// A persisted manifest document could not be parsed.
    ManifestParseFailed { reason: String },
    /// Applying an action to a file failed (destination unwritable,
    /// cross-device fallback failure, naming collision, ...).
    ApplyFailed { path: String, error: OsError },
}

/// Result alias used throughout the library.
pub type Ganzu<A> = Result<A, Error>;

} // verus!
