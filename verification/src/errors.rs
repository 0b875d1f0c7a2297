use vstd::prelude::*;

verus! {

/// Errors surfaced by cache operations.
///
/// Per-item integrity failures are not errors: they are data, reported through
/// the progress stream and the derived corrupt flag of the final snapshot.
#[derive(Debug, Clone)]
pub enum CacheError {
    /// Another operation already holds the (cache kind, version id) key.
    AlreadyInProgress,
    /// The version id is not known to the version catalog.
    NotFound,
    /// The requested operation is not supported (Game-kind download).
    NotImplemented,
    /// A non-repair download was asked to write into a non-empty directory.
    DirectoryNotEmpty,
    /// A filesystem failure, propagated verbatim from the caller's I/O.
    IoError(String),
}

impl CacheError {
    /// Human-readable description of the error.
    pub fn message(&self) -> (r: String)
        ensures
            self is AlreadyInProgress ==> r@ == "Cache operation in progress"@,
            self is NotFound ==> r@ == "Version not found"@,
            self is NotImplemented ==> r@ == "Not implemented"@,
            self is DirectoryNotEmpty ==> r@ == "Cache directory not empty"@,
            forall|s: String| self == CacheError::IoError(s) ==> r@ == s@,
    {
        match self {
            CacheError::AlreadyInProgress => "Cache operation in progress".to_owned(),
            CacheError::NotFound => "Version not found".to_owned(),
            CacheError::NotImplemented => "Not implemented".to_owned(),
            CacheError::DirectoryNotEmpty => "Cache directory not empty".to_owned(),
            CacheError::IoError(s) => s.clone(),
        }
    }
}

} // verus!
