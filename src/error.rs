//! The kinds of failure that the import and alias operations report.
use vstd::prelude::*;

verus! {

/// What went wrong, by kind.
#[derive(Clone, Copy, Debug, PartialEq, Eq, Structural)]
pub enum LatError {
    /// Reserved for a stricter reference check; classification itself is total.
    ClassificationAmbiguous,
    /// No import file in the scanned repository, or no such alias.
    ResolutionNotFound,
    /// A request failed or came back with a status outside 200..=299.
    TransportFailure,
    /// A body or document could not be read as the structure it should have.
    DecodeFailure,
    /// Creating, writing, renaming or removing a file failed.
    FilesystemFailure,
    /// The import file exists and the conflict policy (or the user) declined to overwrite it.
    ConflictAborted,
}

impl LatError {
    /// A short human-readable description of the failure.
    pub fn message(&self) -> (r: &'static str) {
        match self {
            LatError::ClassificationAmbiguous => "the reference could not be classified",
            LatError::ResolutionNotFound => "no import file or alias was found for the reference",
            LatError::TransportFailure => "the request failed",
            LatError::DecodeFailure => "the response or document could not be decoded",
            LatError::FilesystemFailure => "a file operation failed",
            LatError::ConflictAborted => "the import already exists; nothing was written",
        }
    }
}

} // verus!
