//! The errors of the registry's operations.
use vstd::prelude::*;

verus! {

/// What can go wrong in the registry's operations.
#[derive(Debug, Clone, PartialEq, Eq)]
pub enum JobErr {
    /// A required credential or parameter is missing or invalid.
    ConfigErr(String),
    /// A git open, clone, commit or push failed.
    RepositoryErr(String),
    /// A filesystem operation failed.
    IoErr(String),
    /// A line of an index or manifest could not be read.
    ParseErr { path: String, line: String },
    /// An HTTP or object-storage transport failed.
    NetworkErr(String),
    /// The backend does not offer this capability.
    UnsupportedOperation,
    /// The publisher ran out of attempts.
    TimedOut,
    /// Anything else, described in words.
    OtherErr(String),
}

} // verus!
