//! What can stop a run.
use vstd::prelude::*;

verus! {

/// The failures that end a run. None of them is retried.
#[derive(Debug, PartialEq, Eq)]
pub enum Error {
    /// A request was answered with a status outside 200 to 299.
    HttpStatus { status: u16 },
    /// The version constraint is not a semantic-version range.
    InvalidConstraint { constraint: String, reason: String },
    /// An entry of the version list is not a semantic version.
    InvalidVersion { version: String, reason: String },
    /// The user made no choice, or one that is not on the list.
    NoSelection,
    /// The archive cannot be read, or its first entry cannot be unpacked.
    InvalidArchive { reason: String },
}

} // verus!
