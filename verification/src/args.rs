//! The options a run is started with.
use vstd::prelude::*;

verus! {

/// The two user-facing options.
#[derive(Debug, PartialEq, Eq)]
pub struct Args {
    /// Include pre-release versions in listings.
    pub list_all: bool,
    /// The version to install, when the caller has already made up their mind.
    pub version: Option<String>,
}

} // verus!
