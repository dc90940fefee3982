//! What can go wrong, and how far each kind of failure reaches.

use vstd::prelude::*;

use crate::branch::Scope;

verus! {

/// Why the repository turned a request down.
#[derive(Debug, Clone, Copy, PartialEq, Eq, Structural)]
pub enum AdapterError {
    /// The branch asked about is no longer there.
    NotFound,
    /// Somebody else changed the branch in the meantime.
    Conflict,
    /// The remote could not be reached.
    Unreachable,
    /// The repository refused the request.
    Rejected,
    /// Any other failure.
    Other,
}

/// A failure that ends the run before anything is deleted.
#[derive(Debug, Clone, Copy, PartialEq, Eq, Structural)]
pub enum Error {
    /// The branch that is checked out is not the configured base branch.
    CurrentBranchInvalid,
    /// The configured remote is not one of the repository's remotes.
    InvalidRemote,
    /// The branches of one scope could not be listed.
    Enumeration(Scope, AdapterError),
}

} // verus!
