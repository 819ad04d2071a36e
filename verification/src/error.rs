//! The failures that the operations of this crate report.

use vstd::prelude::*;

verus! {

/// Why a filesystem operation failed, other than for lack of rights.
#[derive(Clone, Copy, Debug, PartialEq, Eq, Structural)]
pub enum IoFailure {
    /// The entry to act on does not exist.
    NotFound,
    /// The entry to create exists already.
    AlreadyExists,
    /// A directory was required and something else was found.
    NotADirectory,
    /// A directory stands where none may be.
    IsADirectory,
    /// A directory that would be replaced still holds entries.
    DirectoryNotEmpty,
    /// Any other failure of the filesystem.
    Other,
}

/// How resolving the operator's identity failed.
#[derive(Clone, Copy, Debug, PartialEq, Eq, Structural)]
pub enum IdentityFailure {
    /// Neither escalation variable names an account.
    NotEscalated,
    /// The named account is not known to the system.
    UnknownAccount,
    /// The account database could not be consulted.
    LookupFailed,
}

/// A request that does not fit the shape the installation is in.
#[derive(Clone, Copy, Debug, PartialEq, Eq, Structural)]
pub enum Violation {
    /// A patch was asked for and the installation is modified already.
    AlreadyPatched,
    /// An unpatch was asked for and the installation is stock.
    NothingToUnpatch,
}

/// An error of any operation of this crate.
#[derive(Clone, Copy, Debug, PartialEq, Eq, Structural)]
pub enum Error {
    /// The installation is not in the shape the request expects.
    PreconditionViolation(Violation),
    /// The process lacks the rights for a filesystem operation.
    PermissionDenied,
    /// A filesystem operation failed for another reason.
    IoFailure(IoFailure),
    /// A payload file could not be retrieved.
    NetworkFailure,
    /// The operator's identity could not be resolved.
    IdentityResolutionFailure(IdentityFailure),
}

impl Error {
    /// Whether running again with more rights may help: true exactly for
    /// [`Error::PermissionDenied`].
    pub fn is_permission_denied(&self) -> (denied: bool)
        ensures
            denied == (*self == Error::PermissionDenied),
    {
        match self {
            Error::PermissionDenied => true,
            _ => false,
        }
    }
}

/// The result of an operation that fails with `error` where there is one.
pub open spec fn outcome_of(error: Option<Error>) -> Result<(), Error> {
    match error {
        Some(e) => Err(e),
        None => Ok(()),
    }
}

} // verus!
