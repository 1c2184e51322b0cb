//! Error kinds returned by the pool's operations.

use vstd::prelude::*;

verus! {

/// Every way a pool operation can fail. Each operation's contract states
/// exactly which inputs produce which variant.
#[derive(Clone, Copy, Debug, PartialEq, Eq)]
pub enum Error {
    /// A monetary input (goal, award bound, or donation) was not positive.
    InvalidAmount,
    /// At initialization, the maximum award was below the minimum award.
    InvalidScholarshipRange,
    /// Deadlines were not strictly ordered: creation before applications
    /// closing before distribution.
    InvalidDeadline,
    /// A donation arrived after the pool was closed by distribution.
    PoolNotActive,
    /// An application arrived after the application deadline.
    ApplicationDeadlinePassed,
    /// An application's scores were out of range.
    InvalidApplicationData,
    /// The applicant already has an application on file.
    AlreadyApplied,
    /// A privileged operation was called by someone other than the creator.
    Unauthorized,
    /// Allocation was attempted before the application deadline.
    ApplicationsStillOpen,
    /// Distribution was attempted before the distribution deadline.
    DistributionNotReady,
    /// A read or update was attempted before any pool was initialized.
    PoolNotInitialized,
    /// The balance cannot cover the minimum award for every applicant, so
    /// allocation refuses rather than promise more than the pool holds.
    InsufficientFunds,
    /// Records handed back by the storage facade violate the instance
    /// invariant: a storage or collaborator bug, kept apart from the
    /// user-input errors above.
    CorruptedState,
}

} // verus!
