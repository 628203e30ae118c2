use vstd::prelude::*;

verus! {

/// The reasons an operation of the vesting engine can fail.
///
/// Every error is terminal for the operation that raised it: the engine
/// never retries, and a failed operation leaves the ledger unchanged.
#[derive(Clone, Copy, Debug, PartialEq, Eq, Structural)]
pub enum ErrorCode {
    /// A claim was attempted before the schedule's cliff time.
    ClaimNotAvailable,
    /// The schedule has no positive duration, so no vesting rate is defined.
    InvalidVestingTime,
    /// The claimable amount at the given time is exactly zero.
    NoAmountToClaim,
    /// A record already exists at the derived address.
    AlreadyExists,
    /// The requester is not the required authority, or a record that the
    /// request should have bound to is not present at its derived address.
    Unauthorized,
    /// The token transfer could not be performed, for instance because the
    /// treasury balance is insufficient.
    TransferError,
    /// The company name exceeds the maximum length accepted as a seed.
    InvalidCompanyName,
}

} // verus!
