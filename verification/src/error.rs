use vstd::prelude::*;

verus! {

/// Why an operation was rejected. An operation that returns one of these
/// has changed nothing.
#[derive(Clone, Copy, Debug, PartialEq, Eq, Structural)]
pub enum StakingError {
    /// The pool has already been set up.
    AlreadyInitialized,
    /// The pool has not been set up yet.
    NotInitialized,
    /// A bucket's recorded owner is not the caller.
    InvalidAuthority,
    /// A token account is bound to another mint than the pool's.
    InvalidMint,
    /// The bucket holds less than the amount to withdraw.
    InsufficientStakedAmount,
    /// A zero amount or rate, or a position index out of order.
    InvalidAmount,
    /// A reward value does not fit the width it must be stored or paid in.
    RewardCalculationOverflow,
    /// The reward vault holds less than the amount owed.
    InsufficientRewardBalance,
    /// A checked addition, subtraction or multiplication left its range.
    MathOverflow,
    /// Nothing is owed across the owner's buckets.
    NothingToClaim,
    /// The lock period is not 0, 1 or 2.
    InvalidPeriod,
    /// The bucket's lock has not expired.
    StakeLocked,
}

/// Whether `r` is the refusal `e`.
pub open spec fn refused_with<T>(r: Result<T, StakingError>, e: StakingError) -> bool {
    r matches Err(x) && x == e
}

} // verus!
