use vstd::prelude::*;

verus! {

/// Every way a request to this library can be turned down.
#[derive(Clone, Copy, Debug, PartialEq, Eq, Structural)]
pub enum OFTError {
    /// The caller is not the administrator of the store.
    Unauthorized,
    /// A batch carries a different number of actions than of keys.
    ManageRateLimitOverrideParamsLengthMismatch,
    /// An addition found the override list at its capacity.
    RateLimitOverrideListFull,
    /// An addition named a key that the override list already holds.
    AlreadyInOverrideList,
    /// A removal named a key that the override list does not hold.
    NotInOverrideList,
    /// A store was to be created with a conversion rate of zero.
    InvalidConversionRate,
    /// A shared-decimal amount does not fit in 64 bits once scaled up.
    AmountOverflow,
}

} // verus!
