use vstd::prelude::*;

verus! {

/// Every way an escrow operation can be refused. A refusal means the
/// requested transition did not occur: all guards are checked before any
/// mutation, so an error leaves the ledger exactly as it was.
#[derive(Clone, Copy, PartialEq, Eq, Structural, Debug)]
pub enum EscrowError {
    /// The caller is not the party this operation is reserved to.
    Unauthorized,
    /// The record is missing, or not in the state this operation needs.
    InvalidState,
    /// The unlock time has not yet been reached.
    UnlockTimeNotReached,
    /// The unlock time has already been reached; cancelling is no longer
    /// possible.
    UnlockTimeAlreadyReached,
    /// The depositor's balance does not cover the requested deposit.
    InsufficientFunds,
    /// No funds are held by this escrow.
    NoFundsDeposited,
    /// The provided amount is zero.
    InvalidAmount,
    /// The unlock time is not strictly in the future.
    InvalidUnlockTime,
    /// A live record already exists for this depositor/beneficiary pair.
    AddressAlreadyOccupied,
}

impl EscrowError {
    /// A human-readable account of the refusal.
    pub fn message(&self) -> &'static str {
        match self {
            EscrowError::Unauthorized => "You are not authorized to perform this action.",
            EscrowError::InvalidState => "The escrow is not in the expected state for this action.",
            EscrowError::UnlockTimeNotReached => "The unlock time has not yet been reached.",
            EscrowError::UnlockTimeAlreadyReached => "The unlock time has already passed, cancellation is no longer possible.",
            EscrowError::InsufficientFunds => "Insufficient funds to deposit into the escrow account.",
            EscrowError::NoFundsDeposited => "No funds have been deposited into this escrow yet.",
            EscrowError::InvalidAmount => "The provided amount is zero or invalid.",
            EscrowError::InvalidUnlockTime => "The unlock time must lie strictly in the future.",
            EscrowError::AddressAlreadyOccupied => "An escrow already exists for this depositor and beneficiary.",
        }
    }
}

} // verus!
