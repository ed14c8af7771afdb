use vstd::prelude::*;

verus! {

/// Identity of a principal, as reported by the host's authentication oracle.
/// The state machine only ever compares identities for equality.
#[derive(Clone, Copy, PartialEq, Eq, Structural, Debug, Hash)]
pub struct AccountId(pub u64);

/// The lifecycle position of an escrow record.
///
/// Records only advance `Initialized -> Deposited -> {Withdrawn | Cancelled}`;
/// the two final states are terminal and a record is destroyed on entering
/// them, so a stored record is only ever `Initialized` or `Deposited`.
#[derive(Clone, Copy, PartialEq, Eq, Structural, Debug)]
pub enum EscrowState {
    /// The escrow has been created but no funds have been deposited yet.
    Initialized,
    /// Funds are held in the escrow's custody.
    Deposited,
    /// Funds have been withdrawn by the beneficiary.
    Withdrawn,
    /// The escrow has been cancelled by the depositor.
    Cancelled,
}

/// One escrow record: the custody metadata for a depositor/beneficiary pair.
#[derive(Clone, Copy, PartialEq, Eq, Structural, Debug)]
pub struct EscrowAccount {
    /// The party that funds the escrow and may reclaim it before unlock.
    pub depositor: AccountId,
    /// The party that may claim the funds once the unlock time is reached.
    pub beneficiary: AccountId,
    /// Funds currently held in custody; zero before funding.
    pub amount: u64,
    /// The timestamp at and after which only the beneficiary may act.
    pub unlock_timestamp: i64,
    /// The current lifecycle position.
    pub state: EscrowState,
    /// Nonce stored at creation and compared on every later access, so that
    /// a caller addressing the record must present the value it was created
    /// under.
    pub bump: u8,
}

impl EscrowAccount {
    /// A record as it may appear in the store: not yet terminal, and holding
    /// funds exactly when it is in the `Deposited` state.
    pub open spec fn live(self) -> bool {
        &&& self.state is Initialized || self.state is Deposited
        &&& ((self.state is Deposited) <==> (self.amount > 0))
    }
}

} // verus!
