use escrow_contract::cancel::Cancel;
use escrow_contract::deposit::Deposit;
use escrow_contract::errors::EscrowError;
use escrow_contract::initialize::Initialize;
use escrow_contract::ledger::{Balance, Ledger};
use escrow_contract::state::{AccountId, EscrowAccount, EscrowState};
use escrow_contract::withdraw::Withdraw;
use escrow_contract::{cancel, deposit, initialize, withdraw};

const DEP: AccountId = AccountId(1);
const BEN: AccountId = AccountId(2);
const STRANGER: AccountId = AccountId(3);
const BUMP: u8 = 7;

fn ictx() -> Initialize {
    Initialize { depositor: DEP, beneficiary: BEN }
}

fn dctx() -> Deposit {
    Deposit { depositor: DEP, beneficiary: BEN, bump: BUMP }
}

fn wctx() -> Withdraw {
    Withdraw { depositor: DEP, beneficiary: BEN, bump: BUMP }
}

fn cctx() -> Cancel {
    Cancel { depositor: DEP, beneficiary: BEN, bump: BUMP }
}

/// A ledger with a funded depositor, no records yet.
fn fresh_ledger() -> Ledger {
    let mut l = Ledger::new();
    assert!(l.register(DEP, 1_000));
    l
}

/// A ledger holding one record created at time 100 with unlock time 200,
/// already funded with 100 units.
fn funded_ledger() -> Ledger {
    let mut l = fresh_ledger();
    assert_eq!(initialize(&mut l, &ictx(), DEP, 100, 200, BUMP), Ok(()));
    assert_eq!(deposit(&mut l, &dctx(), DEP, 100), Ok(()));
    l
}

#[test]
fn create_stores_unfunded_record() {
    let mut l = fresh_ledger();
    assert_eq!(initialize(&mut l, &ictx(), DEP, 100, 200, BUMP), Ok(()));
    let rec = l.record_of(DEP, BEN).expect("record must exist");
    assert_eq!(rec.depositor, DEP);
    assert_eq!(rec.beneficiary, BEN);
    assert_eq!(rec.amount, 0);
    assert_eq!(rec.unlock_timestamp, 200);
    assert_eq!(rec.state, EscrowState::Initialized);
    assert_eq!(rec.bump, BUMP);
    assert_eq!(l.balance_of(DEP), 1_000);
}

#[test]
fn second_create_at_same_triple_fails() {
    let mut l = fresh_ledger();
    assert_eq!(initialize(&mut l, &ictx(), DEP, 100, 200, BUMP), Ok(()));
    assert_eq!(
        initialize(&mut l, &ictx(), DEP, 100, 300, BUMP),
        Err(EscrowError::AddressAlreadyOccupied)
    );
    // The first record is untouched by the refused attempt.
    let rec = l.record_of(DEP, BEN).expect("record must exist");
    assert_eq!(rec.unlock_timestamp, 200);
}

#[test]
fn create_with_past_unlock_time_fails() {
    let mut l = fresh_ledger();
    assert_eq!(
        initialize(&mut l, &ictx(), DEP, 100, 100, BUMP),
        Err(EscrowError::InvalidUnlockTime)
    );
    assert_eq!(
        initialize(&mut l, &ictx(), DEP, 100, 50, BUMP),
        Err(EscrowError::InvalidUnlockTime)
    );
    assert!(l.record_of(DEP, BEN).is_none());
}

#[test]
fn fund_moves_balance_into_custody() {
    let mut l = fresh_ledger();
    assert_eq!(initialize(&mut l, &ictx(), DEP, 100, 200, BUMP), Ok(()));
    assert_eq!(deposit(&mut l, &dctx(), DEP, 100), Ok(()));
    let rec = l.record_of(DEP, BEN).expect("record must exist");
    assert_eq!(rec.amount, 100);
    assert_eq!(rec.state, EscrowState::Deposited);
    assert_eq!(l.balance_of(DEP), 900);
}

#[test]
fn fund_twice_fails_the_second_time() {
    let mut l = funded_ledger();
    assert_eq!(deposit(&mut l, &dctx(), DEP, 50), Err(EscrowError::InvalidState));
    // Nothing changed on the refused attempt.
    let rec = l.record_of(DEP, BEN).expect("record must exist");
    assert_eq!(rec.amount, 100);
    assert_eq!(l.balance_of(DEP), 900);
}

#[test]
fn fund_of_zero_fails() {
    let mut l = fresh_ledger();
    assert_eq!(initialize(&mut l, &ictx(), DEP, 100, 200, BUMP), Ok(()));
    assert_eq!(deposit(&mut l, &dctx(), DEP, 0), Err(EscrowError::InvalidAmount));
}

#[test]
fn fund_beyond_balance_fails() {
    let mut l = fresh_ledger();
    assert_eq!(initialize(&mut l, &ictx(), DEP, 100, 200, BUMP), Ok(()));
    assert_eq!(deposit(&mut l, &dctx(), DEP, 1_001), Err(EscrowError::InsufficientFunds));
    assert_eq!(l.balance_of(DEP), 1_000);
}

#[test]
fn fund_without_record_fails() {
    let mut l = fresh_ledger();
    assert_eq!(deposit(&mut l, &dctx(), DEP, 100), Err(EscrowError::InvalidState));
}

#[test]
fn fund_with_wrong_nonce_fails() {
    let mut l = fresh_ledger();
    assert_eq!(initialize(&mut l, &ictx(), DEP, 100, 200, BUMP), Ok(()));
    let wrong = Deposit { depositor: DEP, beneficiary: BEN, bump: BUMP + 1 };
    assert_eq!(deposit(&mut l, &wrong, DEP, 100), Err(EscrowError::Unauthorized));
}

#[test]
fn release_before_unlock_fails_and_changes_nothing() {
    let mut l = funded_ledger();
    assert_eq!(withdraw(&mut l, &wctx(), BEN, 150), Err(EscrowError::UnlockTimeNotReached));
    let rec = l.record_of(DEP, BEN).expect("record must exist");
    assert_eq!(rec.amount, 100);
    assert_eq!(rec.state, EscrowState::Deposited);
    assert_eq!(l.balance_of(BEN), 0);
}

#[test]
fn release_at_unlock_pays_beneficiary_and_destroys_record() {
    let mut l = funded_ledger();
    assert_eq!(withdraw(&mut l, &wctx(), BEN, 200), Ok(()));
    assert!(l.record_of(DEP, BEN).is_none());
    assert_eq!(l.balance_of(BEN), 100);
    assert_eq!(l.balance_of(DEP), 900);
    // The record is gone, so a later reclaim finds nothing.
    assert_eq!(cancel(&mut l, &cctx(), DEP, 150), Err(EscrowError::InvalidState));
}

#[test]
fn release_after_unlock_also_succeeds() {
    let mut l = funded_ledger();
    assert_eq!(withdraw(&mut l, &wctx(), BEN, 5_000), Ok(()));
    assert_eq!(l.balance_of(BEN), 100);
}

#[test]
fn release_on_unfunded_record_fails() {
    let mut l = fresh_ledger();
    assert_eq!(initialize(&mut l, &ictx(), DEP, 100, 200, BUMP), Ok(()));
    assert_eq!(withdraw(&mut l, &wctx(), BEN, 200), Err(EscrowError::InvalidState));
}

#[test]
fn revert_before_unlock_repays_depositor_and_frees_address() {
    let mut l = funded_ledger();
    assert_eq!(cancel(&mut l, &cctx(), DEP, 150), Ok(()));
    assert!(l.record_of(DEP, BEN).is_none());
    assert_eq!(l.balance_of(DEP), 1_000);
    assert_eq!(l.balance_of(BEN), 0);
    // The address is free again, so the pair can be created anew.
    assert_eq!(initialize(&mut l, &ictx(), DEP, 160, 400, BUMP), Ok(()));
    let rec = l.record_of(DEP, BEN).expect("record must exist");
    assert_eq!(rec.unlock_timestamp, 400);
    assert_eq!(rec.amount, 0);
}

#[test]
fn revert_at_or_after_unlock_fails() {
    let mut l = funded_ledger();
    assert_eq!(cancel(&mut l, &cctx(), DEP, 200), Err(EscrowError::UnlockTimeAlreadyReached));
    assert_eq!(cancel(&mut l, &cctx(), DEP, 300), Err(EscrowError::UnlockTimeAlreadyReached));
    let rec = l.record_of(DEP, BEN).expect("record must exist");
    assert_eq!(rec.amount, 100);
}

#[test]
fn wrong_identity_never_succeeds() {
    let mut l = fresh_ledger();
    assert_eq!(
        initialize(&mut l, &ictx(), STRANGER, 100, 200, BUMP),
        Err(EscrowError::Unauthorized)
    );
    assert_eq!(initialize(&mut l, &ictx(), BEN, 100, 200, BUMP), Err(EscrowError::Unauthorized));
    assert_eq!(initialize(&mut l, &ictx(), DEP, 100, 200, BUMP), Ok(()));
    assert_eq!(deposit(&mut l, &dctx(), STRANGER, 100), Err(EscrowError::Unauthorized));
    assert_eq!(deposit(&mut l, &dctx(), BEN, 100), Err(EscrowError::Unauthorized));
    assert_eq!(deposit(&mut l, &dctx(), DEP, 100), Ok(()));
    assert_eq!(withdraw(&mut l, &wctx(), STRANGER, 200), Err(EscrowError::Unauthorized));
    assert_eq!(withdraw(&mut l, &wctx(), DEP, 200), Err(EscrowError::Unauthorized));
    assert_eq!(cancel(&mut l, &cctx(), STRANGER, 150), Err(EscrowError::Unauthorized));
    assert_eq!(cancel(&mut l, &cctx(), BEN, 150), Err(EscrowError::Unauthorized));
    // The record survived every unauthorized attempt.
    let rec = l.record_of(DEP, BEN).expect("record must exist");
    assert_eq!(rec.amount, 100);
    assert_eq!(rec.state, EscrowState::Deposited);
}

#[test]
fn full_revert_scenario() {
    // Create at time 100 with unlock 200, fund 100, reclaim at 150,
    // then the address is free for a second life.
    let mut l = fresh_ledger();
    assert_eq!(initialize(&mut l, &ictx(), DEP, 100, 200, BUMP), Ok(()));
    let rec = l.record_of(DEP, BEN).expect("record must exist");
    assert_eq!((rec.state, rec.amount), (EscrowState::Initialized, 0));
    assert_eq!(deposit(&mut l, &dctx(), DEP, 100), Ok(()));
    let rec = l.record_of(DEP, BEN).expect("record must exist");
    assert_eq!((rec.state, rec.amount), (EscrowState::Deposited, 100));
    let before = l.balance_of(DEP);
    assert_eq!(cancel(&mut l, &cctx(), DEP, 150), Ok(()));
    assert_eq!(l.balance_of(DEP), before + 100);
    assert!(l.record_of(DEP, BEN).is_none());
    assert_eq!(initialize(&mut l, &ictx(), DEP, 160, 260, BUMP), Ok(()));
}

#[test]
fn full_release_scenario() {
    // Create at time 100 with unlock 200, fund 100; an early claim fails,
    // the claim at the unlock instant pays the beneficiary.
    let mut l = fresh_ledger();
    assert_eq!(initialize(&mut l, &ictx(), DEP, 100, 200, BUMP), Ok(()));
    assert_eq!(deposit(&mut l, &dctx(), DEP, 100), Ok(()));
    assert_eq!(withdraw(&mut l, &wctx(), BEN, 150), Err(EscrowError::UnlockTimeNotReached));
    assert_eq!(withdraw(&mut l, &wctx(), BEN, 200), Ok(()));
    assert_eq!(l.balance_of(BEN), 100);
    assert!(l.record_of(DEP, BEN).is_none());
    assert_eq!(cancel(&mut l, &cctx(), DEP, 150), Err(EscrowError::InvalidState));
}

#[test]
fn independent_pairs_do_not_interfere() {
    let other_ben = AccountId(4);
    let mut l = fresh_ledger();
    assert_eq!(initialize(&mut l, &ictx(), DEP, 100, 200, BUMP), Ok(()));
    let ictx2 = Initialize { depositor: DEP, beneficiary: other_ben };
    assert_eq!(initialize(&mut l, &ictx2, DEP, 100, 500, 9), Ok(()));
    assert_eq!(deposit(&mut l, &dctx(), DEP, 100), Ok(()));
    let rec2 = l.record_of(DEP, other_ben).expect("record must exist");
    assert_eq!((rec2.state, rec2.amount), (EscrowState::Initialized, 0));
    assert_eq!(cancel(&mut l, &cctx(), DEP, 150), Ok(()));
    assert!(l.record_of(DEP, other_ben).is_some());
}

#[test]
fn errors_carry_a_readable_message() {
    assert_eq!(
        EscrowError::Unauthorized.message(),
        "You are not authorized to perform this action."
    );
    assert_eq!(
        EscrowError::UnlockTimeNotReached.message(),
        "The unlock time has not yet been reached."
    );
    assert_ne!(
        EscrowError::InvalidState.message(),
        EscrowError::InvalidAmount.message()
    );
}

#[test]
fn register_refuses_a_second_entry_for_one_owner() {
    let mut l = Ledger::new();
    assert!(l.register(DEP, 10));
    assert!(!l.register(DEP, 20));
    assert_eq!(l.balance_of(DEP), 10);
    assert_eq!(l.balance_of(STRANGER), 0);
}

#[test]
fn storage_reservation_is_taken_and_returned_to_the_depositor() {
    let mut l = Ledger::with_storage_reserve(25);
    assert!(l.register(DEP, 1_000));
    assert_eq!(initialize(&mut l, &ictx(), DEP, 100, 200, BUMP), Ok(()));
    assert_eq!(l.balance_of(DEP), 975);
    assert_eq!(deposit(&mut l, &dctx(), DEP, 100), Ok(()));
    assert_eq!(l.balance_of(DEP), 875);
    assert_eq!(cancel(&mut l, &cctx(), DEP, 150), Ok(()));
    // The reclaim returns both the custody and the reserved deposit.
    assert_eq!(l.balance_of(DEP), 1_000);
}

#[test]
fn storage_reservation_is_returned_to_the_beneficiary_on_release() {
    let mut l = Ledger::with_storage_reserve(25);
    assert!(l.register(DEP, 1_000));
    assert_eq!(initialize(&mut l, &ictx(), DEP, 100, 200, BUMP), Ok(()));
    assert_eq!(deposit(&mut l, &dctx(), DEP, 100), Ok(()));
    assert_eq!(withdraw(&mut l, &wctx(), BEN, 200), Ok(()));
    assert_eq!(l.balance_of(BEN), 125);
    assert_eq!(l.balance_of(DEP), 875);
}

#[test]
fn create_without_funds_for_the_reservation_fails() {
    let mut l = Ledger::with_storage_reserve(25);
    assert!(l.register(DEP, 10));
    assert_eq!(
        initialize(&mut l, &ictx(), DEP, 100, 200, BUMP),
        Err(EscrowError::InsufficientFunds)
    );
    assert!(l.record_of(DEP, BEN).is_none());
    assert_eq!(l.balance_of(DEP), 10);
}

#[test]
fn claim_on_corrupted_unfunded_custody_reports_no_funds() {
    // A record claiming `Deposited` while holding nothing can only be
    // forged from outside the four operations; the funds guard still
    // refuses to pay out of it.
    let l = Ledger {
        records: vec![EscrowAccount {
            depositor: DEP,
            beneficiary: BEN,
            amount: 0,
            unlock_timestamp: 200,
            state: EscrowState::Deposited,
            bump: BUMP,
        }],
        balances: vec![Balance { owner: DEP, funds: 1_000 }],
        storage_reserve: 0,
    };
    let mut l = l;
    assert_eq!(withdraw(&mut l, &wctx(), BEN, 200), Err(EscrowError::NoFundsDeposited));
    assert_eq!(cancel(&mut l, &cctx(), DEP, 150), Err(EscrowError::NoFundsDeposited));
}
