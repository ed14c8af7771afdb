pub mod cancel;
pub mod deposit;
pub mod errors;
pub mod initialize;
pub mod ledger;
pub mod state;
pub mod withdraw;

pub mod laws;

use vstd::prelude::*;

use crate::cancel::{cancel_handler, revert_err, revert_ok, Cancel};
use crate::deposit::{deposit_handler, fund_err, fund_ok, Deposit};
use crate::errors::EscrowError;
use crate::initialize::{create_err, create_ok, created_record, initialize_handler, Initialize};
use crate::ledger::Ledger;
use crate::state::AccountId;
use crate::withdraw::{release_err, release_ok, withdraw_handler, Withdraw};

verus! {

/// Create an escrow record; the host passes the authenticated caller and
/// the trusted clock's reading.
pub fn initialize(
    ledger: &mut Ledger,
    ctx: &Initialize,
    caller: AccountId,
    now: i64,
    unlock_timestamp: i64,
    bump: u8,
) -> (r: Result<(), EscrowError>)
    requires
        old(ledger).wf(),
    ensures
        final(ledger).wf(),
        final(ledger).storage_reserve == old(ledger).storage_reserve,
        r is Ok <==> create_ok(*old(ledger), *ctx, caller, now, unlock_timestamp),
        r matches Err(e) ==> e == create_err(*old(ledger), *ctx, caller, now, unlock_timestamp)
            && *final(ledger) == *old(ledger),
        r is Ok ==> final(ledger).rec(ctx.depositor, ctx.beneficiary) == Some(
            created_record(*ctx, unlock_timestamp, bump),
        ),
        r is Ok ==> final(ledger).bal(ctx.depositor) == old(ledger).bal(ctx.depositor) - old(
            ledger,
        ).storage_reserve,
        forall|d: AccountId, b: AccountId|
            !(d == ctx.depositor && b == ctx.beneficiary) ==> #[trigger] final(ledger).rec(d, b)
                == old(ledger).rec(d, b),
        forall|o: AccountId|
            o != ctx.depositor ==> #[trigger] final(ledger).bal(o) == old(ledger).bal(o),
        final(ledger).total() == old(ledger).total(),
{
    initialize_handler(ledger, ctx, caller, now, unlock_timestamp, bump)
}

/// Fund an escrow record from the depositor's balance.
pub fn deposit(ledger: &mut Ledger, ctx: &Deposit, caller: AccountId, amount: u64) -> (r: Result<
    (),
    EscrowError,
>)
    requires
        old(ledger).wf(),
    ensures
        final(ledger).wf(),
        final(ledger).storage_reserve == old(ledger).storage_reserve,
        r is Ok <==> fund_ok(*old(ledger), *ctx, caller, amount),
        r matches Err(e) ==> e == fund_err(*old(ledger), *ctx, caller, amount) && *final(ledger)
            == *old(ledger),
        r is Ok ==> final(ledger).rec(ctx.depositor, ctx.beneficiary) == Some(
            (crate::state::EscrowAccount {
                amount,
                state: crate::state::EscrowState::Deposited,
                ..old(ledger).rec(ctx.depositor, ctx.beneficiary)->Some_0
            }),
        ),
        r is Ok ==> final(ledger).bal(ctx.depositor) == old(ledger).bal(ctx.depositor) - amount,
        forall|d: AccountId, b: AccountId|
            !(d == ctx.depositor && b == ctx.beneficiary) ==> #[trigger] final(ledger).rec(d, b)
                == old(ledger).rec(d, b),
        forall|o: AccountId|
            o != ctx.depositor ==> #[trigger] final(ledger).bal(o) == old(ledger).bal(o),
        final(ledger).total() == old(ledger).total(),
{
    deposit_handler(ledger, ctx, caller, amount)
}

/// Release the held funds to the beneficiary and destroy the record.
pub fn withdraw(ledger: &mut Ledger, ctx: &Withdraw, caller: AccountId, now: i64) -> (r: Result<
    (),
    EscrowError,
>)
    requires
        old(ledger).wf(),
    ensures
        final(ledger).wf(),
        final(ledger).storage_reserve == old(ledger).storage_reserve,
        r is Ok <==> release_ok(*old(ledger), *ctx, caller, now),
        r matches Err(e) ==> e == release_err(*old(ledger), *ctx, caller, now) && *final(ledger)
            == *old(ledger),
        r is Ok ==> final(ledger).rec(ctx.depositor, ctx.beneficiary) is None,
        r is Ok ==> final(ledger).bal(ctx.beneficiary) == old(ledger).bal(ctx.beneficiary) + old(
            ledger,
        ).rec(ctx.depositor, ctx.beneficiary)->Some_0.amount + old(ledger).storage_reserve,
        forall|d: AccountId, b: AccountId|
            !(d == ctx.depositor && b == ctx.beneficiary) ==> #[trigger] final(ledger).rec(d, b)
                == old(ledger).rec(d, b),
        forall|o: AccountId|
            o != ctx.beneficiary ==> #[trigger] final(ledger).bal(o) == old(ledger).bal(o),
        final(ledger).total() == old(ledger).total(),
{
    withdraw_handler(ledger, ctx, caller, now)
}

/// Return the held funds to the depositor and destroy the record.
pub fn cancel(ledger: &mut Ledger, ctx: &Cancel, caller: AccountId, now: i64) -> (r: Result<
    (),
    EscrowError,
>)
    requires
        old(ledger).wf(),
    ensures
        final(ledger).wf(),
        final(ledger).storage_reserve == old(ledger).storage_reserve,
        r is Ok <==> revert_ok(*old(ledger), *ctx, caller, now),
        r matches Err(e) ==> e == revert_err(*old(ledger), *ctx, caller, now) && *final(ledger)
            == *old(ledger),
        r is Ok ==> final(ledger).rec(ctx.depositor, ctx.beneficiary) is None,
        r is Ok ==> final(ledger).bal(ctx.depositor) == old(ledger).bal(ctx.depositor) + old(
            ledger,
        ).rec(ctx.depositor, ctx.beneficiary)->Some_0.amount + old(ledger).storage_reserve,
        forall|d: AccountId, b: AccountId|
            !(d == ctx.depositor && b == ctx.beneficiary) ==> #[trigger] final(ledger).rec(d, b)
                == old(ledger).rec(d, b),
        forall|o: AccountId|
            o != ctx.depositor ==> #[trigger] final(ledger).bal(o) == old(ledger).bal(o),
        final(ledger).total() == old(ledger).total(),
{
    cancel_handler(ledger, ctx, caller, now)
}

} // verus!
