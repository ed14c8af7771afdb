use vstd::prelude::*;

use crate::cancel::{revert_err, revert_ok, Cancel};
use crate::deposit::{fund_err, fund_ok, Deposit};
use crate::errors::EscrowError;
use crate::initialize::{create_err, create_ok, Initialize};
use crate::ledger::Ledger;
use crate::state::AccountId;
use crate::withdraw::{release_err, release_ok, Withdraw};

verus! {

/// An address that already holds a live record cannot be created at again:
/// whatever time and unlock bound a second creation presents, it is refused,
/// and an authorized caller is told `AddressAlreadyOccupied`. Together with
/// `initialize`'s postcondition — success stores a record for the pair —
/// this says that creating twice in a row at one triple fails the second
/// time with `AddressAlreadyOccupied`.
pub proof fn second_create_is_rejected(
    l: Ledger,
    ctx: Initialize,
    caller: AccountId,
    now: i64,
    unlock_timestamp: i64,
)
    requires
        l.rec(ctx.depositor, ctx.beneficiary) is Some,
    ensures
        !create_ok(l, ctx, caller, now, unlock_timestamp),
        caller == ctx.depositor ==> create_err(l, ctx, caller, now, unlock_timestamp)
            == EscrowError::AddressAlreadyOccupied,
{
}

/// Funding is exactly-once: a record that is already `Deposited` — as every
/// record is after a successful `deposit` — cannot be funded again. A
/// further attempt by the authorized caller, under the right nonce and with
/// a positive amount, is refused as `InvalidState`.
pub proof fn second_fund_is_rejected(l: Ledger, ctx: Deposit, caller: AccountId, amount: u64)
    requires
        l.rec(ctx.depositor, ctx.beneficiary) is Some,
        l.rec(ctx.depositor, ctx.beneficiary)->Some_0.state is Deposited,
    ensures
        !fund_ok(l, ctx, caller, amount),
        caller == ctx.depositor && l.rec(ctx.depositor, ctx.beneficiary)->Some_0.bump == ctx.bump
            && amount > 0 ==> fund_err(l, ctx, caller, amount) == EscrowError::InvalidState,
{
}

/// The unlock time partitions claiming: a claim on a funded record by its
/// beneficiary under the right nonce succeeds exactly when the clock has
/// reached the unlock time, and an earlier claim is refused as
/// `UnlockTimeNotReached`. The effects of either outcome are
/// `withdraw`'s postcondition: on success the custody moves to the
/// beneficiary and the record is destroyed; on refusal nothing changes.
pub proof fn release_guarded_by_unlock_time(l: Ledger, ctx: Withdraw, caller: AccountId, now: i64)
    requires
        l.wf(),
        caller == ctx.beneficiary,
        l.rec(ctx.depositor, ctx.beneficiary) is Some,
        l.rec(ctx.depositor, ctx.beneficiary)->Some_0.bump == ctx.bump,
        l.rec(ctx.depositor, ctx.beneficiary)->Some_0.state is Deposited,
    ensures
        release_ok(l, ctx, caller, now) <==> now >= l.rec(
            ctx.depositor,
            ctx.beneficiary,
        )->Some_0.unlock_timestamp,
        now < l.rec(ctx.depositor, ctx.beneficiary)->Some_0.unlock_timestamp ==> release_err(
            l,
            ctx,
            caller,
            now,
        ) == EscrowError::UnlockTimeNotReached,
{
    let i = crate::ledger::record_index(l.records@, ctx.depositor, ctx.beneficiary);
    assert(l.records@[i].live());
}

/// The mirror image for reclaiming: a reclaim on a funded record by its
/// depositor under the right nonce succeeds exactly while the clock is
/// still strictly before the unlock time, and a later reclaim is refused as
/// `UnlockTimeAlreadyReached`. On success, `cancel`'s postcondition says
/// the record is destroyed and its custody is back with the depositor, so
/// nothing of the escrow remains.
pub proof fn revert_guarded_by_unlock_time(l: Ledger, ctx: Cancel, caller: AccountId, now: i64)
    requires
        l.wf(),
        caller == ctx.depositor,
        l.rec(ctx.depositor, ctx.beneficiary) is Some,
        l.rec(ctx.depositor, ctx.beneficiary)->Some_0.bump == ctx.bump,
        l.rec(ctx.depositor, ctx.beneficiary)->Some_0.state is Deposited,
    ensures
        revert_ok(l, ctx, caller, now) <==> now < l.rec(
            ctx.depositor,
            ctx.beneficiary,
        )->Some_0.unlock_timestamp,
        now >= l.rec(ctx.depositor, ctx.beneficiary)->Some_0.unlock_timestamp ==> revert_err(
            l,
            ctx,
            caller,
            now,
        ) == EscrowError::UnlockTimeAlreadyReached,
{
    let i = crate::ledger::record_index(l.records@, ctx.depositor, ctx.beneficiary);
    assert(l.records@[i].live());
}

/// At every instant, claiming and reclaiming one record are mutually
/// exclusive and jointly exhaustive for its two authorized parties: with
/// the unlock boundary attributed to the claim, exactly one of the two
/// guards holds — there is no gap and no overlap.
pub proof fn claim_windows_partition_time(
    l: Ledger,
    wctx: Withdraw,
    cctx: Cancel,
    now: i64,
)
    requires
        l.wf(),
        wctx.depositor == cctx.depositor,
        wctx.beneficiary == cctx.beneficiary,
        wctx.bump == cctx.bump,
        l.rec(wctx.depositor, wctx.beneficiary) is Some,
        l.rec(wctx.depositor, wctx.beneficiary)->Some_0.bump == wctx.bump,
        l.rec(wctx.depositor, wctx.beneficiary)->Some_0.state is Deposited,
    ensures
        release_ok(l, wctx, wctx.beneficiary, now) <==> !revert_ok(l, cctx, cctx.depositor, now),
{
    let i = crate::ledger::record_index(l.records@, wctx.depositor, wctx.beneficiary);
    assert(l.records@[i].live());
}

/// Authorization is exclusive: no caller other than the depositor can ever
/// satisfy the success guard of creation, funding or reclaiming, and no
/// caller other than the beneficiary can ever satisfy that of claiming;
/// each such attempt is reported as `Unauthorized`.
pub proof fn authorization_is_exclusive(
    l: Ledger,
    ictx: Initialize,
    dctx: Deposit,
    wctx: Withdraw,
    cctx: Cancel,
    caller: AccountId,
    now: i64,
    unlock_timestamp: i64,
    amount: u64,
)
    ensures
        caller != ictx.depositor ==> !create_ok(l, ictx, caller, now, unlock_timestamp)
            && create_err(l, ictx, caller, now, unlock_timestamp) == EscrowError::Unauthorized,
        caller != dctx.depositor ==> !fund_ok(l, dctx, caller, amount) && fund_err(
            l,
            dctx,
            caller,
            amount,
        ) == EscrowError::Unauthorized,
        caller != wctx.beneficiary ==> !release_ok(l, wctx, caller, now) && release_err(
            l,
            wctx,
            caller,
            now,
        ) == EscrowError::Unauthorized,
        caller != cctx.depositor ==> !revert_ok(l, cctx, caller, now) && revert_err(
            l,
            cctx,
            caller,
            now,
        ) == EscrowError::Unauthorized,
{
}

} // verus!
