use vstd::prelude::*;

use crate::errors::EscrowError;
use crate::ledger::{
    lemma_rec_unchanged, lemma_record_at, lemma_sum_holdings_push, occupied, pair_of, rec_of,
    Ledger,
};
use crate::state::{AccountId, EscrowAccount, EscrowState};

verus! {

/// The parties named by a creation request. The caller must be
/// authenticated as the depositor.
#[derive(Clone, Copy, PartialEq, Eq, Structural, Debug)]
pub struct Initialize {
    pub depositor: AccountId,
    pub beneficiary: AccountId,
}

/// When creation succeeds: the caller is the depositor, the address for the
/// pair is free, the depositor can back the record's storage reservation,
/// and the unlock time lies strictly in the future.
pub open spec fn create_ok(
    l: Ledger,
    ctx: Initialize,
    caller: AccountId,
    now: i64,
    unlock_timestamp: i64,
) -> bool {
    &&& caller == ctx.depositor
    &&& l.rec(ctx.depositor, ctx.beneficiary) is None
    &&& l.bal(ctx.depositor) >= l.storage_reserve
    &&& unlock_timestamp > now
}

/// The error a refused creation reports: the first failing guard, checked
/// in the order authorization, address occupancy, storage reservation,
/// time bound.
pub open spec fn create_err(
    l: Ledger,
    ctx: Initialize,
    caller: AccountId,
    now: i64,
    unlock_timestamp: i64,
) -> EscrowError {
    if caller != ctx.depositor {
        EscrowError::Unauthorized
    } else if l.rec(ctx.depositor, ctx.beneficiary) is Some {
        EscrowError::AddressAlreadyOccupied
    } else if l.bal(ctx.depositor) < l.storage_reserve {
        EscrowError::InsufficientFunds
    } else {
        EscrowError::InvalidUnlockTime
    }
}

/// The record a successful creation stores: unfunded, `Initialized`, with
/// the parties, unlock time and address nonce it was created under.
pub open spec fn created_record(
    ctx: Initialize,
    unlock_timestamp: i64,
    bump: u8,
) -> EscrowAccount {
    EscrowAccount {
        depositor: ctx.depositor,
        beneficiary: ctx.beneficiary,
        amount: 0,
        unlock_timestamp,
        state: EscrowState::Initialized,
        bump,
    }
}

/// Create a new escrow record for a depositor/beneficiary pair.
///
/// Succeeds exactly when the caller is the depositor, no live record exists
/// for the pair, the depositor's balance covers the storage reservation,
/// and the unlock time is strictly in the future; it then stores a fresh
/// unfunded record whose backing deposit is taken from the depositor, and
/// touches nothing else. A refusal reports the first failing guard and
/// leaves the ledger untouched.
pub fn initialize_handler(
    ledger: &mut Ledger,
    ctx: &Initialize,
    caller: AccountId,
    now: i64,
    unlock_timestamp: i64,
    bump: u8,
) -> (r: Result<(), EscrowError>)
    requires
        old(ledger).wf(),
    ensures
        final(ledger).wf(),
        final(ledger).storage_reserve == old(ledger).storage_reserve,
        r is Ok <==> create_ok(*old(ledger), *ctx, caller, now, unlock_timestamp),
        r matches Err(e) ==> e == create_err(*old(ledger), *ctx, caller, now, unlock_timestamp)
            && *final(ledger) == *old(ledger),
        r is Ok ==> final(ledger).rec(ctx.depositor, ctx.beneficiary) == Some(
            created_record(*ctx, unlock_timestamp, bump),
        ),
        r is Ok ==> final(ledger).bal(ctx.depositor) == old(ledger).bal(ctx.depositor) - old(
            ledger,
        ).storage_reserve,
        forall|d: AccountId, b: AccountId|
            !(d == ctx.depositor && b == ctx.beneficiary) ==> #[trigger] final(ledger).rec(d, b)
                == old(ledger).rec(d, b),
        forall|o: AccountId|
            o != ctx.depositor ==> #[trigger] final(ledger).bal(o) == old(ledger).bal(o),
        final(ledger).total() == old(ledger).total(),
{
    if caller != ctx.depositor {
        return Err(EscrowError::Unauthorized);
    }
    if let Some(_) = ledger.find_record_index(ctx.depositor, ctx.beneficiary) {
        return Err(EscrowError::AddressAlreadyOccupied);
    }
    let depositor_funds = ledger.balance_of(ctx.depositor);
    if depositor_funds < ledger.storage_reserve {
        return Err(EscrowError::InsufficientFunds);
    }
    if unlock_timestamp <= now {
        return Err(EscrowError::InvalidUnlockTime);
    }
    let reserve = ledger.storage_reserve;
    ledger.debit(ctx.depositor, reserve);
    let ghost mid = *ledger;
    let ghost s1 = ledger.records@;
    let rec = EscrowAccount {
        depositor: ctx.depositor,
        beneficiary: ctx.beneficiary,
        amount: 0,
        unlock_timestamp,
        state: EscrowState::Initialized,
        bump,
    };
    ledger.records.push(rec);
    proof {
        let s2 = ledger.records@;
        lemma_sum_holdings_push(s1, reserve as int, rec);
        assert forall|x: int, y: int| 0 <= x < y < s2.len() implies #[trigger] pair_of(s2[x])
            != #[trigger] pair_of(s2[y]) by {
            if y == s2.len() - 1 {
                if pair_of(s1[x]) == (ctx.depositor, ctx.beneficiary) {
                    assert(occupied(s1, ctx.depositor, ctx.beneficiary));
                }
            } else {
                assert(pair_of(s1[x]) != pair_of(s1[y]));
            }
        }
        assert forall|i: int| 0 <= i < s2.len() implies (#[trigger] s2[i]).live() by {
            if i < s2.len() - 1 {
                assert(s1[i].live());
            }
        }
        lemma_record_at(s2, ctx.depositor, ctx.beneficiary, s2.len() - 1);
        assert forall|d: AccountId, b: AccountId|
            !(d == ctx.depositor && b == ctx.beneficiary) implies #[trigger] rec_of(s2, d, b)
            == rec_of(s1, d, b) by {
            lemma_rec_unchanged(s1, s2, d, b);
        }
        assert forall|o: AccountId| o != ctx.depositor implies #[trigger] ledger.bal(o) == old(
            ledger,
        ).bal(o) by {
            assert(mid.bal(o) == old(ledger).bal(o));
            assert(ledger.balances@ == mid.balances@);
        }
    }
    Ok(())
}

} // verus!
