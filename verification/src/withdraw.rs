use vstd::prelude::*;

use crate::errors::EscrowError;
use crate::ledger::{
    lemma_bal_le_sum, lemma_rec_of_remove, lemma_rec_of_remove_hit, lemma_record_at,
    lemma_sum_holdings_elem, lemma_sum_holdings_remove, rec_of, Ledger,
};
use crate::state::{AccountId, EscrowState};

verus! {

/// The record a claim addresses: the pair it is stored under and the
/// address nonce the caller derived for it. The caller must be
/// authenticated as the beneficiary.
#[derive(Clone, Copy, PartialEq, Eq, Structural, Debug)]
pub struct Withdraw {
    pub depositor: AccountId,
    pub beneficiary: AccountId,
    pub bump: u8,
}

/// When a claim succeeds: the caller is the beneficiary, the addressed
/// record exists under the presented nonce, it holds funds, and the unlock
/// time has been reached.
pub open spec fn release_ok(l: Ledger, ctx: Withdraw, caller: AccountId, now: i64) -> bool {
    &&& caller == ctx.beneficiary
    &&& l.rec(ctx.depositor, ctx.beneficiary) matches Some(rec)
    &&& rec.bump == ctx.bump
    &&& rec.state is Deposited
    &&& rec.amount > 0
    &&& now >= rec.unlock_timestamp
}

/// The error a refused claim reports: the first failing guard, checked in
/// the order authorization, record lookup, nonce, state, funds, time.
pub open spec fn release_err(l: Ledger, ctx: Withdraw, caller: AccountId, now: i64) -> EscrowError {
    let found = l.rec(ctx.depositor, ctx.beneficiary);
    if caller != ctx.beneficiary {
        EscrowError::Unauthorized
    } else if found is None {
        EscrowError::InvalidState
    } else if found->Some_0.bump != ctx.bump {
        EscrowError::Unauthorized
    } else if !(found->Some_0.state is Deposited) {
        EscrowError::InvalidState
    } else if found->Some_0.amount == 0 {
        EscrowError::NoFundsDeposited
    } else {
        EscrowError::UnlockTimeNotReached
    }
}

/// Release the held funds to the beneficiary once the unlock time is
/// reached, and destroy the record.
///
/// Succeeds exactly when `release_ok` holds of the ledger as the call finds
/// it; it then moves the full held amount, together with the record's
/// returned storage reservation, into the beneficiary's balance and removes
/// the record, all in one step, so its address is free again. A refusal
/// reports the first failing guard and leaves the ledger untouched.
pub fn withdraw_handler(ledger: &mut Ledger, ctx: &Withdraw, caller: AccountId, now: i64) -> (r:
    Result<(), EscrowError>)
    requires
        old(ledger).wf(),
    ensures
        final(ledger).wf(),
        final(ledger).storage_reserve == old(ledger).storage_reserve,
        r is Ok <==> release_ok(*old(ledger), *ctx, caller, now),
        r matches Err(e) ==> e == release_err(*old(ledger), *ctx, caller, now) && *final(ledger)
            == *old(ledger),
        r is Ok ==> final(ledger).rec(ctx.depositor, ctx.beneficiary) is None,
        r is Ok ==> final(ledger).bal(ctx.beneficiary) == old(ledger).bal(ctx.beneficiary) + old(
            ledger,
        ).rec(ctx.depositor, ctx.beneficiary)->Some_0.amount + old(ledger).storage_reserve,
        forall|d: AccountId, b: AccountId|
            !(d == ctx.depositor && b == ctx.beneficiary) ==> #[trigger] final(ledger).rec(d, b)
                == old(ledger).rec(d, b),
        forall|o: AccountId|
            o != ctx.beneficiary ==> #[trigger] final(ledger).bal(o) == old(ledger).bal(o),
        final(ledger).total() == old(ledger).total(),
{
    if caller != ctx.beneficiary {
        return Err(EscrowError::Unauthorized);
    }
    let i = match ledger.find_record_index(ctx.depositor, ctx.beneficiary) {
        None => {
            return Err(EscrowError::InvalidState);
        },
        Some(i) => i,
    };
    let rec0 = ledger.records[i];
    proof {
        lemma_record_at(ledger.records@, ctx.depositor, ctx.beneficiary, i as int);
    }
    if rec0.bump != ctx.bump {
        return Err(EscrowError::Unauthorized);
    }
    if rec0.state != EscrowState::Deposited {
        return Err(EscrowError::InvalidState);
    }
    if rec0.amount == 0 {
        return Err(EscrowError::NoFundsDeposited);
    }
    if now < rec0.unlock_timestamp {
        return Err(EscrowError::UnlockTimeNotReached);
    }
    let reserve = ledger.storage_reserve;
    let ghost s1 = ledger.records@;
    proof {
        // The record's holdings and the beneficiary's funds both fit under
        // the ledger's conserved total, so crediting cannot overflow.
        lemma_sum_holdings_elem(s1, reserve as int, i as int);
        lemma_bal_le_sum(ledger.balances@, ctx.beneficiary);
        lemma_sum_holdings_remove(s1, reserve as int, i as int);
        lemma_rec_of_remove_hit(s1, i as int);
        assert forall|k: int| 0 <= k < s1.remove(i as int).len() implies (#[trigger] s1.remove(
            i as int,
        )[k]).live() by {
            let k1 = if k < i { k } else { k + 1 };
            assert(s1[k1].live());
        }
    }
    ledger.records.remove(i);
    let ghost mid1 = *ledger;
    proof {
        assert forall|d: AccountId, b: AccountId|
            !(d == ctx.depositor && b == ctx.beneficiary) implies #[trigger] rec_of(
            ledger.records@,
            d,
            b,
        ) == rec_of(s1, d, b) by {
            lemma_rec_of_remove(s1, i as int, d, b);
        }
    }
    ledger.credit(ctx.beneficiary, rec0.amount);
    let ghost mid2 = *ledger;
    ledger.credit(ctx.beneficiary, reserve);
    proof {
        assert forall|d: AccountId, b: AccountId|
            !(d == ctx.depositor && b == ctx.beneficiary) implies #[trigger] ledger.rec(d, b)
            == old(ledger).rec(d, b) by {
            assert(rec_of(mid1.records@, d, b) == rec_of(s1, d, b));
            assert(ledger.records@ == mid1.records@);
        }
        assert forall|o: AccountId| o != ctx.beneficiary implies #[trigger] ledger.bal(o) == old(
            ledger,
        ).bal(o) by {
            assert(ledger.bal(o) == mid2.bal(o));
            assert(mid2.bal(o) == mid1.bal(o));
            assert(mid1.balances@ == old(ledger).balances@);
        }
    }
    Ok(())
}

} // verus!
