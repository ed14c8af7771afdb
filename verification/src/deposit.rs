use vstd::prelude::*;

use crate::errors::EscrowError;
use crate::ledger::{
    lemma_rec_unchanged, lemma_record_at, lemma_sum_holdings_update, pair_of, rec_of, Ledger,
};
use crate::state::{AccountId, EscrowAccount, EscrowState};

verus! {

/// The record a funding request addresses: the pair it is stored under and
/// the address nonce the caller derived for it. The caller must be
/// authenticated as the depositor.
#[derive(Clone, Copy, PartialEq, Eq, Structural, Debug)]
pub struct Deposit {
    pub depositor: AccountId,
    pub beneficiary: AccountId,
    pub bump: u8,
}

/// When funding succeeds: the caller is the depositor, the addressed record
/// exists under the presented nonce, the amount is positive, the record is
/// still unfunded, and the depositor's balance covers the amount.
pub open spec fn fund_ok(l: Ledger, ctx: Deposit, caller: AccountId, amount: u64) -> bool {
    &&& caller == ctx.depositor
    &&& l.rec(ctx.depositor, ctx.beneficiary) matches Some(rec)
    &&& rec.bump == ctx.bump
    &&& amount > 0
    &&& rec.state is Initialized
    &&& l.bal(ctx.depositor) >= amount
}

/// The error a refused funding reports: the first failing guard, checked in
/// the order authorization, record lookup, nonce, amount, state, balance.
pub open spec fn fund_err(l: Ledger, ctx: Deposit, caller: AccountId, amount: u64) -> EscrowError {
    let found = l.rec(ctx.depositor, ctx.beneficiary);
    if caller != ctx.depositor {
        EscrowError::Unauthorized
    } else if found is None {
        EscrowError::InvalidState
    } else if found->Some_0.bump != ctx.bump {
        EscrowError::Unauthorized
    } else if amount == 0 {
        EscrowError::InvalidAmount
    } else if !(found->Some_0.state is Initialized) {
        EscrowError::InvalidState
    } else {
        EscrowError::InsufficientFunds
    }
}

/// Move funds from the depositor's balance into the escrow's custody.
///
/// Succeeds exactly when `fund_ok` holds of the ledger as the call finds it;
/// it then moves `amount` out of the depositor's balance and into the
/// record, which becomes `Deposited`, all in one step. Funding is
/// exactly-once: a funded record is no longer `Initialized`, so a second
/// call is refused. A refusal reports the first failing guard and leaves
/// the ledger untouched.
pub fn deposit_handler(ledger: &mut Ledger, ctx: &Deposit, caller: AccountId, amount: u64) -> (r:
    Result<(), EscrowError>)
    requires
        old(ledger).wf(),
    ensures
        final(ledger).wf(),
        final(ledger).storage_reserve == old(ledger).storage_reserve,
        r is Ok <==> fund_ok(*old(ledger), *ctx, caller, amount),
        r matches Err(e) ==> e == fund_err(*old(ledger), *ctx, caller, amount) && *final(ledger)
            == *old(ledger),
        r is Ok ==> final(ledger).rec(ctx.depositor, ctx.beneficiary) == Some(
            (EscrowAccount {
                amount,
                state: EscrowState::Deposited,
                ..old(ledger).rec(ctx.depositor, ctx.beneficiary)->Some_0
            }),
        ),
        r is Ok ==> final(ledger).bal(ctx.depositor) == old(ledger).bal(ctx.depositor) - amount,
        forall|d: AccountId, b: AccountId|
            !(d == ctx.depositor && b == ctx.beneficiary) ==> #[trigger] final(ledger).rec(d, b)
                == old(ledger).rec(d, b),
        forall|o: AccountId|
            o != ctx.depositor ==> #[trigger] final(ledger).bal(o) == old(ledger).bal(o),
        final(ledger).total() == old(ledger).total(),
{
    if caller != ctx.depositor {
        return Err(EscrowError::Unauthorized);
    }
    let i = match ledger.find_record_index(ctx.depositor, ctx.beneficiary) {
        None => {
            return Err(EscrowError::InvalidState);
        },
        Some(i) => i,
    };
    let rec0 = ledger.records[i];
    proof {
        lemma_record_at(ledger.records@, ctx.depositor, ctx.beneficiary, i as int);
    }
    if rec0.bump != ctx.bump {
        return Err(EscrowError::Unauthorized);
    }
    if amount == 0 {
        return Err(EscrowError::InvalidAmount);
    }
    if rec0.state != EscrowState::Initialized {
        return Err(EscrowError::InvalidState);
    }
    let depositor_funds = ledger.balance_of(ctx.depositor);
    if depositor_funds < amount {
        return Err(EscrowError::InsufficientFunds);
    }
    ledger.debit(ctx.depositor, amount);
    let ghost mid = *ledger;
    let ghost s1 = ledger.records@;
    let rec1 = EscrowAccount { amount, state: EscrowState::Deposited, ..rec0 };
    ledger.records[i] = rec1;
    proof {
        let s2 = ledger.records@;
        // An unfunded record holds nothing, so custody grows by the amount
        // the balance shrank by.
        assert(s1[i as int].live());
        assert(rec0.amount == 0);
        lemma_sum_holdings_update(s1, ledger.storage_reserve as int, i as int, rec1);
        assert forall|x: int, y: int| 0 <= x < y < s2.len() implies #[trigger] pair_of(s2[x])
            != #[trigger] pair_of(s2[y]) by {
            assert(pair_of(s2[x]) == pair_of(s1[x]));
            assert(pair_of(s2[y]) == pair_of(s1[y]));
            assert(pair_of(s1[x]) != pair_of(s1[y]));
        }
        assert forall|k: int| 0 <= k < s2.len() implies (#[trigger] s2[k]).live() by {
            if k != i {
                assert(s1[k].live());
            }
        }
        lemma_record_at(s2, ctx.depositor, ctx.beneficiary, i as int);
        assert forall|d: AccountId, b: AccountId|
            !(d == ctx.depositor && b == ctx.beneficiary) implies #[trigger] rec_of(s2, d, b)
            == rec_of(s1, d, b) by {
            lemma_rec_unchanged(s1, s2, d, b);
        }
        assert forall|o: AccountId| o != ctx.depositor implies #[trigger] ledger.bal(o) == old(
            ledger,
        ).bal(o) by {
            assert(mid.bal(o) == old(ledger).bal(o));
            assert(ledger.balances@ == mid.balances@);
        }
    }
    Ok(())
}

} // verus!
