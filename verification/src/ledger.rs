use vstd::prelude::*;

use crate::state::{AccountId, EscrowAccount};

verus! {

/// Funds a principal holds outside any escrow's custody.
#[derive(Clone, Copy, PartialEq, Eq, Structural, Debug)]
pub struct Balance {
    pub owner: AccountId,
    pub funds: u64,
}

/// The store the host serializes all operations against: the live escrow
/// records, addressed by their depositor/beneficiary pair, and the
/// principals' balances. Operations run one at a time and either fully
/// commit or leave the ledger untouched.
///
/// Every live record backs its storage with a reserved deposit of
/// `storage_reserve` units, taken from the depositor at creation and
/// returned to the destroying operation's recipient; the reserve's size is
/// fixed when the ledger is set up.
pub struct Ledger {
    pub records: Vec<EscrowAccount>,
    pub balances: Vec<Balance>,
    pub storage_reserve: u64,
}

/// The key a record is addressed by: at most one live record exists per pair.
pub open spec fn pair_of(a: EscrowAccount) -> (AccountId, AccountId) {
    (a.depositor, a.beneficiary)
}

pub open spec fn occupied(s: Seq<EscrowAccount>, d: AccountId, b: AccountId) -> bool {
    exists|i: int| 0 <= i < s.len() && #[trigger] pair_of(s[i]) == (d, b)
}

pub open spec fn record_index(s: Seq<EscrowAccount>, d: AccountId, b: AccountId) -> int {
    choose|i: int| 0 <= i < s.len() && #[trigger] pair_of(s[i]) == (d, b)
}

/// The live record stored for a pair, if any.
pub open spec fn rec_of(s: Seq<EscrowAccount>, d: AccountId, b: AccountId) -> Option<
    EscrowAccount,
> {
    if occupied(s, d, b) {
        Some(s[record_index(s, d, b)])
    } else {
        None
    }
}

pub open spec fn owner_of(bl: Balance) -> AccountId {
    bl.owner
}

pub open spec fn holds(s: Seq<Balance>, o: AccountId) -> bool {
    exists|i: int| 0 <= i < s.len() && #[trigger] owner_of(s[i]) == o
}

pub open spec fn owner_index(s: Seq<Balance>, o: AccountId) -> int {
    choose|i: int| 0 <= i < s.len() && #[trigger] owner_of(s[i]) == o
}

/// The balance of a principal; a principal without an entry holds nothing.
pub open spec fn bal_of(s: Seq<Balance>, o: AccountId) -> int {
    if holds(s, o) {
        s[owner_index(s, o)].funds as int
    } else {
        0
    }
}

pub open spec fn distinct_pairs(s: Seq<EscrowAccount>) -> bool {
    forall|i: int, j: int|
        0 <= i < j < s.len() ==> #[trigger] pair_of(s[i]) != #[trigger] pair_of(s[j])
}

pub open spec fn distinct_owners(s: Seq<Balance>) -> bool {
    forall|i: int, j: int|
        0 <= i < j < s.len() ==> #[trigger] owner_of(s[i]) != #[trigger] owner_of(s[j])
}

pub open spec fn all_live(s: Seq<EscrowAccount>) -> bool {
    forall|i: int| 0 <= i < s.len() ==> (#[trigger] s[i]).live()
}

/// All funds held by live records: each record's custody together with the
/// storage deposit reserved for it.
pub open spec fn sum_holdings(s: Seq<EscrowAccount>, reserve: int) -> int
    decreases s.len(),
{
    if s.len() == 0 {
        0
    } else {
        sum_holdings(s.drop_last(), reserve) + s.last().amount + reserve
    }
}

/// All funds held by principals outside custody.
pub open spec fn sum_funds(s: Seq<Balance>) -> int
    decreases s.len(),
{
    if s.len() == 0 {
        0
    } else {
        sum_funds(s.drop_last()) + s.last().funds
    }
}

impl Ledger {
    pub open spec fn rec(self, d: AccountId, b: AccountId) -> Option<EscrowAccount> {
        rec_of(self.records@, d, b)
    }

    pub open spec fn bal(self, o: AccountId) -> int {
        bal_of(self.balances@, o)
    }

    /// Every unit of funds the ledger knows of: balances, custody, and the
    /// storage deposits reserved by live records.
    pub open spec fn total(self) -> int {
        sum_holdings(self.records@, self.storage_reserve as int) + sum_funds(self.balances@)
    }

    /// Well-formedness: one live record per pair, one balance entry per
    /// owner, every stored record live, and all funds together within the
    /// machine's range (so moving funds around can never overflow).
    pub open spec fn wf(self) -> bool {
        &&& distinct_pairs(self.records@)
        &&& distinct_owners(self.balances@)
        &&& all_live(self.records@)
        &&& self.total() <= u64::MAX
    }
}

/// A position holding the pair is the unique one: the lookup finds exactly it.
pub proof fn lemma_record_at(s: Seq<EscrowAccount>, d: AccountId, b: AccountId, i: int)
    requires
        distinct_pairs(s),
        0 <= i < s.len(),
        pair_of(s[i]) == (d, b),
    ensures
        occupied(s, d, b),
        record_index(s, d, b) == i,
        rec_of(s, d, b) == Some(s[i]),
{
    assert(occupied(s, d, b));
    let j = record_index(s, d, b);
    if i != j {
        assert(pair_of(s[i]) != pair_of(s[j]));
    }
}

/// A position holding the owner is the unique one: the lookup finds exactly it.
pub proof fn lemma_balance_at(s: Seq<Balance>, o: AccountId, i: int)
    requires
        distinct_owners(s),
        0 <= i < s.len(),
        owner_of(s[i]) == o,
    ensures
        holds(s, o),
        owner_index(s, o) == i,
        bal_of(s, o) == s[i].funds as int,
{
    assert(holds(s, o));
    let j = owner_index(s, o);
    if i != j {
        assert(owner_of(s[i]) != owner_of(s[j]));
    }
}

/// If every entry of a pair agrees between two stores, so does the record
/// looked up for that pair.
pub proof fn lemma_rec_unchanged(
    s1: Seq<EscrowAccount>,
    s2: Seq<EscrowAccount>,
    d: AccountId,
    b: AccountId,
)
    requires
        distinct_pairs(s1),
        distinct_pairs(s2),
        forall|i: int|
            0 <= i < s1.len() && #[trigger] pair_of(s1[i]) == (d, b) ==> 0 <= i < s2.len() && s2[i]
                == s1[i],
        forall|i: int|
            0 <= i < s2.len() && #[trigger] pair_of(s2[i]) == (d, b) ==> 0 <= i < s1.len() && s1[i]
                == s2[i],
    ensures
        rec_of(s2, d, b) == rec_of(s1, d, b),
{
    if occupied(s1, d, b) {
        let k = record_index(s1, d, b);
        lemma_record_at(s1, d, b, k);
        lemma_record_at(s2, d, b, k);
    } else if occupied(s2, d, b) {
        let k = record_index(s2, d, b);
        assert(pair_of(s1[k]) == (d, b));
        assert(false);
    }
}

/// If every entry of an owner agrees between two stores, so does the balance
/// of that owner.
pub proof fn lemma_bal_unchanged(s1: Seq<Balance>, s2: Seq<Balance>, o: AccountId)
    requires
        distinct_owners(s1),
        distinct_owners(s2),
        forall|i: int|
            0 <= i < s1.len() && #[trigger] owner_of(s1[i]) == o ==> 0 <= i < s2.len() && s2[i]
                == s1[i],
        forall|i: int|
            0 <= i < s2.len() && #[trigger] owner_of(s2[i]) == o ==> 0 <= i < s1.len() && s1[i]
                == s2[i],
    ensures
        bal_of(s2, o) == bal_of(s1, o),
{
    if holds(s1, o) {
        let k = owner_index(s1, o);
        lemma_balance_at(s1, o, k);
        lemma_balance_at(s2, o, k);
    } else if holds(s2, o) {
        let k = owner_index(s2, o);
        assert(owner_of(s1[k]) == o);
        assert(false);
    }
}

/// Removing an entry of some other pair leaves the lookup for this pair as
/// it was, and keeps the pairs distinct.
pub proof fn lemma_rec_of_remove(s: Seq<EscrowAccount>, i: int, d: AccountId, b: AccountId)
    requires
        distinct_pairs(s),
        0 <= i < s.len(),
        pair_of(s[i]) != (d, b),
    ensures
        distinct_pairs(s.remove(i)),
        rec_of(s.remove(i), d, b) == rec_of(s, d, b),
{
    let s2 = s.remove(i);
    assert forall|x: int, y: int| 0 <= x < y < s2.len() implies #[trigger] pair_of(s2[x])
        != #[trigger] pair_of(s2[y]) by {
        let x1 = if x < i { x } else { x + 1 };
        let y1 = if y < i { y } else { y + 1 };
        assert(s2[x] == s[x1]);
        assert(s2[y] == s[y1]);
        assert(pair_of(s[x1]) != pair_of(s[y1]));
    }
    if occupied(s, d, b) {
        let k = record_index(s, d, b);
        lemma_record_at(s, d, b, k);
        let k2 = if k < i { k } else { k - 1 };
        assert(s2[k2] == s[k]);
        lemma_record_at(s2, d, b, k2);
    } else if occupied(s2, d, b) {
        let k2 = record_index(s2, d, b);
        let k = if k2 < i { k2 } else { k2 + 1 };
        assert(s2[k2] == s[k]);
        assert(pair_of(s[k]) == (d, b));
        assert(false);
    }
}

/// Removing the one entry of a pair leaves no record for it, and keeps the
/// pairs distinct.
pub proof fn lemma_rec_of_remove_hit(s: Seq<EscrowAccount>, i: int)
    requires
        distinct_pairs(s),
        0 <= i < s.len(),
    ensures
        distinct_pairs(s.remove(i)),
        rec_of(s.remove(i), s[i].depositor, s[i].beneficiary) is None,
{
    let d = s[i].depositor;
    let b = s[i].beneficiary;
    let s2 = s.remove(i);
    assert forall|x: int, y: int| 0 <= x < y < s2.len() implies #[trigger] pair_of(s2[x])
        != #[trigger] pair_of(s2[y]) by {
        let x1 = if x < i { x } else { x + 1 };
        let y1 = if y < i { y } else { y + 1 };
        assert(s2[x] == s[x1]);
        assert(s2[y] == s[y1]);
        assert(pair_of(s[x1]) != pair_of(s[y1]));
    }
    if occupied(s2, d, b) {
        let k2 = record_index(s2, d, b);
        let k = if k2 < i { k2 } else { k2 + 1 };
        assert(s2[k2] == s[k]);
        assert(pair_of(s[k]) == (d, b));
        assert(pair_of(s[i]) == (d, b));
        if k < i {
            assert(pair_of(s[k]) != pair_of(s[i]));
        } else {
            assert(pair_of(s[i]) != pair_of(s[k]));
        }
        assert(false);
    }
}

pub proof fn lemma_sum_holdings_nonneg(s: Seq<EscrowAccount>, reserve: int)
    requires
        reserve >= 0,
    ensures
        sum_holdings(s, reserve) >= 0,
    decreases s.len(),
{
    if s.len() > 0 {
        lemma_sum_holdings_nonneg(s.drop_last(), reserve);
    }
}

pub proof fn lemma_sum_funds_nonneg(s: Seq<Balance>)
    ensures
        sum_funds(s) >= 0,
    decreases s.len(),
{
    if s.len() > 0 {
        lemma_sum_funds_nonneg(s.drop_last());
    }
}

pub proof fn lemma_sum_holdings_push(s: Seq<EscrowAccount>, reserve: int, a: EscrowAccount)
    ensures
        sum_holdings(s.push(a), reserve) == sum_holdings(s, reserve) + a.amount + reserve,
{
    assert(s.push(a).drop_last() =~= s);
    assert(s.push(a).last() == a);
}

pub proof fn lemma_sum_funds_push(s: Seq<Balance>, bl: Balance)
    ensures
        sum_funds(s.push(bl)) == sum_funds(s) + bl.funds,
{
    assert(s.push(bl).drop_last() =~= s);
    assert(s.push(bl).last() == bl);
}

pub proof fn lemma_sum_holdings_update(s: Seq<EscrowAccount>, reserve: int, i: int, a: EscrowAccount)
    requires
        0 <= i < s.len(),
    ensures
        sum_holdings(s.update(i, a), reserve) == sum_holdings(s, reserve) - s[i].amount + a.amount,
    decreases s.len(),
{
    let s2 = s.update(i, a);
    if i == s.len() - 1 {
        assert(s2.drop_last() =~= s.drop_last());
        assert(s2.last() == a);
    } else {
        assert(s2.drop_last() =~= s.drop_last().update(i, a));
        assert(s2.last() == s.last());
        lemma_sum_holdings_update(s.drop_last(), reserve, i, a);
    }
}

pub proof fn lemma_sum_funds_update(s: Seq<Balance>, i: int, bl: Balance)
    requires
        0 <= i < s.len(),
    ensures
        sum_funds(s.update(i, bl)) == sum_funds(s) - s[i].funds + bl.funds,
    decreases s.len(),
{
    let s2 = s.update(i, bl);
    if i == s.len() - 1 {
        assert(s2.drop_last() =~= s.drop_last());
        assert(s2.last() == bl);
    } else {
        assert(s2.drop_last() =~= s.drop_last().update(i, bl));
        assert(s2.last() == s.last());
        lemma_sum_funds_update(s.drop_last(), i, bl);
    }
}

pub proof fn lemma_sum_holdings_remove(s: Seq<EscrowAccount>, reserve: int, i: int)
    requires
        0 <= i < s.len(),
    ensures
        sum_holdings(s.remove(i), reserve) == sum_holdings(s, reserve) - s[i].amount - reserve,
    decreases s.len(),
{
    let s2 = s.remove(i);
    if i == s.len() - 1 {
        assert(s2 =~= s.drop_last());
    } else {
        assert(s2.drop_last() =~= s.drop_last().remove(i));
        assert(s2.last() == s.last());
        lemma_sum_holdings_remove(s.drop_last(), reserve, i);
    }
}

/// One record's custody and reserve never exceed the holdings of all.
pub proof fn lemma_sum_holdings_elem(s: Seq<EscrowAccount>, reserve: int, i: int)
    requires
        reserve >= 0,
        0 <= i < s.len(),
    ensures
        s[i].amount + reserve <= sum_holdings(s, reserve),
    decreases s.len(),
{
    if i == s.len() - 1 {
        lemma_sum_holdings_nonneg(s.drop_last(), reserve);
    } else {
        assert(s.drop_last()[i] == s[i]);
        lemma_sum_holdings_elem(s.drop_last(), reserve, i);
    }
}

/// One owner's funds never exceed the sum of all funds.
pub proof fn lemma_sum_funds_elem(s: Seq<Balance>, i: int)
    requires
        0 <= i < s.len(),
    ensures
        s[i].funds <= sum_funds(s),
    decreases s.len(),
{
    if i == s.len() - 1 {
        lemma_sum_funds_nonneg(s.drop_last());
    } else {
        assert(s.drop_last()[i] == s[i]);
        lemma_sum_funds_elem(s.drop_last(), i);
    }
}

/// A balance never exceeds the sum of all funds.
pub proof fn lemma_bal_le_sum(s: Seq<Balance>, o: AccountId)
    ensures
        bal_of(s, o) <= sum_funds(s),
{
    if holds(s, o) {
        lemma_sum_funds_elem(s, owner_index(s, o));
    } else {
        lemma_sum_funds_nonneg(s);
    }
}

impl Ledger {
    /// An empty ledger whose storage allocator reserves nothing per record.
    pub fn new() -> (r: Ledger)
        ensures
            r.wf(),
            r.records@.len() == 0,
            r.balances@.len() == 0,
            r.storage_reserve == 0,
            forall|d: AccountId, b: AccountId| #[trigger] r.rec(d, b) is None,
            forall|o: AccountId| #[trigger] r.bal(o) == 0,
            r.total() == 0,
    {
        Ledger { records: Vec::new(), balances: Vec::new(), storage_reserve: 0 }
    }

    /// An empty ledger whose storage allocator reserves `storage_reserve`
    /// units of backing deposit for each record it creates.
    pub fn with_storage_reserve(storage_reserve: u64) -> (r: Ledger)
        ensures
            r.wf(),
            r.records@.len() == 0,
            r.balances@.len() == 0,
            r.storage_reserve == storage_reserve,
            forall|d: AccountId, b: AccountId| #[trigger] r.rec(d, b) is None,
            forall|o: AccountId| #[trigger] r.bal(o) == 0,
            r.total() == 0,
    {
        Ledger { records: Vec::new(), balances: Vec::new(), storage_reserve }
    }

    /// Index of the live record for a pair, scanning the store; `None` means
    /// the address is free.
    pub(crate) fn find_record_index(&self, d: AccountId, b: AccountId) -> (r: Option<usize>)
        ensures
            match r {
                Some(i) => 0 <= i < self.records@.len() && pair_of(self.records@[i as int]) == (
                d,
                b,
                ),
                None => !occupied(self.records@, d, b),
            },
    {
        let n = self.records.len();
        let mut i: usize = 0;
        while i < n
            invariant
                i <= n,
                n == self.records@.len(),
                forall|k: int| 0 <= k < i ==> #[trigger] pair_of(self.records@[k]) != (d, b),
            decreases n - i,
        {
            let a = self.records[i];
            if a.depositor == d && a.beneficiary == b {
                assert(pair_of(self.records@[i as int]) == (d, b));
                return Some(i);
            }
            i = i + 1;
        }
        None
    }

    /// Index of the balance entry of an owner; `None` means no entry.
    pub(crate) fn find_balance_index(&self, o: AccountId) -> (r: Option<usize>)
        ensures
            match r {
                Some(i) => 0 <= i < self.balances@.len() && owner_of(self.balances@[i as int])
                    == o,
                None => !holds(self.balances@, o),
            },
    {
        let n = self.balances.len();
        let mut i: usize = 0;
        while i < n
            invariant
                i <= n,
                n == self.balances@.len(),
                forall|k: int| 0 <= k < i ==> #[trigger] owner_of(self.balances@[k]) != o,
            decreases n - i,
        {
            let bl = self.balances[i];
            if bl.owner == o {
                assert(owner_of(self.balances@[i as int]) == o);
                return Some(i);
            }
            i = i + 1;
        }
        None
    }

    /// Endow a principal with funds, refusing an owner already present.
    pub fn register(&mut self, owner: AccountId, funds: u64) -> (r: bool)
        requires
            old(self).wf(),
            old(self).total() + funds <= u64::MAX,
        ensures
            final(self).wf(),
            r <==> !holds(old(self).balances@, owner),
            r ==> final(self).bal(owner) == funds && final(self).total() == old(self).total()
                + funds,
            !r ==> *final(self) == *old(self),
            forall|o: AccountId|
                o != owner ==> #[trigger] final(self).bal(o) == old(self).bal(o),
            final(self).records@ == old(self).records@,
            final(self).storage_reserve == old(self).storage_reserve,
    {
        match self.find_balance_index(owner) {
            Some(_) => false,
            None => {
                let ghost s1 = self.balances@;
                let bl = Balance { owner, funds };
                self.balances.push(bl);
                proof {
                    let s2 = self.balances@;
                    lemma_sum_funds_push(s1, bl);
                    assert forall|x: int, y: int| 0 <= x < y < s2.len() implies #[trigger] owner_of(
                        s2[x],
                    ) != #[trigger] owner_of(s2[y]) by {
                        if y == s2.len() - 1 {
                            if owner_of(s1[x]) == owner {
                                assert(holds(s1, owner));
                            }
                        } else {
                            assert(owner_of(s1[x]) != owner_of(s1[y]));
                        }
                    }
                    lemma_balance_at(s2, owner, s2.len() - 1);
                    assert forall|o: AccountId| o != owner implies #[trigger] bal_of(s2, o)
                        == bal_of(s1, o) by {
                        lemma_bal_unchanged(s1, s2, o);
                    }
                }
                true
            },
        }
    }

    /// The balance of a principal, as `bal` reports it.
    pub fn balance_of(&self, owner: AccountId) -> (r: u64)
        requires
            distinct_owners(self.balances@),
        ensures
            r as int == self.bal(owner),
    {
        match self.find_balance_index(owner) {
            Some(i) => {
                proof {
                    lemma_balance_at(self.balances@, owner, i as int);
                }
                self.balances[i].funds
            },
            None => 0,
        }
    }

    /// The live record for a pair, as `rec` reports it.
    pub fn record_of(&self, d: AccountId, b: AccountId) -> (r: Option<EscrowAccount>)
        requires
            distinct_pairs(self.records@),
        ensures
            r == self.rec(d, b),
    {
        match self.find_record_index(d, b) {
            Some(i) => {
                proof {
                    lemma_record_at(self.records@, d, b, i as int);
                }
                Some(self.records[i])
            },
            None => None,
        }
    }

    /// Add funds to a principal's balance, creating its entry if missing.
    pub(crate) fn credit(&mut self, owner: AccountId, amount: u64)
        requires
            distinct_owners(old(self).balances@),
            bal_of(old(self).balances@, owner) + amount <= u64::MAX,
        ensures
            distinct_owners(final(self).balances@),
            final(self).records@ == old(self).records@,
            final(self).storage_reserve == old(self).storage_reserve,
            final(self).bal(owner) == old(self).bal(owner) + amount,
            forall|o: AccountId|
                o != owner ==> #[trigger] final(self).bal(o) == old(self).bal(o),
            sum_funds(final(self).balances@) == sum_funds(old(self).balances@) + amount,
    {
        let ghost s1 = self.balances@;
        match self.find_balance_index(owner) {
            Some(i) => {
                proof {
                    lemma_balance_at(s1, owner, i as int);
                }
                let f = self.balances[i].funds;
                let bl = Balance { owner, funds: f + amount };
                self.balances[i] = bl;
                proof {
                    let s2 = self.balances@;
                    lemma_sum_funds_update(s1, i as int, bl);
                    assert forall|x: int, y: int| 0 <= x < y < s2.len() implies #[trigger] owner_of(
                        s2[x],
                    ) != #[trigger] owner_of(s2[y]) by {
                        assert(owner_of(s2[x]) == owner_of(s1[x]));
                        assert(owner_of(s2[y]) == owner_of(s1[y]));
                        assert(owner_of(s1[x]) != owner_of(s1[y]));
                    }
                    lemma_balance_at(s2, owner, i as int);
                    assert forall|o: AccountId| o != owner implies #[trigger] bal_of(s2, o)
                        == bal_of(s1, o) by {
                        lemma_bal_unchanged(s1, s2, o);
                    }
                }
            },
            None => {
                let bl = Balance { owner, funds: amount };
                self.balances.push(bl);
                proof {
                    let s2 = self.balances@;
                    lemma_sum_funds_push(s1, bl);
                    assert forall|x: int, y: int| 0 <= x < y < s2.len() implies #[trigger] owner_of(
                        s2[x],
                    ) != #[trigger] owner_of(s2[y]) by {
                        if y == s2.len() - 1 {
                            if owner_of(s1[x]) == owner {
                                assert(holds(s1, owner));
                            }
                        } else {
                            assert(owner_of(s1[x]) != owner_of(s1[y]));
                        }
                    }
                    lemma_balance_at(s2, owner, s2.len() - 1);
                    assert forall|o: AccountId| o != owner implies #[trigger] bal_of(s2, o)
                        == bal_of(s1, o) by {
                        lemma_bal_unchanged(s1, s2, o);
                    }
                }
            },
        }
    }

    /// Take funds out of a principal's balance; the balance must cover them.
    pub(crate) fn debit(&mut self, owner: AccountId, amount: u64)
        requires
            distinct_owners(old(self).balances@),
            bal_of(old(self).balances@, owner) >= amount,
        ensures
            distinct_owners(final(self).balances@),
            final(self).records@ == old(self).records@,
            final(self).storage_reserve == old(self).storage_reserve,
            final(self).bal(owner) == old(self).bal(owner) - amount,
            forall|o: AccountId|
                o != owner ==> #[trigger] final(self).bal(o) == old(self).bal(o),
            sum_funds(final(self).balances@) == sum_funds(old(self).balances@) - amount,
    {
        let ghost s1 = self.balances@;
        match self.find_balance_index(owner) {
            Some(i) => {
                proof {
                    lemma_balance_at(s1, owner, i as int);
                }
                let f = self.balances[i].funds;
                let bl = Balance { owner, funds: f - amount };
                self.balances[i] = bl;
                proof {
                    let s2 = self.balances@;
                    lemma_sum_funds_update(s1, i as int, bl);
                    assert forall|x: int, y: int| 0 <= x < y < s2.len() implies #[trigger] owner_of(
                        s2[x],
                    ) != #[trigger] owner_of(s2[y]) by {
                        assert(owner_of(s2[x]) == owner_of(s1[x]));
                        assert(owner_of(s2[y]) == owner_of(s1[y]));
                        assert(owner_of(s1[x]) != owner_of(s1[y]));
                    }
                    lemma_balance_at(s2, owner, i as int);
                    assert forall|o: AccountId| o != owner implies #[trigger] bal_of(s2, o)
                        == bal_of(s1, o) by {
                        lemma_bal_unchanged(s1, s2, o);
                    }
                }
            },
            None => {
                // An absent owner holds nothing, so only nothing may be taken.
                assert(amount == 0);
            },
        }
    }
}

} // verus!
