//! The ledger engine: the chunk store of every account, the spendable cache
//! and the pool, with the three operations that change them.
use crate::amount::{
    amount_saturating_add, amount_saturating_sub, expiry, saturating_diff, saturating_sum,
    timestamp_saturating_add,
};
use crate::errors::CreditError;
use crate::instantiation_argument::InstantiationArgument;
use crate::laws::{
    lemma_liquidate_keeps_supply, lemma_reward_keeps_supply, lemma_transfer_keeps_supply,
};
use crate::types::{
    chunk_sum, clamped, expired, lemma_expiry_partition, spent, unexpired, AccountOwner,
    AgeAmount, AgeAmounts, ApplicationId,
};
use vstd::prelude::*;

verus! {

/// What the ledger holds of one account: its chunks, oldest first, and the
/// cached total of their amounts.
#[derive(Clone, Debug, PartialEq, Eq)]
pub struct Account {
    pub owner: AccountOwner,
    pub amounts: AgeAmounts,
    pub spendable: u128,
}

/// The durable state of one ledger.
#[derive(Clone, Debug, PartialEq, Eq)]
pub struct CreditState {
    /// The supply fixed at instantiation.
    pub _initial_supply: u128,
    /// The pool: the supply that is not issued, or was reclaimed.
    pub _balance: u128,
    /// The lifetime of a chunk.
    pub amount_alive_ms: u64,
    /// One row for each account that was ever credited.
    pub accounts: Vec<Account>,
    /// The applications that may ask for a reward.
    pub reward_callers: Vec<ApplicationId>,
    /// The applications that may ask for a transfer.
    pub transfer_callers: Vec<ApplicationId>,
}

/// No two rows belong to the same account.
pub open spec fn distinct_owners(rows: Seq<Account>) -> bool {
    forall|i: int, j: int| 0 <= i < j < rows.len() ==> rows[i].owner != rows[j].owner
}

/// Some row belongs to `owner`.
pub open spec fn holds(rows: Seq<Account>, owner: AccountOwner) -> bool {
    exists|i: int| 0 <= i < rows.len() && rows[i].owner == owner
}

/// The index of the row of `owner`, where there is one.
pub open spec fn row_of(rows: Seq<Account>, owner: AccountOwner) -> int {
    choose|i: int| 0 <= i < rows.len() && rows[i].owner == owner
}

/// The chunks of `owner`, oldest first; none for an account without a row.
pub open spec fn amounts_of(rows: Seq<Account>, owner: AccountOwner) -> Seq<AgeAmount> {
    if holds(rows, owner) {
        rows[row_of(rows, owner)].amounts.amounts@
    } else {
        Seq::empty()
    }
}

/// The spendable cache of `owner`; zero for an account without a row.
pub open spec fn spendable_of(rows: Seq<Account>, owner: AccountOwner) -> u128 {
    if holds(rows, owner) {
        rows[row_of(rows, owner)].spendable
    } else {
        0
    }
}

/// The sum of the spendable caches of all rows.
pub open spec fn total_spendable(rows: Seq<Account>) -> nat
    decreases rows.len(),
{
    if rows.len() == 0 {
        0
    } else {
        total_spendable(rows.drop_last()) + rows.last().spendable as nat
    }
}

/// The sum, over all rows, of the amounts of the chunks that have expired at
/// `now`.
pub open spec fn total_expired(rows: Seq<Account>, now: u64) -> nat
    decreases rows.len(),
{
    if rows.len() == 0 {
        0
    } else {
        total_expired(rows.drop_last(), now) + chunk_sum(
            expired(rows.last().amounts.amounts@, now),
        )
    }
}

/// An application occurs at most once in an allow-list.
pub open spec fn distinct_callers(callers: Seq<ApplicationId>) -> bool {
    forall|i: int, j: int| 0 <= i < j < callers.len() ==> callers[i] != callers[j]
}

/// With distinct owners, the row at `i` is the row of its owner.
pub proof fn lemma_lookup_at(rows: Seq<Account>, i: int)
    requires
        distinct_owners(rows),
        0 <= i < rows.len(),
    ensures
        holds(rows, rows[i].owner),
        row_of(rows, rows[i].owner) == i,
        amounts_of(rows, rows[i].owner) == rows[i].amounts.amounts@,
        spendable_of(rows, rows[i].owner) == rows[i].spendable,
{
    let owner = rows[i].owner;
    let j = row_of(rows, owner);
    assert(0 <= j < rows.len() && rows[j].owner == owner);
    if j < i {
        assert(rows[j].owner != rows[i].owner);
    } else if i < j {
        assert(rows[i].owner != rows[j].owner);
    }
}

/// No cache is larger than the total of all caches.
pub proof fn lemma_cache_within_total(rows: Seq<Account>, owner: AccountOwner)
    ensures
        spendable_of(rows, owner) <= total_spendable(rows),
{
    if holds(rows, owner) {
        lemma_row_within_total(rows, row_of(rows, owner));
    }
}

/// The cache of the row at `i` is no larger than the total of all caches.
proof fn lemma_row_within_total(rows: Seq<Account>, i: int)
    requires
        0 <= i < rows.len(),
    ensures
        rows[i].spendable <= total_spendable(rows),
    decreases rows.len(),
{
    if i < rows.len() - 1 {
        lemma_row_within_total(rows.drop_last(), i);
    }
}

/// Replacing the row at `i` changes the total by the change of its cache.
pub proof fn lemma_total_update(rows: Seq<Account>, i: int, row: Account)
    requires
        0 <= i < rows.len(),
    ensures
        total_spendable(rows.update(i, row)) == total_spendable(rows) - rows[i].spendable
            + row.spendable,
    decreases rows.len(),
{
    if i == rows.len() - 1 {
        assert(rows.update(i, row).drop_last() =~= rows.drop_last());
    } else {
        lemma_total_update(rows.drop_last(), i, row);
        assert(rows.update(i, row).drop_last() =~= rows.drop_last().update(i, row));
    }
}

/// The caches of all accounts but `a` and `b`, added up.
pub open spec fn others_total(rows: Seq<Account>, a: AccountOwner, b: AccountOwner) -> int {
    total_spendable(rows) - spendable_of(rows, a) - if a != b {
        spendable_of(rows, b) as int
    } else {
        0
    }
}

/// `after` is `before` instantiated with `argument`: the configuration is
/// that of `argument`, the pool holds the whole supply, and accounts and
/// allow-lists are as they were.
pub open spec fn instantiated(
    before: &CreditState,
    after: &CreditState,
    argument: InstantiationArgument,
) -> bool {
    &&& after._initial_supply == argument.initial_supply
    &&& after._balance == argument.initial_supply
    &&& after.amount_alive_ms == argument.amount_alive_ms
    &&& after.accounts == before.accounts
    &&& after.reward_callers == before.reward_callers
    &&& after.transfer_callers == before.transfer_callers
}

/// `after` is `before` with `amount` issued to `owner` at the time `now`:
/// one new chunk, the newest of `owner`, that expires one lifetime after
/// `now`; the amount added to the cache of `owner` and taken from the pool,
/// both clamped; everything else as it was.
pub open spec fn rewarded(
    before: &CreditState,
    after: &CreditState,
    owner: AccountOwner,
    amount: u128,
    now: u64,
) -> bool {
    &&& after.wf()
    &&& after.amounts(owner) == before.amounts(owner).push(
        AgeAmount { amount, expired: expiry(now, before.amount_alive_ms) },
    )
    &&& after.spendable(owner) == saturating_sum(before.spendable(owner), amount)
    &&& after.same_accounts_but(before, owner, owner)
    &&& others_total(after.accounts@, owner, owner) == others_total(before.accounts@, owner, owner)
    &&& after._balance == saturating_diff(before._balance, amount)
    &&& after._initial_supply == before._initial_supply
    &&& after.amount_alive_ms == before.amount_alive_ms
    &&& after.reward_callers@ == before.reward_callers@
    &&& after.transfer_callers@ == before.transfer_callers@
}

/// `after` is `before` with `amount` moved from `from` to `to` at the time
/// `now`: the chunks of `from` consumed oldest first, with what is left of
/// the last one touched dated anew; one new chunk of `amount` for `to`; the
/// caches moved by `amount`, that of `to` clamped; everything else, the pool
/// too, as it was.
pub open spec fn transferred(
    before: &CreditState,
    after: &CreditState,
    from: AccountOwner,
    to: AccountOwner,
    amount: u128,
    now: u64,
) -> bool {
    let expired = expiry(now, before.amount_alive_ms);
    let chunk = AgeAmount { amount, expired };
    &&& after.wf()
    &&& after.same_registers(before)
    &&& after.same_accounts_but(before, from, to)
    &&& others_total(after.accounts@, from, to) == others_total(before.accounts@, from, to)
    &&& from != to ==> {
        &&& after.amounts(from) == spent(before.amounts(from), amount, expired)
        &&& after.spendable(from) == before.spendable(from) - amount
        &&& after.amounts(to) == before.amounts(to).push(chunk)
        &&& after.spendable(to) == saturating_sum(before.spendable(to), amount)
    }
    &&& from == to ==> {
        &&& after.amounts(from) == spent(before.amounts(from), amount, expired).push(chunk)
        &&& after.spendable(from) == before.spendable(from)
    }
}

/// `after` is `before` swept at `now`: every row without the chunks that
/// have expired, its cache less their total, and the pool larger by the
/// total of all of them, clamped; everything else as it was.
pub open spec fn liquidated(before: &CreditState, after: &CreditState, now: u64) -> bool {
    &&& after.wf()
    &&& after.accounts@.len() == before.accounts@.len()
    &&& forall|k: int|
        0 <= k < before.accounts@.len() ==> swept_row(
            before.accounts@[k],
            #[trigger] after.accounts@[k],
            now,
        )
    &&& after._balance == clamped(
        (before._balance + total_expired(before.accounts@, now)) as nat,
    )
    &&& after._initial_supply == before._initial_supply
    &&& after.amount_alive_ms == before.amount_alive_ms
    &&& after.reward_callers@ == before.reward_callers@
    &&& after.transfer_callers@ == before.transfer_callers@
}

impl CreditState {
    /// No account has two rows and no application occurs twice in a list.
    pub open spec fn wf(&self) -> bool {
        &&& distinct_owners(self.accounts@)
        &&& distinct_callers(self.reward_callers@)
        &&& distinct_callers(self.transfer_callers@)
    }

    /// The chunks of `owner`, oldest first.
    pub open spec fn amounts(&self, owner: AccountOwner) -> Seq<AgeAmount> {
        amounts_of(self.accounts@, owner)
    }

    /// The spendable cache of `owner`.
    pub open spec fn spendable(&self, owner: AccountOwner) -> u128 {
        spendable_of(self.accounts@, owner)
    }

    /// The cache of every account is the total of its chunks.
    pub open spec fn consistent(&self) -> bool {
        forall|owner: AccountOwner|
            #![trigger spendable_of(self.accounts@, owner)]
            #![trigger amounts_of(self.accounts@, owner)]
            spendable_of(self.accounts@, owner) == chunk_sum(amounts_of(self.accounts@, owner))
    }

    /// The pool and the caches together make up the initial supply.
    pub open spec fn conserved(&self) -> bool {
        self._balance + total_spendable(self.accounts@) == self._initial_supply
    }

    /// The two invariants of the ledger together.
    pub open spec fn sound(&self) -> bool {
        self.consistent() && self.conserved()
    }

    /// The configuration, the pool and the two allow-lists are those of `other`.
    pub open spec fn same_registers(&self, other: &CreditState) -> bool {
        &&& self._initial_supply == other._initial_supply
        &&& self._balance == other._balance
        &&& self.amount_alive_ms == other.amount_alive_ms
        &&& self.reward_callers@ == other.reward_callers@
        &&& self.transfer_callers@ == other.transfer_callers@
    }

    /// Every account but `a` and `b` has the chunks and the cache that it has
    /// in `other`.
    pub open spec fn same_accounts_but(
        &self,
        other: &CreditState,
        a: AccountOwner,
        b: AccountOwner,
    ) -> bool {
        forall|owner: AccountOwner|
            #![trigger amounts_of(self.accounts@, owner)]
            #![trigger spendable_of(self.accounts@, owner)]
            owner != a && owner != b ==> amounts_of(self.accounts@, owner) == amounts_of(
                other.accounts@,
                owner,
            ) && spendable_of(self.accounts@, owner) == spendable_of(other.accounts@, owner)
    }

    /// Tells whether the state is well formed.
    pub fn is_wf(&self) -> (ok: bool)
        ensures
            ok == self.wf(),
    {
        let mut i: usize = 0;
        while i < self.accounts.len()
            invariant
                i <= self.accounts@.len(),
                forall|a: int, b: int|
                    0 <= a < b < i ==> self.accounts@[a].owner != self.accounts@[b].owner,
            decreases self.accounts@.len() - i,
        {
            let mut j: usize = 0;
            while j < i
                invariant
                    j <= i < self.accounts@.len(),
                    forall|a: int|
                        0 <= a < j ==> self.accounts@[a].owner != self.accounts@[i as int].owner,
                decreases i - j,
            {
                if self.accounts[j].owner == self.accounts[i].owner {
                    return false;
                }
                j = j + 1;
            }
            i = i + 1;
        }
        all_distinct(&self.reward_callers) && all_distinct(&self.transfer_callers)
    }

    /// A ledger without supply, accounts or callers.
    pub fn new() -> (state: Self)
        ensures
            state.wf(),
            state.consistent(),
            state.conserved(),
            state._initial_supply == 0,
            state._balance == 0,
            state.amount_alive_ms == 0,
            state.accounts@.len() == 0,
            state.reward_callers@.len() == 0,
            state.transfer_callers@.len() == 0,
    {
        let state = CreditState {
            _initial_supply: 0,
            _balance: 0,
            amount_alive_ms: 0,
            accounts: Vec::new(),
            reward_callers: Vec::new(),
            transfer_callers: Vec::new(),
        };
        state
    }

    /// The index of the row of `owner`, if it has one.
    fn find(&self, owner: AccountOwner) -> (found: Option<usize>)
        ensures
            match found {
                Some(i) => i < self.accounts@.len() && self.accounts@[i as int].owner == owner,
                None => !holds(self.accounts@, owner),
            },
    {
        let mut i: usize = 0;
        while i < self.accounts.len()
            invariant
                i <= self.accounts@.len(),
                forall|j: int| 0 <= j < i ==> self.accounts@[j].owner != owner,
            decreases self.accounts@.len() - i,
        {
            if self.accounts[i].owner == owner {
                return Some(i);
            }
            i = i + 1;
        }
        None
    }

    /// A copy of the chunks of `owner`, oldest first.
    pub fn chunks(&self, owner: AccountOwner) -> (entry: AgeAmounts)
        requires
            self.wf(),
        ensures
            entry.amounts@ == self.amounts(owner),
    {
        let mut entry = AgeAmounts::new();
        match self.find(owner) {
            Some(i) => {
                proof {
                    lemma_lookup_at(self.accounts@, i as int);
                }
                let n: usize = self.accounts[i].amounts.amounts.len();
                let mut k: usize = 0;
                while k < n
                    invariant
                        i < self.accounts@.len(),
                        n == self.accounts@[i as int].amounts.amounts@.len(),
                        k <= n,
                        entry.amounts@ == self.accounts@[i as int].amounts.amounts@.take(k as int),
                    decreases n - k,
                {
                    entry.push(self.accounts[i].amounts.amounts[k]);
                    proof {
                        let all = self.accounts@[i as int].amounts.amounts@;
                        assert(all.take(k as int).push(all[k as int]) =~= all.take(k + 1));
                    }
                    k = k + 1;
                }
                proof {
                    let all = self.accounts@[i as int].amounts.amounts@;
                    assert(all.take(n as int) =~= all);
                }
            },
            None => {},
        }
        entry
    }

    /// Appends `chunk` to the entry of `owner` and adds its amount to the
    /// cache of `owner`, which is clamped at the largest amount.
    fn credit(&mut self, owner: AccountOwner, chunk: AgeAmount)
        requires
            old(self).wf(),
        ensures
            final(self).wf(),
            final(self).same_registers(old(self)),
            final(self).same_accounts_but(old(self), owner, owner),
            final(self).amounts(owner) == old(self).amounts(owner).push(chunk),
            final(self).spendable(owner) == saturating_sum(
                old(self).spendable(owner),
                chunk.amount,
            ),
            total_spendable(final(self).accounts@) == total_spendable(old(self).accounts@)
                - old(self).spendable(owner) + final(self).spendable(owner),
    {
        let ghost before = self.accounts@;
        match self.find(owner) {
            Some(i) => {
                let cached: u128 = self.accounts[i].spendable;
                self.accounts[i].amounts.push(chunk);
                self.accounts[i].spendable = amount_saturating_add(cached, chunk.amount);
                proof {
                    let after = self.accounts@;
                    assert(after =~= before.update(i as int, after[i as int]));
                    lemma_total_update(before, i as int, after[i as int]);
                    lemma_same_owners(before, after, i as int);
                    lemma_lookup_at(before, i as int);
                    lemma_lookup_at(after, i as int);
                }
            },
            None => {
                let mut amounts = AgeAmounts::new();
                amounts.push(chunk);
                let spendable: u128 = amount_saturating_add(0, chunk.amount);
                let row = Account { owner, amounts, spendable };
                self.accounts.push(row);
                proof {
                    let after = self.accounts@;
                    assert(after.drop_last() =~= before);
                    lemma_pushed_row(before, after);
                    lemma_lookup_at(after, before.len() as int);
                    let entry = after[before.len() as int].amounts.amounts@;
                    assert(Seq::<AgeAmount>::empty().push(chunk) =~= entry);
                }
            },
        }
    }

    /// Takes `amount` from the entry of `from`, oldest chunk first, and from
    /// its cache. What is left of the last chunk touched comes back as the
    /// newest chunk of `from`, with the expiry `expired`.
    fn debit(&mut self, from: AccountOwner, amount: u128, expired: u64)
        requires
            old(self).wf(),
            amount <= old(self).spendable(from),
        ensures
            final(self).wf(),
            final(self).same_registers(old(self)),
            final(self).same_accounts_but(old(self), from, from),
            final(self).amounts(from) == spent(old(self).amounts(from), amount, expired),
            final(self).spendable(from) == old(self).spendable(from) - amount,
            total_spendable(final(self).accounts@) == total_spendable(old(self).accounts@)
                - amount,
    {
        let ghost before = self.accounts@;
        match self.find(from) {
            Some(i) => {
                let cached: u128 = self.accounts[i].spendable;
                self.accounts[i].amounts.spend(amount, expired);
                self.accounts[i].spendable = amount_saturating_sub(cached, amount);
                proof {
                    let after = self.accounts@;
                    assert(after =~= before.update(i as int, after[i as int]));
                    lemma_total_update(before, i as int, after[i as int]);
                    lemma_same_owners(before, after, i as int);
                    lemma_lookup_at(before, i as int);
                    lemma_lookup_at(after, i as int);
                }
            },
            None => {
                proof {
                    let none = Seq::<AgeAmount>::empty();
                    assert(none.take(0) =~= none);
                    assert(none.skip(0) =~= none);
                }
            },
        }
    }

    /// Whether `application_id` may ask for a reward.
    pub fn is_reward_caller(&self, application_id: ApplicationId) -> (allowed: bool)
        ensures
            allowed == self.reward_callers@.contains(application_id),
    {
        is_listed(&self.reward_callers, application_id)
    }

    /// Whether `application_id` may ask for a transfer.
    pub fn is_transfer_caller(&self, application_id: ApplicationId) -> (allowed: bool)
        ensures
            allowed == self.transfer_callers@.contains(application_id),
    {
        is_listed(&self.transfer_callers, application_id)
    }
}

/// Where `after` differs from `before` only in what the row at `i` holds,
/// every other account has kept its chunks and its cache, and the owners are
/// still distinct.
pub proof fn lemma_same_owners(before: Seq<Account>, after: Seq<Account>, i: int)
    requires
        distinct_owners(before),
        before.len() == after.len(),
        0 <= i < before.len(),
        after[i].owner == before[i].owner,
        forall|k: int| 0 <= k < before.len() && k != i ==> #[trigger] after[k] == before[k],
    ensures
        distinct_owners(after),
        forall|owner: AccountOwner|
            #![trigger amounts_of(after, owner)]
            #![trigger spendable_of(after, owner)]
            owner != before[i].owner ==> amounts_of(after, owner) == amounts_of(before, owner)
                && spendable_of(after, owner) == spendable_of(before, owner),
{
    assert forall|a: int, b: int| 0 <= a < b < after.len() implies after[a].owner
        != after[b].owner by {
        assert(before[a].owner != before[b].owner);
    }
    assert forall|owner: AccountOwner| owner != before[i].owner implies amounts_of(after, owner)
        == amounts_of(before, owner) && spendable_of(after, owner) == spendable_of(
        before,
        owner,
    ) by {
        if holds(before, owner) {
            let k = row_of(before, owner);
            assert(after[k] == before[k]);
            lemma_lookup_at(before, k);
            lemma_lookup_at(after, k);
        } else {
            if holds(after, owner) {
                let k = row_of(after, owner);
                assert(before[k].owner == owner);
            }
        }
    }
}

/// Where `after` is `before` with one more row, of an account that had none,
/// every other account has kept its chunks and its cache, and the owners are
/// still distinct.
pub proof fn lemma_pushed_row(before: Seq<Account>, after: Seq<Account>)
    requires
        distinct_owners(before),
        after.len() == before.len() + 1,
        after.drop_last() == before,
        !holds(before, after.last().owner),
    ensures
        distinct_owners(after),
        forall|owner: AccountOwner|
            #![trigger amounts_of(after, owner)]
            #![trigger spendable_of(after, owner)]
            owner != after.last().owner ==> amounts_of(after, owner) == amounts_of(before, owner)
                && spendable_of(after, owner) == spendable_of(before, owner),
{
    assert forall|i: int, j: int| 0 <= i < j < after.len() implies after[i].owner
        != after[j].owner by {
        assert(after[i] == before[i]);
        if j < before.len() {
            assert(after[j] == before[j]);
        }
    }
    assert forall|owner: AccountOwner| owner != after.last().owner implies amounts_of(
        after,
        owner,
    ) == amounts_of(before, owner) && spendable_of(after, owner) == spendable_of(
        before,
        owner,
    ) by {
        if holds(before, owner) {
            let k = row_of(before, owner);
            assert(after[k] == before[k]);
            lemma_lookup_at(before, k);
            lemma_lookup_at(after, k);
        } else {
            if holds(after, owner) {
                let k = row_of(after, owner);
                assert(before[k] == after[k]);
            }
        }
    }
}

/// The row `after` is the row `before` swept at `now`: the same account,
/// without the chunks that have expired, its cache less their total.
pub open spec fn swept_row(before: Account, after: Account, now: u64) -> bool {
    &&& after.owner == before.owner
    &&& after.amounts.amounts@ == unexpired(before.amounts.amounts@, now)
    &&& after.spendable == saturating_diff(
        before.spendable,
        clamped(chunk_sum(expired(before.amounts.amounts@, now))),
    )
}

/// Where every row was swept, every account was: also those without a row.
pub proof fn lemma_swept_lookup(before: Seq<Account>, after: Seq<Account>, now: u64)
    requires
        distinct_owners(before),
        before.len() == after.len(),
        forall|k: int| 0 <= k < before.len() ==> swept_row(before[k], #[trigger] after[k], now),
    ensures
        distinct_owners(after),
        forall|owner: AccountOwner|
            #![trigger amounts_of(after, owner)]
            #![trigger spendable_of(after, owner)]
            amounts_of(after, owner) == unexpired(amounts_of(before, owner), now) && spendable_of(
                after,
                owner,
            ) == saturating_diff(
                spendable_of(before, owner),
                clamped(chunk_sum(expired(amounts_of(before, owner), now))),
            ),
{
    assert forall|i: int, j: int| 0 <= i < j < after.len() implies after[i].owner
        != after[j].owner by {
        assert(swept_row(before[i], after[i], now));
        assert(swept_row(before[j], after[j], now));
    }
    assert forall|owner: AccountOwner|
        amounts_of(after, owner) == unexpired(amounts_of(before, owner), now) && spendable_of(
            after,
            owner,
        ) == saturating_diff(
            spendable_of(before, owner),
            clamped(chunk_sum(expired(amounts_of(before, owner), now))),
        ) by {
        reveal(Seq::filter);
        if holds(before, owner) {
            let k = row_of(before, owner);
            assert(swept_row(before[k], after[k], now));
            lemma_lookup_at(before, k);
            lemma_lookup_at(after, k);
        } else {
            if holds(after, owner) {
                let k = row_of(after, owner);
                assert(swept_row(before[k], after[k], now));
            }
        }
    }
}

/// Where every cache was the total of its chunks, a sweep moves exactly the
/// expired amounts out of the caches.
pub proof fn lemma_swept_total(before: Seq<Account>, after: Seq<Account>, now: u64)
    requires
        before.len() == after.len(),
        forall|k: int| 0 <= k < before.len() ==> swept_row(before[k], #[trigger] after[k], now),
        forall|k: int|
            0 <= k < before.len() ==> (#[trigger] before[k]).spendable == chunk_sum(
                before[k].amounts.amounts@,
            ),
    ensures
        total_spendable(after) + total_expired(before, now) == total_spendable(before),
    decreases before.len(),
{
    if before.len() > 0 {
        let last = before.len() - 1;
        assert(swept_row(before[last], after[last], now));
        assert(before[last].spendable == chunk_sum(before[last].amounts.amounts@));
        lemma_expiry_partition(before[last].amounts.amounts@, now);
        assert forall|k: int| 0 <= k < before.drop_last().len() implies swept_row(
            before.drop_last()[k],
            #[trigger] after.drop_last()[k],
            now,
        ) by {
            assert(swept_row(before[k], after[k], now));
        }
        assert forall|k: int| 0 <= k < before.drop_last().len() implies (
        #[trigger] before.drop_last()[k]).spendable == chunk_sum(
            before.drop_last()[k].amounts.amounts@,
        ) by {
            assert(before[k].spendable == chunk_sum(before[k].amounts.amounts@));
        }
        lemma_swept_total(before.drop_last(), after.drop_last(), now);
    }
}

/// The caches of two different accounts together are no more than the total.
pub proof fn lemma_two_caches_within_total(rows: Seq<Account>, a: AccountOwner, b: AccountOwner)
    requires
        a != b,
    ensures
        spendable_of(rows, a) + spendable_of(rows, b) <= total_spendable(rows),
{
    if holds(rows, a) && holds(rows, b) {
        lemma_two_rows_within_total(rows, row_of(rows, a), row_of(rows, b));
    } else {
        lemma_cache_within_total(rows, a);
        lemma_cache_within_total(rows, b);
    }
}

/// The caches of two different rows together are no more than the total.
proof fn lemma_two_rows_within_total(rows: Seq<Account>, i: int, j: int)
    requires
        0 <= i < rows.len(),
        0 <= j < rows.len(),
        i != j,
    ensures
        rows[i].spendable + rows[j].spendable <= total_spendable(rows),
    decreases rows.len(),
{
    let last = rows.len() - 1;
    if i == last {
        lemma_row_within_total(rows.drop_last(), j);
    } else if j == last {
        lemma_row_within_total(rows.drop_last(), i);
    } else {
        lemma_two_rows_within_total(rows.drop_last(), i, j);
    }
}

/// `after` is the allow-list `before` with `ids` granted: it starts with
/// `before`, lists exactly what `before` or `ids` lists, and nothing twice.
pub open spec fn granted(
    before: Seq<ApplicationId>,
    after: Seq<ApplicationId>,
    ids: Seq<ApplicationId>,
) -> bool {
    &&& distinct_callers(after)
    &&& before.len() <= after.len()
    &&& after.take(before.len() as int) == before
    &&& forall|id: ApplicationId|
        #[trigger] after.contains(id) <==> before.contains(id) || ids.contains(id)
}

/// Whether no application occurs twice in `list`.
fn all_distinct(list: &Vec<ApplicationId>) -> (ok: bool)
    ensures
        ok == distinct_callers(list@),
{
    let mut i: usize = 0;
    while i < list.len()
        invariant
            i <= list@.len(),
            forall|a: int, b: int| 0 <= a < b < i ==> list@[a] != list@[b],
        decreases list@.len() - i,
    {
        let mut j: usize = 0;
        while j < i
            invariant
                j <= i < list@.len(),
                forall|a: int| 0 <= a < j ==> list@[a] != list@[i as int],
            decreases i - j,
        {
            if list[j] == list[i] {
                return false;
            }
            j = j + 1;
        }
        i = i + 1;
    }
    true
}

/// Whether `id` occurs in `list`.
fn is_listed(list: &Vec<ApplicationId>, id: ApplicationId) -> (found: bool)
    ensures
        found == list@.contains(id),
{
    let mut i: usize = 0;
    while i < list.len()
        invariant
            i <= list@.len(),
            forall|j: int| 0 <= j < i ==> list@[j] != id,
        decreases list@.len() - i,
    {
        if list[i] == id {
            return true;
        }
        i = i + 1;
    }
    false
}

/// Appends to `list` each of `ids` that it does not hold yet.
fn grant(list: &mut Vec<ApplicationId>, ids: &Vec<ApplicationId>)
    requires
        distinct_callers(old(list)@),
    ensures
        granted(old(list)@, final(list)@, ids@),
{
    let ghost before = list@;
    let mut i: usize = 0;
    proof {
        assert(list@.take(before.len() as int) =~= before);
    }
    while i < ids.len()
        invariant
            i <= ids@.len(),
            distinct_callers(list@),
            before.len() <= list@.len(),
            list@.take(before.len() as int) == before,
            forall|id: ApplicationId|
                #[trigger] list@.contains(id) <==> before.contains(id) || ids@.take(
                    i as int,
                ).contains(id),
        decreases ids@.len() - i,
    {
        let id: ApplicationId = ids[i];
        let ghost held = list@;
        let known: bool = is_listed(list, id);
        if !known {
            list.push(id);
        }
        proof {
            let now = list@;
            let seen = ids@.take(i as int);
            let next = ids@.take(i + 1);
            assert(next =~= seen.push(id));
            assert(now.take(before.len() as int) =~= held.take(before.len() as int));
            assert forall|other: ApplicationId|
                #[trigger] now.contains(other) <==> before.contains(other) || next.contains(
                    other,
                ) by {
                if now.contains(other) {
                    let k = choose|k: int| 0 <= k < now.len() && now[k] == other;
                    if k < held.len() {
                        assert(held[k] == other);
                        assert(held.contains(other));
                        if seen.contains(other) {
                            let m = choose|m: int| 0 <= m < seen.len() && seen[m] == other;
                            assert(next[m] == other);
                        }
                    } else {
                        assert(next[i as int] == other);
                    }
                }
                if before.contains(other) || next.contains(other) {
                    if before.contains(other) || seen.contains(other) {
                        assert(held.contains(other));
                        let k = choose|k: int| 0 <= k < held.len() && held[k] == other;
                        assert(now[k] == other);
                    } else {
                        let m = choose|m: int| 0 <= m < next.len() && next[m] == other;
                        assert(m == i);
                        if known {
                            assert(held.contains(other));
                            assert(now =~= held);
                        } else {
                            assert(now[held.len() as int] == other);
                        }
                    }
                }
            }
        }
        i = i + 1;
    }
    proof {
        assert(ids@.take(i as int) =~= ids@);
    }
}

/// A store that holds one ledger and offers its operations. A store may
/// fail where the ledger itself would not; it then leaves the ledger as it
/// was.
pub trait StateInterface: Sized {
    type Error;

    /// The ledger that the store holds.
    spec fn ledger(&self) -> CreditState;

    /// Sets the configuration and fills the pool with the whole supply.
    /// Accounts and allow-lists stay as they are.
    fn instantiate(&mut self, argument: InstantiationArgument)
        ensures
            instantiated(&old(self).ledger(), &final(self).ledger(), argument),
    ;

    /// The configuration that the ledger was instantiated with.
    fn instantiation_argument(&self) -> (argument: InstantiationArgument)
        ensures
            argument.initial_supply == self.ledger()._initial_supply,
            argument.amount_alive_ms == self.ledger().amount_alive_ms,
    ;

    /// The supply fixed at instantiation.
    fn initial_supply(&self) -> (supply: u128)
        ensures
            supply == self.ledger()._initial_supply,
    ;

    /// The spendable credit of `owner`: the cached total of its chunks. It
    /// reads the ledger and changes nothing.
    fn balance(&self, owner: AccountOwner) -> (spendable: u128)
        requires
            self.ledger().wf(),
        ensures
            spendable == self.ledger().spendable(owner),
    ;

    /// Issues `amount` of credit to `owner` at the time `now`: one new chunk,
    /// the newest of `owner`, that expires one lifetime after `now`. The
    /// amount is added to the cache of `owner` and taken from the pool. Both
    /// are clamped: the pool stays at zero where it holds less than `amount`.
    fn reward(
        &mut self,
        owner: AccountOwner,
        amount: u128,
        now: u64,
    ) -> (outcome: Result<(), Self::Error>)
        requires
            old(self).ledger().wf(),
        ensures
            outcome is Ok ==> rewarded(&old(self).ledger(), &final(self).ledger(), owner, amount, now),
            outcome is Err ==> final(self).ledger() == old(self).ledger(),
    ;

    /// Reclaims what has expired at `now`: every chunk of every account that
    /// expires before `now` is removed, and its amount goes from the cache of
    /// its account to the pool. The chunks that stay keep their order.
    fn liquidate(&mut self, now: u64)
        requires
            old(self).ledger().wf(),
        ensures
            liquidated(&old(self).ledger(), &final(self).ledger(), now),
    ;

    /// Adds `application_ids` to the applications that may ask for a reward.
    /// None is ever removed, and none is listed twice.
    fn set_reward_callers(&mut self, application_ids: Vec<ApplicationId>)
        requires
            old(self).ledger().wf(),
        ensures
            final(self).ledger().wf(),
            granted(
                old(self).ledger().reward_callers@,
                final(self).ledger().reward_callers@,
                application_ids@,
            ),
            final(self).ledger().transfer_callers == old(self).ledger().transfer_callers,
            final(self).ledger().accounts == old(self).ledger().accounts,
            final(self).ledger()._balance == old(self).ledger()._balance,
            final(self).ledger()._initial_supply == old(self).ledger()._initial_supply,
            final(self).ledger().amount_alive_ms == old(self).ledger().amount_alive_ms,
    ;

    /// Adds `application_ids` to the applications that may ask for a
    /// transfer. None is ever removed, and none is listed twice.
    fn set_transfer_callers(&mut self, application_ids: Vec<ApplicationId>)
        requires
            old(self).ledger().wf(),
        ensures
            final(self).ledger().wf(),
            granted(
                old(self).ledger().transfer_callers@,
                final(self).ledger().transfer_callers@,
                application_ids@,
            ),
            final(self).ledger().reward_callers == old(self).ledger().reward_callers,
            final(self).ledger().accounts == old(self).ledger().accounts,
            final(self).ledger()._balance == old(self).ledger()._balance,
            final(self).ledger()._initial_supply == old(self).ledger()._initial_supply,
            final(self).ledger().amount_alive_ms == old(self).ledger().amount_alive_ms,
    ;

    /// Moves `amount` of spendable credit from `from` to `to` at the time
    /// `now`. It fails, and changes nothing, where `from` holds less than
    /// `amount`. Else the chunks of `from` are consumed oldest first, what is
    /// left of the last one touched is dated anew, and `to` gains one chunk
    /// of `amount`; both new chunks expire one lifetime after `now`. The pool
    /// is not touched.
    fn transfer(
        &mut self,
        from: AccountOwner,
        to: AccountOwner,
        amount: u128,
        now: u64,
    ) -> (outcome: Result<(), Self::Error>)
        requires
            old(self).ledger().wf(),
        ensures
            old(self).ledger().spendable(from) < amount ==> outcome is Err,
            outcome is Err ==> final(self).ledger() == old(self).ledger(),
            outcome is Ok ==> transferred(
                &old(self).ledger(),
                &final(self).ledger(),
                from,
                to,
                amount,
                now,
            ),
    ;
}

impl StateInterface for CreditState {
    type Error = CreditError;

    open spec fn ledger(&self) -> CreditState {
        *self
    }

    fn instantiate(&mut self, argument: InstantiationArgument)
        ensures
            instantiated(old(self), final(self), argument),
            old(self).wf() ==> final(self).wf(),
            old(self).consistent() && total_spendable(old(self).accounts@) == 0
                ==> final(self).sound(),
    {
        self._initial_supply = argument.initial_supply;
        self._balance = argument.initial_supply;
        self.amount_alive_ms = argument.amount_alive_ms;
    }

    fn instantiation_argument(&self) -> (argument: InstantiationArgument)
        ensures
            argument.initial_supply == self._initial_supply,
            argument.amount_alive_ms == self.amount_alive_ms,
    {
        InstantiationArgument {
            initial_supply: self._initial_supply,
            amount_alive_ms: self.amount_alive_ms,
        }
    }

    fn initial_supply(&self) -> (supply: u128)
        ensures
            supply == self._initial_supply,
    {
        self._initial_supply
    }

    fn balance(&self, owner: AccountOwner) -> (spendable: u128)
        ensures
            spendable == self.spendable(owner),
            self.consistent() ==> spendable == chunk_sum(self.amounts(owner)),
    {
        match self.find(owner) {
            Some(i) => {
                proof {
                    lemma_lookup_at(self.accounts@, i as int);
                }
                self.accounts[i].spendable
            },
            None => 0,
        }
    }

    fn reward(
        &mut self,
        owner: AccountOwner,
        amount: u128,
        now: u64,
    ) -> (outcome: Result<(), CreditError>)
        ensures
            outcome is Ok,
            rewarded(old(self), final(self), owner, amount, now),
            old(self).sound() && amount <= old(self)._balance ==> final(self).sound(),
    {
        let expired: u64 = timestamp_saturating_add(now, self.amount_alive_ms);
        let chunk = AgeAmount { amount, expired };
        self.credit(owner, chunk);
        self._balance = amount_saturating_sub(self._balance, amount);
        proof {
            if old(self).sound() && amount <= old(self)._balance {
                lemma_reward_keeps_supply(old(self), self, owner, amount, now);
            }
        }
        Ok(())
    }

    fn transfer(
        &mut self,
        from: AccountOwner,
        to: AccountOwner,
        amount: u128,
        now: u64,
    ) -> (outcome: Result<(), CreditError>)
        ensures
            old(self).spendable(from) < amount <==> outcome is Err,
            outcome is Err ==> outcome == Err::<(), CreditError>(
                CreditError::InsufficientAccountBalance,
            ) && *final(self) == *old(self),
            outcome is Ok ==> transferred(old(self), final(self), from, to, amount, now),
            old(self).sound() ==> final(self).sound(),
    {
        let available: u128 = self.balance(from);
        if available < amount {
            return Err(CreditError::InsufficientAccountBalance);
        }
        let expired: u64 = timestamp_saturating_add(now, self.amount_alive_ms);
        let chunk = AgeAmount { amount, expired };
        self.debit(from, amount, expired);
        let ghost mid = *self;
        self.credit(to, chunk);
        proof {
            let before = old(self).accounts@;
            let after = self.accounts@;
            assert forall|o: AccountOwner| o != from && o != to implies amounts_of(after, o)
                == amounts_of(before, o) && spendable_of(after, o) == spendable_of(
                before,
                o,
            ) by {
                assert(amounts_of(mid.accounts@, o) == amounts_of(before, o));
                assert(spendable_of(mid.accounts@, o) == spendable_of(before, o));
            }
            if old(self).sound() {
                lemma_transfer_keeps_supply(old(self), self, from, to, amount, now);
            }
        }
        Ok(())
    }

    fn liquidate(&mut self, now: u64)
        ensures
            liquidated(old(self), final(self), now),
            forall|owner: AccountOwner|
                #![trigger amounts_of(final(self).accounts@, owner)]
                #![trigger spendable_of(final(self).accounts@, owner)]
                final(self).amounts(owner) == unexpired(old(self).amounts(owner), now)
                    && final(self).spendable(owner) == saturating_diff(
                    old(self).spendable(owner),
                    clamped(chunk_sum(expired(old(self).amounts(owner), now))),
                ),
            old(self).sound() ==> final(self).sound(),
    {
        let ghost before = self.accounts@;
        let ghost pool = self._balance;
        let n: usize = self.accounts.len();
        let mut i: usize = 0;
        while i < n
            invariant
                n == before.len(),
                self.accounts@.len() == n,
                i <= n,
                forall|k: int| 0 <= k < n ==> #[trigger] self.accounts@[k].owner == before[k].owner,
                forall|k: int| i <= k < n ==> #[trigger] self.accounts@[k] == before[k],
                forall|k: int|
                    0 <= k < i ==> swept_row(before[k], #[trigger] self.accounts@[k], now),
                self._balance == clamped(
                    (pool + total_expired(before.take(i as int), now)) as nat,
                ),
                self._initial_supply == old(self)._initial_supply,
                self.amount_alive_ms == old(self).amount_alive_ms,
                self.reward_callers == old(self).reward_callers,
                self.transfer_callers == old(self).transfer_callers,
            decreases n - i,
        {
            let cached: u128 = self.accounts[i].spendable;
            let reclaimed: u128 = self.accounts[i].amounts.sweep(now);
            self.accounts[i].spendable = amount_saturating_sub(cached, reclaimed);
            self._balance = amount_saturating_add(self._balance, reclaimed);
            proof {
                assert(before.take(i + 1).drop_last() =~= before.take(i as int));
            }
            i = i + 1;
        }
        proof {
            let after = self.accounts@;
            assert(before.take(n as int) =~= before);
            lemma_swept_lookup(before, after, now);
            if old(self).sound() {
                lemma_liquidate_keeps_supply(old(self), self, now);
            }
        }
    }

    fn set_reward_callers(&mut self, application_ids: Vec<ApplicationId>)
        ensures
            final(self).wf(),
            granted(old(self).reward_callers@, final(self).reward_callers@, application_ids@),
            final(self).transfer_callers == old(self).transfer_callers,
            final(self).accounts == old(self).accounts,
            final(self)._balance == old(self)._balance,
            final(self)._initial_supply == old(self)._initial_supply,
            final(self).amount_alive_ms == old(self).amount_alive_ms,
    {
        grant(&mut self.reward_callers, &application_ids);
    }

    fn set_transfer_callers(&mut self, application_ids: Vec<ApplicationId>)
        ensures
            final(self).wf(),
            granted(old(self).transfer_callers@, final(self).transfer_callers@, application_ids@),
            final(self).reward_callers == old(self).reward_callers,
            final(self).accounts == old(self).accounts,
            final(self)._balance == old(self)._balance,
            final(self)._initial_supply == old(self)._initial_supply,
            final(self).amount_alive_ms == old(self).amount_alive_ms,
    {
        grant(&mut self.transfer_callers, &application_ids);
    }
}

} // verus!
