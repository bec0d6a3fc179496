//! Identifiers and the chunk store: the dated sub-balances of one account.
use crate::amount::{amount_saturating_add, amount_saturating_sub, amount_try_add};
use vstd::prelude::*;

verus! {

/// A 256-bit digest, held as four 64-bit words.
#[derive(Clone, Copy, Debug, PartialEq, Eq, Hash, Structural)]
pub struct CryptoHash {
    pub w0: u64,
    pub w1: u64,
    pub w2: u64,
    pub w3: u64,
}

/// The identity of a chain.
#[derive(Clone, Copy, Debug, PartialEq, Eq, Hash, Structural)]
pub struct ChainId(pub CryptoHash);

/// The identity of an application that may call the ledger.
#[derive(Clone, Copy, Debug, PartialEq, Eq, Hash, Structural)]
pub struct ApplicationId {
    pub application_description_hash: CryptoHash,
}

/// The identity of an account. Accounts are never created or destroyed: one
/// exists from the first time it is named.
#[derive(Clone, Copy, Debug, PartialEq, Eq, Hash, Structural)]
pub enum AccountOwner {
    /// A short address reserved for the protocol.
    Reserved(u8),
    /// A 32-byte address.
    Address32(CryptoHash),
    /// A 20-byte address: its first four bytes, then its last sixteen.
    Address20(u32, u128),
}

/// How far the appointment of an operator has come.
#[derive(Clone, Copy, Debug, PartialEq, Eq, Structural)]
pub enum CandidateState {
    Proposed,
    Approved,
    Rejected,
    Confirmed,
}

impl Default for CandidateState {
    fn default() -> (state: CandidateState)
        ensures
            state == CandidateState::Proposed,
    {
        CandidateState::Proposed
    }
}

/// An account put forward as operator, and how far its appointment has come.
#[derive(Clone, Copy, Debug, PartialEq, Eq, Structural)]
pub struct Candidate {
    pub owner: AccountOwner,
    pub state: CandidateState,
}

/// A dated sub-balance: an amount of credit, in attos, and the time, in
/// microseconds, at which it expires.
#[derive(Clone, Copy, Debug, PartialEq, Eq, Structural)]
pub struct AgeAmount {
    pub amount: u128,
    pub expired: u64,
}

/// The chunks of one account, oldest first. The order is the order in which
/// they are spent.
#[derive(Clone, Debug, PartialEq, Eq)]
pub struct AgeAmounts {
    pub amounts: Vec<AgeAmount>,
}

/// The total of the amounts of `chunks`, over the unbounded integers.
pub open spec fn chunk_sum(chunks: Seq<AgeAmount>) -> nat
    decreases chunks.len(),
{
    if chunks.len() == 0 {
        0
    } else {
        chunk_sum(chunks.drop_last()) + chunks.last().amount as nat
    }
}

/// `total`, clamped at the largest amount.
pub open spec fn clamped(total: nat) -> u128 {
    if total > u128::MAX {
        u128::MAX
    } else {
        total as u128
    }
}

/// The total of the first `k + 1` chunks is the total of the first `k` and
/// the amount of the chunk at `k`.
pub proof fn lemma_chunk_sum_take(chunks: Seq<AgeAmount>, k: int)
    requires
        0 <= k < chunks.len(),
    ensures
        chunk_sum(chunks.take(k + 1)) == chunk_sum(chunks.take(k)) + chunks[k].amount,
{
    assert(chunks.take(k + 1).drop_last() =~= chunks.take(k));
}

/// The total of a sequence is the total of any prefix and of what follows it.
pub proof fn lemma_chunk_sum_split(chunks: Seq<AgeAmount>, k: int)
    requires
        0 <= k <= chunks.len(),
    ensures
        chunk_sum(chunks) == chunk_sum(chunks.take(k)) + chunk_sum(chunks.skip(k)),
    decreases chunks.len(),
{
    if k == chunks.len() {
        assert(chunks.take(k) =~= chunks);
        assert(chunks.skip(k) =~= Seq::<AgeAmount>::empty());
    } else {
        lemma_chunk_sum_split(chunks.drop_last(), k);
        assert(chunks.drop_last().take(k) =~= chunks.take(k));
        assert(chunks.drop_last().skip(k) =~= chunks.skip(k).drop_last());
    }
}

/// The number of chunks that a spend of `amount` removes, counted from `k`:
/// the walk stops at the first prefix whose total reaches `amount`, or at the
/// end of the sequence.
pub open spec fn crossing_from(chunks: Seq<AgeAmount>, amount: u128, k: nat) -> nat
    decreases chunks.len() - k,
{
    if k >= chunks.len() || chunk_sum(chunks.take(k as int)) >= amount {
        k
    } else {
        crossing_from(chunks, amount, k + 1)
    }
}

/// The number of chunks, oldest first, that a spend of `amount` removes.
pub open spec fn crossing(chunks: Seq<AgeAmount>, amount: u128) -> nat {
    crossing_from(chunks, amount, 0)
}

/// What a spend of `amount` leaves of the last chunk it removes: the total
/// consumed, clamped at the largest amount, less `amount`.
pub open spec fn remainder(chunks: Seq<AgeAmount>, amount: u128) -> u128 {
    let consumed = clamped(chunk_sum(chunks.take(crossing(chunks, amount) as int)));
    if consumed > amount {
        (consumed - amount) as u128
    } else {
        0
    }
}

/// The chunks left after a spend of `amount`: those behind the crossing,
/// untouched, followed by the remainder, if any, as one chunk that expires at
/// `expired`.
pub open spec fn spent(chunks: Seq<AgeAmount>, amount: u128, expired: u64) -> Seq<AgeAmount> {
    let rest = chunks.skip(crossing(chunks, amount) as int);
    let left = remainder(chunks, amount);
    if left > 0 {
        rest.push(AgeAmount { amount: left, expired })
    } else {
        rest
    }
}

/// The chunks of `chunks` that have not expired at `now`, in their order.
pub open spec fn unexpired(chunks: Seq<AgeAmount>, now: u64) -> Seq<AgeAmount> {
    chunks.filter(|c: AgeAmount| c.expired >= now)
}

/// The chunks of `chunks` that have expired at `now`, in their order.
pub open spec fn expired(chunks: Seq<AgeAmount>, now: u64) -> Seq<AgeAmount> {
    chunks.filter(|c: AgeAmount| c.expired < now)
}

/// The crossing is the least prefix whose total reaches `amount`, and the
/// whole sequence where no prefix does.
pub proof fn lemma_crossing_is_least(chunks: Seq<AgeAmount>, amount: u128)
    ensures
        crossing(chunks, amount) <= chunks.len(),
        forall|j: int|
            0 <= j < crossing(chunks, amount) ==> chunk_sum(#[trigger] chunks.take(j)) < amount,
        crossing(chunks, amount) < chunks.len() ==> chunk_sum(
            chunks.take(crossing(chunks, amount) as int),
        ) >= amount,
{
    lemma_crossing_from_least(chunks, amount, 0);
}

/// The same, for a walk that starts at `k` after prefixes that all fall
/// short of `amount`.
proof fn lemma_crossing_from_least(chunks: Seq<AgeAmount>, amount: u128, k: nat)
    requires
        k <= chunks.len(),
        forall|j: int| 0 <= j < k ==> chunk_sum(#[trigger] chunks.take(j)) < amount,
    ensures
        crossing_from(chunks, amount, k) <= chunks.len(),
        forall|j: int|
            0 <= j < crossing_from(chunks, amount, k) ==> chunk_sum(#[trigger] chunks.take(j))
                < amount,
        crossing_from(chunks, amount, k) < chunks.len() ==> chunk_sum(
            chunks.take(crossing_from(chunks, amount, k) as int),
        ) >= amount,
    decreases chunks.len() - k,
{
    if !(k >= chunks.len() || chunk_sum(chunks.take(k as int)) >= amount) {
        lemma_crossing_from_least(chunks, amount, k + 1);
    }
}

/// Splitting a sequence by expiry loses nothing: the totals of the expired
/// and of the unexpired chunks add up to the total of all.
pub proof fn lemma_expiry_partition(chunks: Seq<AgeAmount>, now: u64)
    ensures
        chunk_sum(chunks) == chunk_sum(unexpired(chunks, now)) + chunk_sum(expired(chunks, now)),
    decreases chunks.len(),
{
    reveal(Seq::filter);
    if chunks.len() > 0 {
        lemma_expiry_partition(chunks.drop_last(), now);
        let live = |c: AgeAmount| c.expired >= now;
        let dead = |c: AgeAmount| c.expired < now;
        if chunks.last().expired >= now {
            assert(chunks.filter(live).drop_last() =~= chunks.drop_last().filter(live));
        } else {
            assert(chunks.filter(dead).drop_last() =~= chunks.drop_last().filter(dead));
        }
    }
}

/// After a sweep at `now` no chunk is left that expires before `now`, and a
/// second sweep at the same time finds nothing to remove.
pub proof fn lemma_sweep_leaves_no_expired(chunks: Seq<AgeAmount>, now: u64)
    ensures
        forall|i: int|
            0 <= i < unexpired(chunks, now).len() ==> (#[trigger] unexpired(
                chunks,
                now,
            )[i]).expired >= now,
        unexpired(unexpired(chunks, now), now) == unexpired(chunks, now),
        chunk_sum(expired(unexpired(chunks, now), now)) == 0,
    decreases chunks.len(),
{
    reveal(Seq::filter);
    if chunks.len() > 0 {
        lemma_sweep_leaves_no_expired(chunks.drop_last(), now);
        let rest = unexpired(chunks.drop_last(), now);
        if chunks.last().expired >= now {
            let kept = rest.push(chunks.last());
            assert(kept.drop_last() =~= rest);
            assert(unexpired(chunks, now) == kept);
        }
    }
}

/// Where the total of an entry fits in an amount, a spend of no more than
/// that total removes exactly `amount` from it.
pub proof fn lemma_spent_sum(chunks: Seq<AgeAmount>, amount: u128, expired: u64)
    requires
        amount <= chunk_sum(chunks) <= u128::MAX,
    ensures
        chunk_sum(spent(chunks, amount, expired)) == chunk_sum(chunks) - amount,
{
    lemma_crossing_is_least(chunks, amount);
    let k = crossing(chunks, amount) as int;
    lemma_chunk_sum_split(chunks, k);
    if k == chunks.len() {
        assert(chunks.take(k) =~= chunks);
    }
    let rest = chunks.skip(k);
    let left = remainder(chunks, amount);
    if left > 0 {
        assert(rest.push(AgeAmount { amount: left, expired }).drop_last() =~= rest);
    }
}

impl AgeAmounts {
    /// An entry without chunks.
    pub fn new() -> (entry: Self)
        ensures
            entry.amounts@ == Seq::<AgeAmount>::empty(),
    {
        AgeAmounts { amounts: Vec::new() }
    }

    /// The total of the chunks. The total must fit in an amount.
    pub fn sum(&self) -> (total: u128)
        requires
            chunk_sum(self.amounts@) <= u128::MAX,
        ensures
            total == chunk_sum(self.amounts@),
    {
        let mut total: u128 = 0;
        let mut i: usize = 0;
        while i < self.amounts.len()
            invariant
                i <= self.amounts.len(),
                total == chunk_sum(self.amounts@.take(i as int)),
                chunk_sum(self.amounts@) <= u128::MAX,
            decreases self.amounts.len() - i,
        {
            proof {
                lemma_chunk_sum_take(self.amounts@, i as int);
                lemma_chunk_sum_split(self.amounts@, i + 1);
            }
            match amount_try_add(total, self.amounts[i].amount) {
                Some(next) => {
                    total = next;
                },
                None => {},
            }
            i = i + 1;
        }
        proof {
            assert(self.amounts@.take(i as int) =~= self.amounts@);
        }
        total
    }

    /// Appends one chunk as the newest.
    pub fn push(&mut self, chunk: AgeAmount)
        ensures
            final(self).amounts@ == old(self).amounts@.push(chunk),
    {
        self.amounts.push(chunk);
    }

    /// Consumes `amount` from the chunks, oldest first. Every chunk up to the
    /// one at which the running total reaches `amount` is removed; what is
    /// left of that one comes back as a single new chunk, the newest, that
    /// expires at `expired`. The chunks behind it stay as they are.
    pub fn spend(&mut self, amount: u128, expired: u64)
        ensures
            final(self).amounts@ == spent(old(self).amounts@, amount, expired),
    {
        let ghost chunks = self.amounts@;
        let n: usize = self.amounts.len();
        let mut i: usize = 0;
        let mut consumed: u128 = 0;
        while i < n && consumed < amount
            invariant
                n == chunks.len(),
                self.amounts@ == chunks,
                i <= n,
                consumed == clamped(chunk_sum(chunks.take(i as int))),
                crossing_from(chunks, amount, i as nat) == crossing(chunks, amount),
            decreases n - i,
        {
            proof {
                lemma_chunk_sum_take(chunks, i as int);
            }
            consumed = amount_saturating_add(consumed, self.amounts[i].amount);
            i = i + 1;
        }
        let mut kept: Vec<AgeAmount> = self.amounts.split_off(i);
        if consumed > amount {
            kept.push(AgeAmount { amount: amount_saturating_sub(consumed, amount), expired });
        }
        self.amounts = kept;
        proof {
            assert(chunks.subrange(i as int, n as int) =~= chunks.skip(i as int));
        }
    }

    /// Removes every chunk that expires before `now` and returns the total
    /// of the removed amounts, clamped at the largest amount. The others keep
    /// their order.
    pub fn sweep(&mut self, now: u64) -> (reclaimed: u128)
        ensures
            final(self).amounts@ == unexpired(old(self).amounts@, now),
            reclaimed == clamped(chunk_sum(expired(old(self).amounts@, now))),
    {
        let ghost chunks = self.amounts@;
        let n: usize = self.amounts.len();
        let mut kept: Vec<AgeAmount> = Vec::new();
        let mut reclaimed: u128 = 0;
        let mut i: usize = 0;
        proof {
            reveal(Seq::filter);
            assert(chunks.take(0) =~= Seq::<AgeAmount>::empty());
        }
        while i < n
            invariant
                n == chunks.len(),
                self.amounts@ == chunks,
                i <= n,
                kept@ == unexpired(chunks.take(i as int), now),
                reclaimed == clamped(chunk_sum(expired(chunks.take(i as int), now))),
            decreases n - i,
        {
            let chunk: AgeAmount = self.amounts[i];
            proof {
                reveal(Seq::filter);
                assert(chunks.take(i + 1).drop_last() =~= chunks.take(i as int));
                let dead = expired(chunks.take(i + 1), now);
                if chunk.expired < now {
                    assert(dead.drop_last() =~= expired(chunks.take(i as int), now));
                }
            }
            if chunk.expired < now {
                reclaimed = amount_saturating_add(reclaimed, chunk.amount);
            } else {
                kept.push(chunk);
            }
            i = i + 1;
        }
        proof {
            assert(chunks.take(n as int) =~= chunks);
        }
        self.amounts = kept;
        reclaimed
    }
}

} // verus!
