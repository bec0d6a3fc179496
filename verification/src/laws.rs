//! What holds of the ledger whatever is done to it: the two invariants, kept
//! by every operation and by every run of operations, and what the router
//! never lets through.
use crate::abi::{Message, Operation};
use crate::amount::expiry;
use crate::contract::{delivered, routed, submitted, CreditContract};
use crate::errors::CreditError;
use crate::state::{
    amounts_of, lemma_cache_within_total, lemma_lookup_at, lemma_swept_lookup, lemma_swept_total,
    lemma_two_caches_within_total, liquidated, rewarded, spendable_of, total_expired,
    total_spendable, transferred, CreditState,
};
use crate::types::{
    chunk_sum, lemma_expiry_partition, lemma_spent_sum, AccountOwner, AgeAmount, ApplicationId,
};
use vstd::prelude::*;

verus! {

/// One operation of the ledger engine, with the time at which it is applied.
pub enum Step {
    Reward { owner: AccountOwner, amount: u128, now: u64 },
    Transfer { from: AccountOwner, to: AccountOwner, amount: u128, now: u64 },
    Liquidate { now: u64 },
}

/// `after` is what `step` makes of `before`. A transfer of more than its
/// source holds makes no change.
pub open spec fn applied(before: &CreditState, after: &CreditState, step: Step) -> bool {
    match step {
        Step::Reward { owner, amount, now } => rewarded(before, after, owner, amount, now),
        Step::Transfer { from, to, amount, now } => if before.spendable(from) < amount {
            *after == *before
        } else {
            transferred(before, after, from, to, amount, now)
        },
        Step::Liquidate { now } => liquidated(before, after, now),
    }
}

/// The pool of `state` covers `step`: it is no reward of more than the pool
/// holds.
pub open spec fn covered(state: &CreditState, step: Step) -> bool {
    step matches Step::Reward { amount, .. } ==> amount <= state._balance
}

/// A reward that the pool covers keeps both invariants: the cache of every
/// account is the total of its chunks, and pool and caches together make up
/// the initial supply.
pub proof fn lemma_reward_keeps_supply(
    before: &CreditState,
    after: &CreditState,
    owner: AccountOwner,
    amount: u128,
    now: u64,
)
    requires
        before.wf(),
        before.sound(),
        rewarded(before, after, owner, amount, now),
        amount <= before._balance,
    ensures
        after.wf(),
        after.sound(),
{
    let rows = before.accounts@;
    let chunk = AgeAmount { amount, expired: expiry(now, before.amount_alive_ms) };
    let entry = amounts_of(rows, owner);
    lemma_cache_within_total(rows, owner);
    assert(entry.push(chunk).drop_last() =~= entry);
    assert forall|o: AccountOwner|
        spendable_of(after.accounts@, o) == chunk_sum(amounts_of(after.accounts@, o)) by {
        assert(spendable_of(rows, o) == chunk_sum(amounts_of(rows, o)));
    }
}

/// A reward of more than the pool holds empties the pool, and pool and
/// caches together then exceed the initial supply by what the pool lacked.
pub proof fn lemma_reward_beyond_pool(
    before: &CreditState,
    after: &CreditState,
    owner: AccountOwner,
    amount: u128,
    now: u64,
)
    requires
        before.wf(),
        before.conserved(),
        rewarded(before, after, owner, amount, now),
        amount > before._balance,
        before.spendable(owner) + amount <= u128::MAX,
    ensures
        after._balance == 0,
        after._balance + total_spendable(after.accounts@) == after._initial_supply + (amount
            - before._balance),
{
}

/// A transfer that its source can pay keeps both invariants.
pub proof fn lemma_transfer_keeps_supply(
    before: &CreditState,
    after: &CreditState,
    from: AccountOwner,
    to: AccountOwner,
    amount: u128,
    now: u64,
)
    requires
        before.wf(),
        before.sound(),
        transferred(before, after, from, to, amount, now),
        amount <= before.spendable(from),
    ensures
        after.wf(),
        after.sound(),
{
    let rows = before.accounts@;
    let expired = expiry(now, before.amount_alive_ms);
    let chunk = AgeAmount { amount, expired };
    let entry = amounts_of(rows, from);
    assert(spendable_of(rows, from) == chunk_sum(entry));
    assert(spendable_of(rows, to) == chunk_sum(amounts_of(rows, to)));
    lemma_spent_sum(entry, amount, expired);
    if from != to {
        lemma_two_caches_within_total(rows, from, to);
        let held = amounts_of(rows, to);
        assert(held.push(chunk).drop_last() =~= held);
    } else {
        lemma_cache_within_total(rows, from);
        let left = crate::types::spent(entry, amount, expired);
        assert(left.push(chunk).drop_last() =~= left);
    }
    assert forall|o: AccountOwner|
        spendable_of(after.accounts@, o) == chunk_sum(amounts_of(after.accounts@, o)) by {
        assert(spendable_of(rows, o) == chunk_sum(amounts_of(rows, o)));
    }
}

/// A sweep keeps both invariants: what leaves the caches is what enters the
/// pool.
pub proof fn lemma_liquidate_keeps_supply(before: &CreditState, after: &CreditState, now: u64)
    requires
        before.wf(),
        before.sound(),
        liquidated(before, after, now),
    ensures
        after.wf(),
        after.sound(),
        total_spendable(after.accounts@) + total_expired(before.accounts@, now) == total_spendable(
            before.accounts@,
        ),
{
    let rows = before.accounts@;
    let swept = after.accounts@;
    lemma_swept_lookup(rows, swept, now);
    assert forall|k: int| 0 <= k < rows.len() implies (#[trigger] rows[k]).spendable == chunk_sum(
        rows[k].amounts.amounts@,
    ) by {
        lemma_lookup_at(rows, k);
        assert(spendable_of(rows, rows[k].owner) == chunk_sum(amounts_of(rows, rows[k].owner)));
    }
    lemma_swept_total(rows, swept, now);
    assert forall|o: AccountOwner| spendable_of(swept, o) == chunk_sum(amounts_of(swept, o)) by {
        assert(spendable_of(rows, o) == chunk_sum(amounts_of(rows, o)));
        lemma_expiry_partition(amounts_of(rows, o), now);
    }
}

/// Any one operation that the pool covers keeps both invariants.
pub proof fn lemma_step_keeps_supply(before: &CreditState, after: &CreditState, step: Step)
    requires
        before.wf(),
        before.sound(),
        applied(before, after, step),
        covered(before, step),
    ensures
        after.wf(),
        after.sound(),
{
    match step {
        Step::Reward { owner, amount, now } => {
            lemma_reward_keeps_supply(before, after, owner, amount, now);
        },
        Step::Transfer { from, to, amount, now } => {
            if before.spendable(from) >= amount {
                lemma_transfer_keeps_supply(before, after, from, to, amount, now);
            }
        },
        Step::Liquidate { now } => {
            lemma_liquidate_keeps_supply(before, after, now);
        },
    }
}

/// Conservation: along any run of rewards, transfers and sweeps that starts
/// from a ledger in which both invariants hold, and in which the pool covers
/// every reward, both invariants hold after every operation.
pub proof fn lemma_conservation(states: Seq<CreditState>, steps: Seq<Step>)
    requires
        states.len() == steps.len() + 1,
        states[0].wf(),
        states[0].sound(),
        forall|i: int|
            0 <= i < steps.len() ==> applied(&states[i], &#[trigger] states[i + 1], steps[i])
                && covered(&states[i], steps[i]),
    ensures
        forall|i: int| 0 <= i < states.len() ==> (#[trigger] states[i]).wf() && states[i].sound(),
{
    assert forall|i: int| 0 <= i < states.len() implies (#[trigger] states[i]).wf()
        && states[i].sound() by {
        lemma_conservation_upto(states, steps, i);
    }
}

/// Both invariants hold after the first `n` operations of such a run.
proof fn lemma_conservation_upto(states: Seq<CreditState>, steps: Seq<Step>, n: int)
    requires
        states.len() == steps.len() + 1,
        states[0].wf(),
        states[0].sound(),
        forall|i: int|
            0 <= i < steps.len() ==> applied(&states[i], &#[trigger] states[i + 1], steps[i])
                && covered(&states[i], steps[i]),
        0 <= n < states.len(),
    ensures
        states[n].wf(),
        states[n].sound(),
    decreases n,
{
    if n > 0 {
        lemma_conservation_upto(states, steps, n - 1);
        assert(applied(&states[n - 1], &states[n - 1 + 1], steps[n - 1]));
        lemma_step_keeps_supply(&states[n - 1], &states[n], steps[n - 1]);
    }
}

/// Reads: while both invariants hold, the spendable credit of an account is
/// the total of the chunks that it holds at that moment.
pub proof fn lemma_balance_is_chunk_total(state: &CreditState, owner: AccountOwner)
    requires
        state.consistent(),
    ensures
        state.spendable(owner) == chunk_sum(state.amounts(owner)),
{
    assert(spendable_of(state.accounts@, owner) == chunk_sum(amounts_of(state.accounts@, owner)));
}

/// Authorization: a change of an allow-list that the home chain did not send
/// itself is refused, with `OperationNotAllowed` where another chain sent it,
/// and ledger and allow-lists are as they were.
pub proof fn lemma_foreign_grant_is_refused(
    before: &CreditContract,
    after: &CreditContract,
    message: Message,
    outcome: Result<(), CreditError>,
)
    requires
        message is SetRewardCallers || message is SetTransferCallers,
        delivered(before, after, message, outcome),
        before.runtime.message_origin_chain_id != Some(
            before.runtime.application_creator_chain_id,
        ),
    ensures
        *after == *before,
        outcome is Err,
        before.runtime.message_origin_chain_id is Some ==> outcome == Err::<(), CreditError>(
            CreditError::OperationNotAllowed,
        ),
        before.runtime.message_origin_chain_id is None ==> outcome == Err::<(), CreditError>(
            CreditError::InvalidMessageId,
        ),
{
}

/// Authorization: a change of the reward allow-list that is submitted on any
/// chain but the home chain is refused with `OperationNotAllowed`, and
/// nothing is sent.
pub proof fn lemma_remote_submission_is_refused(
    before: &CreditContract,
    after: &CreditContract,
    application_ids: Vec<ApplicationId>,
    outcome: Result<(), CreditError>,
)
    requires
        submitted(before, after, Operation::SetRewardCallers { application_ids }, outcome),
        before.runtime.chain_id != before.runtime.application_creator_chain_id,
    ensures
        *after == *before,
        outcome == Err::<(), CreditError>(CreditError::OperationNotAllowed),
{
}

/// Insufficient balance: a transfer of more than its source holds is refused
/// with `InsufficientAccountBalance`, and every entry and every cache is as
/// it was.
pub proof fn lemma_unpaid_transfer_is_refused(
    before: &CreditContract,
    after: &CreditContract,
    from: AccountOwner,
    to: AccountOwner,
    amount: u128,
    outcome: Result<(), CreditError>,
)
    requires
        delivered(before, after, Message::Transfer { from, to, amount }, outcome),
        before.state.spendable(from) < amount,
    ensures
        *after == *before,
        outcome == Err::<(), CreditError>(CreditError::InsufficientAccountBalance),
{
}

/// Single writer: submitting an intent never changes the ledger. An accepted
/// intent adds one message to the outbox, its command, authenticated and
/// addressed to the home chain; a refused one adds none.
pub proof fn lemma_submission_only_sends(
    before: &CreditContract,
    after: &CreditContract,
    operation: Operation,
    outcome: Result<(), CreditError>,
)
    requires
        submitted(before, after, operation, outcome),
    ensures
        after.state == before.state,
        outcome is Err ==> after.runtime.outbox@ == before.runtime.outbox@,
        outcome is Ok ==> {
            let sent = after.runtime.outbox@;
            &&& sent.len() == before.runtime.outbox@.len() + 1
            &&& sent.drop_last() == before.runtime.outbox@
            &&& sent.last().destination == before.runtime.application_creator_chain_id
            &&& sent.last().authenticated
            &&& sent.last().message == routed(operation)
        },
{
    if outcome is Ok {
        let sent = after.runtime.outbox@;
        assert(sent.drop_last() =~= before.runtime.outbox@);
    }
}

/// No revocation: whatever message is delivered, each allow-list still
/// starts with what it held before.
pub proof fn lemma_allow_lists_only_grow(
    before: &CreditContract,
    after: &CreditContract,
    message: Message,
    outcome: Result<(), CreditError>,
)
    requires
        delivered(before, after, message, outcome),
    ensures
        before.state.reward_callers@.len() <= after.state.reward_callers@.len(),
        after.state.reward_callers@.take(before.state.reward_callers@.len() as int)
            == before.state.reward_callers@,
        before.state.transfer_callers@.len() <= after.state.transfer_callers@.len(),
        after.state.transfer_callers@.take(before.state.transfer_callers@.len() as int)
            == before.state.transfer_callers@,
{
    let reward = before.state.reward_callers@;
    let transfer = before.state.transfer_callers@;
    assert(reward.take(reward.len() as int) =~= reward);
    assert(transfer.take(transfer.len() as int) =~= transfer);
}

} // verus!
