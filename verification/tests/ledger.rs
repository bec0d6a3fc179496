use credit::errors::CreditError;
use credit::instantiation_argument::InstantiationArgument;
use credit::state::{Account, CreditState, StateInterface};
use credit::types::AgeAmounts;
use credit::types::{AccountOwner, AgeAmount, ApplicationId, CryptoHash};

const LIFETIME: u64 = 50;

fn hash(n: u64) -> CryptoHash {
    CryptoHash { w0: n, w1: 0, w2: 0, w3: 0 }
}

fn owner(n: u64) -> AccountOwner {
    AccountOwner::Address32(hash(n))
}

fn app(n: u64) -> ApplicationId {
    ApplicationId { application_description_hash: hash(n) }
}

fn chunk(amount: u128, expired: u64) -> AgeAmount {
    AgeAmount { amount, expired }
}

fn ledger(initial_supply: u128) -> CreditState {
    let mut state = CreditState::new();
    state.instantiate(InstantiationArgument { initial_supply, amount_alive_ms: LIFETIME });
    state
}

fn total(state: &CreditState) -> u128 {
    state.accounts.iter().map(|row| row.spendable).sum::<u128>() + state._balance
}

fn caches_match_chunks(state: &CreditState) -> bool {
    state.accounts.iter().all(|row| row.amounts.sum() == row.spendable)
}

#[test]
fn new_ledger_is_empty() {
    let state = CreditState::new();
    assert_eq!(state.initial_supply(), 0);
    assert_eq!(state._balance, 0);
    assert_eq!(state.balance(owner(1)), 0);
    assert!(state.chunks(owner(1)).amounts.is_empty());
}

#[test]
fn instantiate_fills_the_pool() {
    let state = ledger(1000);
    assert_eq!(state.initial_supply(), 1000);
    assert_eq!(state._balance, 1000);
    assert_eq!(state.amount_alive_ms, LIFETIME);
    assert_eq!(
        state.instantiation_argument(),
        InstantiationArgument { initial_supply: 1000, amount_alive_ms: LIFETIME }
    );
}

#[test]
fn reward_issues_one_chunk_from_the_pool() {
    let mut state = ledger(1000);
    assert_eq!(state.reward(owner(1), 30, 100), Ok(()));
    assert_eq!(state.chunks(owner(1)).amounts, vec![chunk(30, 150)]);
    assert_eq!(state.balance(owner(1)), 30);
    assert_eq!(state._balance, 970);
    assert_eq!(state.balance(owner(2)), 0);
    assert_eq!(state.reward(owner(1), 5, 120), Ok(()));
    assert_eq!(state.chunks(owner(1)).amounts, vec![chunk(30, 150), chunk(5, 170)]);
    assert_eq!(state.balance(owner(1)), 35);
    assert_eq!(state._balance, 965);
}

#[test]
fn reward_of_nothing_still_adds_a_chunk() {
    let mut state = ledger(1000);
    assert_eq!(state.reward(owner(1), 0, 100), Ok(()));
    assert_eq!(state.chunks(owner(1)).amounts, vec![chunk(0, 150)]);
    assert_eq!(state.balance(owner(1)), 0);
    assert_eq!(state._balance, 1000);
}

#[test]
fn reward_expiry_is_clamped_at_the_latest_time() {
    let mut state = ledger(1000);
    assert_eq!(state.reward(owner(1), 1, u64::MAX - 10), Ok(()));
    assert_eq!(state.chunks(owner(1)).amounts, vec![chunk(1, u64::MAX)]);
}

#[test]
fn reward_beyond_the_pool_clamps_the_pool_at_zero() {
    let mut state = ledger(100);
    assert_eq!(state.reward(owner(1), 60, 0), Ok(()));
    assert_eq!(total(&state), 100);
    assert_eq!(state.reward(owner(2), 60, 0), Ok(()));
    assert_eq!(state._balance, 0);
    assert_eq!(state.balance(owner(1)), 60);
    assert_eq!(state.balance(owner(2)), 60);
    assert_eq!(total(&state), 120);
    assert!(caches_match_chunks(&state));
}

#[test]
fn reward_clamps_the_cache_at_the_largest_amount() {
    let mut state = ledger(10);
    assert_eq!(state.reward(owner(1), u128::MAX - 1, 0), Ok(()));
    assert_eq!(state.reward(owner(1), 5, 0), Ok(()));
    assert_eq!(state.balance(owner(1)), u128::MAX);
    assert_eq!(state.chunks(owner(1)).amounts, vec![chunk(u128::MAX - 1, 50), chunk(5, 50)]);
}

#[test]
fn transfer_spends_oldest_first() {
    let mut state = ledger(1000);
    let a = owner(1);
    let b = owner(2);
    assert_eq!(state.reward(a, 10, 50), Ok(()));
    assert_eq!(state.reward(a, 5, 150), Ok(()));
    assert_eq!(state.chunks(a).amounts, vec![chunk(10, 100), chunk(5, 200)]);
    assert_eq!(state.transfer(a, b, 12, 150), Ok(()));
    assert_eq!(state.chunks(a).amounts, vec![chunk(3, 150 + LIFETIME)]);
    assert_eq!(state.chunks(b).amounts, vec![chunk(12, 150 + LIFETIME)]);
    assert_eq!(state.balance(a), 3);
    assert_eq!(state.balance(b), 12);
    assert_eq!(state._balance, 985);
    assert_eq!(total(&state), 1000);
}

#[test]
fn transfer_of_more_than_the_balance_changes_nothing() {
    let mut state = ledger(1000);
    let a = owner(1);
    let b = owner(2);
    assert_eq!(state.reward(a, 10, 50), Ok(()));
    assert_eq!(state.reward(b, 4, 60), Ok(()));
    let before = state.clone();
    assert_eq!(state.transfer(a, b, 11, 70), Err(CreditError::InsufficientAccountBalance));
    assert_eq!(state, before);
    assert_eq!(state.transfer(owner(3), b, 1, 70), Err(CreditError::InsufficientAccountBalance));
    assert_eq!(state, before);
}

#[test]
fn transfer_of_the_whole_balance() {
    let mut state = ledger(1000);
    let a = owner(1);
    let b = owner(2);
    assert_eq!(state.reward(a, 10, 50), Ok(()));
    assert_eq!(state.reward(a, 5, 60), Ok(()));
    assert_eq!(state.transfer(a, b, 15, 70), Ok(()));
    assert!(state.chunks(a).amounts.is_empty());
    assert_eq!(state.balance(a), 0);
    assert_eq!(state.chunks(b).amounts, vec![chunk(15, 120)]);
    assert_eq!(state.balance(b), 15);
}

#[test]
fn transfer_to_oneself_redates_the_credit() {
    let mut state = ledger(1000);
    let a = owner(1);
    assert_eq!(state.reward(a, 10, 50), Ok(()));
    assert_eq!(state.reward(a, 5, 60), Ok(()));
    assert_eq!(state.transfer(a, a, 12, 200), Ok(()));
    assert_eq!(state.chunks(a).amounts, vec![chunk(3, 250), chunk(12, 250)]);
    assert_eq!(state.balance(a), 15);
    assert_eq!(total(&state), 1000);
}

#[test]
fn transfer_of_nothing_from_an_unknown_account() {
    let mut state = ledger(1000);
    assert_eq!(state.transfer(owner(1), owner(2), 0, 10), Ok(()));
    assert!(state.chunks(owner(1)).amounts.is_empty());
    assert_eq!(state.chunks(owner(2)).amounts, vec![chunk(0, 60)]);
    assert_eq!(state.balance(owner(2)), 0);
}

#[test]
fn transfer_leaves_other_accounts_alone() {
    let mut state = ledger(1000);
    assert_eq!(state.reward(owner(1), 10, 0), Ok(()));
    assert_eq!(state.reward(owner(2), 20, 0), Ok(()));
    assert_eq!(state.reward(owner(3), 30, 0), Ok(()));
    assert_eq!(state.transfer(owner(1), owner(3), 4, 5), Ok(()));
    assert_eq!(state.chunks(owner(2)).amounts, vec![chunk(20, 50)]);
    assert_eq!(state.balance(owner(2)), 20);
    assert_eq!(state.chunks(owner(3)).amounts, vec![chunk(30, 50), chunk(4, 55)]);
    assert_eq!(state.chunks(owner(1)).amounts, vec![chunk(6, 55)]);
}

#[test]
fn liquidate_reclaims_what_expired() {
    let mut state = ledger(1000);
    let a = owner(1);
    assert_eq!(state.reward(a, 7, 40), Ok(()));
    assert_eq!(state.reward(a, 3, 250), Ok(()));
    assert_eq!(state.chunks(a).amounts, vec![chunk(7, 90), chunk(3, 300)]);
    let pool = state._balance;
    state.liquidate(100);
    assert_eq!(state.chunks(a).amounts, vec![chunk(3, 300)]);
    assert_eq!(state._balance, pool + 7);
    assert_eq!(state.balance(a), 3);
    assert_eq!(total(&state), 1000);
}

#[test]
fn liquidate_sweeps_every_account() {
    let mut state = ledger(1000);
    assert_eq!(state.reward(owner(1), 7, 0), Ok(()));
    assert_eq!(state.reward(owner(2), 5, 10), Ok(()));
    assert_eq!(state.reward(owner(1), 2, 100), Ok(()));
    assert_eq!(state.reward(owner(3), 9, 100), Ok(()));
    state.liquidate(61);
    assert_eq!(state.chunks(owner(1)).amounts, vec![chunk(2, 150)]);
    assert!(state.chunks(owner(2)).amounts.is_empty());
    assert_eq!(state.chunks(owner(3)).amounts, vec![chunk(9, 150)]);
    assert_eq!(state.balance(owner(1)), 2);
    assert_eq!(state.balance(owner(2)), 0);
    assert_eq!(state.balance(owner(3)), 9);
    assert_eq!(state._balance, 1000 - 11);
}

#[test]
fn liquidate_keeps_what_expires_now() {
    let mut state = ledger(1000);
    assert_eq!(state.reward(owner(1), 7, 50), Ok(()));
    state.liquidate(100);
    assert_eq!(state.chunks(owner(1)).amounts, vec![chunk(7, 100)]);
    state.liquidate(101);
    assert!(state.chunks(owner(1)).amounts.is_empty());
    assert_eq!(state._balance, 1000);
}

#[test]
fn liquidate_clamps_the_pool_at_the_largest_amount() {
    let mut state = ledger(u128::MAX);
    assert_eq!(state.reward(owner(1), 10, 0), Ok(()));
    state._balance = u128::MAX - 3;
    state.liquidate(100);
    assert_eq!(state._balance, u128::MAX);
    assert_eq!(state.balance(owner(1)), 0);
}

#[test]
fn supply_is_conserved_over_a_run() {
    let mut state = ledger(500);
    let a = owner(1);
    let b = owner(2);
    let c = AccountOwner::Reserved(7);
    assert_eq!(state.reward(a, 100, 0), Ok(()));
    assert_eq!(total(&state), 500);
    assert_eq!(state.reward(b, 50, 10), Ok(()));
    assert_eq!(total(&state), 500);
    assert_eq!(state.transfer(a, c, 30, 20), Ok(()));
    assert_eq!(total(&state), 500);
    assert_eq!(state.transfer(b, a, 50, 30), Ok(()));
    assert_eq!(total(&state), 500);
    state.liquidate(55);
    assert_eq!(total(&state), 500);
    assert_eq!(state.transfer(c, b, 31, 56), Err(CreditError::InsufficientAccountBalance));
    assert_eq!(total(&state), 500);
    state.liquidate(1000);
    assert_eq!(total(&state), 500);
    assert_eq!(state._balance, 500);
    assert!(caches_match_chunks(&state));
}

#[test]
fn supply_grows_once_the_pool_is_clamped() {
    let mut state = ledger(10);
    assert_eq!(state.reward(owner(1), 25, 0), Ok(()));
    assert_eq!(state._balance, 0);
    assert_eq!(total(&state), 25);
    assert_eq!(state.transfer(owner(1), owner(2), 5, 1), Ok(()));
    assert_eq!(total(&state), 25);
    state.liquidate(1000);
    assert_eq!(state._balance, 25);
    assert_eq!(total(&state), 25);
}

#[test]
fn balance_reads_are_repeatable() {
    let mut state = ledger(1000);
    let a = owner(1);
    assert_eq!(state.reward(a, 10, 0), Ok(()));
    assert_eq!(state.reward(a, 5, 1), Ok(()));
    let first = state.balance(a);
    let second = state.balance(a);
    assert_eq!(first, second);
    assert_eq!(first, state.chunks(a).sum());
    assert_eq!(first, 15);
}

#[test]
fn accounts_of_different_kinds_are_different() {
    let mut state = ledger(1000);
    assert_eq!(state.reward(AccountOwner::Reserved(0), 1, 0), Ok(()));
    assert_eq!(state.reward(AccountOwner::Address20(0, 0), 2, 0), Ok(()));
    assert_eq!(state.reward(AccountOwner::Address32(hash(0)), 3, 0), Ok(()));
    assert_eq!(state.balance(AccountOwner::Reserved(0)), 1);
    assert_eq!(state.balance(AccountOwner::Address20(0, 0)), 2);
    assert_eq!(state.balance(AccountOwner::Address32(hash(0))), 3);
    assert_eq!(state.balance(AccountOwner::Reserved(1)), 0);
}

#[test]
fn callers_are_appended_once() {
    let mut state = ledger(1000);
    assert!(!state.is_reward_caller(app(1)));
    state.set_reward_callers(vec![app(1), app(2), app(1)]);
    assert_eq!(state.reward_callers, vec![app(1), app(2)]);
    state.set_reward_callers(vec![app(3), app(2)]);
    assert_eq!(state.reward_callers, vec![app(1), app(2), app(3)]);
    assert!(state.is_reward_caller(app(1)));
    assert!(state.is_reward_caller(app(3)));
    assert!(!state.is_reward_caller(app(4)));
    assert!(state.transfer_callers.is_empty());
    assert!(!state.is_transfer_caller(app(1)));
    state.set_transfer_callers(vec![app(9)]);
    assert_eq!(state.transfer_callers, vec![app(9)]);
    assert!(state.is_transfer_caller(app(9)));
    assert_eq!(state.reward_callers, vec![app(1), app(2), app(3)]);
}

#[test]
fn error_texts() {
    assert_eq!(CreditError::NotImplemented.message(), "NOT IMPLEMENTED");
    assert_eq!(CreditError::CallerNotAllowed.message(), "Caller not allowed");
    assert_eq!(CreditError::OperationNotAllowed.message(), "Operation not allowed");
    assert_eq!(
        CreditError::SessionsNotSupported.message(),
        "Cross-application sessions not supported"
    );
    assert_eq!(
        CreditError::InsufficientAccountBalance.message(),
        "Insufficient account balance"
    );
    assert_eq!(CreditError::InvalidSigner.message(), "Invalid signer");
    assert_eq!(CreditError::InvalidMessageId.message(), "Invalid message id");
}

#[test]
fn well_formed_states_are_recognised() {
    let mut state = ledger(1000);
    assert!(state.is_wf());
    assert_eq!(state.reward(owner(1), 1, 0), Ok(()));
    assert_eq!(state.reward(owner(2), 1, 0), Ok(()));
    state.set_reward_callers(vec![app(1), app(2)]);
    assert!(state.is_wf());

    let mut twice = state.clone();
    twice.accounts.push(Account { owner: owner(1), amounts: AgeAmounts::new(), spendable: 0 });
    assert!(!twice.is_wf());

    let mut listed_twice = state.clone();
    listed_twice.reward_callers.push(app(1));
    assert!(!listed_twice.is_wf());

    let mut other_list = state.clone();
    other_list.transfer_callers.push(app(5));
    assert!(other_list.is_wf());
    other_list.transfer_callers.push(app(5));
    assert!(!other_list.is_wf());
}
