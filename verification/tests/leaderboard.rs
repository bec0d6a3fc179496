use credit::handlers::{Handler, HandlerError, HandlerOutcome};
use credit::leaderboard::{
    HandlerFactory, InstantiationArgument, LeaderBoardItem, LeaderBoardItemValue,
    LeaderBoardState, Message, Operation, StateError, StateInterface, UpdateValueHandler,
};
use credit::runtime::{AccessControl, ContractRuntimeAdapter, RuntimeError};
use credit::types::{AccountOwner, Candidate, CandidateState, ChainId, CryptoHash};

fn chain(n: u64) -> ChainId {
    ChainId(CryptoHash { w0: 0, w1: 0, w2: 0, w3: n })
}

fn owner(n: u8) -> AccountOwner {
    AccountOwner::Reserved(n)
}

fn item(value: u128, timestamp: u64) -> LeaderBoardItemValue {
    LeaderBoardItemValue { value, timestamp }
}

fn at_home(now: u64) -> ContractRuntimeAdapter {
    ContractRuntimeAdapter::new(chain(1), chain(1), now, None, None)
}

fn away(now: u64) -> ContractRuntimeAdapter {
    ContractRuntimeAdapter::new(chain(2), chain(1), now, None, None)
}

#[test]
fn candidate_starts_as_proposed() {
    assert_eq!(CandidateState::default(), CandidateState::Proposed);
    let candidate = Candidate { owner: owner(1), state: CandidateState::default() };
    assert_eq!(candidate.state, CandidateState::Proposed);
}

#[test]
fn board_configuration() {
    let mut state = LeaderBoardState::new();
    assert_eq!(state.top_k(), 0);
    state.instantiate(InstantiationArgument { top_k: 7 });
    assert_eq!(state.top_k(), 7);
    assert_eq!(state.instantiation_argument(), InstantiationArgument { top_k: 7 });
}

#[test]
fn value_of_an_unknown_account_is_unset() {
    let state = LeaderBoardState::new();
    assert_eq!(state.value(owner(1)), item(0, 0));
    assert_eq!(LeaderBoardItemValue::default(), item(0, 0));
}

#[test]
fn update_sets_one_value() {
    let mut state = LeaderBoardState::new();
    assert_eq!(state.update_value(owner(1), 10, 100), Ok::<(), StateError>(()));
    assert_eq!(state.update_value(owner(2), 20, 200), Ok::<(), StateError>(()));
    assert_eq!(state.value(owner(1)), item(10, 100));
    assert_eq!(state.value(owner(2)), item(20, 200));
    assert_eq!(state.update_value(owner(1), 5, 300), Ok::<(), StateError>(()));
    assert_eq!(state.value(owner(1)), item(5, 300));
    assert_eq!(state.value(owner(2)), item(20, 200));
    assert_eq!(state.value(owner(3)), item(0, 0));
    assert_eq!(state._values.len(), 2);
}

#[test]
fn handler_updates_on_the_home_chain() {
    let mut handler = UpdateValueHandler::new(at_home(42), LeaderBoardState::new(), &owner(1), &9);
    assert_eq!(handler.handle(), Ok(HandlerOutcome { messages: vec![] }));
    assert_eq!(handler.state.value(owner(1)), item(9, 42));
    assert_eq!(handler.runtime, at_home(42));
}

#[test]
fn handler_refuses_on_another_chain() {
    let mut handler = UpdateValueHandler::new(away(42), LeaderBoardState::new(), &owner(1), &9);
    assert_eq!(
        handler.handle(),
        Err(HandlerError::RuntimeError(RuntimeError::PermissionDenied(
            "Only allow application creator".to_string()
        )))
    );
    assert_eq!(handler.state, LeaderBoardState::new());
}

#[test]
fn only_the_home_chain_passes_the_guard() {
    let mut home = at_home(1);
    assert_eq!(home.only_application_creator(), Ok(()));
    assert_eq!(home, at_home(1));
    let mut other = away(1);
    assert_eq!(
        other.only_application_creator(),
        Err(RuntimeError::PermissionDenied("Only allow application creator".to_string()))
    );
    assert_eq!(other, away(1));
}

#[test]
fn board_factory_makes_an_update_handler() {
    let op = Operation::UpdateValue { owner: owner(4), value: 44 };
    assert!(HandlerFactory::handles(Some(&op), None));
    assert_eq!(
        HandlerFactory::new(at_home(1), LeaderBoardState::new(), Some(&op), None),
        Ok(UpdateValueHandler {
            runtime: at_home(1),
            state: LeaderBoardState::new(),
            owner: owner(4),
            value: 44
        })
    );
}

#[test]
fn board_factory_needs_an_operation_or_a_message() {
    assert!(HandlerFactory::handles(None, None));
    assert_eq!(
        HandlerFactory::new(at_home(1), LeaderBoardState::new(), None, None),
        Err(HandlerError::InvalidOperationAndMessage)
    );
    assert!(!HandlerFactory::handles(Some(&Operation::ApproveOperator), None));
    assert!(!HandlerFactory::handles(None, Some(&Message::ApproveOperator)));
}

#[test]
fn well_formed_boards_are_recognised() {
    let mut state = LeaderBoardState::new();
    assert!(state.is_wf());
    assert_eq!(state.update_value(owner(1), 1, 1), Ok::<(), StateError>(()));
    assert_eq!(state.update_value(owner(2), 2, 2), Ok::<(), StateError>(()));
    assert!(state.is_wf());
    state._values.push(LeaderBoardItem { owner: owner(1), value: item(3, 3) });
    assert!(!state.is_wf());
}
