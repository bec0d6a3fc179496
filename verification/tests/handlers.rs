use credit::abi::{Message, Operation};
use credit::handlers::{ContractError, HandlerError, HandlerFactory, HandlerOutcome, TransferHandler};
use credit::runtime::{ContractRuntimeAdapter, RuntimeError};
use credit::state::CreditState;
use credit::types::{AccountOwner, ChainId, CryptoHash};

fn chain(n: u64) -> ChainId {
    ChainId(CryptoHash { w0: n, w1: 1, w2: 2, w3: 3 })
}

fn runtime() -> ContractRuntimeAdapter {
    ContractRuntimeAdapter::new(chain(1), chain(1), 5, None, None)
}

#[test]
fn factory_makes_a_transfer_handler() {
    let op = Operation::Transfer {
        from: AccountOwner::Reserved(1),
        to: AccountOwner::Reserved(2),
        amount: 9,
    };
    assert!(HandlerFactory::handles(Some(&op), None));
    let handler = HandlerFactory::new(runtime(), CreditState::new(), Some(&op), None);
    assert_eq!(
        handler,
        Ok(TransferHandler {
            runtime: runtime(),
            state: CreditState::new(),
            from: AccountOwner::Reserved(1),
            to: AccountOwner::Reserved(2),
            amount: 9,
        })
    );
}

#[test]
fn factory_prefers_the_operation_to_the_message() {
    let op = Operation::Transfer {
        from: AccountOwner::Reserved(1),
        to: AccountOwner::Reserved(2),
        amount: 9,
    };
    let msg = Message::Liquidate;
    assert!(HandlerFactory::handles(Some(&op), Some(&msg)));
    let handler = HandlerFactory::new(runtime(), CreditState::new(), Some(&op), Some(&msg));
    assert!(handler.is_ok());
}

#[test]
fn factory_needs_an_operation_or_a_message() {
    assert!(HandlerFactory::handles(None, None));
    assert_eq!(
        HandlerFactory::new(runtime(), CreditState::new(), None, None),
        Err(HandlerError::InvalidOperationAndMessage)
    );
}

#[test]
fn factory_has_no_handler_for_the_rest() {
    assert!(!HandlerFactory::handles(Some(&Operation::Liquidate), None));
    assert!(!HandlerFactory::handles(Some(&Operation::RequestSubscribe), None));
    assert!(!HandlerFactory::handles(None, Some(&Message::Liquidate)));
}

#[test]
fn transfer_handler_holds_what_it_is_given() {
    let handler = TransferHandler::new(
        runtime(),
        CreditState::new(),
        &AccountOwner::Reserved(3),
        &AccountOwner::Address20(1, 2),
        &77,
    );
    assert_eq!(handler.from, AccountOwner::Reserved(3));
    assert_eq!(handler.to, AccountOwner::Address20(1, 2));
    assert_eq!(handler.amount, 77);
    assert_eq!(handler.runtime, runtime());
    assert_eq!(handler.state, CreditState::new());
}

#[test]
fn handler_errors_wrap_into_contract_errors() {
    assert_eq!(
        ContractError::from(HandlerError::PermissionDenied),
        ContractError::HandlerError(HandlerError::PermissionDenied)
    );
    assert_eq!(
        ContractError::from(HandlerError::RuntimeError(RuntimeError::InvalidAuthenticatedSigner)),
        ContractError::HandlerError(HandlerError::RuntimeError(
            RuntimeError::InvalidAuthenticatedSigner
        ))
    );
}

#[test]
fn default_outcome_has_no_messages() {
    assert_eq!(HandlerOutcome::<Message>::default(), HandlerOutcome { messages: vec![] });
}
