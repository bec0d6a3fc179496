//! Handlers: one object for each intent that knows how to carry it out.
//! Only the transfer between two named accounts has a handler so far.
use crate::abi::{Message, Operation};
use crate::runtime::{ContractRuntimeAdapter, RuntimeError};
use crate::state::CreditState;
use crate::types::AccountOwner;
use vstd::prelude::*;
use vstd::std_specs::convert::FromSpecImpl;

verus! {

/// Why no handler could be made, or why one refused to run.
#[derive(Clone, Debug, PartialEq, Eq)]
pub enum HandlerError {
    /// Neither an operation nor a message was given.
    InvalidOperationAndMessage,
    /// Only an authenticated signer is allowed.
    UnauthenticatedSigner,
    /// Permission denied.
    PermissionDenied,
    /// The runtime refused.
    RuntimeError(RuntimeError),
}

/// An error of the contract.
#[derive(Clone, Debug, PartialEq, Eq)]
pub enum ContractError {
    HandlerError(HandlerError),
}

impl From<HandlerError> for ContractError {
    fn from(error: HandlerError) -> (wrapped: ContractError) {
        ContractError::HandlerError(error)
    }
}

impl FromSpecImpl<HandlerError> for ContractError {
    open spec fn obeys_from_spec() -> bool {
        true
    }

    open spec fn from_spec(error: HandlerError) -> ContractError {
        ContractError::HandlerError(error)
    }
}

/// What a handler leaves to be done: the messages to send, oldest first.
#[derive(Clone, Debug, PartialEq, Eq)]
pub struct HandlerOutcome<M> {
    pub messages: Vec<M>,
}

impl<M> Default for HandlerOutcome<M> {
    fn default() -> (outcome: HandlerOutcome<M>)
        ensures
            outcome.messages@.len() == 0,
    {
        HandlerOutcome { messages: Vec::new() }
    }
}

/// What carries out one intent or one command.
pub trait Handler: Sized {
    /// The messages that the handler may leave to be sent.
    type Message;

    /// Whether the handler is fit to run.
    spec fn ready(&self) -> bool;

    /// What running the handler makes of it, and what it answers.
    spec fn handled(
        before: &Self,
        after: &Self,
        outcome: Result<HandlerOutcome<Self::Message>, HandlerError>,
    ) -> bool;

    /// Runs the handler.
    fn handle(&mut self) -> (outcome: Result<HandlerOutcome<Self::Message>, HandlerError>)
        requires
            old(self).ready(),
        ensures
            Self::handled(old(self), final(self), outcome),
    ;
}

/// The handler of a transfer between two named accounts.
#[derive(Clone, Debug, PartialEq, Eq)]
pub struct TransferHandler {
    pub runtime: ContractRuntimeAdapter,
    pub state: CreditState,
    pub from: AccountOwner,
    pub to: AccountOwner,
    pub amount: u128,
}

impl TransferHandler {
    /// A handler that holds the context, the ledger and the transfer.
    pub fn new(
        runtime: ContractRuntimeAdapter,
        state: CreditState,
        from: &AccountOwner,
        to: &AccountOwner,
        amount: &u128,
    ) -> (handler: Self)
        ensures
            handler.runtime == runtime,
            handler.state == state,
            handler.from == *from,
            handler.to == *to,
            handler.amount == *amount,
    {
        TransferHandler { state, runtime, from: *from, to: *to, amount: *amount }
    }
}

/// Makes the handler of an operation or of a message.
#[derive(Clone, Copy, Debug, PartialEq, Eq, Structural)]
pub struct HandlerFactory;

impl HandlerFactory {
    /// Whether a handler exists for what is given: an operation that is a
    /// transfer between two named accounts, or nothing at all, which is
    /// answered with an error.
    pub open spec fn supported(op: Option<&Operation>, msg: Option<&Message>) -> bool {
        match op {
            Some(operation) => *operation is Transfer,
            None => msg is None,
        }
    }

    /// Tells whether `new` can be called on `op` and `msg`.
    pub fn handles(op: Option<&Operation>, msg: Option<&Message>) -> (yes: bool)
        ensures
            yes == Self::supported(op, msg),
    {
        match op {
            Some(operation) => match operation {
                Operation::Transfer { .. } => true,
                _ => false,
            },
            None => msg.is_none(),
        }
    }

    /// The handler of an operation that has one.
    fn new_operation_handler(
        runtime: ContractRuntimeAdapter,
        state: CreditState,
        op: &Operation,
    ) -> (handler: TransferHandler)
        requires
            *op is Transfer,
        ensures
            handler.runtime == runtime,
            handler.state == state,
            *op == (Operation::Transfer {
                from: handler.from,
                to: handler.to,
                amount: handler.amount,
            }),
    {
        match op {
            Operation::Transfer { from, to, amount } => TransferHandler::new(
                runtime,
                state,
                from,
                to,
                amount,
            ),
            _ => unreached(),
        }
    }

    /// The handler of `op`, where one is given. With neither an operation
    /// nor a message there is nothing to handle, which is an error.
    pub fn new(
        runtime: ContractRuntimeAdapter,
        state: CreditState,
        op: Option<&Operation>,
        msg: Option<&Message>,
    ) -> (made: Result<TransferHandler, HandlerError>)
        requires
            Self::supported(op, msg),
        ensures
            op is None <==> made is Err,
            made matches Err(error) ==> error == HandlerError::InvalidOperationAndMessage,
            made matches Ok(handler) ==> handler.runtime == runtime && handler.state == state
                && *op->Some_0 == (Operation::Transfer {
                from: handler.from,
                to: handler.to,
                amount: handler.amount,
            }),
    {
        if let Some(op) = op {
            return Ok(HandlerFactory::new_operation_handler(runtime, state, op));
        }
        Err(HandlerError::InvalidOperationAndMessage)
    }
}

} // verus!
