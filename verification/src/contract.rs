//! The command router: an intent submitted on any chain becomes a message to
//! the home chain, and the home chain checks where a message comes from and
//! who signed it before it lets the ledger apply it.
use crate::abi::{Message, Operation};
use crate::errors::CreditError;
use crate::instantiation_argument::InstantiationArgument;
use crate::runtime::{
    BaseRuntimeContext, ContractRuntimeAdapter, ContractRuntimeContext, OutgoingMessage,
};
use crate::state::{
    granted, instantiated, liquidated, rewarded, total_spendable, transferred, CreditState,
    StateInterface,
};
use crate::types::{AccountOwner, ApplicationId, ChainId};
use vstd::prelude::*;

verus! {

/// One ledger together with the context of the execution at hand.
#[derive(Clone, Debug, PartialEq, Eq)]
pub struct CreditContract {
    pub state: CreditState,
    pub runtime: ContractRuntimeAdapter,
}

/// `after` is `before` with `message` sent to the home chain, authenticated,
/// as the newest message of the outbox. The ledger is untouched.
pub open spec fn posted(before: &CreditContract, after: &CreditContract, message: Message) -> bool {
    &&& after.state == before.state
    &&& after.runtime.same_context(&before.runtime)
    &&& after.runtime.outbox@ == before.runtime.outbox@.push(
        OutgoingMessage {
            destination: before.runtime.application_creator_chain_id,
            authenticated: true,
            message,
        },
    )
}

/// The command that carries the intent `operation` to the home chain.
pub open spec fn routed(operation: Operation) -> Message {
    match operation {
        Operation::Liquidate => Message::Liquidate,
        Operation::Transfer { from, to, amount } => Message::Transfer { from, to, amount },
        Operation::TransferExt { to, amount } => Message::TransferExt { to, amount },
        Operation::SetRewardCallers { application_ids } => Message::SetRewardCallers {
            application_ids,
        },
        Operation::SetTransferCallers { application_ids } => Message::SetTransferCallers {
            application_ids,
        },
        Operation::RequestSubscribe => Message::RequestSubscribe,
        Operation::Reward { owner, amount } => Message::Reward { owner, amount },
    }
}

/// What submitting `operation` does. A change of the reward allow-list may
/// only be submitted on the home chain; every other intent may be submitted
/// anywhere. An accepted intent is sent on as its command; a refused one
/// changes nothing.
pub open spec fn submitted(
    before: &CreditContract,
    after: &CreditContract,
    operation: Operation,
    outcome: Result<(), CreditError>,
) -> bool {
    if operation is SetRewardCallers && before.runtime.chain_id
        != before.runtime.application_creator_chain_id {
        outcome == Err::<(), CreditError>(CreditError::OperationNotAllowed) && *after == *before
    } else {
        outcome is Ok && posted(before, after, routed(operation))
    }
}

/// Whether the message at hand may change an allow-list: it must have been
/// sent by the home chain itself.
pub open spec fn origin_check(runtime: &ContractRuntimeAdapter) -> Result<(), CreditError> {
    match runtime.message_origin_chain_id {
        None => Err(CreditError::InvalidMessageId),
        Some(origin) => if origin != runtime.application_creator_chain_id {
            Err(CreditError::OperationNotAllowed)
        } else {
            Ok(())
        },
    }
}

/// What a transfer of `amount` from `from` to `to` does at the time of the
/// block: it is refused where `from` holds less, and applied else.
pub open spec fn moved(
    before: &CreditContract,
    after: &CreditContract,
    from: AccountOwner,
    to: AccountOwner,
    amount: u128,
    outcome: Result<(), CreditError>,
) -> bool {
    if before.state.spendable(from) < amount {
        outcome == Err::<(), CreditError>(CreditError::InsufficientAccountBalance)
    } else {
        outcome is Ok && transferred(
            &before.state,
            &after.state,
            from,
            to,
            amount,
            before.runtime.system_time,
        )
    }
}

/// What the home chain does with `message`. The context is never changed,
/// and a refused message leaves the ledger as it was.
pub open spec fn delivered(
    before: &CreditContract,
    after: &CreditContract,
    message: Message,
    outcome: Result<(), CreditError>,
) -> bool {
    let now = before.runtime.system_time;
    &&& after.runtime == before.runtime
    &&& outcome is Err ==> after.state == before.state
    &&& match message {
        Message::InstantiationArgument { argument } => outcome is Ok && instantiated(
            &before.state,
            &after.state,
            argument,
        ),
        Message::Liquidate => outcome is Ok && liquidated(&before.state, &after.state, now),
        Message::Reward { owner, amount } => outcome is Ok && rewarded(
            &before.state,
            &after.state,
            owner,
            amount,
            now,
        ),
        Message::Transfer { from, to, amount } => moved(before, after, from, to, amount, outcome),
        Message::TransferExt { to, amount } => match before.runtime.authenticated_signer {
            None => outcome == Err::<(), CreditError>(CreditError::InvalidSigner),
            Some(from) => moved(before, after, from, to, amount, outcome),
        },
        Message::SetRewardCallers { application_ids } => match origin_check(&before.runtime) {
            Err(error) => outcome == Err::<(), CreditError>(error),
            Ok(_) => {
                &&& outcome is Ok
                &&& granted(
                    before.state.reward_callers@,
                    after.state.reward_callers@,
                    application_ids@,
                )
                &&& after.state.transfer_callers == before.state.transfer_callers
                &&& same_ledger(&before.state, &after.state)
            },
        },
        Message::SetTransferCallers { application_ids } => match origin_check(&before.runtime) {
            Err(error) => outcome == Err::<(), CreditError>(error),
            Ok(_) => {
                &&& outcome is Ok
                &&& granted(
                    before.state.transfer_callers@,
                    after.state.transfer_callers@,
                    application_ids@,
                )
                &&& after.state.reward_callers == before.state.reward_callers
                &&& same_ledger(&before.state, &after.state)
            },
        },
        Message::RequestSubscribe => outcome is Ok && after.state == before.state,
    }
}

/// The accounts, the pool and the configuration of `after` are those of
/// `before`.
pub open spec fn same_ledger(before: &CreditState, after: &CreditState) -> bool {
    &&& after.accounts == before.accounts
    &&& after._balance == before._balance
    &&& after._initial_supply == before._initial_supply
    &&& after.amount_alive_ms == before.amount_alive_ms
}

/// Whether `message` is one that keeps the supply whole on `state`. All do
/// but two: a reward larger than the pool, which the pool cannot cover, and
/// an instantiation while credit is outstanding, which resets the pool.
pub open spec fn keeps_supply(state: &CreditState, message: Message) -> bool {
    match message {
        Message::Reward { owner, amount } => amount <= state._balance,
        Message::InstantiationArgument { argument } => total_spendable(state.accounts@) == 0,
        _ => true,
    }
}

impl CreditContract {
    /// A contract on `state`, executing in the context `runtime`.
    pub fn load(state: CreditState, runtime: ContractRuntimeAdapter) -> (contract: Self)
        ensures
            contract.state == state,
            contract.runtime == runtime,
    {
        CreditContract { state, runtime }
    }

    /// Instantiates the ledger with `argument`.
    pub fn instantiate(&mut self, argument: InstantiationArgument)
        ensures
            final(self).runtime == old(self).runtime,
            instantiated(&old(self).state, &final(self).state, argument),
            old(self).state.wf() ==> final(self).state.wf(),
            old(self).state.consistent() && total_spendable(old(self).state.accounts@) == 0
                ==> final(self).state.sound(),
    {
        self.state.instantiate(argument);
    }

    /// The chain that sent the message at hand. It fails where what is
    /// executed is no message.
    pub fn require_message_origin_chain_id(&mut self) -> (origin: Result<ChainId, CreditError>)
        ensures
            *final(self) == *old(self),
            origin == match old(self).runtime.message_origin_chain_id {
                Some(id) => Ok::<ChainId, CreditError>(id),
                None => Err(CreditError::InvalidMessageId),
            },
    {
        match self.runtime.message_origin_chain_id() {
            Some(message_id) => Ok(message_id),
            None => Err(CreditError::InvalidMessageId),
        }
    }

    /// The signer of the block. It fails where there is none.
    pub fn require_authenticated_signer(&mut self) -> (signer: Result<AccountOwner, CreditError>)
        ensures
            *final(self) == *old(self),
            signer == match old(self).runtime.authenticated_signer {
                Some(owner) => Ok::<AccountOwner, CreditError>(owner),
                None => Err(CreditError::InvalidSigner),
            },
    {
        match self.runtime.authenticated_signer() {
            Some(owner) => Ok(owner),
            None => Err(CreditError::InvalidSigner),
        }
    }

    /// Submits a sweep.
    pub fn on_op_liquidate(&mut self) -> (outcome: Result<(), CreditError>)
        ensures
            submitted(old(self), final(self), Operation::Liquidate, outcome),
    {
        self.runtime.send_to_creator(Message::Liquidate);
        Ok(())
    }

    /// Submits a change of the reward allow-list. Only the home chain may.
    pub fn on_op_set_reward_callers(
        &mut self,
        application_ids: Vec<ApplicationId>,
    ) -> (outcome: Result<(), CreditError>)
        ensures
            submitted(
                old(self),
                final(self),
                Operation::SetRewardCallers { application_ids },
                outcome,
            ),
    {
        if self.runtime.chain_id() != self.runtime.application_creator_chain_id() {
            return Err(CreditError::OperationNotAllowed);
        }
        self.runtime.send_to_creator(Message::SetRewardCallers { application_ids });
        Ok(())
    }

    /// Submits a change of the transfer allow-list.
    pub fn on_op_set_transfer_callers(
        &mut self,
        application_ids: Vec<ApplicationId>,
    ) -> (outcome: Result<(), CreditError>)
        ensures
            submitted(
                old(self),
                final(self),
                Operation::SetTransferCallers { application_ids },
                outcome,
            ),
    {
        self.runtime.send_to_creator(Message::SetTransferCallers { application_ids });
        Ok(())
    }

    /// Submits a transfer between two named accounts.
    pub fn on_op_transfer(
        &mut self,
        from: AccountOwner,
        to: AccountOwner,
        amount: u128,
    ) -> (outcome: Result<(), CreditError>)
        ensures
            submitted(old(self), final(self), Operation::Transfer { from, to, amount }, outcome),
    {
        self.runtime.send_to_creator(Message::Transfer { from, to, amount });
        Ok(())
    }

    /// Submits a transfer out of the account of whoever signs.
    pub fn on_op_transfer_ext(
        &mut self,
        to: AccountOwner,
        amount: u128,
    ) -> (outcome: Result<(), CreditError>)
        ensures
            submitted(old(self), final(self), Operation::TransferExt { to, amount }, outcome),
    {
        self.runtime.send_to_creator(Message::TransferExt { to, amount });
        Ok(())
    }

    /// Submits a subscription.
    pub fn on_op_request_subscribe(&mut self) -> (outcome: Result<(), CreditError>)
        ensures
            submitted(old(self), final(self), Operation::RequestSubscribe, outcome),
    {
        self.runtime.send_to_creator(Message::RequestSubscribe);
        Ok(())
    }

    /// Submits a reward.
    pub fn on_op_reward(
        &mut self,
        owner: AccountOwner,
        amount: u128,
    ) -> (outcome: Result<(), CreditError>)
        ensures
            submitted(old(self), final(self), Operation::Reward { owner, amount }, outcome),
    {
        self.runtime.send_to_creator(Message::Reward { owner, amount });
        Ok(())
    }

    /// Applies an instantiation.
    pub fn on_msg_instantiation_argument(
        &mut self,
        arg: InstantiationArgument,
    ) -> (outcome: Result<(), CreditError>)
        requires
            old(self).state.wf(),
        ensures
            final(self).state.wf(),
            delivered(
                old(self),
                final(self),
                Message::InstantiationArgument { argument: arg },
                outcome,
            ),
            old(self).state.sound() && total_spendable(old(self).state.accounts@) == 0
                ==> final(self).state.sound(),
    {
        self.state.instantiate(arg);
        Ok(())
    }

    /// Applies a sweep at the time of the block.
    pub fn on_msg_liquidate(&mut self) -> (outcome: Result<(), CreditError>)
        requires
            old(self).state.wf(),
        ensures
            final(self).state.wf(),
            delivered(old(self), final(self), Message::Liquidate, outcome),
            old(self).state.sound() ==> final(self).state.sound(),
    {
        let now: u64 = self.runtime.system_time();
        self.state.liquidate(now);
        Ok(())
    }

    /// Applies a reward at the time of the block.
    pub fn on_msg_reward(
        &mut self,
        owner: AccountOwner,
        amount: u128,
    ) -> (outcome: Result<(), CreditError>)
        requires
            old(self).state.wf(),
        ensures
            final(self).state.wf(),
            delivered(old(self), final(self), Message::Reward { owner, amount }, outcome),
            old(self).state.sound() && amount <= old(self).state._balance
                ==> final(self).state.sound(),
    {
        let now: u64 = self.runtime.system_time();
        self.state.reward(owner, amount, now)
    }

    /// Applies a change of the reward allow-list, if the home chain sent it.
    pub fn on_msg_set_reward_callers(
        &mut self,
        application_ids: Vec<ApplicationId>,
    ) -> (outcome: Result<(), CreditError>)
        requires
            old(self).state.wf(),
        ensures
            final(self).state.wf(),
            delivered(
                old(self),
                final(self),
                Message::SetRewardCallers { application_ids },
                outcome,
            ),
            old(self).state.sound() ==> final(self).state.sound(),
    {
        match self.require_message_origin_chain_id() {
            Err(error) => {
                return Err(error);
            },
            Ok(origin) => {
                if origin != self.runtime.application_creator_chain_id() {
                    return Err(CreditError::OperationNotAllowed);
                }
            },
        }
        self.state.set_reward_callers(application_ids);
        Ok(())
    }

    /// Applies a change of the transfer allow-list, if the home chain sent it.
    pub fn on_msg_set_transfer_callers(
        &mut self,
        application_ids: Vec<ApplicationId>,
    ) -> (outcome: Result<(), CreditError>)
        requires
            old(self).state.wf(),
        ensures
            final(self).state.wf(),
            delivered(
                old(self),
                final(self),
                Message::SetTransferCallers { application_ids },
                outcome,
            ),
            old(self).state.sound() ==> final(self).state.sound(),
    {
        match self.require_message_origin_chain_id() {
            Err(error) => {
                return Err(error);
            },
            Ok(origin) => {
                if origin != self.runtime.application_creator_chain_id() {
                    return Err(CreditError::OperationNotAllowed);
                }
            },
        }
        self.state.set_transfer_callers(application_ids);
        Ok(())
    }

    /// Applies a transfer between two named accounts at the time of the block.
    pub fn on_msg_transfer(
        &mut self,
        from: AccountOwner,
        to: AccountOwner,
        amount: u128,
    ) -> (outcome: Result<(), CreditError>)
        requires
            old(self).state.wf(),
        ensures
            final(self).state.wf(),
            delivered(old(self), final(self), Message::Transfer { from, to, amount }, outcome),
            old(self).state.sound() ==> final(self).state.sound(),
    {
        let now: u64 = self.runtime.system_time();
        self.state.transfer(from, to, amount, now)
    }

    /// Applies a transfer out of the account of the signer at the time of
    /// the block. It fails where the message carries no signer.
    pub fn on_msg_transfer_ext(
        &mut self,
        to: AccountOwner,
        amount: u128,
    ) -> (outcome: Result<(), CreditError>)
        requires
            old(self).state.wf(),
        ensures
            final(self).state.wf(),
            delivered(old(self), final(self), Message::TransferExt { to, amount }, outcome),
            old(self).state.sound() ==> final(self).state.sound(),
    {
        let from: AccountOwner = match self.require_authenticated_signer() {
            Ok(owner) => owner,
            Err(error) => {
                return Err(error);
            },
        };
        let now: u64 = self.runtime.system_time();
        self.state.transfer(from, to, amount, now)
    }

    /// Accepts a subscription. It changes nothing.
    pub fn on_msg_request_subscribe(&mut self) -> (outcome: Result<(), CreditError>)
        ensures
            delivered(old(self), final(self), Message::RequestSubscribe, outcome),
            *final(self) == *old(self),
    {
        Ok(())
    }

    /// Routes an intent submitted on this chain to the home chain.
    pub fn execute_operation(&mut self, operation: Operation) -> (outcome: Result<(), CreditError>)
        ensures
            submitted(old(self), final(self), operation, outcome),
    {
        match operation {
            Operation::Liquidate => self.on_op_liquidate(),
            Operation::SetRewardCallers { application_ids } => self.on_op_set_reward_callers(
                application_ids,
            ),
            Operation::SetTransferCallers { application_ids } => self.on_op_set_transfer_callers(
                application_ids,
            ),
            Operation::Transfer { from, to, amount } => self.on_op_transfer(from, to, amount),
            Operation::TransferExt { to, amount } => self.on_op_transfer_ext(to, amount),
            Operation::RequestSubscribe => self.on_op_request_subscribe(),
            Operation::Reward { owner, amount } => self.on_op_reward(owner, amount),
        }
    }

    /// Applies, on the home chain, a command that was delivered to it. The
    /// origin of an administrative command and the signer of a transfer out
    /// of the signer's account are checked before the ledger is touched.
    pub fn execute_message(&mut self, message: Message) -> (outcome: Result<(), CreditError>)
        requires
            old(self).state.wf(),
        ensures
            final(self).state.wf(),
            delivered(old(self), final(self), message, outcome),
            old(self).state.sound() && keeps_supply(&old(self).state, message)
                ==> final(self).state.sound(),
    {
        match message {
            Message::InstantiationArgument { argument } => self.on_msg_instantiation_argument(
                argument,
            ),
            Message::Liquidate => self.on_msg_liquidate(),
            Message::Reward { owner, amount } => self.on_msg_reward(owner, amount),
            Message::SetRewardCallers { application_ids } => self.on_msg_set_reward_callers(
                application_ids,
            ),
            Message::SetTransferCallers { application_ids } => self.on_msg_set_transfer_callers(
                application_ids,
            ),
            Message::Transfer { from, to, amount } => self.on_msg_transfer(from, to, amount),
            Message::TransferExt { to, amount } => self.on_msg_transfer_ext(to, amount),
            Message::RequestSubscribe => self.on_msg_request_subscribe(),
        }
    }
}

} // verus!
