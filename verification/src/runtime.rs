//! What the host tells the contract about the block it executes, and the
//! messages that the contract hands back to be delivered.
use crate::abi::Message;
use crate::types::{AccountOwner, ChainId};
use vstd::prelude::*;

verus! {

/// An error of the runtime.
#[derive(Clone, Debug, PartialEq, Eq)]
pub enum RuntimeError {
    /// The command was not delivered as a message.
    InvalidMessageOriginChainId,
    /// The command carries no authenticated signer.
    InvalidAuthenticatedSigner,
    /// The command ran on a chain that may not run it.
    PermissionDenied(String),
}

/// A message on its way to another chain.
#[derive(Clone, Debug, PartialEq, Eq)]
pub struct OutgoingMessage {
    pub destination: ChainId,
    /// Whether the message carries the signer of the block that sent it.
    pub authenticated: bool,
    pub message: Message,
}

/// The context of one execution: the chain it runs on, the home chain of the
/// application, the time, who signed, where the message came from, and the
/// messages sent so far, oldest first.
#[derive(Clone, Debug, PartialEq, Eq)]
pub struct ContractRuntimeAdapter {
    pub chain_id: ChainId,
    pub application_creator_chain_id: ChainId,
    pub system_time: u64,
    pub authenticated_signer: Option<AccountOwner>,
    pub message_origin_chain_id: Option<ChainId>,
    pub outbox: Vec<OutgoingMessage>,
}

impl ContractRuntimeAdapter {
    /// Everything but the outbox is as in `other`.
    pub open spec fn same_context(&self, other: &ContractRuntimeAdapter) -> bool {
        &&& self.chain_id == other.chain_id
        &&& self.application_creator_chain_id == other.application_creator_chain_id
        &&& self.system_time == other.system_time
        &&& self.authenticated_signer == other.authenticated_signer
        &&& self.message_origin_chain_id == other.message_origin_chain_id
    }

    /// A context with an empty outbox.
    pub fn new(
        chain_id: ChainId,
        application_creator_chain_id: ChainId,
        system_time: u64,
        authenticated_signer: Option<AccountOwner>,
        message_origin_chain_id: Option<ChainId>,
    ) -> (runtime: Self)
        ensures
            runtime.chain_id == chain_id,
            runtime.application_creator_chain_id == application_creator_chain_id,
            runtime.system_time == system_time,
            runtime.authenticated_signer == authenticated_signer,
            runtime.message_origin_chain_id == message_origin_chain_id,
            runtime.outbox@.len() == 0,
    {
        ContractRuntimeAdapter {
            chain_id,
            application_creator_chain_id,
            system_time,
            authenticated_signer,
            message_origin_chain_id,
            outbox: Vec::new(),
        }
    }

    /// Puts `message` in the outbox, addressed to the home chain, with the
    /// authentication of the block.
    pub fn send_to_creator(&mut self, message: Message)
        ensures
            final(self).same_context(old(self)),
            final(self).outbox@ == old(self).outbox@.push(
                OutgoingMessage {
                    destination: old(self).application_creator_chain_id,
                    authenticated: true,
                    message,
                },
            ),
    {
        let destination = self.application_creator_chain_id;
        self.outbox.push(OutgoingMessage { destination, authenticated: true, message });
    }
}

/// What every execution can ask of its host.
pub trait BaseRuntimeContext: Sized {
    /// What the host tells, as plain values.
    spec fn context(&self) -> ContractRuntimeAdapter;

    /// The chain that executes.
    fn chain_id(&mut self) -> (id: ChainId)
        ensures
            *final(self) == *old(self),
            id == old(self).context().chain_id,
    ;

    /// The time of the block, in microseconds.
    fn system_time(&mut self) -> (now: u64)
        ensures
            *final(self) == *old(self),
            now == old(self).context().system_time,
    ;

    /// The home chain: the one on which the application was created.
    fn application_creator_chain_id(&mut self) -> (id: ChainId)
        ensures
            *final(self) == *old(self),
            id == old(self).context().application_creator_chain_id,
    ;
}

/// What the execution of a contract can ask of its host.
pub trait ContractRuntimeContext: BaseRuntimeContext {
    type Error;

    /// The signer of the block, if it is authenticated.
    fn authenticated_signer(&mut self) -> (signer: Option<AccountOwner>)
        ensures
            *final(self) == *old(self),
            signer == old(self).context().authenticated_signer,
    ;

    /// The signer of the block, or an error where there is none.
    fn require_authenticated_signer(&mut self) -> (signer: Result<AccountOwner, Self::Error>)
        ensures
            *final(self) == *old(self),
            signer is Ok <==> old(self).context().authenticated_signer is Some,
            signer matches Ok(owner) ==> old(self).context().authenticated_signer == Some(owner),
    ;

    /// Puts `message` in the outbox, addressed to `destination`, without
    /// authentication.
    fn send_message(&mut self, destination: ChainId, message: Message)
        ensures
            final(self).context().same_context(&old(self).context()),
            final(self).context().outbox@ == old(self).context().outbox@.push(
                OutgoingMessage { destination, authenticated: false, message },
            ),
    ;

    /// The chain that sent the message being executed, if there is one.
    fn message_origin_chain_id(&mut self) -> (origin: Option<ChainId>)
        ensures
            *final(self) == *old(self),
            origin == old(self).context().message_origin_chain_id,
    ;

    /// The chain that sent the message being executed, or an error where
    /// what is executed is no message.
    fn require_message_origin_chain_id(&mut self) -> (origin: Result<ChainId, Self::Error>)
        ensures
            *final(self) == *old(self),
            origin is Ok <==> old(self).context().message_origin_chain_id is Some,
            origin matches Ok(id) ==> old(self).context().message_origin_chain_id == Some(id),
    ;
}

impl BaseRuntimeContext for ContractRuntimeAdapter {
    open spec fn context(&self) -> ContractRuntimeAdapter {
        *self
    }

    fn chain_id(&mut self) -> (id: ChainId) {
        self.chain_id
    }

    fn system_time(&mut self) -> (now: u64) {
        self.system_time
    }

    fn application_creator_chain_id(&mut self) -> (id: ChainId) {
        self.application_creator_chain_id
    }
}

impl ContractRuntimeContext for ContractRuntimeAdapter {
    type Error = RuntimeError;

    fn authenticated_signer(&mut self) -> (signer: Option<AccountOwner>) {
        self.authenticated_signer
    }

    fn require_authenticated_signer(&mut self) -> (signer: Result<AccountOwner, RuntimeError>)
        ensures
            signer matches Err(error) ==> error == RuntimeError::InvalidAuthenticatedSigner,
    {
        match self.authenticated_signer {
            Some(owner) => Ok(owner),
            None => Err(RuntimeError::InvalidAuthenticatedSigner),
        }
    }

    fn send_message(&mut self, destination: ChainId, message: Message) {
        self.outbox.push(OutgoingMessage { destination, authenticated: false, message });
    }

    fn message_origin_chain_id(&mut self) -> (origin: Option<ChainId>) {
        self.message_origin_chain_id
    }

    fn require_message_origin_chain_id(&mut self) -> (origin: Result<ChainId, RuntimeError>)
        ensures
            origin matches Err(error) ==> error == RuntimeError::InvalidMessageOriginChainId,
    {
        match self.message_origin_chain_id {
            Some(id) => Ok(id),
            None => Err(RuntimeError::InvalidMessageOriginChainId),
        }
    }
}

/// A guard that lets through only what runs on the home chain.
pub trait AccessControl: Sized {
    type Error;

    /// Whether the execution runs on the home chain of the application.
    spec fn is_application_creator(&self) -> bool;

    /// Succeeds on the home chain and nowhere else. It changes nothing.
    fn only_application_creator(&mut self) -> (allowed: Result<(), Self::Error>)
        ensures
            *final(self) == *old(self),
            old(self).is_application_creator() <==> allowed is Ok,
    ;
}

impl AccessControl for ContractRuntimeAdapter {
    type Error = RuntimeError;

    open spec fn is_application_creator(&self) -> bool {
        self.chain_id == self.application_creator_chain_id
    }

    fn only_application_creator(&mut self) -> (allowed: Result<(), RuntimeError>)
        ensures
            allowed matches Err(error) ==> error matches RuntimeError::PermissionDenied(reason)
                && reason@ == "Only allow application creator"@,
    {
        let chain_id: ChainId = self.chain_id();
        let creator_chain_id: ChainId = self.application_creator_chain_id();
        if chain_id == creator_chain_id {
            Ok(())
        } else {
            Err(RuntimeError::PermissionDenied("Only allow application creator".to_owned()))
        }
    }
}

} // verus!
