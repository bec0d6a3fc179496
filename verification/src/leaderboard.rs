//! A board of values, one for each account, that only the home chain of the
//! application may update. It guards its updates as the ledger guards its
//! allow-lists.
use crate::runtime::{
    AccessControl, BaseRuntimeContext, ContractRuntimeAdapter, RuntimeError,
};
use crate::handlers::{Handler, HandlerError, HandlerOutcome};
use crate::types::{AccountOwner, ApplicationId, Candidate, ChainId};
use vstd::prelude::*;

verus! {

/// The interface of the leaderboard application.
#[derive(Clone, Copy, Debug, PartialEq, Eq, Structural)]
pub struct LeaderBoardAbi;

/// An intent. It can only be submitted on the home chain.
#[derive(Clone, Copy, Debug, PartialEq, Eq, Structural)]
pub enum Operation {
    UpdateValue { owner: AccountOwner, value: u128 },
    ProposeOperator { operator: AccountOwner },
    ApproveOperator,
    RejectOperator,
    ConfirmOperator,
    UpdateCaller { caller: ApplicationId },
}

/// A command between chains.
#[derive(Clone, Copy, Debug, PartialEq, Eq, Structural)]
pub enum Message {
    ProposeOperator { operator: AccountOwner },
    ApproveOperator,
    RejectOperator,
    ConfirmOperator,
    UpdateCaller { caller: ApplicationId },
}

/// The configuration of a board: how many of the largest values it ranks.
#[derive(Clone, Copy, Debug, PartialEq, Eq, Structural)]
pub struct InstantiationArgument {
    pub top_k: u8,
}

/// The value of one account and the time at which it was set.
#[derive(Clone, Copy, Debug, PartialEq, Eq, Structural)]
pub struct LeaderBoardItemValue {
    pub value: u128,
    pub timestamp: u64,
}

impl Default for LeaderBoardItemValue {
    fn default() -> (item: LeaderBoardItemValue)
        ensures
            item == unset(),
    {
        LeaderBoardItemValue { value: 0, timestamp: 0 }
    }
}

/// The value of an account that was never updated.
pub open spec fn unset() -> LeaderBoardItemValue {
    LeaderBoardItemValue { value: 0, timestamp: 0 }
}

/// The row of one account.
#[derive(Clone, Copy, Debug, PartialEq, Eq, Structural)]
pub struct LeaderBoardItem {
    pub owner: AccountOwner,
    pub value: LeaderBoardItemValue,
}

/// The durable state of one board.
#[derive(Clone, Debug, PartialEq, Eq)]
pub struct LeaderBoardState {
    /// One row for each account that was ever updated.
    pub _values: Vec<LeaderBoardItem>,
    pub _top_k: u8,
    pub operator: Option<Candidate>,
    pub caller: Option<ChainId>,
}

/// A fault of the store that holds the board.
#[derive(Clone, Copy, Debug, PartialEq, Eq, Structural)]
pub enum StateError {
    /// The storage could not be read or written.
    ViewError,
}

/// A store that holds one board and offers its operations. A store may fail
/// where the board itself would not; it then leaves the board as it was.
pub trait StateInterface: Sized {
    type Error;

    /// The board that the store holds.
    spec fn board(&self) -> LeaderBoardState;

    /// Sets the configuration.
    fn instantiate(&mut self, argument: InstantiationArgument)
        ensures
            final(self).board()._top_k == argument.top_k,
            final(self).board()._values == old(self).board()._values,
            final(self).board().operator == old(self).board().operator,
            final(self).board().caller == old(self).board().caller,
    ;

    /// The configuration.
    fn instantiation_argument(&self) -> (argument: InstantiationArgument)
        ensures
            argument.top_k == self.board()._top_k,
    ;

    /// How many of the largest values the board ranks.
    fn top_k(&self) -> (k: u8)
        ensures
            k == self.board()._top_k,
    ;

    /// The value of `owner`; unset for an account that was never updated.
    fn value(&self, owner: AccountOwner) -> (item: LeaderBoardItemValue)
        requires
            self.board().wf(),
        ensures
            item == value_of(self.board()._values@, owner),
    ;

    /// Sets the value of `owner` to `value`, as of `timestamp`.
    fn update_value(&mut self, owner: AccountOwner, value: u128, timestamp: u64) -> (outcome:
        Result<(), Self::Error>)
        requires
            old(self).board().wf(),
        ensures
            outcome is Ok ==> updated(
                &old(self).board(),
                &final(self).board(),
                owner,
                LeaderBoardItemValue { value, timestamp },
            ),
            outcome is Err ==> final(self).board() == old(self).board(),
    ;
}

/// Some row of `rows` belongs to `owner`.
pub open spec fn ranked(rows: Seq<LeaderBoardItem>, owner: AccountOwner) -> bool {
    exists|i: int| 0 <= i < rows.len() && rows[i].owner == owner
}

/// The value of `owner` in `rows`; that of an account without a row is unset.
pub open spec fn value_of(rows: Seq<LeaderBoardItem>, owner: AccountOwner) -> LeaderBoardItemValue {
    if ranked(rows, owner) {
        rows[choose|i: int| 0 <= i < rows.len() && rows[i].owner == owner].value
    } else {
        unset()
    }
}

/// No two rows belong to the same account.
pub open spec fn distinct_rows(rows: Seq<LeaderBoardItem>) -> bool {
    forall|i: int, j: int| 0 <= i < j < rows.len() ==> rows[i].owner != rows[j].owner
}

/// With distinct owners, the row at `i` holds the value of its owner.
pub proof fn lemma_value_at(rows: Seq<LeaderBoardItem>, i: int)
    requires
        distinct_rows(rows),
        0 <= i < rows.len(),
    ensures
        ranked(rows, rows[i].owner),
        value_of(rows, rows[i].owner) == rows[i].value,
{
    let owner = rows[i].owner;
    let j = choose|j: int| 0 <= j < rows.len() && rows[j].owner == owner;
    if j < i {
        assert(rows[j].owner != rows[i].owner);
    } else if i < j {
        assert(rows[i].owner != rows[j].owner);
    }
}

/// `after` is `before` with the value of `owner` set to `item`, and every
/// other value as it was.
pub open spec fn updated(
    before: &LeaderBoardState,
    after: &LeaderBoardState,
    owner: AccountOwner,
    item: LeaderBoardItemValue,
) -> bool {
    &&& after.wf()
    &&& value_of(after._values@, owner) == item
    &&& forall|other: AccountOwner|
        other != owner ==> #[trigger] value_of(after._values@, other) == value_of(
            before._values@,
            other,
        )
    &&& after._top_k == before._top_k
    &&& after.operator == before.operator
    &&& after.caller == before.caller
}

impl LeaderBoardState {
    /// No account has two rows.
    pub open spec fn wf(&self) -> bool {
        distinct_rows(self._values@)
    }

    /// Tells whether the state is well formed.
    pub fn is_wf(&self) -> (ok: bool)
        ensures
            ok == self.wf(),
    {
        let mut i: usize = 0;
        while i < self._values.len()
            invariant
                i <= self._values@.len(),
                forall|a: int, b: int|
                    0 <= a < b < i ==> self._values@[a].owner != self._values@[b].owner,
            decreases self._values@.len() - i,
        {
            let mut j: usize = 0;
            while j < i
                invariant
                    j <= i < self._values@.len(),
                    forall|a: int|
                        0 <= a < j ==> self._values@[a].owner != self._values@[i as int].owner,
                decreases i - j,
            {
                if self._values[j].owner == self._values[i].owner {
                    return false;
                }
                j = j + 1;
            }
            i = i + 1;
        }
        true
    }

    /// A board without values, operator or caller, that ranks nothing.
    pub fn new() -> (state: Self)
        ensures
            state.wf(),
            state._values@.len() == 0,
            state._top_k == 0,
            state.operator is None,
            state.caller is None,
    {
        LeaderBoardState { _values: Vec::new(), _top_k: 0, operator: None, caller: None }
    }

    /// The index of the row of `owner`, if it has one.
    fn find(&self, owner: AccountOwner) -> (found: Option<usize>)
        ensures
            match found {
                Some(i) => i < self._values@.len() && self._values@[i as int].owner == owner,
                None => !ranked(self._values@, owner),
            },
    {
        let mut i: usize = 0;
        while i < self._values.len()
            invariant
                i <= self._values@.len(),
                forall|j: int| 0 <= j < i ==> self._values@[j].owner != owner,
            decreases self._values@.len() - i,
        {
            if self._values[i].owner == owner {
                return Some(i);
            }
            i = i + 1;
        }
        None
    }

}

impl StateInterface for LeaderBoardState {
    type Error = StateError;

    open spec fn board(&self) -> LeaderBoardState {
        *self
    }

    fn instantiate(&mut self, argument: InstantiationArgument)
        ensures
            final(self)._top_k == argument.top_k,
            final(self)._values == old(self)._values,
            final(self).operator == old(self).operator,
            final(self).caller == old(self).caller,
    {
        self._top_k = argument.top_k;
    }

    fn instantiation_argument(&self) -> (argument: InstantiationArgument)
        ensures
            argument.top_k == self._top_k,
    {
        InstantiationArgument { top_k: self._top_k }
    }

    fn top_k(&self) -> (k: u8)
        ensures
            k == self._top_k,
    {
        self._top_k
    }

    fn value(&self, owner: AccountOwner) -> (item: LeaderBoardItemValue)
        ensures
            item == value_of(self._values@, owner),
    {
        match self.find(owner) {
            Some(i) => {
                proof {
                    lemma_value_at(self._values@, i as int);
                }
                self._values[i].value
            },
            None => LeaderBoardItemValue::default(),
        }
    }

    fn update_value(&mut self, owner: AccountOwner, value: u128, timestamp: u64) -> (outcome:
        Result<(), StateError>)
        ensures
            outcome is Ok,
            updated(old(self), final(self), owner, LeaderBoardItemValue { value, timestamp }),
    {
        let ghost before = self._values@;
        let item = LeaderBoardItem { owner, value: LeaderBoardItemValue { value, timestamp } };
        match self.find(owner) {
            Some(i) => {
                self._values[i] = item;
                proof {
                    let after = self._values@;
                    assert forall|a: int, b: int| 0 <= a < b < after.len() implies after[a].owner
                        != after[b].owner by {
                        assert(before[a].owner != before[b].owner);
                    }
                    lemma_value_at(after, i as int);
                    assert forall|other: AccountOwner| other != owner implies value_of(
                        after,
                        other,
                    ) == value_of(before, other) by {
                        lemma_same_values(before, after, i as int, other);
                    }
                }
            },
            None => {
                self._values.push(item);
                proof {
                    let after = self._values@;
                    assert forall|a: int, b: int| 0 <= a < b < after.len() implies after[a].owner
                        != after[b].owner by {
                        assert(after[a] == before[a]);
                        if b < before.len() {
                            assert(after[b] == before[b]);
                        }
                    }
                    lemma_value_at(after, before.len() as int);
                    assert(after.drop_last() =~= before);
                    assert forall|other: AccountOwner| other != owner implies value_of(
                        after,
                        other,
                    ) == value_of(before, other) by {
                        lemma_pushed_value(before, after, other);
                    }
                }
            },
        }
        Ok(())
    }
}

/// Replacing the row at `i` by one of the same account leaves the value of
/// every other account as it was.
proof fn lemma_same_values(
    before: Seq<LeaderBoardItem>,
    after: Seq<LeaderBoardItem>,
    i: int,
    other: AccountOwner,
)
    requires
        distinct_rows(before),
        distinct_rows(after),
        before.len() == after.len(),
        0 <= i < before.len(),
        after[i].owner == before[i].owner,
        other != before[i].owner,
        forall|k: int| 0 <= k < before.len() && k != i ==> #[trigger] after[k] == before[k],
    ensures
        value_of(after, other) == value_of(before, other),
{
    if ranked(before, other) {
        let k = choose|k: int| 0 <= k < before.len() && before[k].owner == other;
        assert(after[k] == before[k]);
        lemma_value_at(before, k);
        lemma_value_at(after, k);
    } else if ranked(after, other) {
        let k = choose|k: int| 0 <= k < after.len() && after[k].owner == other;
        assert(after[k] == before[k]);
    }
}

/// One more row, of an account that had none, leaves the value of every
/// other account as it was.
proof fn lemma_pushed_value(
    before: Seq<LeaderBoardItem>,
    after: Seq<LeaderBoardItem>,
    other: AccountOwner,
)
    requires
        distinct_rows(before),
        distinct_rows(after),
        after.len() == before.len() + 1,
        after.drop_last() == before,
        other != after.last().owner,
    ensures
        value_of(after, other) == value_of(before, other),
{
    if ranked(before, other) {
        let k = choose|k: int| 0 <= k < before.len() && before[k].owner == other;
        assert(after[k] == before[k]);
        lemma_value_at(before, k);
        lemma_value_at(after, k);
    } else if ranked(after, other) {
        let k = choose|k: int| 0 <= k < after.len() && after[k].owner == other;
        assert(after[k] == before[k]);
    }
}

/// The handler of an update of one value.
#[derive(Clone, Debug, PartialEq, Eq)]
pub struct UpdateValueHandler {
    pub runtime: ContractRuntimeAdapter,
    pub state: LeaderBoardState,
    pub owner: AccountOwner,
    pub value: u128,
}

impl UpdateValueHandler {
    /// A handler that holds the context, the board and the update.
    pub fn new(
        runtime: ContractRuntimeAdapter,
        state: LeaderBoardState,
        owner: &AccountOwner,
        value: &u128,
    ) -> (handler: Self)
        ensures
            handler.runtime == runtime,
            handler.state == state,
            handler.owner == *owner,
            handler.value == *value,
    {
        UpdateValueHandler { state, runtime, owner: *owner, value: *value }
    }
}

impl Handler for UpdateValueHandler {
    type Message = Message;

    open spec fn ready(&self) -> bool {
        self.state.wf()
    }

    /// On the home chain the value of the account is set as of the time of
    /// the block, and nothing is left to send. On any other chain the update
    /// is refused and changes nothing.
    open spec fn handled(
        before: &Self,
        after: &Self,
        outcome: Result<HandlerOutcome<Message>, HandlerError>,
    ) -> bool {
        &&& after.runtime == before.runtime
        &&& after.owner == before.owner
        &&& after.value == before.value
        &&& before.runtime.chain_id == before.runtime.application_creator_chain_id
            <==> outcome is Ok
        &&& outcome matches Ok(done) ==> done.messages@.len() == 0 && updated(
            &before.state,
            &after.state,
            before.owner,
            LeaderBoardItemValue { value: before.value, timestamp: before.runtime.system_time },
        )
        &&& outcome is Err ==> after.state == before.state
        &&& outcome matches Err(error) ==> error matches HandlerError::RuntimeError(
            RuntimeError::PermissionDenied(reason),
        ) && reason@ == "Only allow application creator"@
    }

    fn handle(&mut self) -> (outcome: Result<HandlerOutcome<Message>, HandlerError>) {
        match self.runtime.only_application_creator() {
            Ok(_) => {},
            Err(error) => {
                return Err(HandlerError::RuntimeError(error));
            },
        }
        let now: u64 = self.runtime.system_time();
        match self.state.update_value(self.owner, self.value, now) {
            Ok(_) => Ok(HandlerOutcome { messages: Vec::new() }),
            Err(_) => unreached(),
        }
    }
}

/// Makes the handler of an operation of the board.
#[derive(Clone, Copy, Debug, PartialEq, Eq, Structural)]
pub struct HandlerFactory;

impl HandlerFactory {
    /// Whether a handler exists for what is given: an operation that is an
    /// update of a value, or nothing at all, which is answered with an error.
    pub open spec fn supported(op: Option<&Operation>, msg: Option<&Message>) -> bool {
        match op {
            Some(operation) => *operation is UpdateValue,
            None => msg is None,
        }
    }

    /// Tells whether `new` can be called on `op` and `msg`.
    pub fn handles(op: Option<&Operation>, msg: Option<&Message>) -> (yes: bool)
        ensures
            yes == Self::supported(op, msg),
    {
        match op {
            Some(operation) => match operation {
                Operation::UpdateValue { .. } => true,
                _ => false,
            },
            None => msg.is_none(),
        }
    }

    /// The handler of `op`, where one is given. With neither an operation
    /// nor a message there is nothing to handle, which is an error.
    pub fn new(
        runtime: ContractRuntimeAdapter,
        state: LeaderBoardState,
        op: Option<&Operation>,
        msg: Option<&Message>,
    ) -> (made: Result<UpdateValueHandler, HandlerError>)
        requires
            Self::supported(op, msg),
        ensures
            op is None <==> made is Err,
            made matches Err(error) ==> error == HandlerError::InvalidOperationAndMessage,
            made matches Ok(handler) ==> handler.runtime == runtime && handler.state == state
                && *op->Some_0 == (Operation::UpdateValue {
                owner: handler.owner,
                value: handler.value,
            }),
    {
        if let Some(op) = op {
            match op {
                Operation::UpdateValue { owner, value } => {
                    return Ok(UpdateValueHandler::new(runtime, state, owner, value));
                },
                _ => {
                    return unreached();
                },
            }
        }
        Err(HandlerError::InvalidOperationAndMessage)
    }
}

} // verus!
