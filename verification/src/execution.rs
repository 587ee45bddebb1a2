//! Dispatching the calls of a decrypted transaction.
//!
//! Dispatching a call is up to the runtime, and a dispatched call may itself reach
//! this pallet. So the calls are handed out one at a time: [`Pallet::next_step`]
//! says what to dispatch, [`Pallet::call_dispatched`] takes the outcome.

use crate::config::{Config, Key};
use crate::history::Action;
use crate::pallet::Pallet;
use crate::state::{executed, execution_outcome, total_weight, weighs, Pending};
use crate::types::{
    CallError, DispatchResult, Error, Event, Origin, OutsideResult, SessionIndex, Weight,
};
use vstd::prelude::*;

verus! {

/// Calls that are about to be dispatched on a user's behalf.
pub struct Execution<T: Config> {
    /// The calls that are left, the next one first.
    pub calls: Vec<T::Call>,
    pub user_account: T::AccountId,
    pub identifier: T::Hash,
    pub nonce: T::Index,
}

impl<T: Config> View for Execution<T> {
    type V = Pending<T>;

    open spec fn view(&self) -> Pending<T> {
        Pending {
            calls: self.calls@,
            user_account: self.user_account,
            identifier: self.identifier,
            nonce: self.nonce,
        }
    }
}

/// What a request to execute calls came to.
pub open spec fn started<T: Config>(result: Result<Execution<T>, CallError>) -> Result<
    Pending<T>,
    CallError,
> {
    match result {
        Ok(execution) => Ok(execution@),
        Err(error) => Err(error),
    }
}

/// What is to be done next for an execution.
pub enum Step<T: Config> {
    /// Dispatch the call with the origin, report the outcome, and go on with the rest.
    Dispatch(T::Call, Origin<T::AccountId>, Execution<T>),
    /// Nothing: every call was dispatched.
    Finished,
}

/// The weights that the calls in a list declare.
pub fn weights_of<T: Config>(calls: &Vec<T::Call>) -> (result: Vec<Weight>)
    ensures
        weighs::<T>(calls@, result@),
{
    let mut weights: Vec<Weight> = Vec::new();
    let mut i: usize = 0;
    while i < calls.len()
        invariant
            i <= calls@.len(),
            weights@.len() == i,
            forall|j: int|
                0 <= j < i ==> call_ensures(
                    T::weight_of,
                    (&#[trigger] calls@[j],),
                    #[trigger] weights@[j],
                ),
        decreases calls@.len() - i,
    {
        let weight: Weight = T::weight_of(&calls[i]);
        weights.push(weight);
        i = i + 1;
    }
    weights
}

/// What weights come to together, up to the largest number that there is.
fn calls_weight(weights: &Vec<Weight>) -> (result: u128)
    ensures
        result == if total_weight(weights@) <= u128::MAX {
            total_weight(weights@) as int
        } else {
            u128::MAX as int
        },
{
    let mut calls_weight: u128 = 0;
    let mut i: usize = 0;
    assert(weights@.take(0) =~= Seq::<Weight>::empty());
    while i < weights.len()
        invariant
            i <= weights@.len(),
            calls_weight == if total_weight(weights@.take(i as int)) <= u128::MAX {
                total_weight(weights@.take(i as int)) as int
            } else {
                u128::MAX as int
            },
        decreases weights@.len() - i,
    {
        assert(weights@.take(i + 1).drop_last() =~= weights@.take(i as int));
        calls_weight = calls_weight.saturating_add(weights[i] as u128);
        i = i + 1;
    }
    assert(weights@.take(i as int) =~= weights@);
    calls_weight
}

impl<T: Config> Pallet<T> {
    /// The chain has calls executed on a user's behalf. They are not, where together
    /// they weigh more than `weight`.
    pub fn execute_calls(
        origin: Origin<T::AccountId>,
        calls: Vec<T::Call>,
        user_account: T::AccountId,
        identifier: T::Hash,
        nonce: T::Index,
        weight: Weight,
    ) -> (result: Result<Execution<T>, CallError>)
        ensures
            origin !is Root ==> started(result) == Err::<Pending<T>, _>(CallError::BadOrigin),
            origin is Root ==> exists|weights: Seq<Weight>| #[trigger]
                weighs::<T>(calls@, weights) && started(result) == execution_outcome::<T>(
                    origin,
                    Pending { calls: calls@, user_account, identifier, nonce },
                    weights,
                    weight,
                ),
    {
        match origin {
            Origin::Root => {},
            _ => {
                return Err(CallError::BadOrigin);
            },
        }
        let weights = weights_of::<T>(&calls);
        Self::execute_weighed_calls(origin, calls, &weights, user_account, identifier, nonce, weight)
    }

    /// The chain has calls of these weights executed on a user's behalf. They are not,
    /// where the weights together are more than `weight`.
    pub fn execute_weighed_calls(
        origin: Origin<T::AccountId>,
        calls: Vec<T::Call>,
        weights: &Vec<Weight>,
        user_account: T::AccountId,
        identifier: T::Hash,
        nonce: T::Index,
        weight: Weight,
    ) -> (result: Result<Execution<T>, CallError>)
        ensures
            started(result) == execution_outcome::<T>(
                origin,
                Pending { calls: calls@, user_account, identifier, nonce },
                weights@,
                weight,
            ),
    {
        match origin {
            Origin::Root => {},
            _ => {
                return Err(CallError::BadOrigin);
            },
        }
        if calls_weight(weights) > weight as u128 {
            return Err(CallError::Module(Error::IncorrectCallWeight));
        }
        Ok(Execution { calls, user_account, identifier, nonce })
    }

    /// Says what is to be done next for an execution. Once every call was dispatched,
    /// this is made known. An execution whose calls leave the pallet alone thus comes
    /// to what [`executed`] says, whatever the outcomes are: it goes on as one of the
    /// rest once the first outcome was made known.
    pub fn next_step(&mut self, execution: Execution<T>) -> (result: Step<T>)
        ensures
            match result {
                Step::Finished => execution@.calls.len() == 0 && final(self)@
                    == old(self)@.execution_finished(execution@) && forall|
                    current_index: SessionIndex,
                | final(self)@ == #[trigger] old(self)@.after(
                    current_index,
                    Action::FinishExecution { pending: execution@ },
                ),
                Step::Dispatch(call, origin, rest) => execution@.calls.len() > 0 && call
                    == execution@.calls[0] && origin == Origin::Signed(execution@.user_account)
                    && rest@ == execution@.rest() && final(self)@ == old(self)@,
            },
            forall|outcomes: Seq<OutsideResult>| #[trigger]
                executed(old(self)@, execution@, outcomes) == match result {
                    Step::Finished => final(self)@,
                    Step::Dispatch(_, _, rest) => executed(
                        final(self)@.call_reported(rest@, outcomes[0]),
                        rest@,
                        outcomes.drop_first(),
                    ),
                },
    {
        let Execution { calls, user_account, identifier, nonce } = execution;
        let mut calls = calls;
        if calls.len() == 0 {
            self.events.push(Event::CallsExecuted(user_account, nonce, identifier));
            return Step::Finished;
        }
        let call = calls.remove(0);
        assert(calls@ =~= execution@.rest().calls);
        let origin = Origin::Signed(user_account.duplicate());
        Step::Dispatch(call, origin, Execution { calls, user_account, identifier, nonce })
    }

    /// Makes the outcome of a dispatched call known.
    pub fn call_dispatched(&mut self, execution: &Execution<T>, outcome: OutsideResult)
        ensures
            final(self)@ == old(self)@.call_reported(execution@, outcome),
            forall|current_index: SessionIndex|
                final(self)@ == #[trigger] old(self)@.after(
                    current_index,
                    Action::ReportCall { pending: execution@, outcome },
                ),
    {
        let outcome: DispatchResult = match outcome {
            Ok(()) => Ok(()),
            Err(error) => Err(CallError::Outside(error)),
        };
        let event = Event::Called(
            outcome,
            execution.user_account.duplicate(),
            execution.nonce.duplicate(),
            execution.identifier.duplicate(),
        );
        self.events.push(event);
    }
}

} // verus!
