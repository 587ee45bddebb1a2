//! Everything that can happen to the pallet, one thing after another.

use crate::config::Config;
use crate::laws::{
    all_registered, empty_state_is_registered, identifier_hashes_call_then_user_then_nonce,
    inner_layer_keeps_all_registered,
    keys_and_events_keep_all_registered, outer_layer_keeps_all_registered,
    refund_keeps_all_registered, session_end_keeps_all_registered,
    submission_keeps_all_registered,
};
use crate::state::{
    charge_due, fee_of, identifier_of, listed, recorded, submission_outcome, Pending, State,
};
use crate::types::{
    Balance, CallError, Environment, Error, Event, Origin, OutsideResult, SessionIndex,
    Transaction, Weight,
};
use vstd::prelude::*;

verus! {

/// A call to the pallet, or a change of sessions.
pub enum Action<T: Config> {
    SubmitDoublyEncrypted {
        environment: Environment,
        origin: Origin<T::AccountId>,
        doubly_encrypted_call: Seq<u8>,
        nonce: T::Index,
        weight: Weight,
        builder: T::AccountId,
        executor: T::AccountId,
        withdrawal: OutsideResult,
    },
    SubmitSinglyEncrypted {
        origin: Origin<T::AccountId>,
        identifier: T::Hash,
        singly_encrypted_call: Seq<u8>,
    },
    SubmitDecrypted {
        origin: Origin<T::AccountId>,
        identifier: T::Hash,
        decrypted_call: Seq<u8>,
    },
    /// The outcome of a dispatched call is made known.
    ReportCall { pending: Pending<T>, outcome: OutsideResult },
    /// It is made known that every call of an execution was dispatched.
    FinishExecution { pending: Pending<T> },
    Refund { origin: Origin<T::AccountId>, identifier: T::Hash },
    SetKeys { keys: Map<T::AccountId, T::AuthorityId> },
    EndSession,
}

impl<T: Config> State<T> {
    /// The state once something was done in a session. What is refused changes nothing.
    pub open spec fn after(self, current_index: SessionIndex, action: Action<T>) -> State<T> {
        match action {
            Action::SubmitDoublyEncrypted {
                environment,
                origin,
                doubly_encrypted_call,
                nonce,
                weight,
                builder,
                executor,
                withdrawal,
            } => if submission_outcome(
                environment,
                origin,
                doubly_encrypted_call.len(),
                withdrawal,
            ) is Ok {
                self.submitted(
                    Environment { current_index, ..environment },
                    identifier_of::<T>(doubly_encrypted_call, origin->Signed_0, nonce),
                    doubly_encrypted_call,
                    origin->Signed_0,
                    nonce,
                    weight,
                    builder,
                    executor,
                )
            } else {
                self
            },
            Action::SubmitSinglyEncrypted {
                origin,
                identifier,
                singly_encrypted_call,
            } => if self.singly_encrypted_outcome(origin, identifier) is Ok {
                self.outer_layer_removed(identifier, singly_encrypted_call)
            } else {
                self
            },
            Action::SubmitDecrypted {
                origin,
                identifier,
                decrypted_call,
            } => if self.takes_decrypted(origin, identifier) {
                self.inner_layer_removed(current_index, identifier, decrypted_call)
            } else {
                self
            },
            Action::ReportCall { pending, outcome } => self.call_reported(pending, outcome),
            Action::FinishExecution { pending } => self.execution_finished(pending),
            Action::Refund { origin, identifier } => if self.refund_outcome(
                current_index,
                origin,
                identifier,
            ) is Ok {
                let user = origin->Signed_0;
                let (nonce, fee) = self.refundable(current_index, user, identifier)->0;
                self.refunded(current_index, user, identifier, nonce, fee)
            } else {
                self
            },
            Action::SetKeys { keys } => State { keys, ..self },
            Action::EndSession => self.session_ended(current_index),
        }
    }
}

/// The pallet's state and the session that the chain is in.
pub struct Moment<T: Config> {
    pub current_index: SessionIndex,
    pub state: State<T>,
}

impl<T: Config> Moment<T> {
    /// The moment once something was done. The end of a session brings the next one,
    /// as long as there is a number for it.
    pub open spec fn after(self, action: Action<T>) -> Moment<T> {
        Moment {
            current_index: if action is EndSession && self.current_index < u32::MAX {
                (self.current_index + 1) as u32
            } else {
                self.current_index
            },
            state: self.state.after(self.current_index, action),
        }
    }

    /// The moment once these things were done, one after another.
    pub open spec fn after_all(self, actions: Seq<Action<T>>) -> Moment<T>
        decreases actions.len(),
    {
        if actions.len() == 0 {
            self
        } else {
            self.after_all(actions.drop_last()).after(actions.last())
        }
    }

    /// What holds of the pallet at any moment: everything that waits or is on record is
    /// registered, everything is registered under its identifier, and nothing is on
    /// record for a session that has not come yet.
    pub open spec fn consistent(self) -> bool {
        &&& all_registered(self.state)
        &&& registered_by_identifier(self.state)
        &&& no_later_records(self.state, self.current_index)
    }
}

/// Every transaction is registered under the identifier of its call, its user and its
/// nonce.
pub open spec fn registered_by_identifier<T: Config>(state: State<T>) -> bool {
    forall|identifier: T::Hash| #[trigger]
        state.txn_registry.contains_key(identifier) ==> {
            let txn = state.txn_registry[identifier];
            identifier == identifier_of::<T>(txn.doubly_encrypted_call, txn.user, txn.nonce)
        }
}

/// Nothing is on record for a session after this one.
pub open spec fn no_later_records<T: Config>(
    state: State<T>,
    current_index: SessionIndex,
) -> bool {
    &&& forall|slot: (SessionIndex, T::AccountId), identifier: T::Hash| #[trigger]
        recorded(state.txn_record, slot).contains_key(identifier) ==> slot.0 <= current_index
    &&& forall|slot: (SessionIndex, T::AccountId), identifier: T::Hash| #[trigger]
        listed(state.execd_txn_record, slot).contains(identifier) ==> slot.0 <= current_index
}

/// Whatever is done keeps everything that waits or is on record registered.
pub proof fn action_keeps_all_registered<T: Config>(moment: Moment<T>, action: Action<T>)
    requires
        all_registered(moment.state),
    ensures
        all_registered(moment.after(action).state),
{
    let state = moment.state;
    let current_index = moment.current_index;
    match action {
        Action::SubmitDoublyEncrypted {
            environment,
            origin,
            doubly_encrypted_call,
            nonce,
            weight,
            builder,
            executor,
            ..
        } => {
            submission_keeps_all_registered(
                state,
                Environment { current_index, ..environment },
                identifier_of::<T>(doubly_encrypted_call, origin->Signed_0, nonce),
                doubly_encrypted_call,
                origin->Signed_0,
                nonce,
                weight,
                builder,
                executor,
            );
        },
        Action::SubmitSinglyEncrypted { origin, identifier, singly_encrypted_call } => {
            if state.singly_encrypted_outcome(origin, identifier) is Ok {
                outer_layer_keeps_all_registered(state, identifier, singly_encrypted_call);
            }
        },
        Action::SubmitDecrypted { origin, identifier, decrypted_call } => {
            if state.takes_decrypted(origin, identifier) {
                inner_layer_keeps_all_registered(
                    state,
                    current_index,
                    identifier,
                    decrypted_call,
                );
            }
        },
        Action::ReportCall { pending, outcome } => {
            keys_and_events_keep_all_registered(
                state,
                state.keys,
                state.call_reported(pending, outcome).events.last(),
            );
        },
        Action::FinishExecution { pending } => {
            keys_and_events_keep_all_registered(
                state,
                state.keys,
                state.execution_finished(pending).events.last(),
            );
        },
        Action::Refund { origin, identifier } => {
            if state.refund_outcome(current_index, origin, identifier) is Ok {
                refund_keeps_all_registered(state, current_index, origin->Signed_0, identifier);
            }
        },
        Action::SetKeys { .. } => {},
        Action::EndSession => {
            session_end_keeps_all_registered(state, current_index);
        },
    }
}

/// Whatever is done keeps every transaction registered under its identifier.
pub proof fn action_keeps_registered_by_identifier<T: Config>(
    moment: Moment<T>,
    action: Action<T>,
)
    requires
        registered_by_identifier(moment.state),
    ensures
        registered_by_identifier(moment.after(action).state),
{
}

/// Whatever is done puts nothing on record for a session that has not come yet.
pub proof fn action_keeps_no_later_records<T: Config>(moment: Moment<T>, action: Action<T>)
    requires
        no_later_records(moment.state, moment.current_index),
    ensures
        no_later_records(moment.after(action).state, moment.after(action).current_index),
{
    let before = moment.state;
    let after = moment.after(action).state;
    assert forall|slot: (SessionIndex, T::AccountId), identifier: T::Hash| #[trigger]
        recorded(after.txn_record, slot).contains_key(identifier) implies slot.0
        <= moment.current_index by {
        assert(recorded(before.txn_record, slot).contains_key(identifier) || slot.0
            == moment.current_index);
    }
    assert forall|slot: (SessionIndex, T::AccountId), identifier: T::Hash| #[trigger]
        listed(after.execd_txn_record, slot).contains(identifier) implies slot.0
        <= moment.current_index by {
        assert(listed(before.execd_txn_record, slot).contains(identifier) || slot.0
            == moment.current_index);
    }
}

/// Whatever is done keeps the pallet consistent.
pub proof fn action_keeps_consistent<T: Config>(moment: Moment<T>, action: Action<T>)
    requires
        moment.consistent(),
    ensures
        moment.after(action).consistent(),
{
    action_keeps_all_registered(moment, action);
    action_keeps_registered_by_identifier(moment, action);
    action_keeps_no_later_records(moment, action);
}

proof fn lemma_history_keeps_consistent<T: Config>(moment: Moment<T>, actions: Seq<Action<T>>)
    requires
        moment.consistent(),
    ensures
        moment.after_all(actions).consistent(),
    decreases actions.len(),
{
    if actions.len() > 0 {
        lemma_history_keeps_consistent(moment, actions.drop_last());
        action_keeps_consistent(moment.after_all(actions.drop_last()), actions.last());
    }
}

/// The pallet is consistent whatever has happened since it was empty.
pub proof fn every_history_is_consistent<T: Config>(
    first_index: SessionIndex,
    actions: Seq<Action<T>>,
)
    ensures
        (Moment { current_index: first_index, state: State::empty() }).after_all(
            actions,
        ).consistent(),
{
    let start = Moment::<T> { current_index: first_index, state: State::empty() };
    empty_state_is_registered::<T>();
    assert(start.consistent());
    lemma_history_keeps_consistent(start, actions);
}

/// Whatever happens, a transaction that was registered stays registered, and the
/// sessions never go back.
pub proof fn history_forgets_no_transaction<T: Config>(
    moment: Moment<T>,
    actions: Seq<Action<T>>,
    identifier: T::Hash,
)
    requires
        moment.state.txn_registry.contains_key(identifier),
    ensures
        moment.after_all(actions).state.txn_registry.contains_key(identifier),
        moment.after_all(actions).current_index >= moment.current_index,
    decreases actions.len(),
{
    if actions.len() > 0 {
        history_forgets_no_transaction(moment, actions.drop_last(), identifier);
    }
}

/// A user who submits the same call with the same nonce again, whatever happened in
/// between, submits under the same identifier. The fee is due each time. The registry
/// then holds what came with the second submission, with no layer taken off; the
/// identifier is appended to the queue of the second builder, and no queue loses it.
pub proof fn resubmission_has_the_same_identifier<T: Config>(
    moment: Moment<T>,
    user: T::AccountId,
    doubly_encrypted_call: Seq<u8>,
    nonce: T::Index,
    first_environment: Environment,
    first_weight: Weight,
    first_builder: T::AccountId,
    first_executor: T::AccountId,
    between: Seq<Action<T>>,
    second_environment: Environment,
    second_weight: Weight,
    second_builder: T::AccountId,
    second_executor: T::AccountId,
)
    requires
        doubly_encrypted_call.len() <= first_environment.doubly_encrypted_call_max_length,
        doubly_encrypted_call.len() <= second_environment.doubly_encrypted_call_max_length,
    ensures
        ({
            let identifier = identifier_of::<T>(doubly_encrypted_call, user, nonce);
            let origin = Origin::Signed(user);
            let first = moment.after(
                Action::SubmitDoublyEncrypted {
                    environment: first_environment,
                    origin,
                    doubly_encrypted_call,
                    nonce,
                    weight: first_weight,
                    builder: first_builder,
                    executor: first_executor,
                    withdrawal: Ok(()),
                },
            );
            let before = first.after_all(between);
            let second = before.after(
                Action::SubmitDoublyEncrypted {
                    environment: second_environment,
                    origin,
                    doubly_encrypted_call,
                    nonce,
                    weight: second_weight,
                    builder: second_builder,
                    executor: second_executor,
                    withdrawal: Ok(()),
                },
            );
            let submitted = Event::<T>::DoublyEncryptedTxnSubmitted(user, nonce, identifier);
            &&& first.state.events.last() == submitted
            &&& second.state.events.last() == submitted
            &&& charge_due(first_environment, origin, doubly_encrypted_call.len()) == Ok::<
                _,
                CallError,
            >(fee_of(user, first_environment.fee))
            &&& charge_due(second_environment, origin, doubly_encrypted_call.len()) == Ok::<
                _,
                CallError,
            >(fee_of(user, second_environment.fee))
            &&& before.state.txn_registry.contains_key(identifier)
            &&& second.state.txn_registry == before.state.txn_registry.insert(
                identifier,
                Transaction {
                    doubly_encrypted_call,
                    user,
                    nonce,
                    weight: second_weight,
                    builder: second_builder,
                    executor: second_executor,
                    singly_encrypted_call: None,
                    decrypted_call: None,
                },
            )
            &&& listed(second.state.doubly_encrypted_queue, second_builder) == listed(
                before.state.doubly_encrypted_queue,
                second_builder,
            ).push(identifier)
            &&& forall|builder: T::AccountId|
                builder != second_builder ==> #[trigger] listed(
                    second.state.doubly_encrypted_queue,
                    builder,
                ) == listed(before.state.doubly_encrypted_queue, builder)
            &&& second.state.singly_encrypted_queue == before.state.singly_encrypted_queue
        }),
{
    let first = moment.after(
        Action::SubmitDoublyEncrypted {
            environment: first_environment,
            origin: Origin::Signed(user),
            doubly_encrypted_call,
            nonce,
            weight: first_weight,
            builder: first_builder,
            executor: first_executor,
            withdrawal: Ok(()),
        },
    );
    history_forgets_no_transaction(
        first,
        between,
        identifier_of::<T>(doubly_encrypted_call, user, nonce),
    );
}

/// Whether a user submits what has this identifier.
pub open spec fn submits<T: Config>(
    action: Action<T>,
    user: T::AccountId,
    identifier: T::Hash,
) -> bool {
    action matches Action::SubmitDoublyEncrypted { origin, doubly_encrypted_call, nonce, .. }
        && origin == Origin::Signed(user) && identifier == identifier_of::<T>(
        doubly_encrypted_call,
        user,
        nonce,
    )
}

/// From a session on, a transaction is on record for a user in that session alone, if
/// at all, and there as refunded.
spec fn spent<T: Config>(
    state: State<T>,
    since: SessionIndex,
    user: T::AccountId,
    identifier: T::Hash,
) -> bool {
    forall|index: SessionIndex|
        index >= since && (#[trigger] recorded(state.txn_record, (index, user))).contains_key(
            identifier,
        ) ==> index == since && recorded(state.txn_record, (index, user))[identifier].2
}

proof fn lemma_action_keeps_spent<T: Config>(
    moment: Moment<T>,
    action: Action<T>,
    since: SessionIndex,
    user: T::AccountId,
    identifier: T::Hash,
)
    requires
        moment.current_index >= since,
        spent(moment.state, since, user, identifier),
        !submits(action, user, identifier),
    ensures
        moment.after(action).current_index >= since,
        spent(moment.after(action).state, since, user, identifier),
{
    let before = moment.state;
    let after = moment.after(action).state;
    if moment.current_index > since {
        let previous = (moment.current_index - 1) as u32;
        assert(recorded(before.txn_record, (previous, user)).contains_key(identifier)
            ==> recorded(before.txn_record, (previous, user))[identifier].2);
        assert(before.refundable(moment.current_index, user, identifier) is None);
    }
    assert forall|index: SessionIndex|
        index >= since && (#[trigger] recorded(after.txn_record, (index, user))).contains_key(
            identifier,
        ) implies index == since && recorded(after.txn_record, (index, user))[identifier].2 by {
        let old_records = recorded(before.txn_record, (index, user));
        assert(old_records.contains_key(identifier) ==> index == since
            && old_records[identifier].2);
    }
}

proof fn lemma_history_keeps_spent<T: Config>(
    moment: Moment<T>,
    actions: Seq<Action<T>>,
    since: SessionIndex,
    user: T::AccountId,
    identifier: T::Hash,
)
    requires
        moment.current_index >= since,
        spent(moment.state, since, user, identifier),
        forall|i: int|
            0 <= i < actions.len() ==> !submits(#[trigger] actions[i], user, identifier),
    ensures
        moment.after_all(actions).current_index >= since,
        spent(moment.after_all(actions).state, since, user, identifier),
    decreases actions.len(),
{
    if actions.len() > 0 {
        let init = actions.drop_last();
        assert forall|i: int| 0 <= i < init.len() implies !submits(
            #[trigger] init[i],
            user,
            identifier,
        ) by {
            assert(init[i] == actions[i]);
        }
        lemma_history_keeps_spent(moment, init, since, user, identifier);
        lemma_action_keeps_spent(
            moment.after_all(init),
            actions.last(),
            since,
            user,
            identifier,
        );
    }
}

/// What was refunded to a user is not refunded in any later session, unless the user
/// submits it again.
pub proof fn refunded_transaction_is_not_refunded_later<T: Config>(
    moment: Moment<T>,
    user: T::AccountId,
    identifier: T::Hash,
    actions: Seq<Action<T>>,
)
    requires
        moment.consistent(),
        moment.state.refund_outcome(moment.current_index, Origin::Signed(user), identifier) is Ok,
        forall|i: int|
            0 <= i < actions.len() ==> !submits(#[trigger] actions[i], user, identifier),
    ensures
        ({
            let later = moment.after(
                Action::Refund { origin: Origin::Signed(user), identifier },
            ).after_all(actions);
            later.current_index > moment.current_index ==> later.state.refund_outcome(
                later.current_index,
                Origin::Signed(user),
                identifier,
            ) == Err::<(), _>(CallError::Module(Error::NoMarkedRefund))
        }),
{
    let since = moment.current_index;
    let refunded = moment.after(Action::Refund { origin: Origin::Signed(user), identifier });
    assert forall|index: SessionIndex|
        index >= since && (#[trigger] recorded(
            refunded.state.txn_record,
            (index, user),
        )).contains_key(identifier) implies index == since && recorded(
        refunded.state.txn_record,
        (index, user),
    )[identifier].2 by {
        if index > since {
            assert(recorded(moment.state.txn_record, (index, user)).contains_key(identifier));
        }
    }
    lemma_history_keeps_spent(refunded, actions, since, user, identifier);
    let later = refunded.after_all(actions);
    if later.current_index > since {
        let previous = (later.current_index - 1) as u32;
        assert(recorded(later.state.txn_record, (previous, user)).contains_key(identifier)
            ==> recorded(later.state.txn_record, (previous, user))[identifier].2);
    }
}

/// A transaction that was on record for a user in a session either was executed for the
/// user in it or is no longer on record for it.
spec fn settled<T: Config>(
    moment: Moment<T>,
    since: SessionIndex,
    user: T::AccountId,
    identifier: T::Hash,
) -> bool {
    ||| listed(moment.state.execd_txn_record, (since, user)).contains(identifier)
    ||| moment.current_index > since && !recorded(
        moment.state.txn_record,
        (since, user),
    ).contains_key(identifier)
}

proof fn lemma_action_keeps_settled<T: Config>(
    moment: Moment<T>,
    action: Action<T>,
    since: SessionIndex,
    user: T::AccountId,
    identifier: T::Hash,
)
    requires
        moment.current_index >= since,
        settled(moment, since, user, identifier),
    ensures
        moment.after(action).current_index >= since,
        settled(moment.after(action), since, user, identifier),
{
    let slot = (since, user);
    let before = listed(moment.state.execd_txn_record, slot);
    let after = listed(moment.after(action).state.execd_txn_record, slot);
    if before.contains(identifier) && after.len() > before.len() {
        let i = choose|i: int| 0 <= i < before.len() && before[i] == identifier;
        assert(after[i] == identifier);
    }
}

proof fn lemma_history_keeps_settled<T: Config>(
    moment: Moment<T>,
    actions: Seq<Action<T>>,
    since: SessionIndex,
    user: T::AccountId,
    identifier: T::Hash,
)
    requires
        moment.current_index >= since,
        settled(moment, since, user, identifier),
    ensures
        moment.after_all(actions).current_index >= since,
        settled(moment.after_all(actions), since, user, identifier),
    decreases actions.len(),
{
    if actions.len() > 0 {
        let init = actions.drop_last();
        lemma_history_keeps_settled(moment, init, since, user, identifier);
        lemma_action_keeps_settled(
            moment.after_all(init),
            actions.last(),
            since,
            user,
            identifier,
        );
    }
}

/// What was decrypted in one session is not refunded in the session that follows,
/// whatever happens in between.
pub proof fn decrypted_transaction_is_not_refunded_next_session<T: Config>(
    moment: Moment<T>,
    identifier: T::Hash,
    decrypted_call: Seq<u8>,
    actions: Seq<Action<T>>,
)
    requires
        moment.current_index < u32::MAX,
        moment.state.takes_decrypted(Origin::Unsigned, identifier),
    ensures
        ({
            let user = moment.state.txn_registry[identifier].user;
            let later = moment.after(
                Action::SubmitDecrypted { origin: Origin::Unsigned, identifier, decrypted_call },
            ).after_all(actions);
            later.current_index == moment.current_index + 1 ==> later.state.refund_outcome(
                later.current_index,
                Origin::Signed(user),
                identifier,
            ) == Err::<(), _>(CallError::Module(Error::NoMarkedRefund))
        }),
{
    let since = moment.current_index;
    let user = moment.state.txn_registry[identifier].user;
    let decrypted = moment.after(
        Action::SubmitDecrypted { origin: Origin::Unsigned, identifier, decrypted_call },
    );
    let list = listed(decrypted.state.execd_txn_record, (since, user));
    assert(list[list.len() - 1] == identifier);
    lemma_history_keeps_settled(decrypted, actions, since, user, identifier);
}

/// Nothing of a transaction is on record for a user in a session after this one.
spec fn unrecorded_after<T: Config>(
    state: State<T>,
    since: SessionIndex,
    user: T::AccountId,
    identifier: T::Hash,
) -> bool {
    forall|index: SessionIndex|
        index > since ==> !(#[trigger] recorded(state.txn_record, (index, user))).contains_key(
            identifier,
        )
}

proof fn lemma_history_keeps_unrecorded<T: Config>(
    moment: Moment<T>,
    actions: Seq<Action<T>>,
    since: SessionIndex,
    user: T::AccountId,
    identifier: T::Hash,
)
    requires
        moment.current_index >= since,
        settled(moment, since, user, identifier),
        unrecorded_after(moment.state, since, user, identifier),
        forall|i: int|
            0 <= i < actions.len() ==> !submits(#[trigger] actions[i], user, identifier),
    ensures
        unrecorded_after(moment.after_all(actions).state, since, user, identifier),
    decreases actions.len(),
{
    if actions.len() > 0 {
        let init = actions.drop_last();
        assert forall|i: int| 0 <= i < init.len() implies !submits(
            #[trigger] init[i],
            user,
            identifier,
        ) by {
            assert(init[i] == actions[i]);
        }
        lemma_history_keeps_unrecorded(moment, init, since, user, identifier);
        lemma_history_keeps_settled(moment, init, since, user, identifier);
        let before = moment.after_all(init);
        let after = moment.after_all(actions).state;
        if before.current_index > since {
            let previous = (before.current_index - 1) as u32;
            assert(previous > since ==> !recorded(
                before.state.txn_record,
                (previous, user),
            ).contains_key(identifier));
            assert(before.state.refundable(before.current_index, user, identifier) is None);
        }
        assert forall|index: SessionIndex| index > since implies !(#[trigger] recorded(
            after.txn_record,
            (index, user),
        )).contains_key(identifier) by {
            assert(!recorded(before.state.txn_record, (index, user)).contains_key(identifier));
        }
    }
}

/// What was decrypted is not refunded in any later session, unless its user submits it
/// again.
pub proof fn decrypted_transaction_is_not_refunded_later<T: Config>(
    moment: Moment<T>,
    identifier: T::Hash,
    decrypted_call: Seq<u8>,
    actions: Seq<Action<T>>,
)
    requires
        moment.consistent(),
        moment.state.takes_decrypted(Origin::Unsigned, identifier),
        forall|i: int|
            0 <= i < actions.len() ==> !submits(
                #[trigger] actions[i],
                moment.state.txn_registry[identifier].user,
                identifier,
            ),
    ensures
        ({
            let user = moment.state.txn_registry[identifier].user;
            let later = moment.after(
                Action::SubmitDecrypted { origin: Origin::Unsigned, identifier, decrypted_call },
            ).after_all(actions);
            later.current_index > moment.current_index ==> later.state.refund_outcome(
                later.current_index,
                Origin::Signed(user),
                identifier,
            ) == Err::<(), _>(CallError::Module(Error::NoMarkedRefund))
        }),
{
    let since = moment.current_index;
    let user = moment.state.txn_registry[identifier].user;
    let decrypted = moment.after(
        Action::SubmitDecrypted { origin: Origin::Unsigned, identifier, decrypted_call },
    );
    let list = listed(decrypted.state.execd_txn_record, (since, user));
    assert(list[list.len() - 1] == identifier);
    lemma_history_keeps_settled(decrypted, actions, since, user, identifier);
    lemma_history_keeps_unrecorded(decrypted, actions, since, user, identifier);
    let later = decrypted.after_all(actions);
    if later.current_index > since {
        let previous = (later.current_index - 1) as u32;
        assert(previous > since ==> !recorded(
            later.state.txn_record,
            (previous, user),
        ).contains_key(identifier));
    }
}

/// Whether a transaction is on record for a user in a session with this nonce and fee,
/// as not refunded, and was not executed for the user in it.
spec fn open_in<T: Config>(
    state: State<T>,
    index: SessionIndex,
    user: T::AccountId,
    identifier: T::Hash,
    nonce: T::Index,
    fee: Balance,
) -> bool {
    let records = recorded(state.txn_record, (index, user));
    &&& records.contains_key(identifier)
    &&& records[identifier] == (nonce, fee, false)
    &&& !listed(state.execd_txn_record, (index, user)).contains(identifier)
}

/// Whether something is done about a transaction of a user: the user submits it or asks
/// for a refund of it, or what it decrypts to is submitted.
pub open spec fn concerns<T: Config>(
    action: Action<T>,
    user: T::AccountId,
    identifier: T::Hash,
) -> bool {
    ||| submits(action, user, identifier)
    ||| action matches Action::SubmitDecrypted { identifier: decrypted, .. } && decrypted
        == identifier
    ||| action matches Action::Refund { origin, identifier: refunded } && origin
        == Origin::Signed(user) && refunded == identifier
}

proof fn lemma_session_keeps_open<T: Config>(
    moment: Moment<T>,
    actions: Seq<Action<T>>,
    user: T::AccountId,
    identifier: T::Hash,
    nonce: T::Index,
    fee: Balance,
)
    requires
        moment.current_index < u32::MAX,
        open_in(moment.state, moment.current_index, user, identifier, nonce, fee),
        forall|i: int|
            0 <= i < actions.len() ==> !concerns(#[trigger] actions[i], user, identifier),
    ensures
        moment.after_all(actions).current_index >= moment.current_index,
        moment.after_all(actions).current_index == moment.current_index ==> open_in(
            moment.after_all(actions).state,
            moment.current_index,
            user,
            identifier,
            nonce,
            fee,
        ),
    decreases actions.len(),
{
    if actions.len() > 0 {
        let init = actions.drop_last();
        assert forall|i: int| 0 <= i < init.len() implies !concerns(
            #[trigger] init[i],
            user,
            identifier,
        ) by {
            assert(init[i] == actions[i]);
        }
        lemma_session_keeps_open(moment, init, user, identifier, nonce, fee);
        let slot = (moment.current_index, user);
        let before = listed(moment.after_all(init).state.execd_txn_record, slot);
        let after = listed(moment.after_all(actions).state.execd_txn_record, slot);
        if after.contains(identifier) {
            let i = choose|i: int| 0 <= i < after.len() && after[i] == identifier;
            if i < before.len() {
                assert(before[i] == after[i]);
            }
        }
    }
}

proof fn lemma_next_session_keeps_open<T: Config>(
    moment: Moment<T>,
    actions: Seq<Action<T>>,
    user: T::AccountId,
    identifier: T::Hash,
    nonce: T::Index,
    fee: Balance,
)
    requires
        0 < moment.current_index < u32::MAX,
        open_in(moment.state, (moment.current_index - 1) as u32, user, identifier, nonce, fee),
    ensures
        moment.after_all(actions).current_index >= moment.current_index,
        moment.after_all(actions).current_index == moment.current_index ==> open_in(
            moment.after_all(actions).state,
            (moment.current_index - 1) as u32,
            user,
            identifier,
            nonce,
            fee,
        ),
    decreases actions.len(),
{
    if actions.len() > 0 {
        lemma_next_session_keeps_open(moment, actions.drop_last(), user, identifier, nonce, fee);
    }
}

/// A transaction that is not executed in the session it is submitted in can be refunded
/// in the next one, at any time, with the nonce and the fee it was submitted with, and
/// the refund is made known with these and the session it was submitted in. This takes
/// that the session goes on without anything else being done about it.
pub proof fn unexecuted_transaction_is_refunded_next_session<T: Config>(
    moment: Moment<T>,
    environment: Environment,
    user: T::AccountId,
    doubly_encrypted_call: Seq<u8>,
    nonce: T::Index,
    weight: Weight,
    builder: T::AccountId,
    executor: T::AccountId,
    during: Seq<Action<T>>,
    later: Seq<Action<T>>,
)
    requires
        moment.current_index + 1 < u32::MAX,
        doubly_encrypted_call.len() <= environment.doubly_encrypted_call_max_length,
        !listed(moment.state.execd_txn_record, (moment.current_index, user)).contains(
            identifier_of::<T>(doubly_encrypted_call, user, nonce),
        ),
        forall|i: int|
            0 <= i < during.len() ==> !concerns(
                #[trigger] during[i],
                user,
                identifier_of::<T>(doubly_encrypted_call, user, nonce),
            ),
    ensures
        ({
            let identifier = identifier_of::<T>(doubly_encrypted_call, user, nonce);
            let origin = Origin::Signed(user);
            let end = moment.after(
                Action::SubmitDoublyEncrypted {
                    environment,
                    origin,
                    doubly_encrypted_call,
                    nonce,
                    weight,
                    builder,
                    executor,
                    withdrawal: Ok(()),
                },
            ).after_all(during);
            let next = end.after(Action::EndSession).after_all(later);
            end.current_index == moment.current_index && next.current_index
                == moment.current_index + 1 ==> next.state.refundable(
                next.current_index,
                user,
                identifier,
            ) == Some((nonce, environment.fee)) && next.state.refund_outcome(
                next.current_index,
                origin,
                identifier,
            ) is Ok && next.after(Action::Refund { origin, identifier }).state.events.last()
                == Event::<T>::UserRefunded(
                moment.current_index,
                user,
                nonce,
                identifier,
                environment.fee,
            )
        }),
{
    let identifier = identifier_of::<T>(doubly_encrypted_call, user, nonce);
    let submitted = moment.after(
        Action::SubmitDoublyEncrypted {
            environment,
            origin: Origin::Signed(user),
            doubly_encrypted_call,
            nonce,
            weight,
            builder,
            executor,
            withdrawal: Ok(()),
        },
    );
    lemma_session_keeps_open(submitted, during, user, identifier, nonce, environment.fee);
    let end = submitted.after_all(during);
    if end.current_index == moment.current_index {
        lemma_next_session_keeps_open(
            end.after(Action::EndSession),
            later,
            user,
            identifier,
            nonce,
            environment.fee,
        );
    }
}

/// What a user submits with a signature, within the largest length, and has paid for, is
/// submitted in the current session under the hash of the call, then the user's encoding,
/// then the nonce's encoding. Any other submission changes nothing.
pub proof fn submission_takes_effect_where_it_is_accepted<T: Config>(
    state: State<T>,
    current_index: SessionIndex,
    environment: Environment,
    origin: Origin<T::AccountId>,
    doubly_encrypted_call: Seq<u8>,
    nonce: T::Index,
    weight: Weight,
    builder: T::AccountId,
    executor: T::AccountId,
    withdrawal: OutsideResult,
    bytes: Seq<u8>,
)
    requires
        ({
            let n = doubly_encrypted_call.len() as int;
            let account = T::account_bytes(origin->Signed_0);
            let u = account.len() as int;
            let index = T::index_bytes(nonce);
            &&& bytes.len() == n + u + index.len()
            &&& forall|i: int| 0 <= i < n ==> bytes[i] == doubly_encrypted_call[i]
            &&& forall|i: int| 0 <= i < u ==> bytes[n + i] == #[trigger] account[i]
            &&& forall|i: int|
                0 <= i < index.len() ==> bytes[n + u + i] == #[trigger] index[i]
        }),
    ensures
        ({
            let after = state.after(
                current_index,
                Action::SubmitDoublyEncrypted {
                    environment,
                    origin,
                    doubly_encrypted_call,
                    nonce,
                    weight,
                    builder,
                    executor,
                    withdrawal,
                },
            );
            let accepted = origin is Signed && doubly_encrypted_call.len()
                <= environment.doubly_encrypted_call_max_length && withdrawal is Ok;
            &&& !accepted ==> after == state
            &&& accepted ==> after == state.submitted(
                Environment { current_index, ..environment },
                T::hash(bytes),
                doubly_encrypted_call,
                origin->Signed_0,
                nonce,
                weight,
                builder,
                executor,
            )
        }),
{
    identifier_hashes_call_then_user_then_nonce::<T>(
        doubly_encrypted_call,
        origin->Signed_0,
        nonce,
        bytes,
    );
}

/// A layer comes off a registered transaction where nobody signed for it. Otherwise
/// nothing changes.
pub proof fn layers_come_off_where_they_are_accepted<T: Config>(
    state: State<T>,
    current_index: SessionIndex,
    origin: Origin<T::AccountId>,
    identifier: T::Hash,
    bytes: Seq<u8>,
)
    ensures
        ({
            let accepted = origin is Unsigned && state.txn_registry.contains_key(identifier);
            let opened = state.after(
                current_index,
                Action::SubmitSinglyEncrypted { origin, identifier, singly_encrypted_call: bytes },
            );
            let decrypted = state.after(
                current_index,
                Action::SubmitDecrypted { origin, identifier, decrypted_call: bytes },
            );
            &&& accepted ==> opened == state.outer_layer_removed(identifier, bytes)
            &&& !accepted ==> opened == state
            &&& accepted ==> decrypted == state.inner_layer_removed(
                current_index,
                identifier,
                bytes,
            )
            &&& !accepted ==> decrypted == state
        }),
{
}

/// A refund is granted where an account signed for it and the session before the current
/// one has the transaction on record for that account, as not refunded and not as
/// executed. It is then made known with that session and with exactly the nonce and the
/// fee on that record, and the current session has these on record, marked as refunded.
/// The record of the session before stays as it was. Where no refund is granted, nothing
/// changes.
pub proof fn refund_gives_back_what_was_charged<T: Config>(
    state: State<T>,
    current_index: SessionIndex,
    previous: SessionIndex,
    origin: Origin<T::AccountId>,
    identifier: T::Hash,
)
    requires
        previous + 1 == current_index,
    ensures
        ({
            let after = state.after(current_index, Action::Refund { origin, identifier });
            let user = origin->Signed_0;
            let old_slot = (previous, user);
            let slot = (current_index, user);
            let record = state.txn_record[old_slot][identifier];
            let granted = origin is Signed && state.txn_record.contains_key(old_slot)
                && state.txn_record[old_slot].contains_key(identifier) && !record.2 && !(
            state.execd_txn_record.contains_key(old_slot)
                && state.execd_txn_record[old_slot].contains(identifier));
            &&& granted <==> state.refund_outcome(current_index, origin, identifier) is Ok
            &&& !granted ==> after == state
            &&& granted ==> {
                &&& after.events.len() == state.events.len() + 1
                &&& after.events.last() == Event::<T>::UserRefunded(
                    previous,
                    user,
                    record.0,
                    identifier,
                    record.1,
                )
                &&& after.txn_record.contains_key(slot)
                &&& after.txn_record[slot].contains_key(identifier)
                &&& after.txn_record[slot][identifier].0 == record.0
                &&& after.txn_record[slot][identifier].1 == record.1
                &&& after.txn_record[slot][identifier].2
                &&& after.txn_record[old_slot] == state.txn_record[old_slot]
                &&& after.txn_registry == state.txn_registry
                &&& after.execd_txn_record == state.execd_txn_record
            }
        }),
{
}

/// In session 0 no refund is granted, and asking for one changes nothing.
pub proof fn first_session_grants_no_refund<T: Config>(
    state: State<T>,
    origin: Origin<T::AccountId>,
    identifier: T::Hash,
)
    ensures
        state.after(0, Action::Refund { origin, identifier }) == state,
        state.refund_outcome(0, origin, identifier) is Err,
{
}

/// What is made known of an execution changes nothing but what is made known, new keys
/// change nothing but the keys, and the end of a session does what it does in the current
/// session.
pub proof fn other_actions_change_one_thing_each<T: Config>(
    state: State<T>,
    current_index: SessionIndex,
    pending: Pending<T>,
    outcome: OutsideResult,
    keys: Map<T::AccountId, T::AuthorityId>,
)
    ensures
        state.after(current_index, Action::ReportCall { pending, outcome }) == state.call_reported(
            pending,
            outcome,
        ),
        state.after(current_index, Action::FinishExecution { pending })
            == state.execution_finished(pending),
        state.after(current_index, Action::SetKeys { keys }) == (State { keys, ..state }),
        state.after(current_index, Action::EndSession) == state.session_ended(current_index),
{
}

/// Only the end of a session moves the chain on, and to the very next session.
pub proof fn sessions_come_one_after_another<T: Config>(moment: Moment<T>, action: Action<T>)
    ensures
        action !is EndSession ==> moment.after(action).current_index == moment.current_index,
        action is EndSession && moment.current_index < u32::MAX ==> moment.after(
            action,
        ).current_index == moment.current_index + 1,
        moment.after(action).state == moment.state.after(moment.current_index, action),
        moment.after_all(seq![action]) == moment.after(action),
        moment.after_all(Seq::empty()) == moment,
{
    assert(seq![action].drop_last() =~= Seq::<Action<T>>::empty());
    reveal_with_fuel(Moment::after_all, 2);
}

/// Doing some things and then others is doing them all, one after another.
pub proof fn histories_follow_one_another<T: Config>(
    moment: Moment<T>,
    first: Seq<Action<T>>,
    second: Seq<Action<T>>,
)
    ensures
        moment.after_all(first + second) == moment.after_all(first).after_all(second),
    decreases second.len(),
{
    if second.len() == 0 {
        assert(first + second =~= first);
    } else {
        histories_follow_one_another(moment, first, second.drop_last());
        assert((first + second).drop_last() =~= first + second.drop_last());
    }
}

} // verus!
