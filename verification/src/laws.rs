//! What holds of the pallet as a whole.

use crate::config::{Config, System};
use crate::execution::{started, Execution};
use crate::fee::ChargeStep;
use crate::pallet::Pallet;
use crate::state::{
    charge_due, decoded_calls, decodes, executed, execution_outcome, fee_of, identifiable,
    identifier_of, listed, preimage, recorded, reported, submission_outcome, total_weight, weighs,
    without, Pending, State,
};
use crate::substrate::{blake_two_256_hash_of, little_endian, Substrate};
use crate::types::{
    Balance, CallError, Environment, Error, Event, FeeCharge, Origin, OutsideResult, SessionIndex,
    Transaction, TxnRegistryDetails, Weight,
};
use vstd::arithmetic::div_mod::{
    lemma_div_denominator, lemma_fundamental_div_mod, lemma_fundamental_div_mod_converse,
};
use vstd::prelude::*;

verus! {

/// Dropping an item from a list leaves none of it, keeps every other item, and brings
/// nothing in.
pub proof fn dropped_item_is_gone<H>(list: Seq<H>, item: H)
    ensures
        !without(list, item).contains(item),
        forall|other: H|
            other != item ==> (#[trigger] without(list, item).contains(other) <==> list.contains(
                other,
            )),
    decreases list.len(),
{
    reveal(Seq::filter);
    if list.len() > 0 {
        let init = list.drop_last();
        dropped_item_is_gone(init, item);
        let kept = without(init, item);
        assert forall|other: H| other != item implies (#[trigger] without(list, item).contains(
            other,
        ) <==> list.contains(other)) by {
            if list.last() != item {
                assert(without(list, item) == kept.push(list.last()));
                if kept.contains(other) {
                    let i = choose|i: int| 0 <= i < kept.len() && kept[i] == other;
                    assert(without(list, item)[i] == other);
                }
                if other == list.last() {
                    assert(without(list, item)[kept.len() as int] == other);
                    assert(list[list.len() - 1] == other);
                }
            }
            assert(kept.contains(other) <==> init.contains(other));
            if list.contains(other) {
                let i = choose|i: int| 0 <= i < list.len() && list[i] == other;
                if i < init.len() {
                    assert(init[i] == other);
                }
            }
            if init.contains(other) {
                let i = choose|i: int| 0 <= i < init.len() && init[i] == other;
                assert(list[i] == other);
            }
        }
        if without(list, item).contains(item) {
            let i = choose|i: int|
                0 <= i < without(list, item).len() && without(list, item)[i] == item;
            if list.last() != item {
                if i < kept.len() {
                    assert(kept[i] == item);
                }
            }
        }
    }
}

/// A submission that is refused before its fee is due ends the same way whatever a
/// withdrawal would have come to, and one that is not ends as its withdrawal does.
pub proof fn fee_decides_only_where_it_is_due<AccountId>(
    environment: Environment,
    origin: Origin<AccountId>,
    length: nat,
    withdrawal: OutsideResult,
)
    ensures
        match charge_due(environment, origin, length) {
            Err(error) => submission_outcome(environment, origin, length, withdrawal) == Err::<
                (),
                _,
            >(error),
            Ok(charge) => submission_outcome(environment, origin, length, withdrawal) == reported(
                withdrawal,
            ) && origin == Origin::Signed(charge.who) && charge.amount == environment.fee,
        },
{
}

/// A submission whose fee is due ends as charging the fee does. The fee is checked
/// first, withdrawn only where the check agreed, and handed over only where it was
/// withdrawn. A submission ends well where the fee was handed over, and nowhere else.
pub proof fn submission_ends_as_its_charge_does<AccountId>(
    environment: Environment,
    user: AccountId,
    length: nat,
    checked: OutsideResult,
    withdrawn: OutsideResult,
    handed_over: OutsideResult,
)
    requires
        length <= environment.doubly_encrypted_call_max_length,
    ensures
        ({
            let origin = Origin::Signed(user);
            let charge = fee_of(user, environment.fee);
            let second = ChargeStep::Check(charge).followed_by(checked);
            let third = second.followed_by(withdrawn);
            let last = third.followed_by(handed_over);
            &&& charge_due(environment, origin, length) == Ok::<_, CallError>(charge)
            &&& second == if checked is Ok {
                ChargeStep::Withdraw(charge)
            } else {
                ChargeStep::Ended(checked)
            }
            &&& third is HandOver <==> checked is Ok && withdrawn is Ok
            &&& last matches ChargeStep::Ended(ending) && (submission_outcome(
                environment,
                origin,
                length,
                ending,
            ) == if checked is Err {
                reported(checked)
            } else {
                reported(withdrawn)
            })
            &&& submission_outcome(environment, origin, length, last->Ended_0) is Ok
                <==> third is HandOver
        }),
{
}

/// A transaction goes from its builder's queue to its executor's queue to the record
/// of executed transactions, is in neither queue at the end, and the registry then
/// holds every layer of it.
pub proof fn transaction_goes_from_queue_to_queue<T: Config>(
    state: State<T>,
    environment: Environment,
    identifier: T::Hash,
    doubly_encrypted_call: Seq<u8>,
    user: T::AccountId,
    nonce: T::Index,
    weight: Weight,
    builder: T::AccountId,
    executor: T::AccountId,
    singly_encrypted_call: Seq<u8>,
    executed_in: SessionIndex,
    decrypted_call: Seq<u8>,
)
    ensures
        ({
            let submitted = state.submitted(
                environment,
                identifier,
                doubly_encrypted_call,
                user,
                nonce,
                weight,
                builder,
                executor,
            );
            let opened = submitted.outer_layer_removed(identifier, singly_encrypted_call);
            let decrypted = opened.inner_layer_removed(executed_in, identifier, decrypted_call);
            let slot = (executed_in, user);
            &&& submitted.singly_encrypted_outcome(Origin::Unsigned, identifier) is Ok
            &&& opened.takes_decrypted(Origin::Unsigned, identifier)
            &&& listed(submitted.doubly_encrypted_queue, builder).last() == identifier
            &&& !listed(opened.doubly_encrypted_queue, builder).contains(identifier)
            &&& listed(opened.singly_encrypted_queue, executor).last() == identifier
            &&& !listed(decrypted.doubly_encrypted_queue, builder).contains(identifier)
            &&& !listed(decrypted.singly_encrypted_queue, executor).contains(identifier)
            &&& listed(decrypted.execd_txn_record, slot).last() == identifier
            &&& decrypted.txn_registry[identifier] == (Transaction {
                doubly_encrypted_call,
                user,
                nonce,
                weight,
                builder,
                executor,
                singly_encrypted_call: Some(singly_encrypted_call),
                decrypted_call: Some(decrypted_call),
            })
        }),
{
    let submitted = state.submitted(
        environment,
        identifier,
        doubly_encrypted_call,
        user,
        nonce,
        weight,
        builder,
        executor,
    );
    let opened = submitted.outer_layer_removed(identifier, singly_encrypted_call);
    dropped_item_is_gone(listed(submitted.doubly_encrypted_queue, builder), identifier);
    dropped_item_is_gone(listed(opened.singly_encrypted_queue, executor), identifier);
}

/// Everything that waits in a queue and everything on record is registered.
pub open spec fn all_registered<T: Config>(state: State<T>) -> bool {
    &&& forall|builder: T::AccountId, identifier: T::Hash| #[trigger]
        listed(state.doubly_encrypted_queue, builder).contains(identifier)
            ==> state.txn_registry.contains_key(identifier)
    &&& forall|executor: T::AccountId, identifier: T::Hash| #[trigger]
        listed(state.singly_encrypted_queue, executor).contains(identifier)
            ==> state.txn_registry.contains_key(identifier)
    &&& forall|slot: (SessionIndex, T::AccountId), identifier: T::Hash| #[trigger]
        listed(state.execd_txn_record, slot).contains(identifier)
            ==> state.txn_registry.contains_key(identifier)
    &&& forall|slot: (SessionIndex, T::AccountId), identifier: T::Hash| #[trigger]
        recorded(state.txn_record, slot).contains_key(identifier)
            ==> state.txn_registry.contains_key(identifier)
}

/// Nothing waits and nothing is on record before anything has happened.
pub proof fn empty_state_is_registered<T: Config>()
    ensures
        all_registered(State::<T>::empty()),
{
}

proof fn lemma_pushed<H>(list: Seq<H>, item: H)
    ensures
        forall|other: H| #[trigger]
            list.push(item).contains(other) <==> list.contains(other) || other == item,
{
    assert forall|other: H| #[trigger]
        list.push(item).contains(other) <==> list.contains(other) || other == item by {
        if list.contains(other) {
            let i = choose|i: int| 0 <= i < list.len() && list[i] == other;
            assert(list.push(item)[i] == other);
        }
        assert(list.push(item)[list.len() as int] == item);
        if list.push(item).contains(other) {
            let i = choose|i: int| 0 <= i < list.push(item).len() && list.push(item)[i] == other;
            if i < list.len() {
                assert(list[i] == other);
            }
        }
    }
}

/// A submission keeps everything registered.
pub proof fn submission_keeps_all_registered<T: Config>(
    state: State<T>,
    environment: Environment,
    identifier: T::Hash,
    doubly_encrypted_call: Seq<u8>,
    user: T::AccountId,
    nonce: T::Index,
    weight: Weight,
    builder: T::AccountId,
    executor: T::AccountId,
)
    requires
        all_registered(state),
    ensures
        all_registered(
            state.submitted(
                environment,
                identifier,
                doubly_encrypted_call,
                user,
                nonce,
                weight,
                builder,
                executor,
            ),
        ),
{
    lemma_pushed(listed(state.doubly_encrypted_queue, builder), identifier);
    let after = state.submitted(
        environment,
        identifier,
        doubly_encrypted_call,
        user,
        nonce,
        weight,
        builder,
        executor,
    );
    assert forall|slot: (SessionIndex, T::AccountId), other: T::Hash| #[trigger]
        recorded(
            after.txn_record,
            slot,
        ).contains_key(other) implies after.txn_registry.contains_key(other) by {
        if other != identifier {
            assert(recorded(state.txn_record, slot).contains_key(other));
        }
    }
    assert forall|account: T::AccountId, other: T::Hash| #[trigger]
        listed(
            after.doubly_encrypted_queue,
            account,
        ).contains(other) implies after.txn_registry.contains_key(other) by {
        if other != identifier {
            assert(listed(state.doubly_encrypted_queue, account).contains(other));
        }
    }
}

/// Taking off an outer layer keeps everything registered.
pub proof fn outer_layer_keeps_all_registered<T: Config>(
    state: State<T>,
    identifier: T::Hash,
    singly_encrypted_call: Seq<u8>,
)
    requires
        all_registered(state),
        state.txn_registry.contains_key(identifier),
    ensures
        all_registered(state.outer_layer_removed(identifier, singly_encrypted_call)),
{
    let txn = state.txn_registry[identifier];
    let after = state.outer_layer_removed(identifier, singly_encrypted_call);
    lemma_pushed(listed(state.singly_encrypted_queue, txn.executor), identifier);
    dropped_item_is_gone(listed(state.doubly_encrypted_queue, txn.builder), identifier);
    assert forall|account: T::AccountId, other: T::Hash| #[trigger]
        listed(
            after.doubly_encrypted_queue,
            account,
        ).contains(other) implies after.txn_registry.contains_key(other) by {
        if other != identifier {
            assert(listed(state.doubly_encrypted_queue, account).contains(other));
        }
    }
    assert forall|account: T::AccountId, other: T::Hash| #[trigger]
        listed(
            after.singly_encrypted_queue,
            account,
        ).contains(other) implies after.txn_registry.contains_key(other) by {
        if other != identifier {
            assert(listed(state.singly_encrypted_queue, account).contains(other));
        }
    }
}

/// Taking off an inner layer keeps everything registered.
pub proof fn inner_layer_keeps_all_registered<T: Config>(
    state: State<T>,
    current_index: SessionIndex,
    identifier: T::Hash,
    decrypted_call: Seq<u8>,
)
    requires
        all_registered(state),
        state.txn_registry.contains_key(identifier),
    ensures
        all_registered(state.inner_layer_removed(current_index, identifier, decrypted_call)),
{
    let txn = state.txn_registry[identifier];
    let after = state.inner_layer_removed(current_index, identifier, decrypted_call);
    lemma_pushed(
        listed(state.execd_txn_record, (current_index, txn.user)),
        identifier,
    );
    dropped_item_is_gone(listed(state.singly_encrypted_queue, txn.executor), identifier);
    assert forall|account: T::AccountId, other: T::Hash| #[trigger]
        listed(
            after.singly_encrypted_queue,
            account,
        ).contains(other) implies after.txn_registry.contains_key(other) by {
        if other != identifier {
            assert(listed(state.singly_encrypted_queue, account).contains(other));
        }
    }
    assert forall|slot: (SessionIndex, T::AccountId), other: T::Hash| #[trigger]
        listed(after.execd_txn_record, slot).contains(other) implies after.txn_registry.contains_key(
        other,
    ) by {
        if other != identifier {
            assert(listed(state.execd_txn_record, slot).contains(other));
        }
    }
}

/// A refund keeps everything registered.
pub proof fn refund_keeps_all_registered<T: Config>(
    state: State<T>,
    current_index: SessionIndex,
    user: T::AccountId,
    identifier: T::Hash,
)
    requires
        all_registered(state),
        state.refundable(current_index, user, identifier) is Some,
    ensures
        ({
            let (nonce, fee) = state.refundable(current_index, user, identifier)->0;
            all_registered(state.refunded(current_index, user, identifier, nonce, fee))
        }),
{
    let (nonce, fee) = state.refundable(current_index, user, identifier)->0;
    let after = state.refunded(current_index, user, identifier, nonce, fee);
    assert(recorded(
        state.txn_record,
        ((current_index - 1) as u32, user),
    ).contains_key(identifier));
    assert forall|slot: (SessionIndex, T::AccountId), other: T::Hash| #[trigger]
        recorded(
            after.txn_record,
            slot,
        ).contains_key(other) implies after.txn_registry.contains_key(other) by {
        if other != identifier {
            assert(recorded(state.txn_record, slot).contains_key(other));
        }
    }
}

/// The end of a session keeps everything registered.
pub proof fn session_end_keeps_all_registered<T: Config>(
    state: State<T>,
    current_index: SessionIndex,
)
    requires
        all_registered(state),
    ensures
        all_registered(state.session_ended(current_index)),
{
    let after = state.session_ended(current_index);
    assert forall|slot: (SessionIndex, T::AccountId), other: T::Hash| #[trigger]
        recorded(
            after.txn_record,
            slot,
        ).contains_key(other) implies after.txn_registry.contains_key(other) by {
        assert(recorded(state.txn_record, slot).contains_key(other));
    }
    assert forall|slot: (SessionIndex, T::AccountId), other: T::Hash| #[trigger]
        listed(after.execd_txn_record, slot).contains(other) implies after.txn_registry.contains_key(
        other,
    ) by {
        assert(listed(state.execd_txn_record, slot).contains(other));
    }
}

/// New session keys and new events keep everything registered.
pub proof fn keys_and_events_keep_all_registered<T: Config>(
    state: State<T>,
    keys: Map<T::AccountId, T::AuthorityId>,
    event: Event<T>,
)
    requires
        all_registered(state),
    ensures
        all_registered(State { keys, ..state }),
        all_registered(state.deposited(event)),
{
}

/// A submission leaves every other transaction as it was.
pub proof fn submission_leaves_other_transactions<T: Config>(
    state: State<T>,
    environment: Environment,
    identifier: T::Hash,
    doubly_encrypted_call: Seq<u8>,
    user: T::AccountId,
    nonce: T::Index,
    weight: Weight,
    builder: T::AccountId,
    executor: T::AccountId,
    other: T::Hash,
)
    requires
        state.txn_registry.contains_key(other),
        other != identifier,
    ensures
        ({
            let submitted = state.submitted(
                environment,
                identifier,
                doubly_encrypted_call,
                user,
                nonce,
                weight,
                builder,
                executor,
            );
            &&& submitted.txn_registry.contains_key(other)
            &&& submitted.txn_registry[other] == state.txn_registry[other]
        }),
{
}

/// Taking off a layer, a refund and the end of a session forget no transaction and
/// change nothing that its user submitted.
pub proof fn registered_transactions_stay<T: Config>(
    state: State<T>,
    current_index: SessionIndex,
    identifier: T::Hash,
    bytes: Seq<u8>,
    user: T::AccountId,
    nonce: T::Index,
    fee: Balance,
    other: T::Hash,
)
    requires
        state.txn_registry.contains_key(identifier),
        state.txn_registry.contains_key(other),
    ensures
        same_submission(state, state.outer_layer_removed(identifier, bytes), other),
        same_submission(state, state.inner_layer_removed(current_index, identifier, bytes), other),
        state.refunded(current_index, user, identifier, nonce, fee).txn_registry
            == state.txn_registry,
        state.session_ended(current_index).txn_registry == state.txn_registry,
{
}

/// Both states know a transaction, and agree on what its user submitted.
pub open spec fn same_submission<T: Config>(
    before: State<T>,
    after: State<T>,
    identifier: T::Hash,
) -> bool {
    let old_txn = before.txn_registry[identifier];
    let new_txn = after.txn_registry[identifier];
    &&& before.txn_registry.contains_key(identifier)
    &&& after.txn_registry.contains_key(identifier)
    &&& new_txn == (Transaction {
        singly_encrypted_call: new_txn.singly_encrypted_call,
        decrypted_call: new_txn.decrypted_call,
        ..old_txn
    })
}

/// A transaction that was not executed in the session it was submitted in can be
/// refunded in the next one, with the nonce and the fee it was submitted with.
pub proof fn unexecuted_transaction_is_refundable<T: Config>(
    state: State<T>,
    environment: Environment,
    identifier: T::Hash,
    doubly_encrypted_call: Seq<u8>,
    user: T::AccountId,
    nonce: T::Index,
    weight: Weight,
    builder: T::AccountId,
    executor: T::AccountId,
)
    requires
        environment.current_index < u32::MAX,
        !listed(state.execd_txn_record, (environment.current_index, user)).contains(identifier),
    ensures
        ({
            let submitted = state.submitted(
                environment,
                identifier,
                doubly_encrypted_call,
                user,
                nonce,
                weight,
                builder,
                executor,
            );
            let next = (environment.current_index + 1) as u32;
            &&& submitted.refundable(next, user, identifier) == Some((nonce, environment.fee))
            &&& submitted.refund_outcome(next, Origin::Signed(user), identifier) is Ok
        }),
{
}

/// A submission changes nothing about the refunds of other users, and in the session
/// that it is made in nothing about refunds at all.
pub proof fn submission_leaves_other_refunds<T: Config>(
    state: State<T>,
    environment: Environment,
    identifier: T::Hash,
    doubly_encrypted_call: Seq<u8>,
    user: T::AccountId,
    nonce: T::Index,
    weight: Weight,
    builder: T::AccountId,
    executor: T::AccountId,
    current_index: SessionIndex,
    other_user: T::AccountId,
    other_identifier: T::Hash,
)
    requires
        other_user != user || current_index == environment.current_index,
    ensures
        state.submitted(
            environment,
            identifier,
            doubly_encrypted_call,
            user,
            nonce,
            weight,
            builder,
            executor,
        ).refundable(current_index, other_user, other_identifier) == state.refundable(
            current_index,
            other_user,
            other_identifier,
        ),
{
}

/// A transaction that was decrypted cannot be refunded in the session that follows,
/// whether or not its calls could be executed.
pub proof fn decrypted_transaction_is_not_refundable<T: Config>(
    state: State<T>,
    current_index: SessionIndex,
    identifier: T::Hash,
    decrypted_call: Seq<u8>,
)
    requires
        current_index < u32::MAX,
        state.txn_registry.contains_key(identifier),
    ensures
        state.inner_layer_removed(current_index, identifier, decrypted_call).refundable(
            (current_index + 1) as u32,
            state.txn_registry[identifier].user,
            identifier,
        ) is None,
{
    let slot = (current_index, state.txn_registry[identifier].user);
    lemma_pushed(listed(state.execd_txn_record, slot), identifier);
}

/// What was refunded in one session cannot be refunded in the session that follows.
pub proof fn refunded_transaction_is_not_refundable_next_session<T: Config>(
    state: State<T>,
    current_index: SessionIndex,
    user: T::AccountId,
    identifier: T::Hash,
    nonce: T::Index,
    fee: Balance,
)
    requires
        current_index < u32::MAX,
    ensures
        state.refunded(current_index, user, identifier, nonce, fee).refundable(
            (current_index + 1) as u32,
            user,
            identifier,
        ) is None,
{
}

/// A refund is marked on the record of the session that it is granted in, which counts
/// from the next session on: as long as the session lasts, what can be refunded stays
/// as it was.
pub proof fn refund_does_not_count_in_its_own_session<T: Config>(
    state: State<T>,
    current_index: SessionIndex,
    user: T::AccountId,
    identifier: T::Hash,
    nonce: T::Index,
    fee: Balance,
    other_user: T::AccountId,
    other_identifier: T::Hash,
)
    ensures
        state.refunded(current_index, user, identifier, nonce, fee).refundable(
            current_index,
            other_user,
            other_identifier,
        ) == state.refundable(current_index, other_user, other_identifier),
{
}

/// Once a session has ended, nothing from the session before it can be refunded, and
/// what can be refunded in any other session stays as it was.
pub proof fn ended_session_closes_refunds<T: Config>(
    state: State<T>,
    current_index: SessionIndex,
    other_index: SessionIndex,
    user: T::AccountId,
    identifier: T::Hash,
)
    ensures
        state.session_ended(current_index).refundable(current_index, user, identifier) is None,
        other_index != current_index ==> state.session_ended(current_index).refundable(
            other_index,
            user,
            identifier,
        ) == state.refundable(other_index, user, identifier),
{
}

/// An execution makes the outcome of every call known, in order, whatever the
/// outcomes are, then that the calls were executed, and changes nothing else.
pub proof fn execution_reports_every_call<T: Config>(
    state: State<T>,
    pending: Pending<T>,
    outcomes: Seq<OutsideResult>,
)
    requires
        outcomes.len() == pending.calls.len(),
    ensures
        executed(state, pending, outcomes) == (State {
            events: state.events + outcomes.map_values(
                |outcome: OutsideResult|
                    Event::<T>::Called(
                        reported(outcome),
                        pending.user_account,
                        pending.nonce,
                        pending.identifier,
                    ),
            ).push(
                Event::CallsExecuted(pending.user_account, pending.nonce, pending.identifier),
            ),
            ..state
        }),
    decreases pending.calls.len(),
{
    let called = |outcome: OutsideResult|
        Event::<T>::Called(
            reported(outcome),
            pending.user_account,
            pending.nonce,
            pending.identifier,
        );
    let last = Event::<T>::CallsExecuted(pending.user_account, pending.nonce, pending.identifier);
    let expected = state.events + outcomes.map_values(called).push(last);
    if pending.calls.len() == 0 {
        assert(state.events.push(last) =~= expected);
    } else {
        let next = state.call_reported(pending, outcomes[0]);
        execution_reports_every_call(next, pending.rest(), outcomes.drop_first());
        assert(next.events + outcomes.drop_first().map_values(called).push(last) =~= expected);
    }
}

/// On a Substrate chain, the identifier of a transaction is the Blake2-256 hash of the
/// call, the user's bytes and the nonce's little-endian bytes, one after the other.
pub proof fn substrate_identifier(doubly_encrypted_call: Seq<u8>, user: [u8; 32], nonce: u32)
    ensures
        identifier_of::<Substrate>(doubly_encrypted_call, user, nonce) == blake_two_256_hash_of(
            preimage(doubly_encrypted_call, user@, little_endian(nonce)),
        ),
{
}

/// On a Substrate chain, the bytes that identify a transaction tell its call, its
/// user and its nonce.
pub proof fn preimage_tells_the_transaction(
    left_call: Seq<u8>,
    left_user: [u8; 32],
    left_nonce: u32,
    right_call: Seq<u8>,
    right_user: [u8; 32],
    right_nonce: u32,
)
    requires
        preimage(left_call, left_user@, little_endian(left_nonce)) == preimage(
            right_call,
            right_user@,
            little_endian(right_nonce),
        ),
    ensures
        left_call == right_call,
        left_user == right_user,
        left_nonce == right_nonce,
{
    let left = preimage(left_call, left_user@, little_endian(left_nonce));
    let right = preimage(right_call, right_user@, little_endian(right_nonce));
    let n = left_call.len() as int;
    assert(left.len() == n + 36);
    assert(right.len() == right_call.len() + 36);
    assert(left_call =~= left.take(n));
    assert(right_call =~= right.take(n));
    assert forall|i: int| 0 <= i < 32 implies left_user[i] == right_user[i] by {
        assert(left[n + i] == left_user@[i]);
        assert(right[n + i] == right_user@[i]);
    }
    assert(left_user =~= right_user);
    assert forall|i: int| 0 <= i < 4 implies little_endian(left_nonce)[i] == little_endian(
        right_nonce,
    )[i] by {
        assert(left[n + 32 + i] == little_endian(left_nonce)[i]);
        assert(right[n + 32 + i] == little_endian(right_nonce)[i]);
    }
    assert(little_endian(left_nonce) =~= little_endian(right_nonce));
    little_endian_bytes_give_the_value(left_nonce);
    little_endian_bytes_give_the_value(right_nonce);
}

/// Where items were dropped from a list, what is left is every item that differs from
/// the one dropped, as often as before and in the same order.
proof fn lemma_kept_positions<H>(list: Seq<H>, item: H) -> (at: Seq<int>)
    ensures
        at.len() == list.filter(|other: H| other != item).len(),
        forall|i: int, j: int| 0 <= i < j < at.len() ==> at[i] < at[j],
        forall|i: int|
            0 <= i < at.len() ==> 0 <= #[trigger] at[i] < list.len() && list[at[i]] != item
                && list.filter(|other: H| other != item)[i] == list[at[i]],
        forall|k: int| 0 <= k < list.len() && #[trigger] list[k] != item ==> at.contains(k),
    decreases list.len(),
{
    reveal(Seq::filter);
    let differs = |other: H| other != item;
    if list.len() == 0 {
        Seq::empty()
    } else {
        let init = list.drop_last();
        let n = init.len() as int;
        let below = lemma_kept_positions(init, item);
        let kept = list.filter(differs);
        assert(kept == if list.last() != item {
            init.filter(differs).push(list.last())
        } else {
            init.filter(differs)
        });
        let at = if list.last() != item {
            below.push(n)
        } else {
            below
        };
        assert forall|i: int| 0 <= i < at.len() implies 0 <= #[trigger] at[i] < list.len()
            && list[at[i]] != item && kept[i] == list[at[i]] by {
            if i < below.len() {
                assert(at[i] == below[i]);
                assert(init[below[i]] == list[below[i]]);
            }
        }
        assert forall|i: int, j: int| 0 <= i < j < at.len() implies at[i] < at[j] by {
            assert(at[i] == below[i]);
            if j < below.len() {
                assert(at[j] == below[j]);
            }
        }
        assert forall|k: int|
            0 <= k < list.len() && #[trigger] list[k] != item implies at.contains(k) by {
            if k < n {
                assert(init[k] != item);
                let i = choose|i: int| 0 <= i < below.len() && below[i] == k;
                assert(at[i] == k);
            } else {
                assert(at[below.len() as int] == k);
            }
        }
        at
    }
}

/// A key under which no list is stored stands for a list without items, and a key under
/// which no map is stored for a map without keys. Every other key stands for what is
/// stored under it.
pub proof fn absent_entries_are_empty<K, H, R>(
    lists: Map<K, Seq<H>>,
    maps: Map<K, Map<H, R>>,
    key: K,
)
    ensures
        lists.contains_key(key) ==> listed(lists, key) == lists[key],
        !lists.contains_key(key) ==> listed(lists, key).len() == 0,
        maps.contains_key(key) ==> recorded(maps, key) == maps[key],
        !maps.contains_key(key) ==> forall|item: H| !recorded(maps, key).contains_key(item),
{
}

/// Dropping an item from a list keeps every other item, as often as it was there and in
/// the same order: the items that are kept come from ascending positions, and every
/// position that holds another item is one of them.
pub proof fn dropping_keeps_the_order_of_others<H>(list: Seq<H>, item: H)
    ensures
        exists|at: Seq<int>|
            {
                &&& #[trigger] at.len() == without(list, item).len()
                &&& forall|i: int, j: int| 0 <= i < j < at.len() ==> at[i] < at[j]
                &&& forall|i: int|
                    0 <= i < at.len() ==> 0 <= #[trigger] at[i] < list.len() && list[at[i]] != item
                        && without(list, item)[i] == list[at[i]]
                &&& forall|k: int|
                    0 <= k < list.len() && #[trigger] list[k] != item ==> at.contains(k)
            },
{
    let at = lemma_kept_positions(list, item);
    assert(at.len() == without(list, item).len());
}

/// What identifies a transaction is the hash of these bytes: first those of the call,
/// then those that encode the user, then those that encode the nonce, and nothing else.
pub proof fn identifier_hashes_call_then_user_then_nonce<T: System>(
    doubly_encrypted_call: Seq<u8>,
    user: T::AccountId,
    nonce: T::Index,
    bytes: Seq<u8>,
)
    requires
        ({
            let n = doubly_encrypted_call.len() as int;
            let u = T::account_bytes(user).len() as int;
            let k = T::index_bytes(nonce).len() as int;
            &&& bytes.len() == n + u + k
            &&& forall|i: int| 0 <= i < n ==> bytes[i] == doubly_encrypted_call[i]
            &&& forall|i: int|
                0 <= i < u ==> bytes[n + i] == #[trigger] T::account_bytes(user)[i]
            &&& forall|i: int|
                0 <= i < k ==> bytes[n + u + i] == #[trigger] T::index_bytes(nonce)[i]
        }),
    ensures
        identifier_of::<T>(doubly_encrypted_call, user, nonce) == T::hash(bytes),
        identifiable::<T>(doubly_encrypted_call, user, nonce) <==> bytes.len() <= 0xffff_ffff,
{
    let n = doubly_encrypted_call.len() as int;
    let u = T::account_bytes(user).len() as int;
    let built = preimage(doubly_encrypted_call, T::account_bytes(user), T::index_bytes(nonce));
    assert forall|i: int| 0 <= i < bytes.len() implies bytes[i] == built[i] by {
        if n <= i < n + u {
            assert(bytes[n + (i - n)] == T::account_bytes(user)[i - n]);
        } else if n + u <= i {
            assert(bytes[n + u + (i - n - u)] == T::index_bytes(nonce)[i - n - u]);
        }
    }
    assert(bytes =~= built);
}

/// The bytes that are hashed hold the call from the start, then the user's encoding,
/// then the nonce's encoding to the end.
pub proof fn preimage_is_call_then_user_then_nonce(
    doubly_encrypted_call: Seq<u8>,
    user: Seq<u8>,
    nonce: Seq<u8>,
)
    ensures
        ({
            let bytes = preimage(doubly_encrypted_call, user, nonce);
            let n = doubly_encrypted_call.len() as int;
            let u = user.len() as int;
            &&& bytes.len() == n + u + nonce.len()
            &&& bytes.subrange(0, n) == doubly_encrypted_call
            &&& bytes.subrange(n, n + u) == user
            &&& bytes.subrange(n + u, bytes.len() as int) == nonce
        }),
{
    let bytes = preimage(doubly_encrypted_call, user, nonce);
    let n = doubly_encrypted_call.len() as int;
    let u = user.len() as int;
    assert(bytes.subrange(0, n) =~= doubly_encrypted_call);
    assert(bytes.subrange(n, n + u) =~= user);
    assert(bytes.subrange(n + u, bytes.len() as int) =~= nonce);
}

/// The four bytes of a number are its digits in base 256, the lowest first.
pub proof fn little_endian_bytes_give_the_value(value: u32)
    ensures
        little_endian(value).len() == 4,
        value == little_endian(value)[0] + 0x100 * little_endian(value)[1] + 0x1_0000
            * little_endian(value)[2] + 0x100_0000 * little_endian(value)[3],
{
    let x = value as int;
    lemma_fundamental_div_mod(x, 0x100);
    lemma_fundamental_div_mod(x / 0x100, 0x100);
    lemma_fundamental_div_mod(x / 0x1_0000, 0x100);
    lemma_div_denominator(x, 0x100, 0x100);
    lemma_div_denominator(x, 0x1_0000, 0x100);
}

proof fn lemma_digits(value: u32, a: u8, b: u8, c: u8, d: u8)
    requires
        value == a + 0x100 * b + 0x1_0000 * c + 0x100_0000 * d,
    ensures
        little_endian(value) == seq![a, b, c, d],
{
    let upper = b + 0x100 * c + 0x1_0000 * d;
    let top = c + 0x100 * d;
    lemma_fundamental_div_mod_converse(value as int, 0x100, upper, a as int);
    lemma_fundamental_div_mod_converse(upper, 0x100, top, b as int);
    lemma_fundamental_div_mod_converse(top, 0x100, d as int, c as int);
    lemma_fundamental_div_mod_converse(value as int, 0x1_0000, top, a + 0x100 * b);
    lemma_fundamental_div_mod_converse(value as int, 0x100_0000, d as int, a + 0x100 * b + 0x1_0000
        * c);
    assert(little_endian(value) =~= seq![a, b, c, d]);
}

/// On a Substrate chain, what is hashed is the call, the 32 bytes of the user, and four
/// bytes that give the nonce in base 256, the lowest digit first.
pub proof fn substrate_hashes_call_then_user_then_nonce(
    doubly_encrypted_call: Seq<u8>,
    user: [u8; 32],
    nonce: u32,
    bytes: Seq<u8>,
)
    requires
        ({
            let n = doubly_encrypted_call.len() as int;
            &&& bytes.len() == n + 36
            &&& forall|i: int| 0 <= i < n ==> bytes[i] == doubly_encrypted_call[i]
            &&& forall|i: int| 0 <= i < 32 ==> bytes[n + i] == #[trigger] user[i]
            &&& nonce == bytes[n + 32] + 0x100 * bytes[n + 33] + 0x1_0000 * bytes[n + 34]
                + 0x100_0000 * bytes[n + 35]
        }),
    ensures
        identifier_of::<Substrate>(doubly_encrypted_call, user, nonce) == blake_two_256_hash_of(
            bytes,
        ),
        identifiable::<Substrate>(doubly_encrypted_call, user, nonce) <==> bytes.len()
            <= 0xffff_ffff,
{
    let n = doubly_encrypted_call.len() as int;
    let digits = little_endian(nonce);
    lemma_digits(nonce, bytes[n + 32], bytes[n + 33], bytes[n + 34], bytes[n + 35]);
    let built = preimage(doubly_encrypted_call, user@, digits);
    assert forall|i: int| 0 <= i < bytes.len() implies bytes[i] == built[i] by {
        if n <= i < n + 32 {
            assert(bytes[n + (i - n)] == user[i - n]);
        }
    }
    assert(bytes =~= built);
}

/// A fee is due where an account signed for a call of at most the largest length, and
/// nowhere else. It is in token 0, of the amount that the chain asks, for the account
/// that signed; every reason is given and the account may be used up.
pub proof fn fee_is_due_for_signed_calls_that_are_short_enough<AccountId>(
    environment: Environment,
    origin: Origin<AccountId>,
    length: nat,
)
    ensures
        ({
            let due = charge_due(environment, origin, length);
            let max_length = environment.doubly_encrypted_call_max_length;
            &&& origin !is Signed ==> due == Err::<FeeCharge<AccountId>, _>(CallError::BadOrigin)
            &&& origin is Signed && length > max_length ==> due == Err::<FeeCharge<AccountId>, _>(
                CallError::Module(Error::DoublyEncryptedCallMaxLengthExceeded),
            )
            &&& origin is Signed && length <= max_length ==> {
                &&& due is Ok
                &&& due->Ok_0.token == 0
                &&& origin == Origin::Signed(due->Ok_0.who)
                &&& due->Ok_0.amount == environment.fee
                &&& due->Ok_0.reasons.transaction_payment
                &&& due->Ok_0.reasons.transfer
                &&& due->Ok_0.reasons.reserve
                &&& due->Ok_0.reasons.fee
                &&& due->Ok_0.reasons.tip
                &&& due->Ok_0.new_balance == 0
                &&& due->Ok_0.existence_requirement is AllowDeath
            }
        }),
{
}

/// A submission succeeds where an account signed for a call of at most the largest
/// length and the fee was withdrawn. Otherwise it fails for the first of these that is
/// missing, with the ledger's own error where the ledger refused.
pub proof fn submission_needs_a_signature_a_short_call_and_the_fee<AccountId>(
    environment: Environment,
    origin: Origin<AccountId>,
    length: nat,
    withdrawal: OutsideResult,
)
    ensures
        ({
            let outcome = submission_outcome(environment, origin, length, withdrawal);
            let max_length = environment.doubly_encrypted_call_max_length;
            &&& outcome is Ok <==> origin is Signed && length <= max_length && withdrawal is Ok
            &&& outcome == Err::<(), _>(CallError::BadOrigin) <==> origin !is Signed
            &&& outcome == Err::<(), _>(
                CallError::Module(Error::DoublyEncryptedCallMaxLengthExceeded),
            ) <==> origin is Signed && length > max_length
            &&& origin is Signed && length <= max_length && withdrawal is Err ==> outcome == Err::<
                (),
                _,
            >(CallError::Outside(withdrawal->Err_0))
        }),
{
}

/// What another pallet answered is passed on as it is: success as success, an error as
/// that same error.
pub proof fn answers_are_passed_on(outcome: OutsideResult)
    ensures
        outcome is Ok <==> reported(outcome) is Ok,
        outcome is Err ==> reported(outcome) == Err::<(), _>(
            CallError::Outside(outcome->Err_0),
        ),
{
}

/// A submission registers the transaction as it was submitted, with no layer taken off,
/// puts it behind what already waits for its builder, puts it on record for its user in
/// the current session with its nonce and the fee, and makes this known. Every other
/// entry stays as it was.
pub proof fn submission_adds_one_transaction<T: Config>(
    state: State<T>,
    environment: Environment,
    identifier: T::Hash,
    doubly_encrypted_call: Seq<u8>,
    user: T::AccountId,
    nonce: T::Index,
    weight: Weight,
    builder: T::AccountId,
    executor: T::AccountId,
)
    ensures
        ({
            let after = state.submitted(
                environment,
                identifier,
                doubly_encrypted_call,
                user,
                nonce,
                weight,
                builder,
                executor,
            );
            let slot = (environment.current_index, user);
            let known = state.doubly_encrypted_queue.contains_key(builder);
            let waited = if known {
                state.doubly_encrypted_queue[builder].len() as int
            } else {
                0
            };
            let waiting = after.doubly_encrypted_queue[builder];
            let records = after.txn_record[slot];
            &&& after.keys == state.keys
            &&& after.singly_encrypted_queue == state.singly_encrypted_queue
            &&& after.execd_txn_record == state.execd_txn_record
            &&& after.txn_registry.contains_key(identifier)
            &&& after.txn_registry[identifier].doubly_encrypted_call == doubly_encrypted_call
            &&& after.txn_registry[identifier].user == user
            &&& after.txn_registry[identifier].nonce == nonce
            &&& after.txn_registry[identifier].weight == weight
            &&& after.txn_registry[identifier].builder == builder
            &&& after.txn_registry[identifier].executor == executor
            &&& after.txn_registry[identifier].singly_encrypted_call is None
            &&& after.txn_registry[identifier].decrypted_call is None
            &&& forall|other: T::Hash|
                other != identifier ==> (#[trigger] after.txn_registry.contains_key(other)
                    <==> state.txn_registry.contains_key(other))
            &&& forall|other: T::Hash|
                other != identifier && state.txn_registry.contains_key(other)
                    ==> #[trigger] after.txn_registry[other] == state.txn_registry[other]
            &&& after.doubly_encrypted_queue.contains_key(builder)
            &&& waiting.len() == waited + 1
            &&& waiting[waited] == identifier
            &&& forall|i: int|
                0 <= i < waited ==> #[trigger] waiting[i]
                    == state.doubly_encrypted_queue[builder][i]
            &&& forall|other: T::AccountId|
                other != builder ==> (#[trigger] after.doubly_encrypted_queue.contains_key(other)
                    <==> state.doubly_encrypted_queue.contains_key(other))
            &&& forall|other: T::AccountId|
                other != builder && state.doubly_encrypted_queue.contains_key(other)
                    ==> #[trigger] after.doubly_encrypted_queue[other]
                    == state.doubly_encrypted_queue[other]
            &&& after.txn_record.contains_key(slot)
            &&& records.contains_key(identifier)
            &&& records[identifier].0 == nonce
            &&& records[identifier].1 == environment.fee
            &&& records[identifier].2 == false
            &&& forall|other: T::Hash|
                other != identifier ==> (#[trigger] records.contains_key(other)
                    <==> state.txn_record.contains_key(slot)
                    && state.txn_record[slot].contains_key(other))
            &&& forall|other: T::Hash|
                other != identifier && state.txn_record.contains_key(slot)
                    && state.txn_record[slot].contains_key(other) ==> #[trigger] records[other]
                    == state.txn_record[slot][other]
            &&& forall|other: (SessionIndex, T::AccountId)|
                other != slot ==> (#[trigger] after.txn_record.contains_key(other)
                    <==> state.txn_record.contains_key(other))
            &&& forall|other: (SessionIndex, T::AccountId)|
                other != slot && state.txn_record.contains_key(other)
                    ==> #[trigger] after.txn_record[other] == state.txn_record[other]
            &&& after.events.len() == state.events.len() + 1
            &&& after.events.subrange(0, state.events.len() as int) == state.events
            &&& after.events.last() == Event::<T>::DoublyEncryptedTxnSubmitted(
                user,
                nonce,
                identifier,
            )
        }),
{
    let after = state.submitted(
        environment,
        identifier,
        doubly_encrypted_call,
        user,
        nonce,
        weight,
        builder,
        executor,
    );
    assert(after.events.subrange(0, state.events.len() as int) =~= state.events);
}

/// Taking off an outer layer keeps it with the transaction, takes the transaction out of
/// its builder's queue and puts it behind what already waits for its executor, and makes
/// this known. What else waits for the builder stays, as often and in the same order;
/// what else waits for the executor stays in front; every other entry stays as it was.
pub proof fn outer_layer_moves_one_transaction<T: Config>(
    state: State<T>,
    identifier: T::Hash,
    singly_encrypted_call: Seq<u8>,
)
    requires
        state.txn_registry.contains_key(identifier),
    ensures
        ({
            let after = state.outer_layer_removed(identifier, singly_encrypted_call);
            let txn = state.txn_registry[identifier];
            let builder = txn.builder;
            let executor = txn.executor;
            let building = if state.doubly_encrypted_queue.contains_key(builder) {
                state.doubly_encrypted_queue[builder]
            } else {
                Seq::empty()
            };
            let left = after.doubly_encrypted_queue[builder];
            let waited = if state.singly_encrypted_queue.contains_key(executor) {
                state.singly_encrypted_queue[executor].len() as int
            } else {
                0
            };
            let waiting = after.singly_encrypted_queue[executor];
            &&& after.keys == state.keys
            &&& after.txn_record == state.txn_record
            &&& after.execd_txn_record == state.execd_txn_record
            &&& after.txn_registry.contains_key(identifier)
            &&& after.txn_registry[identifier].doubly_encrypted_call == txn.doubly_encrypted_call
            &&& after.txn_registry[identifier].user == txn.user
            &&& after.txn_registry[identifier].nonce == txn.nonce
            &&& after.txn_registry[identifier].weight == txn.weight
            &&& after.txn_registry[identifier].builder == txn.builder
            &&& after.txn_registry[identifier].executor == txn.executor
            &&& after.txn_registry[identifier].singly_encrypted_call == Some(singly_encrypted_call)
            &&& after.txn_registry[identifier].decrypted_call == txn.decrypted_call
            &&& forall|other: T::Hash| #[trigger]
                after.txn_registry.contains_key(other) <==> state.txn_registry.contains_key(other)
            &&& forall|other: T::Hash|
                other != identifier && state.txn_registry.contains_key(other)
                    ==> #[trigger] after.txn_registry[other] == state.txn_registry[other]
            &&& after.doubly_encrypted_queue.contains_key(builder)
            &&& exists|at: Seq<int>|
                {
                    &&& #[trigger] at.len() == left.len()
                    &&& forall|i: int, j: int| 0 <= i < j < at.len() ==> at[i] < at[j]
                    &&& forall|i: int|
                        0 <= i < at.len() ==> 0 <= #[trigger] at[i] < building.len()
                            && building[at[i]] != identifier && left[i] == building[at[i]]
                    &&& forall|k: int|
                        0 <= k < building.len() && #[trigger] building[k] != identifier
                            ==> at.contains(k)
                }
            &&& forall|other: T::AccountId|
                other != builder ==> (#[trigger] after.doubly_encrypted_queue.contains_key(other)
                    <==> state.doubly_encrypted_queue.contains_key(other))
            &&& forall|other: T::AccountId|
                other != builder && state.doubly_encrypted_queue.contains_key(other)
                    ==> #[trigger] after.doubly_encrypted_queue[other]
                    == state.doubly_encrypted_queue[other]
            &&& after.singly_encrypted_queue.contains_key(executor)
            &&& waiting.len() == waited + 1
            &&& waiting[waited] == identifier
            &&& forall|i: int|
                0 <= i < waited ==> #[trigger] waiting[i]
                    == state.singly_encrypted_queue[executor][i]
            &&& forall|other: T::AccountId|
                other != executor ==> (#[trigger] after.singly_encrypted_queue.contains_key(other)
                    <==> state.singly_encrypted_queue.contains_key(other))
            &&& forall|other: T::AccountId|
                other != executor && state.singly_encrypted_queue.contains_key(other)
                    ==> #[trigger] after.singly_encrypted_queue[other]
                    == state.singly_encrypted_queue[other]
            &&& after.events.len() == state.events.len() + 1
            &&& after.events.subrange(0, state.events.len() as int) == state.events
            &&& after.events.last() == Event::<T>::SinglyEncryptedTxnSubmitted(
                txn.user,
                txn.nonce,
                identifier,
            )
        }),
{
    let after = state.outer_layer_removed(identifier, singly_encrypted_call);
    let builder = state.txn_registry[identifier].builder;
    let building = listed(state.doubly_encrypted_queue, builder);
    let at = lemma_kept_positions(building, identifier);
    assert(at.len() == after.doubly_encrypted_queue[builder].len());
    assert(after.events.subrange(0, state.events.len() as int) =~= state.events);
}

/// Taking off an inner layer keeps it with the transaction, takes the transaction out of
/// its executor's queue, puts it behind what else was executed for its user in the
/// current session, and makes this known. What else waits for the executor stays, as
/// often and in the same order; every other entry stays as it was.
pub proof fn inner_layer_records_one_transaction<T: Config>(
    state: State<T>,
    current_index: SessionIndex,
    identifier: T::Hash,
    decrypted_call: Seq<u8>,
)
    requires
        state.txn_registry.contains_key(identifier),
    ensures
        ({
            let after = state.inner_layer_removed(current_index, identifier, decrypted_call);
            let txn = state.txn_registry[identifier];
            let executor = txn.executor;
            let slot = (current_index, txn.user);
            let waiting = if state.singly_encrypted_queue.contains_key(executor) {
                state.singly_encrypted_queue[executor]
            } else {
                Seq::empty()
            };
            let left = after.singly_encrypted_queue[executor];
            let count = if state.execd_txn_record.contains_key(slot) {
                state.execd_txn_record[slot].len() as int
            } else {
                0
            };
            let done = after.execd_txn_record[slot];
            &&& after.keys == state.keys
            &&& after.txn_record == state.txn_record
            &&& after.doubly_encrypted_queue == state.doubly_encrypted_queue
            &&& after.txn_registry.contains_key(identifier)
            &&& after.txn_registry[identifier].doubly_encrypted_call == txn.doubly_encrypted_call
            &&& after.txn_registry[identifier].user == txn.user
            &&& after.txn_registry[identifier].nonce == txn.nonce
            &&& after.txn_registry[identifier].weight == txn.weight
            &&& after.txn_registry[identifier].builder == txn.builder
            &&& after.txn_registry[identifier].executor == txn.executor
            &&& after.txn_registry[identifier].singly_encrypted_call == txn.singly_encrypted_call
            &&& after.txn_registry[identifier].decrypted_call == Some(decrypted_call)
            &&& forall|other: T::Hash| #[trigger]
                after.txn_registry.contains_key(other) <==> state.txn_registry.contains_key(other)
            &&& forall|other: T::Hash|
                other != identifier && state.txn_registry.contains_key(other)
                    ==> #[trigger] after.txn_registry[other] == state.txn_registry[other]
            &&& after.singly_encrypted_queue.contains_key(executor)
            &&& exists|at: Seq<int>|
                {
                    &&& #[trigger] at.len() == left.len()
                    &&& forall|i: int, j: int| 0 <= i < j < at.len() ==> at[i] < at[j]
                    &&& forall|i: int|
                        0 <= i < at.len() ==> 0 <= #[trigger] at[i] < waiting.len()
                            && waiting[at[i]] != identifier && left[i] == waiting[at[i]]
                    &&& forall|k: int|
                        0 <= k < waiting.len() && #[trigger] waiting[k] != identifier
                            ==> at.contains(k)
                }
            &&& forall|other: T::AccountId|
                other != executor ==> (#[trigger] after.singly_encrypted_queue.contains_key(other)
                    <==> state.singly_encrypted_queue.contains_key(other))
            &&& forall|other: T::AccountId|
                other != executor && state.singly_encrypted_queue.contains_key(other)
                    ==> #[trigger] after.singly_encrypted_queue[other]
                    == state.singly_encrypted_queue[other]
            &&& after.execd_txn_record.contains_key(slot)
            &&& done.len() == count + 1
            &&& done[count] == identifier
            &&& forall|i: int|
                0 <= i < count ==> #[trigger] done[i] == state.execd_txn_record[slot][i]
            &&& forall|other: (SessionIndex, T::AccountId)|
                other != slot ==> (#[trigger] after.execd_txn_record.contains_key(other)
                    <==> state.execd_txn_record.contains_key(other))
            &&& forall|other: (SessionIndex, T::AccountId)|
                other != slot && state.execd_txn_record.contains_key(other)
                    ==> #[trigger] after.execd_txn_record[other] == state.execd_txn_record[other]
            &&& after.events.len() == state.events.len() + 1
            &&& after.events.subrange(0, state.events.len() as int) == state.events
            &&& after.events.last() == Event::<T>::DecryptedTransactionSubmitted(
                txn.user,
                txn.nonce,
                identifier,
            )
        }),
{
    let after = state.inner_layer_removed(current_index, identifier, decrypted_call);
    let executor = state.txn_registry[identifier].executor;
    let waiting = listed(state.singly_encrypted_queue, executor);
    let at = lemma_kept_positions(waiting, identifier);
    assert(at.len() == after.singly_encrypted_queue[executor].len());
    assert(after.events.subrange(0, state.events.len() as int) =~= state.events);
}

/// Two transactions that come to one executor wait for it in the order they came, behind
/// what already waited; where one of them is decrypted, the other still waits.
pub proof fn executor_works_through_its_queue<T: Config>(
    state: State<T>,
    first: T::Hash,
    first_call: Seq<u8>,
    second: T::Hash,
    second_call: Seq<u8>,
    current_index: SessionIndex,
    decrypted_call: Seq<u8>,
)
    requires
        first != second,
        state.txn_registry.contains_key(first),
        state.txn_registry.contains_key(second),
        state.txn_registry[first].executor == state.txn_registry[second].executor,
    ensures
        ({
            let executor = state.txn_registry[first].executor;
            let both = state.outer_layer_removed(first, first_call).outer_layer_removed(
                second,
                second_call,
            );
            let waiting = both.singly_encrypted_queue[executor];
            let n = if state.singly_encrypted_queue.contains_key(executor) {
                state.singly_encrypted_queue[executor].len() as int
            } else {
                0
            };
            let after = both.inner_layer_removed(current_index, first, decrypted_call);
            let left = after.singly_encrypted_queue[executor];
            &&& waiting.len() == n + 2
            &&& waiting[n] == first
            &&& waiting[n + 1] == second
            &&& forall|i: int|
                0 <= i < n ==> #[trigger] waiting[i] == state.singly_encrypted_queue[executor][i]
            &&& !left.contains(first)
            &&& left.len() > 0
            &&& left.last() == second
            &&& forall|other: T::Hash|
                other != first && #[trigger] waiting.contains(other) ==> left.contains(other)
        }),
{
    let executor = state.txn_registry[first].executor;
    let once = state.outer_layer_removed(first, first_call);
    let both = once.outer_layer_removed(second, second_call);
    let waiting = both.singly_encrypted_queue[executor];
    let old_queue = listed(state.singly_encrypted_queue, executor);
    assert(waiting =~= old_queue.push(first).push(second));
    assert(waiting.drop_last() =~= old_queue.push(first));
    reveal(Seq::filter);
    dropped_item_is_gone(waiting, first);
}

/// A refund is made known with the session before the current one, and is put on record
/// for the user in the current session, with exactly the nonce and the fee that are
/// refunded, marked as refunded. Every other entry stays as it was.
pub proof fn refund_marks_one_record<T: Config>(
    state: State<T>,
    current_index: SessionIndex,
    user: T::AccountId,
    identifier: T::Hash,
    nonce: T::Index,
    fee: Balance,
)
    requires
        current_index > 0,
    ensures
        ({
            let after = state.refunded(current_index, user, identifier, nonce, fee);
            let slot = (current_index, user);
            let records = after.txn_record[slot];
            &&& after.keys == state.keys
            &&& after.txn_registry == state.txn_registry
            &&& after.doubly_encrypted_queue == state.doubly_encrypted_queue
            &&& after.singly_encrypted_queue == state.singly_encrypted_queue
            &&& after.execd_txn_record == state.execd_txn_record
            &&& after.txn_record.contains_key(slot)
            &&& records.contains_key(identifier)
            &&& records[identifier].0 == nonce
            &&& records[identifier].1 == fee
            &&& records[identifier].2 == true
            &&& forall|other: T::Hash|
                other != identifier ==> (#[trigger] records.contains_key(other)
                    <==> state.txn_record.contains_key(slot)
                    && state.txn_record[slot].contains_key(other))
            &&& forall|other: T::Hash|
                other != identifier && state.txn_record.contains_key(slot)
                    && state.txn_record[slot].contains_key(other) ==> #[trigger] records[other]
                    == state.txn_record[slot][other]
            &&& forall|other: (SessionIndex, T::AccountId)|
                other != slot ==> (#[trigger] after.txn_record.contains_key(other)
                    <==> state.txn_record.contains_key(other))
            &&& forall|other: (SessionIndex, T::AccountId)|
                other != slot && state.txn_record.contains_key(other)
                    ==> #[trigger] after.txn_record[other] == state.txn_record[other]
            &&& after.events.len() == state.events.len() + 1
            &&& after.events.subrange(0, state.events.len() as int) == state.events
            &&& after.events.last() matches Event::UserRefunded(
                session,
                refunded_user,
                refunded_nonce,
                refunded_identifier,
                refunded_fee,
            ) && session + 1 == current_index && refunded_user == user && refunded_nonce == nonce
                && refunded_identifier == identifier && refunded_fee == fee
        }),
{
    let after = state.refunded(current_index, user, identifier, nonce, fee);
    assert(after.events.subrange(0, state.events.len() as int) =~= state.events);
}

/// A user can have refunded what the session before the current one has on record for
/// the user as not refunded and not as executed, and nothing else. The nonce and the fee
/// are those on that record.
pub proof fn refundable_is_what_the_previous_session_recorded<T: Config>(
    state: State<T>,
    current_index: SessionIndex,
    previous: SessionIndex,
    user: T::AccountId,
    identifier: T::Hash,
)
    requires
        previous + 1 == current_index,
    ensures
        ({
            let slot = (previous, user);
            let on_record = state.txn_record.contains_key(slot)
                && state.txn_record[slot].contains_key(identifier);
            let executed = state.execd_txn_record.contains_key(slot)
                && state.execd_txn_record[slot].contains(identifier);
            let refundable = state.refundable(current_index, user, identifier);
            &&& refundable is Some <==> on_record && !state.txn_record[slot][identifier].2
                && !executed
            &&& refundable matches Some((nonce, fee)) ==> nonce
                == state.txn_record[slot][identifier].0 && fee
                == state.txn_record[slot][identifier].1
        }),
{
}

/// In session 0 nothing can be refunded.
pub proof fn nothing_is_refundable_at_first<T: Config>(
    state: State<T>,
    user: T::AccountId,
    identifier: T::Hash,
)
    ensures
        state.refundable(0, user, identifier) is None,
{
}

/// A request for a refund succeeds where an account signed for it that has something to
/// be refunded, and fails otherwise: for its origin, or because there is nothing.
pub proof fn refund_needs_a_signature_and_a_record<T: Config>(
    state: State<T>,
    current_index: SessionIndex,
    origin: Origin<T::AccountId>,
    identifier: T::Hash,
)
    ensures
        ({
            let outcome = state.refund_outcome(current_index, origin, identifier);
            let due = state.refundable(current_index, origin->Signed_0, identifier) is Some;
            &&& origin !is Signed ==> outcome == Err::<(), _>(CallError::BadOrigin)
            &&& origin is Signed && !due ==> outcome == Err::<(), _>(
                CallError::Module(Error::NoMarkedRefund),
            )
            &&& origin is Signed && due ==> outcome == Ok::<(), CallError>(())
        }),
{
}

/// At the end of a session nobody holds a key any more, and the records of the session
/// before it are gone. Every other entry stays as it was, and nothing is made known.
pub proof fn session_end_drops_keys_and_old_records<T: Config>(
    state: State<T>,
    current_index: SessionIndex,
)
    ensures
        ({
            let after = state.session_ended(current_index);
            &&& forall|account: T::AccountId| !#[trigger] after.keys.contains_key(account)
            &&& after.txn_registry == state.txn_registry
            &&& after.doubly_encrypted_queue == state.doubly_encrypted_queue
            &&& after.singly_encrypted_queue == state.singly_encrypted_queue
            &&& after.events == state.events
            &&& forall|slot: (SessionIndex, T::AccountId)| #[trigger]
                after.txn_record.contains_key(slot) <==> state.txn_record.contains_key(slot)
                    && slot.0 + 1 != current_index
            &&& forall|slot: (SessionIndex, T::AccountId)|
                state.txn_record.contains_key(slot) && slot.0 + 1 != current_index
                    ==> #[trigger] after.txn_record[slot] == state.txn_record[slot]
            &&& forall|slot: (SessionIndex, T::AccountId)| #[trigger]
                after.execd_txn_record.contains_key(slot) <==> state.execd_txn_record.contains_key(
                    slot,
                ) && slot.0 + 1 != current_index
            &&& forall|slot: (SessionIndex, T::AccountId)|
                state.execd_txn_record.contains_key(slot) && slot.0 + 1 != current_index
                    ==> #[trigger] after.execd_txn_record[slot] == state.execd_txn_record[slot]
        }),
{
}

/// In the empty state there is no entry anywhere, and nothing was made known.
pub proof fn empty_state_holds_nothing<T: Config>()
    ensures
        ({
            let state = State::<T>::empty();
            &&& forall|account: T::AccountId| !#[trigger] state.keys.contains_key(account)
            &&& forall|identifier: T::Hash| !#[trigger] state.txn_registry.contains_key(identifier)
            &&& forall|account: T::AccountId|
                !#[trigger] state.doubly_encrypted_queue.contains_key(account)
            &&& forall|account: T::AccountId|
                !#[trigger] state.singly_encrypted_queue.contains_key(account)
            &&& forall|slot: (SessionIndex, T::AccountId)|
                !#[trigger] state.txn_record.contains_key(slot)
            &&& forall|slot: (SessionIndex, T::AccountId)|
                !#[trigger] state.execd_txn_record.contains_key(slot)
            &&& state.events.len() == 0
        }),
{
}

/// An event is put behind those that were made known before, and changes nothing else.
/// What is made known of a dispatched call is its outcome, and at the end of an
/// execution that the calls were executed, each for the user, the nonce and the
/// identifier of the execution.
pub proof fn events_are_appended<T: Config>(
    state: State<T>,
    event: Event<T>,
    pending: Pending<T>,
    outcome: OutsideResult,
)
    ensures
        state.deposited(event) == (State { events: state.deposited(event).events, ..state }),
        state.deposited(event).events.len() == state.events.len() + 1,
        state.deposited(event).events.subrange(0, state.events.len() as int) == state.events,
        state.deposited(event).events.last() == event,
        ({
            let reports = state.call_reported(pending, outcome).events;
            let last = reports.last();
            &&& state.call_reported(pending, outcome) == (State { events: reports, ..state })
            &&& reports.len() == state.events.len() + 1
            &&& reports.subrange(0, state.events.len() as int) == state.events
            &&& last is Called
            &&& last->Called_0 is Ok <==> outcome is Ok
            &&& outcome is Err ==> last->Called_0 == Err::<(), _>(
                CallError::Outside(outcome->Err_0),
            )
            &&& last->Called_1 == pending.user_account
            &&& last->Called_2 == pending.nonce
            &&& last->Called_3 == pending.identifier
        }),
        ({
            let reports = state.execution_finished(pending).events;
            &&& state.execution_finished(pending) == (State { events: reports, ..state })
            &&& reports.len() == state.events.len() + 1
            &&& reports.subrange(0, state.events.len() as int) == state.events
            &&& reports.last() == Event::<T>::CallsExecuted(
                pending.user_account,
                pending.nonce,
                pending.identifier,
            )
        }),
{
    let n = state.events.len() as int;
    assert(state.deposited(event).events.subrange(0, n) =~= state.events);
    assert(state.call_reported(pending, outcome).events.subrange(0, n) =~= state.events);
    assert(state.execution_finished(pending).events.subrange(0, n) =~= state.events);
}

/// Weights add up: no weights come to nothing, one weight to itself, and weights that
/// follow others to the sum of both.
pub proof fn weights_add_up(left: Seq<Weight>, right: Seq<Weight>, weight: Weight)
    ensures
        total_weight(Seq::empty()) == 0,
        total_weight(seq![weight]) == weight,
        total_weight(left + right) == total_weight(left) + total_weight(right),
    decreases right.len(),
{
    assert(seq![weight].drop_last() =~= Seq::<Weight>::empty());
    if right.len() == 0 {
        assert(left + right =~= left);
    } else {
        weights_add_up(left, right.drop_last(), weight);
        assert((left + right).drop_last() =~= left + right.drop_last());
    }
}

/// Calls are executed where the chain asks for it and they weigh no more than declared,
/// and then all of them, as they were given. Otherwise they are refused for the first of
/// these that is missing.
pub proof fn execution_needs_root_and_light_calls<T: Config>(
    origin: Origin<T::AccountId>,
    pending: Pending<T>,
    weights: Seq<Weight>,
    weight: Weight,
)
    ensures
        ({
            let outcome = execution_outcome::<T>(origin, pending, weights, weight);
            &&& origin !is Root ==> outcome == Err::<Pending<T>, _>(CallError::BadOrigin)
            &&& origin is Root && total_weight(weights) > weight ==> outcome == Err::<
                Pending<T>,
                _,
            >(CallError::Module(Error::IncorrectCallWeight))
            &&& origin is Root && total_weight(weights) <= weight ==> outcome == Ok::<
                _,
                CallError,
            >(pending)
        }),
{
}

/// A singly encrypted call is taken without a signature for a registered transaction,
/// and is refused otherwise, for the first of these that is missing.
pub proof fn outer_layer_needs_a_registered_transaction<T: Config>(
    state: State<T>,
    origin: Origin<T::AccountId>,
    identifier: T::Hash,
)
    ensures
        ({
            let outcome = state.singly_encrypted_outcome(origin, identifier);
            let registered = state.txn_registry.contains_key(identifier);
            &&& origin !is Unsigned ==> outcome == Err::<(), _>(CallError::BadOrigin)
            &&& origin is Unsigned && !registered ==> outcome == Err::<(), _>(
                CallError::Module(Error::TxnDoesNotExistsInRegistry),
            )
            &&& origin is Unsigned && registered ==> outcome == Ok::<(), CallError>(())
        }),
{
}

/// A decrypted call is taken without a signature for a registered transaction. Its calls
/// are then executed, in their order and for the user who submitted it, where it encodes
/// calls and these weigh no more than that user declared. Otherwise it is refused, for
/// the first of these that is missing.
pub proof fn inner_layer_needs_a_registered_transaction_and_light_calls<T: Config>(
    state: State<T>,
    origin: Origin<T::AccountId>,
    identifier: T::Hash,
    decoded: Option<Seq<T::Call>>,
    weights: Seq<Weight>,
)
    ensures
        ({
            let outcome = state.decrypted_outcome(origin, identifier, decoded, weights);
            let registered = state.txn_registry.contains_key(identifier);
            let taken = origin is Unsigned && registered;
            let txn = state.txn_registry[identifier];
            &&& state.takes_decrypted(origin, identifier) <==> taken
            &&& origin !is Unsigned ==> outcome == Err::<Pending<T>, _>(CallError::BadOrigin)
            &&& origin is Unsigned && !registered ==> outcome == Err::<Pending<T>, _>(
                CallError::Module(Error::TxnDoesNotExistsInRegistry),
            )
            &&& taken && decoded is None ==> outcome == Err::<Pending<T>, _>(
                CallError::Module(Error::CallDeserilizationFailed),
            )
            &&& taken && decoded is Some && total_weight(weights) > txn.weight ==> outcome == Err::<
                Pending<T>,
                _,
            >(CallError::Module(Error::IncorrectCallWeight))
            &&& taken && decoded is Some && total_weight(weights) <= txn.weight ==> {
                &&& outcome is Ok
                &&& outcome->Ok_0.calls == decoded->0
                &&& outcome->Ok_0.user_account == txn.user
                &&& outcome->Ok_0.identifier == identifier
                &&& outcome->Ok_0.nonce == txn.nonce
            }
        }),
{
}

/// Over an execution the calls are handed out in the order in which they were given, each
/// of them once: where every stage is what the one before leaves, the call that comes
/// next at stage `i` is the call at position `i` of the first stage. The execution is for
/// the same user, nonce and identifier throughout.
pub proof fn calls_are_handed_out_in_order<T: Config>(stages: Seq<Pending<T>>, i: int)
    requires
        0 <= i < stages.len(),
        forall|k: int|
            0 <= k < stages.len() - 1 ==> (#[trigger] stages[k]).calls.len() > 0 && stages[k + 1]
                == stages[k].rest(),
    ensures
        stages[i].calls.len() == stages[0].calls.len() - i,
        stages[i].calls.len() > 0 ==> stages[i].calls[0] == stages[0].calls[i],
        forall|j: int|
            0 <= j < stages[i].calls.len() ==> #[trigger] stages[i].calls[j]
                == stages[0].calls[i + j],
        stages[i].user_account == stages[0].user_account,
        stages[i].identifier == stages[0].identifier,
        stages[i].nonce == stages[0].nonce,
    decreases i,
{
    if i > 0 {
        calls_are_handed_out_in_order(stages, i - 1);
        assert(stages[i - 1].calls.len() > 0 && stages[(i - 1) + 1] == stages[i - 1].rest());
        assert forall|j: int| 0 <= j < stages[i].calls.len() implies #[trigger] stages[i].calls[j]
            == stages[0].calls[i + j] by {
            assert(stages[i].calls[j] == stages[i - 1].calls[j + 1]);
        }
    }
}

/// What the runtime is said to decode bytes to is what its decoder gave for these bytes,
/// call for call, and what calls are said to weigh is what the runtime gave for each of
/// them.
pub proof fn decoding_and_weighing_are_the_runtimes<T: Config>(
    bytes: Seq<u8>,
    decoded: Option<Seq<T::Call>>,
    calls: Seq<T::Call>,
    weights: Seq<Weight>,
)
    ensures
        decodes::<T>(bytes, decoded) ==> exists|input: Vec<u8>, output: Option<Vec<T::Call>>|
            {
                &&& #[trigger] call_ensures(T::decode_calls, (&input,), output)
                &&& input@ == bytes
                &&& output is Some <==> decoded is Some
                &&& output is Some ==> output->0@ == decoded->0
            },
        weighs::<T>(calls, weights) ==> weights.len() == calls.len(),
        weighs::<T>(calls, weights) ==> forall|i: int|
            0 <= i < calls.len() ==> call_ensures(
                T::weight_of,
                (&#[trigger] calls[i],),
                weights[i],
            ),
{
    if decodes::<T>(bytes, decoded) {
        let (input, output) = choose|input: Vec<u8>, output: Option<Vec<T::Call>>| #[trigger]
            call_ensures(T::decode_calls, (&input,), output) && input@ == bytes && decoded_calls(
                output,
            ) == decoded;
        assert(call_ensures(T::decode_calls, (&input,), output));
    }
}

/// A list of calls that was decoded is seen as the sequence of its calls.
pub proof fn decoded_calls_are_seen_one_by_one<Call>(decoded: Option<Vec<Call>>)
    ensures
        decoded_calls(decoded) is Some <==> decoded is Some,
        decoded is Some ==> decoded_calls(decoded)->0 == decoded->0@,
{
}

/// An execution that was started is seen with its calls in their order, its user, its
/// identifier and its nonce; one that was refused is seen with its error.
pub proof fn executions_are_seen_as_they_are<T: Config>(result: Result<Execution<T>, CallError>)
    ensures
        result is Err ==> started(result) == Err::<Pending<T>, _>(result->Err_0),
        result is Ok ==> {
            &&& started(result) is Ok
            &&& started(result)->Ok_0 == result->Ok_0@
            &&& result->Ok_0@.calls == result->Ok_0.calls@
            &&& result->Ok_0@.user_account == result->Ok_0.user_account
            &&& result->Ok_0@.identifier == result->Ok_0.identifier
            &&& result->Ok_0@.nonce == result->Ok_0.nonce
        },
{
}

/// Storage is seen entry by entry: every key that is stored and no other, each with what
/// is stored under it.
pub proof fn storage_is_seen_entry_by_entry<T: Config>(pallet: Pallet<T>)
    ensures
        pallet@.keys == pallet.keys@,
        pallet@.events == pallet.events@,
        forall|key: T::Hash| #[trigger]
            pallet@.txn_registry.contains_key(key) <==> pallet.txn_registry@.contains_key(key),
        forall|key: T::Hash|
            pallet.txn_registry@.contains_key(key) ==> #[trigger] pallet@.txn_registry[key]
                == pallet.txn_registry@[key]@,
        forall|key: T::AccountId| #[trigger]
            pallet@.doubly_encrypted_queue.contains_key(key)
                <==> pallet.doubly_encrypted_queue@.contains_key(key),
        forall|key: T::AccountId|
            pallet.doubly_encrypted_queue@.contains_key(key)
                ==> #[trigger] pallet@.doubly_encrypted_queue[key]
                == pallet.doubly_encrypted_queue@[key]@,
        forall|key: T::AccountId| #[trigger]
            pallet@.singly_encrypted_queue.contains_key(key)
                <==> pallet.singly_encrypted_queue@.contains_key(key),
        forall|key: T::AccountId|
            pallet.singly_encrypted_queue@.contains_key(key)
                ==> #[trigger] pallet@.singly_encrypted_queue[key]
                == pallet.singly_encrypted_queue@[key]@,
        forall|key: (SessionIndex, T::AccountId)| #[trigger]
            pallet@.txn_record.contains_key(key) <==> pallet.txn_record@.contains_key(key),
        forall|key: (SessionIndex, T::AccountId)|
            pallet.txn_record@.contains_key(key) ==> #[trigger] pallet@.txn_record[key]
                == pallet.txn_record@[key]@,
        forall|key: (SessionIndex, T::AccountId)| #[trigger]
            pallet@.execd_txn_record.contains_key(key)
                <==> pallet.execd_txn_record@.contains_key(key),
        forall|key: (SessionIndex, T::AccountId)|
            pallet.execd_txn_record@.contains_key(key)
                ==> #[trigger] pallet@.execd_txn_record[key] == pallet.execd_txn_record@[key]@,
{
}

/// A transaction is seen with everything that the registry holds of it.
pub proof fn transactions_are_seen_as_they_are<AccountId, Index>(
    details: TxnRegistryDetails<AccountId, Index>,
)
    ensures
        details@.doubly_encrypted_call == details.doubly_encrypted_call@,
        details@.user == details.user,
        details@.nonce == details.nonce,
        details@.weight == details.weight,
        details@.builder == details.builder,
        details@.executor == details.executor,
        details@.singly_encrypted_call is Some <==> details.singly_encrypted_call is Some,
        details.singly_encrypted_call is Some ==> details@.singly_encrypted_call->0
            == details.singly_encrypted_call->0@,
        details@.decrypted_call is Some <==> details.decrypted_call is Some,
        details.decrypted_call is Some ==> details@.decrypted_call->0
            == details.decrypted_call->0@,
{
}

} // verus!
