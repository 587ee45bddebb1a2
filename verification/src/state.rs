//! The pallet's state and the steps that calls take it through.

use crate::config::{Config, System};
use crate::storage::without_prefix;
use crate::types::{
    Balance, CallError, DispatchResult, Environment, Error, Event, ExistenceRequirement,
    FeeCharge, Origin, OutsideResult, SessionIndex, Transaction, Weight, WithdrawReasons,
    FEE_TOKEN,
};
use vstd::prelude::*;

verus! {

/// The pallet's state.
#[verifier::ext_equal]
pub struct State<T: Config> {
    /// The session keys of the authorities.
    pub keys: Map<T::AccountId, T::AuthorityId>,
    /// Every transaction that was submitted.
    pub txn_registry: Map<T::Hash, Transaction<T::AccountId, T::Index>>,
    /// What waits for each builder.
    pub doubly_encrypted_queue: Map<T::AccountId, Seq<T::Hash>>,
    /// What waits for each executor.
    pub singly_encrypted_queue: Map<T::AccountId, Seq<T::Hash>>,
    /// By session and user: nonce, fee and whether it was refunded.
    pub txn_record: Map<(SessionIndex, T::AccountId), Map<T::Hash, (T::Index, Balance, bool)>>,
    /// By session and user: what was executed.
    pub execd_txn_record: Map<(SessionIndex, T::AccountId), Seq<T::Hash>>,
    /// What was made known, the latest last.
    pub events: Seq<Event<T>>,
}

/// The list stored under a key; a key that is not there stands for the empty list.
pub open spec fn listed<K, H>(map: Map<K, Seq<H>>, key: K) -> Seq<H> {
    if map.contains_key(key) {
        map[key]
    } else {
        Seq::empty()
    }
}

/// The map stored under a key; a key that is not there stands for the empty map.
pub open spec fn recorded<K, H, R>(map: Map<K, Map<H, R>>, key: K) -> Map<H, R> {
    if map.contains_key(key) {
        map[key]
    } else {
        Map::empty()
    }
}

/// A list without any occurrence of one item, the others in their order.
pub open spec fn without<H>(list: Seq<H>, item: H) -> Seq<H> {
    list.filter(|other: H| other != item)
}

/// The bytes whose hash identifies a transaction.
pub open spec fn preimage(
    doubly_encrypted_call: Seq<u8>,
    user: Seq<u8>,
    nonce: Seq<u8>,
) -> Seq<u8> {
    doubly_encrypted_call + user + nonce
}

/// The identifier of a transaction: the chain's hash of the call followed by what the
/// chain encodes the user and the nonce as.
pub open spec fn identifier_of<T: System>(
    doubly_encrypted_call: Seq<u8>,
    user: T::AccountId,
    nonce: T::Index,
) -> T::Hash {
    T::hash(preimage(doubly_encrypted_call, T::account_bytes(user), T::index_bytes(nonce)))
}

/// Whether the bytes that identify a transaction are few enough to be hashed.
pub open spec fn identifiable<T: System>(
    doubly_encrypted_call: Seq<u8>,
    user: T::AccountId,
    nonce: T::Index,
) -> bool {
    doubly_encrypted_call.len() + T::account_bytes(user).len() + T::index_bytes(nonce).len()
        <= u32::MAX
}

/// The calls in a list that was decoded, if it was.
pub open spec fn decoded_calls<Call>(decoded: Option<Vec<Call>>) -> Option<Seq<Call>> {
    match decoded {
        Some(calls) => Some(calls@),
        None => None,
    }
}

/// Whether this is what the runtime decodes a byte string to.
pub open spec fn decodes<T: Config>(bytes: Seq<u8>, calls: Option<Seq<T::Call>>) -> bool {
    exists|input: Vec<u8>, decoded: Option<Vec<T::Call>>| #[trigger]
        call_ensures(T::decode_calls, (&input,), decoded) && input@ == bytes && decoded_calls(
            decoded,
        ) == calls
}

/// Whether these are the weights that the calls in a list declare.
pub open spec fn weighs<T: Config>(calls: Seq<T::Call>, weights: Seq<Weight>) -> bool {
    &&& weights.len() == calls.len()
    &&& forall|i: int|
        0 <= i < calls.len() ==> call_ensures(
            T::weight_of,
            (&#[trigger] calls[i],),
            #[trigger] weights[i],
        )
}

/// A fee of this amount for a user: it is in the fee token, every reason is given for
/// its withdrawal, and it may use up the account.
pub open spec fn fee_of<AccountId>(user: AccountId, amount: Balance) -> FeeCharge<AccountId> {
    FeeCharge {
        token: FEE_TOKEN,
        who: user,
        amount,
        reasons: WithdrawReasons {
            transaction_payment: true,
            transfer: true,
            reserve: true,
            fee: true,
            tip: true,
        },
        new_balance: 0,
        existence_requirement: ExistenceRequirement::AllowDeath,
    }
}

/// The fee that a submission owes before anything else is done for it, or why it is
/// refused before that.
pub open spec fn charge_due<AccountId>(
    environment: Environment,
    origin: Origin<AccountId>,
    length: nat,
) -> Result<FeeCharge<AccountId>, CallError> {
    match origin {
        Origin::Signed(user) => if length > environment.doubly_encrypted_call_max_length {
            Err(CallError::Module(Error::DoublyEncryptedCallMaxLengthExceeded))
        } else {
            Ok(fee_of(user, environment.fee))
        },
        _ => Err(CallError::BadOrigin),
    }
}

/// What another pallet's answer means for a call that rests on it.
pub open spec fn reported(outcome: OutsideResult) -> DispatchResult {
    match outcome {
        Ok(()) => Ok(()),
        Err(error) => Err(CallError::Outside(error)),
    }
}

/// How a submission ends, given how the withdrawal of its fee ended.
pub open spec fn submission_outcome<AccountId>(
    environment: Environment,
    origin: Origin<AccountId>,
    length: nat,
    withdrawal: OutsideResult,
) -> DispatchResult {
    match charge_due(environment, origin, length) {
        Err(error) => Err(error),
        Ok(_) => reported(withdrawal),
    }
}

/// What weights come to together.
pub open spec fn total_weight(weights: Seq<Weight>) -> nat
    decreases weights.len(),
{
    if weights.len() == 0 {
        0
    } else {
        total_weight(weights.drop_last()) + weights.last() as nat
    }
}

/// Calls that are about to be dispatched on a user's behalf.
#[verifier::ext_equal]
pub struct Pending<T: Config> {
    /// The calls that are left, the next one first.
    pub calls: Seq<T::Call>,
    pub user_account: T::AccountId,
    pub identifier: T::Hash,
    pub nonce: T::Index,
}

impl<T: Config> Pending<T> {
    /// What is left once the next call was handed out.
    pub open spec fn rest(self) -> Pending<T> {
        Pending { calls: self.calls.drop_first(), ..self }
    }
}

/// How a request to execute calls with these weights ends: refused, or with the calls
/// to dispatch.
pub open spec fn execution_outcome<T: Config>(
    origin: Origin<T::AccountId>,
    pending: Pending<T>,
    weights: Seq<Weight>,
    weight: Weight,
) -> Result<Pending<T>, CallError> {
    if origin !is Root {
        Err(CallError::BadOrigin)
    } else if total_weight(weights) > weight {
        Err(CallError::Module(Error::IncorrectCallWeight))
    } else {
        Ok(pending)
    }
}

impl<T: Config> State<T> {
    /// The state in which nothing has happened yet.
    pub open spec fn empty() -> State<T> {
        State {
            keys: Map::empty(),
            txn_registry: Map::empty(),
            doubly_encrypted_queue: Map::empty(),
            singly_encrypted_queue: Map::empty(),
            txn_record: Map::empty(),
            execd_txn_record: Map::empty(),
            events: Seq::empty(),
        }
    }

    /// After an event.
    pub open spec fn deposited(self, event: Event<T>) -> State<T> {
        State { events: self.events.push(event), ..self }
    }

    /// After the outcome of a dispatched call was made known.
    pub open spec fn call_reported(self, pending: Pending<T>, outcome: OutsideResult) -> State<T> {
        self.deposited(
            Event::Called(
                reported(outcome),
                pending.user_account,
                pending.nonce,
                pending.identifier,
            ),
        )
    }

    /// After it was made known that every call of an execution was dispatched.
    pub open spec fn execution_finished(self, pending: Pending<T>) -> State<T> {
        self.deposited(
            Event::CallsExecuted(pending.user_account, pending.nonce, pending.identifier),
        )
    }

    /// After a transaction was submitted: it is registered, waits for its builder,
    /// and is on record in the current session as not refunded.
    pub open spec fn submitted(
        self,
        environment: Environment,
        identifier: T::Hash,
        doubly_encrypted_call: Seq<u8>,
        user: T::AccountId,
        nonce: T::Index,
        weight: Weight,
        builder: T::AccountId,
        executor: T::AccountId,
    ) -> State<T> {
        let slot = (environment.current_index, user);
        State {
            txn_registry: self.txn_registry.insert(
                identifier,
                Transaction {
                    doubly_encrypted_call,
                    user,
                    nonce,
                    weight,
                    builder,
                    executor,
                    singly_encrypted_call: None,
                    decrypted_call: None,
                },
            ),
            doubly_encrypted_queue: self.doubly_encrypted_queue.insert(
                builder,
                listed(self.doubly_encrypted_queue, builder).push(identifier),
            ),
            txn_record: self.txn_record.insert(
                slot,
                recorded(self.txn_record, slot).insert(identifier, (nonce, environment.fee, false)),
            ),
            ..self
        }.deposited(Event::DoublyEncryptedTxnSubmitted(user, nonce, identifier))
    }

    /// How the submission of a singly encrypted call ends.
    pub open spec fn singly_encrypted_outcome(
        self,
        origin: Origin<T::AccountId>,
        identifier: T::Hash,
    ) -> DispatchResult {
        if origin !is Unsigned {
            Err(CallError::BadOrigin)
        } else if !self.txn_registry.contains_key(identifier) {
            Err(CallError::Module(Error::TxnDoesNotExistsInRegistry))
        } else {
            Ok(())
        }
    }

    /// After the builder took off the outer layer of a registered transaction: the
    /// transaction has left the builder's queue and waits for its executor.
    pub open spec fn outer_layer_removed(
        self,
        identifier: T::Hash,
        singly_encrypted_call: Seq<u8>,
    ) -> State<T> {
        let txn = self.txn_registry[identifier];
        State {
            txn_registry: self.txn_registry.insert(
                identifier,
                Transaction { singly_encrypted_call: Some(singly_encrypted_call), ..txn },
            ),
            doubly_encrypted_queue: self.doubly_encrypted_queue.insert(
                txn.builder,
                without(listed(self.doubly_encrypted_queue, txn.builder), identifier),
            ),
            singly_encrypted_queue: self.singly_encrypted_queue.insert(
                txn.executor,
                listed(self.singly_encrypted_queue, txn.executor).push(identifier),
            ),
            ..self
        }.deposited(Event::SinglyEncryptedTxnSubmitted(txn.user, txn.nonce, identifier))
    }

    /// Whether a decrypted call that comes from `origin` is taken at all.
    pub open spec fn takes_decrypted(
        self,
        origin: Origin<T::AccountId>,
        identifier: T::Hash,
    ) -> bool {
        origin is Unsigned && self.txn_registry.contains_key(identifier)
    }

    /// How the submission of a decrypted call ends, given what it is decoded to and
    /// the weights of that: refused, or with the calls to dispatch for the user who
    /// submitted the transaction.
    pub open spec fn decrypted_outcome(
        self,
        origin: Origin<T::AccountId>,
        identifier: T::Hash,
        decoded: Option<Seq<T::Call>>,
        weights: Seq<Weight>,
    ) -> Result<Pending<T>, CallError> {
        if origin !is Unsigned {
            Err(CallError::BadOrigin)
        } else if !self.txn_registry.contains_key(identifier) {
            Err(CallError::Module(Error::TxnDoesNotExistsInRegistry))
        } else {
            let txn = self.txn_registry[identifier];
            match decoded {
                None => Err(CallError::Module(Error::CallDeserilizationFailed)),
                Some(calls) => execution_outcome(
                    Origin::Root,
                    Pending { calls, user_account: txn.user, identifier, nonce: txn.nonce },
                    weights,
                    txn.weight,
                ),
            }
        }
    }

    /// After the executor took off the inner layer of a registered transaction: the
    /// transaction has left the executor's queue and is on record as executed in
    /// the current session.
    pub open spec fn inner_layer_removed(
        self,
        current_index: SessionIndex,
        identifier: T::Hash,
        decrypted_call: Seq<u8>,
    ) -> State<T> {
        let txn = self.txn_registry[identifier];
        let slot = (current_index, txn.user);
        State {
            txn_registry: self.txn_registry.insert(
                identifier,
                Transaction { decrypted_call: Some(decrypted_call), ..txn },
            ),
            singly_encrypted_queue: self.singly_encrypted_queue.insert(
                txn.executor,
                without(listed(self.singly_encrypted_queue, txn.executor), identifier),
            ),
            execd_txn_record: self.execd_txn_record.insert(
                slot,
                listed(self.execd_txn_record, slot).push(identifier),
            ),
            ..self
        }.deposited(Event::DecryptedTransactionSubmitted(txn.user, txn.nonce, identifier))
    }

    /// The nonce and fee of a transaction that a user can have refunded: it was
    /// recorded for the user in the previous session, was not executed then, and
    /// that record does not say that it was refunded.
    pub open spec fn refundable(
        self,
        current_index: SessionIndex,
        user: T::AccountId,
        identifier: T::Hash,
    ) -> Option<(T::Index, Balance)> {
        if current_index == 0 {
            None
        } else {
            let slot = ((current_index - 1) as u32, user);
            let records = recorded(self.txn_record, slot);
            if listed(self.execd_txn_record, slot).contains(identifier) {
                None
            } else if !records.contains_key(identifier) {
                None
            } else if records[identifier].2 {
                None
            } else {
                Some((records[identifier].0, records[identifier].1))
            }
        }
    }

    /// How a request for a refund ends.
    pub open spec fn refund_outcome(
        self,
        current_index: SessionIndex,
        origin: Origin<T::AccountId>,
        identifier: T::Hash,
    ) -> DispatchResult {
        match origin {
            Origin::Signed(user) => if self.refundable(current_index, user, identifier) is Some {
                Ok(())
            } else {
                Err(CallError::Module(Error::NoMarkedRefund))
            },
            _ => Err(CallError::BadOrigin),
        }
    }

    /// After a refund: the current session has it on record as refunded. The record
    /// of the previous session stays as it was.
    pub open spec fn refunded(
        self,
        current_index: SessionIndex,
        user: T::AccountId,
        identifier: T::Hash,
        nonce: T::Index,
        fee: Balance,
    ) -> State<T> {
        let slot = (current_index, user);
        State {
            txn_record: self.txn_record.insert(
                slot,
                recorded(self.txn_record, slot).insert(identifier, (nonce, fee, true)),
            ),
            ..self
        }.deposited(
            Event::UserRefunded(
                (current_index - 1) as u32,
                user,
                nonce,
                identifier,
                fee,
            ),
        )
    }

    /// After a session: nobody holds a session key, and the records of the session
    /// before it are gone.
    pub open spec fn session_ended(self, current_index: SessionIndex) -> State<T> {
        if current_index == 0 {
            State { keys: Map::empty(), ..self }
        } else {
            let previous = (current_index - 1) as u32;
            State {
                keys: Map::empty(),
                txn_record: without_prefix(self.txn_record, previous),
                execd_txn_record: without_prefix(self.execd_txn_record, previous),
                ..self
            }
        }
    }
}

/// The state after an execution whose calls came to these outcomes, where the calls
/// leave the pallet alone.
pub open spec fn executed<T: Config>(
    state: State<T>,
    pending: Pending<T>,
    outcomes: Seq<OutsideResult>,
) -> State<T>
    decreases pending.calls.len(),
{
    if pending.calls.len() == 0 {
        state.execution_finished(pending)
    } else {
        executed(state.call_reported(pending, outcomes[0]), pending.rest(), outcomes.drop_first())
    }
}

} // verus!
