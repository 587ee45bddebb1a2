//! The calls that users and collators make.

use crate::config::{Config, Key, System};
use crate::execution::{started, weights_of, Execution};
use crate::history::Action;
use crate::state::{
    charge_due, decoded_calls, decodes, identifiable, identifier_of, listed, preimage, recorded,
    submission_outcome, weighs, without, State,
};
use crate::storage::StorageMap;
use crate::types::{
    Balance, CallError, DispatchResult, Environment, Error, Event, ExistenceRequirement,
    FeeCharge, Origin, OutsideResult, SessionIndex, Transaction, TxnRegistryDetails, Weight,
    WithdrawReasons, FEE_TOKEN,
};
use vstd::prelude::*;

verus! {

/// The pallet's storage.
pub struct Pallet<T: Config> {
    /// The session keys of the authorities.
    pub keys: StorageMap<T::AccountId, T::AuthorityId>,
    /// Every transaction that was submitted.
    pub txn_registry: StorageMap<T::Hash, TxnRegistryDetails<T::AccountId, T::Index>>,
    /// What waits for each builder.
    pub doubly_encrypted_queue: StorageMap<T::AccountId, Vec<T::Hash>>,
    /// What waits for each executor.
    pub singly_encrypted_queue: StorageMap<T::AccountId, Vec<T::Hash>>,
    /// By session and user: nonce, fee and whether it was refunded.
    pub txn_record: StorageMap<
        (SessionIndex, T::AccountId),
        StorageMap<T::Hash, (T::Index, Balance, bool)>,
    >,
    /// By session and user: what was executed.
    pub execd_txn_record: StorageMap<(SessionIndex, T::AccountId), Vec<T::Hash>>,
    /// What was made known, the latest last.
    pub events: Vec<Event<T>>,
}

/// Stored lists, as sequences.
pub open spec fn lists<K, H>(map: Map<K, Vec<H>>) -> Map<K, Seq<H>> {
    map.map_values(|list: Vec<H>| list@)
}

/// Stored maps, as maps.
pub open spec fn maps<K, H, R>(map: Map<K, StorageMap<H, R>>) -> Map<K, Map<H, R>> {
    map.map_values(|records: StorageMap<H, R>| records@)
}

/// Stored transactions, with byte strings as sequences.
pub open spec fn transactions<K, A, I>(map: Map<K, TxnRegistryDetails<A, I>>) -> Map<
    K,
    Transaction<A, I>,
> {
    map.map_values(|details: TxnRegistryDetails<A, I>| details@)
}

impl<T: Config> View for Pallet<T> {
    type V = State<T>;

    open spec fn view(&self) -> State<T> {
        State {
            keys: self.keys@,
            txn_registry: transactions(self.txn_registry@),
            doubly_encrypted_queue: lists(self.doubly_encrypted_queue@),
            singly_encrypted_queue: lists(self.singly_encrypted_queue@),
            txn_record: maps(self.txn_record@),
            execd_txn_record: lists(self.execd_txn_record@),
            events: self.events@,
        }
    }
}

/// Appends an item to the list stored under a key.
fn push_to<K: Key, H>(map: &mut StorageMap<K, Vec<H>>, key: &K, item: H)
    ensures
        lists(final(map)@) == lists(old(map)@).insert(
            *key,
            listed(lists(old(map)@), *key).push(item),
        ),
{
    let mut list: Vec<H> = match map.take(key) {
        Some(list) => list,
        None => Vec::new(),
    };
    assert(list@ =~= listed(lists(old(map)@), *key));
    list.push(item);
    map.insert(key.duplicate(), list);
    assert(lists(map@) =~= lists(old(map)@).insert(*key, list@));
}

/// A list without any occurrence of one item.
fn list_without<H: Key>(list: &Vec<H>, item: &H) -> (result: Vec<H>)
    ensures
        result@ == without(list@, *item),
{
    let ghost differs = |other: H| other != *item;
    let mut kept: Vec<H> = Vec::new();
    let mut i: usize = 0;
    proof {
        reveal(Seq::filter);
        assert(list@.take(0) =~= Seq::<H>::empty());
    }
    while i < list.len()
        invariant
            i <= list@.len(),
            differs == (|other: H| other != *item),
            kept@ == list@.take(i as int).filter(differs),
        decreases list@.len() - i,
    {
        proof {
            reveal(Seq::filter);
            assert(list@.take(i + 1).drop_last() =~= list@.take(i as int));
            assert(list@.take(i + 1).last() == list@[i as int]);
        }
        if !list[i].same(item) {
            kept.push(list[i].duplicate());
        }
        i = i + 1;
    }
    assert(list@.take(i as int) =~= list@);
    kept
}

/// Drops every occurrence of an item from the list stored under a key.
fn drop_from<K: Key, H: Key>(map: &mut StorageMap<K, Vec<H>>, key: &K, item: &H)
    ensures
        lists(final(map)@) == lists(old(map)@).insert(
            *key,
            without(listed(lists(old(map)@), *key), *item),
        ),
{
    let list: Vec<H> = match map.take(key) {
        Some(list) => list,
        None => Vec::new(),
    };
    assert(list@ =~= listed(lists(old(map)@), *key));
    let kept = list_without(&list, item);
    map.insert(key.duplicate(), kept);
    assert(lists(map@) =~= lists(old(map)@).insert(*key, kept@));
}

/// Stores a record in the map stored under a key.
fn record_in<K: Key, H: Key, R>(
    map: &mut StorageMap<K, StorageMap<H, R>>,
    key: &K,
    item: H,
    record: R,
)
    ensures
        maps(final(map)@) == maps(old(map)@).insert(
            *key,
            recorded(maps(old(map)@), *key).insert(item, record),
        ),
{
    let mut records: StorageMap<H, R> = match map.take(key) {
        Some(records) => records,
        None => StorageMap::new(),
    };
    assert(records@ =~= recorded(maps(old(map)@), *key));
    records.insert(item, record);
    map.insert(key.duplicate(), records);
    assert(maps(map@) =~= maps(old(map)@).insert(*key, records@));
}

/// Whether an item occurs in a list.
fn occurs<H: Key>(list: &Vec<H>, item: &H) -> (result: bool)
    ensures
        result == list@.contains(*item),
{
    let mut i: usize = 0;
    while i < list.len()
        invariant
            i <= list@.len(),
            forall|j: int| 0 <= j < i ==> list@[j] != *item,
        decreases list@.len() - i,
    {
        if list[i].same(item) {
            return true;
        }
        i = i + 1;
    }
    false
}

/// Whether the bytes that identify a transaction are few enough to be hashed.
pub fn has_identifier<T: System>(
    doubly_encrypted_call: &Vec<u8>,
    user: &T::AccountId,
    nonce: &T::Index,
) -> (result: bool)
    ensures
        result == identifiable::<T>(doubly_encrypted_call@, *user, *nonce),
{
    let call_length = doubly_encrypted_call.len() as u128;
    let user_length = T::encode_account(user).len() as u128;
    let nonce_length = T::encode_index(nonce).len() as u128;
    call_length + user_length + nonce_length <= u32::MAX as u128
}

/// The identifier of a transaction. The bytes that it is the hash of must not be more
/// than can be hashed, which [`has_identifier`] tells.
pub fn identifier<T: System>(
    doubly_encrypted_call: &Vec<u8>,
    user: &T::AccountId,
    nonce: &T::Index,
) -> (result: T::Hash)
    requires
        identifiable::<T>(doubly_encrypted_call@, *user, *nonce),
    ensures
        result == identifier_of::<T>(doubly_encrypted_call@, *user, *nonce),
{
    let account = T::encode_account(user);
    let index = T::encode_index(nonce);
    let mut identifier_vec: Vec<u8> = Vec::new();
    identifier_vec.extend_from_slice(doubly_encrypted_call.as_slice());
    identifier_vec.extend_from_slice(account.as_slice());
    identifier_vec.extend_from_slice(index.as_slice());
    assert(identifier_vec@ =~= preimage(doubly_encrypted_call@, account@, index@));
    T::hash_of(&identifier_vec)
}

/// A list once more.
fn duplicate_list<H: Key>(list: &Vec<H>) -> (result: Vec<H>)
    ensures
        result@ == list@,
{
    let mut copy: Vec<H> = Vec::new();
    let mut i: usize = 0;
    while i < list.len()
        invariant
            i <= list@.len(),
            copy@ == list@.take(i as int),
        decreases list@.len() - i,
    {
        copy.push(list[i].duplicate());
        i = i + 1;
        assert(copy@ =~= list@.take(i as int));
    }
    assert(list@.take(i as int) =~= list@);
    copy
}

/// The list stored under a key.
fn list_at<K: Key, H: Key>(map: &StorageMap<K, Vec<H>>, key: &K) -> (result: Vec<H>)
    ensures
        result@ == listed(lists(map@), *key),
{
    match map.get(key) {
        Some(list) => duplicate_list(list),
        None => Vec::new(),
    }
}

impl<T: Config> Pallet<T> {
    /// Storage in which nothing has happened yet.
    pub fn new() -> (result: Self)
        ensures
            result@ == State::<T>::empty(),
    {
        let pallet = Pallet {
            keys: StorageMap::new(),
            txn_registry: StorageMap::new(),
            doubly_encrypted_queue: StorageMap::new(),
            singly_encrypted_queue: StorageMap::new(),
            txn_record: StorageMap::new(),
            execd_txn_record: StorageMap::new(),
            events: Vec::new(),
        };
        assert(pallet@ =~= State::<T>::empty());
        pallet
    }

    /// The session keys of the authorities.
    pub fn keys(&self) -> (result: &StorageMap<T::AccountId, T::AuthorityId>)
        ensures
            result@ == self@.keys,
    {
        &self.keys
    }

    /// What the registry knows of a transaction.
    pub fn txn_registry(&self, identifier: &T::Hash) -> (result: Option<
        &TxnRegistryDetails<T::AccountId, T::Index>,
    >)
        ensures
            match result {
                Some(details) => self@.txn_registry.contains_key(*identifier)
                    && self@.txn_registry[*identifier] == details@,
                None => !self@.txn_registry.contains_key(*identifier),
            },
    {
        self.txn_registry.get(identifier)
    }

    /// What waits for a builder.
    pub fn doubly_encrypted_queue(&self, builder: &T::AccountId) -> (result: Vec<T::Hash>)
        ensures
            result@ == listed(self@.doubly_encrypted_queue, *builder),
    {
        list_at(&self.doubly_encrypted_queue, builder)
    }

    /// What waits for an executor.
    pub fn singly_encrypted_queue(&self, executor: &T::AccountId) -> (result: Vec<T::Hash>)
        ensures
            result@ == listed(self@.singly_encrypted_queue, *executor),
    {
        list_at(&self.singly_encrypted_queue, executor)
    }

    /// The transactions on record for a user in a session.
    pub fn txn_record(&self, index: SessionIndex, user: &T::AccountId) -> (result: StorageMap<
        T::Hash,
        (T::Index, Balance, bool),
    >)
        ensures
            result@ == recorded(self@.txn_record, (index, *user)),
    {
        match self.txn_record.get(&(index, user.duplicate())) {
            Some(records) => records.duplicate(),
            None => StorageMap::new(),
        }
    }

    /// What was executed for a user in a session.
    pub fn execd_txn_record(&self, index: SessionIndex, user: &T::AccountId) -> (result: Vec<T::Hash>)
        ensures
            result@ == listed(self@.execd_txn_record, (index, *user)),
    {
        list_at(&self.execd_txn_record, &(index, user.duplicate()))
    }

    /// The fee that a submission owes before anything else is done for it, or why it
    /// is refused before that. A submission is refused where nobody signed for it
    /// and where the call is too long.
    pub fn fee_charge(
        environment: &Environment,
        origin: &Origin<T::AccountId>,
        doubly_encrypted_call: &Vec<u8>,
    ) -> (result: Result<FeeCharge<T::AccountId>, CallError>)
        ensures
            result == charge_due(*environment, *origin, doubly_encrypted_call@.len()),
    {
        match origin {
            Origin::Signed(user) => {
                let max_length = environment.doubly_encrypted_call_max_length as usize;
                if doubly_encrypted_call.len() <= max_length {
                    Ok(
                        FeeCharge {
                            token: FEE_TOKEN,
                            who: user.duplicate(),
                            amount: environment.fee,
                            reasons: WithdrawReasons {
                                transaction_payment: true,
                                transfer: true,
                                reserve: true,
                                fee: true,
                                tip: true,
                            },
                            new_balance: 0,
                            existence_requirement: ExistenceRequirement::AllowDeath,
                        },
                    )
                } else {
                    Err(CallError::Module(Error::DoublyEncryptedCallMaxLengthExceeded))
                }
            },
            _ => Err(CallError::BadOrigin),
        }
    }

    /// A user submits a doubly encrypted call. `withdrawal` tells how charging the fee
    /// that [`Pallet::fee_charge`] gives ended, as [`crate::fee::ChargeStep`] has it; it counts only
    /// where there was a fee to charge. Where the submission comes to its identifier, the bytes that it
    /// is the hash of must not be more than can be hashed.
    pub fn submit_doubly_encrypted_transaction(
        &mut self,
        environment: &Environment,
        origin: Origin<T::AccountId>,
        doubly_encrypted_call: Vec<u8>,
        nonce: T::Index,
        weight: Weight,
        builder: T::AccountId,
        executor: T::AccountId,
        withdrawal: OutsideResult,
    ) -> (result: DispatchResult)
        requires
            submission_outcome(*environment, origin, doubly_encrypted_call@.len(), withdrawal) is Ok
                ==> identifiable::<T>(doubly_encrypted_call@, origin->Signed_0, nonce),
        ensures
            result == submission_outcome(
                *environment,
                origin,
                doubly_encrypted_call@.len(),
                withdrawal,
            ),
            result is Err ==> final(self)@ == old(self)@,
            result is Ok ==> final(self)@ == old(self)@.submitted(
                *environment,
                identifier_of::<T>(doubly_encrypted_call@, origin->Signed_0, nonce),
                doubly_encrypted_call@,
                origin->Signed_0,
                nonce,
                weight,
                builder,
                executor,
            ),
            final(self)@ == old(self)@.after(
                environment.current_index,
                Action::SubmitDoublyEncrypted {
                    environment: *environment,
                    origin,
                    doubly_encrypted_call: doubly_encrypted_call@,
                    nonce,
                    weight,
                    builder,
                    executor,
                    withdrawal,
                },
            ),
    {
        let charge = match Self::fee_charge(environment, &origin, &doubly_encrypted_call) {
            Ok(charge) => charge,
            Err(error) => {
                return Err(error);
            },
        };
        if let Err(error) = withdrawal {
            return Err(CallError::Outside(error));
        }
        let identifier = identifier::<T>(&doubly_encrypted_call, &charge.who, &nonce);
        self.register_transaction(
            environment,
            identifier,
            doubly_encrypted_call,
            charge.who,
            nonce,
            weight,
            builder,
            executor,
        );
        Ok(())
    }

    /// Registers a transaction that was paid for under its identifier, queues it for
    /// its builder and puts it on record.
    pub fn register_transaction(
        &mut self,
        environment: &Environment,
        identifier: T::Hash,
        doubly_encrypted_call: Vec<u8>,
        user: T::AccountId,
        nonce: T::Index,
        weight: Weight,
        builder: T::AccountId,
        executor: T::AccountId,
    )
        ensures
            final(self)@ == old(self)@.submitted(
                *environment,
                identifier,
                doubly_encrypted_call@,
                user,
                nonce,
                weight,
                builder,
                executor,
            ),
    {
        let details = TxnRegistryDetails {
            doubly_encrypted_call,
            user: user.duplicate(),
            nonce: nonce.duplicate(),
            weight,
            builder: builder.duplicate(),
            executor,
            singly_encrypted_call: None,
            decrypted_call: None,
        };
        let ghost registry = self.txn_registry@;
        self.txn_registry.insert(identifier.duplicate(), details);
        assert(transactions(self.txn_registry@) =~= transactions(registry).insert(
            identifier,
            details@,
        ));
        push_to(&mut self.doubly_encrypted_queue, &builder, identifier.duplicate());
        let slot = (environment.current_index, user.duplicate());
        record_in(
            &mut self.txn_record,
            &slot,
            identifier.duplicate(),
            (nonce.duplicate(), environment.fee, false),
        );
        self.events.push(Event::DoublyEncryptedTxnSubmitted(user, nonce, identifier));
    }

    /// A builder submits what is left of a call once the outer layer is off.
    pub fn submit_singly_encrypted_transaction(
        &mut self,
        origin: Origin<T::AccountId>,
        identifier: T::Hash,
        singly_encrypted_call: Vec<u8>,
    ) -> (result: DispatchResult)
        ensures
            result == old(self)@.singly_encrypted_outcome(origin, identifier),
            result is Err ==> final(self)@ == old(self)@,
            result is Ok ==> final(self)@ == old(self)@.outer_layer_removed(
                identifier,
                singly_encrypted_call@,
            ),
            forall|current_index: SessionIndex|
                final(self)@ == #[trigger] old(self)@.after(
                    current_index,
                    Action::SubmitSinglyEncrypted {
                        origin,
                        identifier,
                        singly_encrypted_call: singly_encrypted_call@,
                    },
                ),
    {
        match origin {
            Origin::Unsigned => {},
            _ => {
                return Err(CallError::BadOrigin);
            },
        }
        let ghost registry = self.txn_registry@;
        let mut details = match self.txn_registry.take(&identifier) {
            Some(details) => details,
            None => {
                assert(registry.remove(identifier) =~= registry);
                return Err(CallError::Module(Error::TxnDoesNotExistsInRegistry));
            },
        };
        assert(details@ == transactions(registry)[identifier]);
        drop_from(&mut self.doubly_encrypted_queue, &details.builder, &identifier);
        push_to(&mut self.singly_encrypted_queue, &details.executor, identifier.duplicate());
        details.singly_encrypted_call = Some(singly_encrypted_call);
        let event = Event::SinglyEncryptedTxnSubmitted(
            details.user.duplicate(),
            details.nonce.duplicate(),
            identifier.duplicate(),
        );
        self.events.push(event);
        self.txn_registry.insert(identifier, details);
        assert(transactions(self.txn_registry@) =~= transactions(registry).insert(
            identifier,
            details@,
        ));
        Ok(())
    }

    /// An executor submits a call with both layers off. What is decrypted is on record
    /// from then on, whether or not it can be executed; it is executed where it
    /// encodes calls that together weigh no more than the user declared.
    pub fn submit_decrypted_transaction(
        &mut self,
        current_index: SessionIndex,
        origin: Origin<T::AccountId>,
        identifier: T::Hash,
        decrypted_call: Vec<u8>,
        _weight: Weight,
    ) -> (result: Result<Execution<T>, CallError>)
        ensures
            !old(self)@.takes_decrypted(origin, identifier) ==> started(result) == old(
                self,
            )@.decrypted_outcome(origin, identifier, None, Seq::empty()),
            old(self)@.takes_decrypted(origin, identifier) ==> exists|
                decoded: Option<Seq<T::Call>>,
                weights: Seq<Weight>,
            | #[trigger]
                decodes::<T>(decrypted_call@, decoded) && (decoded matches Some(calls) ==> weighs::<
                    T,
                >(calls, weights)) && started(result) == #[trigger] old(self)@.decrypted_outcome(
                    origin,
                    identifier,
                    decoded,
                    weights,
                ),
            final(self)@ == if old(self)@.takes_decrypted(origin, identifier) {
                old(self)@.inner_layer_removed(current_index, identifier, decrypted_call@)
            } else {
                old(self)@
            },
            final(self)@ == old(self)@.after(
                current_index,
                Action::SubmitDecrypted { origin, identifier, decrypted_call: decrypted_call@ },
            ),
    {
        match origin {
            Origin::Unsigned => {},
            _ => {
                return Err(CallError::BadOrigin);
            },
        }
        if self.txn_registry.get(&identifier).is_none() {
            return Err(CallError::Module(Error::TxnDoesNotExistsInRegistry));
        }
        let decoded = T::decode_calls(&decrypted_call);
        assert(call_ensures(T::decode_calls, (&decrypted_call,), decoded));
        assert(decodes::<T>(decrypted_call@, decoded_calls(decoded)));
        let weights: Vec<Weight> = match &decoded {
            Some(calls) => weights_of::<T>(calls),
            None => Vec::new(),
        };
        self.submit_decoded_transaction(
            current_index,
            origin,
            identifier,
            decrypted_call,
            decoded,
            &weights,
        )
    }

    /// An executor submits a call with both layers off, which the runtime decodes to
    /// `decoded`, calls of these weights.
    pub fn submit_decoded_transaction(
        &mut self,
        current_index: SessionIndex,
        origin: Origin<T::AccountId>,
        identifier: T::Hash,
        decrypted_call: Vec<u8>,
        decoded: Option<Vec<T::Call>>,
        weights: &Vec<Weight>,
    ) -> (result: Result<Execution<T>, CallError>)
        ensures
            started(result) == old(self)@.decrypted_outcome(
                origin,
                identifier,
                decoded_calls(decoded),
                weights@,
            ),
            final(self)@ == if old(self)@.takes_decrypted(origin, identifier) {
                old(self)@.inner_layer_removed(current_index, identifier, decrypted_call@)
            } else {
                old(self)@
            },
            final(self)@ == old(self)@.after(
                current_index,
                Action::SubmitDecrypted { origin, identifier, decrypted_call: decrypted_call@ },
            ),
    {
        match origin {
            Origin::Unsigned => {},
            _ => {
                return Err(CallError::BadOrigin);
            },
        }
        let ghost registry = self.txn_registry@;
        let mut details = match self.txn_registry.take(&identifier) {
            Some(details) => details,
            None => {
                assert(registry.remove(identifier) =~= registry);
                return Err(CallError::Module(Error::TxnDoesNotExistsInRegistry));
            },
        };
        assert(details@ == transactions(registry)[identifier]);
        drop_from(&mut self.singly_encrypted_queue, &details.executor, &identifier);
        let slot = (current_index, details.user.duplicate());
        push_to(&mut self.execd_txn_record, &slot, identifier.duplicate());
        details.decrypted_call = Some(decrypted_call);
        let user = details.user.duplicate();
        let nonce = details.nonce.duplicate();
        let weight = details.weight;
        self.txn_registry.insert(identifier.duplicate(), details);
        assert(transactions(self.txn_registry@) =~= transactions(registry).insert(
            identifier,
            details@,
        ));
        let event = Event::DecryptedTransactionSubmitted(
            user.duplicate(),
            nonce.duplicate(),
            identifier.duplicate(),
        );
        self.events.push(event);
        let calls = match decoded {
            Some(calls) => calls,
            None => {
                return Err(CallError::Module(Error::CallDeserilizationFailed));
            },
        };
        Self::execute_weighed_calls(Origin::Root, calls, weights, user, identifier, nonce, weight)
    }

    /// A user asks for a refund of a transaction that was submitted in the previous
    /// session and not executed then.
    pub fn refund_user(
        &mut self,
        current_index: SessionIndex,
        origin: Origin<T::AccountId>,
        identifier: T::Hash,
    ) -> (result: DispatchResult)
        ensures
            result == old(self)@.refund_outcome(current_index, origin, identifier),
            result is Err ==> final(self)@ == old(self)@,
            result is Ok ==> {
                let user = origin->Signed_0;
                let (nonce, fee) = old(self)@.refundable(current_index, user, identifier)->0;
                final(self)@ == old(self)@.refunded(current_index, user, identifier, nonce, fee)
            },
            final(self)@ == old(self)@.after(current_index, Action::Refund { origin, identifier }),
    {
        let user = match origin {
            Origin::Signed(user) => user,
            _ => {
                return Err(CallError::BadOrigin);
            },
        };
        if current_index == 0 {
            return Err(CallError::Module(Error::NoMarkedRefund));
        }
        let slot = (current_index - 1, user.duplicate());
        let executed = match self.execd_txn_record.get(&slot) {
            Some(list) => occurs(list, &identifier),
            None => false,
        };
        assert(executed == listed(self@.execd_txn_record, slot).contains(identifier));
        if executed {
            return Err(CallError::Module(Error::NoMarkedRefund));
        }
        let (nonce, fee_charged) = match self.txn_record.get(&slot) {
            Some(records) => match records.get(&identifier) {
                Some(record) => {
                    if record.2 {
                        return Err(CallError::Module(Error::NoMarkedRefund));
                    }
                    (record.0.duplicate(), record.1)
                },
                None => {
                    return Err(CallError::Module(Error::NoMarkedRefund));
                },
            },
            None => {
                return Err(CallError::Module(Error::NoMarkedRefund));
            },
        };
        let marked = (current_index, user.duplicate());
        record_in(
            &mut self.txn_record,
            &marked,
            identifier.duplicate(),
            (nonce.duplicate(), fee_charged, true),
        );
        self.events.push(Event::UserRefunded(slot.0, user, nonce, identifier, fee_charged));
        Ok(())
    }
}

} // verus!
