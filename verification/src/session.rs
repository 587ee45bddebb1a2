//! What the pallet does when sessions change.

use crate::config::Config;
use crate::history::Action;
use crate::pallet::{lists, maps, Pallet};
use crate::state::State;
use crate::storage::{collect, without_prefix, StorageMap};
use crate::types::SessionIndex;
use vstd::prelude::*;

verus! {

/// A storage item of the pallet, for the prefix that the chain stores it under.
#[derive(Clone, Copy, PartialEq, Eq, Debug, Structural)]
pub enum StorageItem {
    TxnRegistry,
    DoublyEncryptedQueue,
    SinglyEncryptedQueue,
}

impl<T: Config> Pallet<T> {
    /// The first session starts with these authorities. Where an authority is named
    /// twice, the key that comes last counts.
    pub fn on_genesis_session(&mut self, validators: Vec<(T::AccountId, T::AuthorityId)>)
        ensures
            final(self)@ == (State { keys: collect(validators@), ..old(self)@ }),
            forall|current_index: SessionIndex|
                final(self)@ == #[trigger] old(self)@.after(
                    current_index,
                    Action::SetKeys { keys: collect(validators@) },
                ),
    {
        self.keys = StorageMap::from_pairs(validators);
    }

    /// A session starts with these authorities, in place of the ones before.
    pub fn on_new_session(
        &mut self,
        _changed: bool,
        validators: Vec<(T::AccountId, T::AuthorityId)>,
        _queued_validators: Vec<(T::AccountId, T::AuthorityId)>,
    )
        ensures
            final(self)@ == (State { keys: collect(validators@), ..old(self)@ }),
            forall|current_index: SessionIndex|
                final(self)@ == #[trigger] old(self)@.after(
                    current_index,
                    Action::SetKeys { keys: collect(validators@) },
                ),
    {
        // Remember who the authorities are for the new session.
        self.keys = StorageMap::from_pairs(validators);
    }

    /// A session is about to end. The keys of its authorities and the records of the
    /// session before it are dropped.
    ///
    /// The result names the storage items whose prefixes are the names of child
    /// tries that are to be dropped as well, in order. The items themselves live in
    /// the chain's main trie, so the registry and the queues keep what they hold.
    pub fn on_before_session_ending(&mut self, current_index: SessionIndex) -> (result: Vec<
        StorageItem,
    >)
        ensures
            final(self)@ == old(self)@.session_ended(current_index),
            final(self)@ == old(self)@.after(current_index, Action::EndSession),
            result@ == seq![
                StorageItem::TxnRegistry,
                StorageItem::DoublyEncryptedQueue,
                StorageItem::SinglyEncryptedQueue,
            ],
    {
        self.keys = StorageMap::new();
        if current_index > 0 {
            let previous: SessionIndex = current_index - 1;
            let ghost record = self.txn_record@;
            let ghost execd = self.execd_txn_record@;
            self.txn_record.remove_prefix(&previous);
            self.execd_txn_record.remove_prefix(&previous);
            assert(maps(self.txn_record@) =~= without_prefix(maps(record), previous));
            assert(lists(self.execd_txn_record@) =~= without_prefix(lists(execd), previous));
        }
        vec![
            StorageItem::TxnRegistry,
            StorageItem::DoublyEncryptedQueue,
            StorageItem::SinglyEncryptedQueue,
        ]
    }

    /// A validator was disabled. Nothing is done about it.
    pub fn on_disabled(&mut self, _i: u32)
        ensures
            final(self)@ == old(self)@,
    {
    }
}

} // verus!
