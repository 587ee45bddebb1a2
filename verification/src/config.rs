//! What the pallet asks of the chain that it runs on.

use vstd::prelude::*;

verus! {

/// A value that storage holds: it can be compared and handed out again.
pub trait Key: Sized {
    /// Whether both are the same value.
    fn same(&self, other: &Self) -> (result: bool)
        ensures
            result == (*self == *other),
    ;

    /// The same value once more.
    fn duplicate(&self) -> (result: Self)
        ensures
            result == *self,
    ;
}

impl<A: Key, B: Key> Key for (A, B) {
    fn same(&self, other: &Self) -> (result: bool) {
        self.0.same(&other.0) && self.1.same(&other.1)
    }

    fn duplicate(&self) -> (result: Self) {
        (self.0.duplicate(), self.1.duplicate())
    }
}

impl<A: Key, B: Key, C: Key> Key for (A, B, C) {
    fn same(&self, other: &Self) -> (result: bool) {
        self.0.same(&other.0) && self.1.same(&other.1) && self.2.same(&other.2)
    }

    fn duplicate(&self) -> (result: Self) {
        (self.0.duplicate(), self.1.duplicate(), self.2.duplicate())
    }
}

impl Key for bool {
    fn same(&self, other: &Self) -> (result: bool) {
        *self == *other
    }

    fn duplicate(&self) -> (result: Self) {
        *self
    }
}

impl Key for u128 {
    fn same(&self, other: &Self) -> (result: bool) {
        *self == *other
    }

    fn duplicate(&self) -> (result: Self) {
        *self
    }
}

impl Key for u32 {
    fn same(&self, other: &Self) -> (result: bool) {
        *self == *other
    }

    fn duplicate(&self) -> (result: Self) {
        *self
    }
}

/// The types that a chain gives to accounts, nonces and hashes, and how they are
/// encoded and hashed.
///
/// What the encodings and the hash come to depends on their arguments alone. Three
/// spec functions say what that is. Code outside of Verus cannot give them, so each has
/// a default: a function of the chain's own, of which nothing is known.
pub trait System: Sized {
    /// Who signs a transaction.
    type AccountId: Key;

    /// How a signer's transactions are numbered.
    type Index: Key;

    /// The output of the chain's hash function.
    type Hash: Key;

    /// What an account is encoded as.
    closed spec fn account_bytes(account: Self::AccountId) -> Seq<u8> {
        (arbitrary::<(Option<Self>, spec_fn(Self::AccountId) -> Seq<u8>)>().1)(account)
    }

    /// What an index is encoded as.
    closed spec fn index_bytes(index: Self::Index) -> Seq<u8> {
        (arbitrary::<(spec_fn(Self::Index) -> Seq<u8>, Option<Self>)>().0)(index)
    }

    /// What a byte string is hashed to.
    closed spec fn hash(bytes: Seq<u8>) -> Self::Hash {
        (arbitrary::<(Option<Self>, spec_fn(Seq<u8>) -> Self::Hash)>().1)(bytes)
    }

    /// Encodes an account.
    fn encode_account(account: &Self::AccountId) -> (result: Vec<u8>)
        ensures
            result@ == Self::account_bytes(*account),
    ;

    /// Encodes an index.
    fn encode_index(index: &Self::Index) -> (result: Vec<u8>)
        ensures
            result@ == Self::index_bytes(*index),
    ;

    /// Hashes a byte string. What is hashed is the byte string with its length in
    /// front, and the length has to fit in a `u32`.
    fn hash_of(bytes: &Vec<u8>) -> (result: Self::Hash)
        requires
            bytes@.len() <= u32::MAX,
        ensures
            result == Self::hash(bytes@),
    ;
}

/// What a runtime chooses for this pallet.
pub trait Config: System {
    /// The session key of an authority.
    type AuthorityId;

    /// A call that can be dispatched on a user's behalf.
    type Call;

    /// Decodes a list of calls.
    fn decode_calls(bytes: &Vec<u8>) -> Option<Vec<Self::Call>>;

    /// The weight that a call declares.
    fn weight_of(call: &Self::Call) -> u64;
}

} // verus!
