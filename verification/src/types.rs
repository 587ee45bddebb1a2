//! The values that calls to the pallet take and give.

use crate::config::Config;
use vstd::prelude::*;

verus! {

/// An amount of tokens.
pub type Balance = u128;

/// Which token an amount is in.
pub type TokenId = u32;

/// How much of a block's time a call takes.
pub type Weight = u64;

/// How sessions are counted.
pub type SessionIndex = u32;

/// The token that fees are paid in.
pub const FEE_TOKEN: TokenId = 0;

/// What the registry knows of a transaction.
#[derive(Clone, PartialEq, Eq, Debug)]
pub struct TxnRegistryDetails<AccountId, Index> {
    pub doubly_encrypted_call: Vec<u8>,
    pub user: AccountId,
    pub nonce: Index,
    pub weight: Weight,
    pub builder: AccountId,
    pub executor: AccountId,
    pub singly_encrypted_call: Option<Vec<u8>>,
    pub decrypted_call: Option<Vec<u8>>,
}

/// What the registry knows of a transaction, with byte strings as sequences.
#[verifier::ext_equal]
pub struct Transaction<AccountId, Index> {
    pub doubly_encrypted_call: Seq<u8>,
    pub user: AccountId,
    pub nonce: Index,
    pub weight: Weight,
    pub builder: AccountId,
    pub executor: AccountId,
    pub singly_encrypted_call: Option<Seq<u8>>,
    pub decrypted_call: Option<Seq<u8>>,
}

/// A byte string that may be missing, as a sequence.
pub open spec fn optional_bytes(bytes: Option<Vec<u8>>) -> Option<Seq<u8>> {
    match bytes {
        Some(bytes) => Some(bytes@),
        None => None,
    }
}

impl<AccountId, Index> View for TxnRegistryDetails<AccountId, Index> {
    type V = Transaction<AccountId, Index>;

    open spec fn view(&self) -> Transaction<AccountId, Index> {
        Transaction {
            doubly_encrypted_call: self.doubly_encrypted_call@,
            user: self.user,
            nonce: self.nonce,
            weight: self.weight,
            builder: self.builder,
            executor: self.executor,
            singly_encrypted_call: optional_bytes(self.singly_encrypted_call),
            decrypted_call: optional_bytes(self.decrypted_call),
        }
    }
}

/// Why the pallet refuses a call.
#[derive(Clone, Copy, PartialEq, Eq, Debug, Structural)]
pub enum Error {
    /// The calls weigh more than the user declared.
    IncorrectCallWeight,
    /// There is nothing to refund.
    NoMarkedRefund,
    /// The decrypted bytes do not encode a list of calls.
    CallDeserilizationFailed,
    /// The encrypted call is longer than the chain takes.
    DoublyEncryptedCallMaxLengthExceeded,
    /// The registry knows no such transaction.
    TxnDoesNotExistsInRegistry,
    /// Something that should not happen did.
    UnexpectedError,
}

/// Why a call failed.
#[derive(Clone, Copy, PartialEq, Eq, Debug)]
pub enum CallError {
    /// The call may not come from where it came from.
    BadOrigin,
    /// This pallet refused the call.
    Module(Error),
    /// Another pallet refused the call.
    Outside(sp_runtime::DispatchError),
}

/// How a call ended.
pub type DispatchResult = Result<(), CallError>;

/// How something that another pallet was asked to do ended.
pub type OutsideResult = Result<(), sp_runtime::DispatchError>;

/// Where a call came from.
#[derive(PartialEq, Eq, Debug)]
pub enum Origin<AccountId> {
    /// The chain itself.
    Root,
    /// An account that signed for it.
    Signed(AccountId),
    /// Nobody in particular.
    Unsigned,
    /// An origin that another pallet introduced.
    Other,
}

/// What a withdrawal is for.
#[derive(Clone, Copy, PartialEq, Eq, Debug, Structural)]
pub struct WithdrawReasons {
    pub transaction_payment: bool,
    pub transfer: bool,
    pub reserve: bool,
    pub fee: bool,
    pub tip: bool,
}

/// Whether a withdrawal may use up the account.
#[derive(Clone, Copy, PartialEq, Eq, Debug, Structural)]
pub enum ExistenceRequirement {
    KeepAlive,
    AllowDeath,
}

/// A fee that is to be withdrawn.
#[derive(PartialEq, Eq, Debug)]
pub struct FeeCharge<AccountId> {
    pub token: TokenId,
    pub who: AccountId,
    pub amount: Balance,
    pub reasons: WithdrawReasons,
    /// The balance that the ledger is told the account would be left with, where it is
    /// asked whether the fee can be withdrawn.
    pub new_balance: Balance,
    pub existence_requirement: ExistenceRequirement,
}

/// What a submission reads from the chain.
#[derive(Clone, Copy, PartialEq, Eq, Debug)]
pub struct Environment {
    /// The session that the chain is in.
    pub current_index: SessionIndex,
    /// The fee for a submission.
    pub fee: Balance,
    /// How many bytes a doubly encrypted call may have.
    pub doubly_encrypted_call_max_length: u32,
}

/// What a call lets the outside world know.
#[derive(PartialEq, Eq, Debug)]
pub enum Event<T: Config> {
    /// A call was dispatched, with this outcome.
    Called(DispatchResult, T::AccountId, T::Index, T::Hash),
    /// Calls were executed.
    CallsExecuted(T::AccountId, T::Index, T::Hash),
    /// A user has submitted a doubly encrypted transaction.
    DoublyEncryptedTxnSubmitted(T::AccountId, T::Index, T::Hash),
    /// A collator has submitted a singly encrypted transaction.
    SinglyEncryptedTxnSubmitted(T::AccountId, T::Index, T::Hash),
    /// A collator has submitted a decrypted transaction.
    DecryptedTransactionSubmitted(T::AccountId, T::Index, T::Hash),
    /// A user was refunded for a transaction of this session.
    UserRefunded(SessionIndex, T::AccountId, T::Index, T::Hash, Balance),
}

} // verus!
