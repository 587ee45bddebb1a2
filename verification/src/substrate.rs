//! The system types of a Substrate chain: 32-byte accounts, `u32` indices and
//! Blake2-256 hashes of SCALE encodings.

use crate::config::{Key, System};
use vstd::prelude::*;

verus! {

/// The error that other pallets report. It is carried through, never looked into.
#[verifier::external_type_specification]
#[verifier::external_body]
pub struct ExDispatchError(sp_runtime::DispatchError);

/// What `sp_runtime::traits::BlakeTwo256::hash_of` gives for a byte string: the
/// Blake2-256 hash of the byte string's SCALE encoding.
pub uninterp spec fn blake_two_256_hash_of(bytes: Seq<u8>) -> [u8; 32];

/// The bytes of a `u32`, the lowest first.
pub open spec fn little_endian(value: u32) -> Seq<u8> {
    seq![
        (value % 0x100) as u8,
        (value / 0x100 % 0x100) as u8,
        (value / 0x1_0000 % 0x100) as u8,
        (value / 0x100_0000) as u8,
    ]
}

/// Calls `Encode::encode` on the account as an `AccountId32`. SCALE encodes a
/// fixed-size array as its elements one after the other, with no length in front,
/// so the encoding is the account's 32 bytes.
#[verifier::external_body]
fn encode_account_id(account: &[u8; 32]) -> (result: Vec<u8>)
    ensures
        result@ == account@,
{
    frame_support::pallet_prelude::Encode::encode(&sp_runtime::AccountId32::new(*account))
}

/// Calls `Encode::encode` on a `u32`. SCALE encodes a fixed-width integer as its
/// little-endian bytes.
#[verifier::external_body]
fn encode_u32(value: &u32) -> (result: Vec<u8>)
    ensures
        result@ == little_endian(*value),
{
    frame_support::pallet_prelude::Encode::encode(value)
}

/// Calls `BlakeTwo256::hash_of` on a byte string. The result rests on the byte
/// string alone; nothing is said of which hash belongs to which byte string. SCALE
/// puts the length of a byte string in front of it, and panics where the length does
/// not fit in a `u32`.
#[verifier::external_body]
fn blake_two_256(bytes: &Vec<u8>) -> (result: [u8; 32])
    requires
        bytes@.len() <= u32::MAX,
    ensures
        result == blake_two_256_hash_of(bytes@),
{
    <sp_runtime::traits::BlakeTwo256 as sp_runtime::traits::Hash>::hash_of(bytes).to_fixed_bytes()
}

impl Key for [u8; 32] {
    fn same(&self, other: &Self) -> (result: bool) {
        let mut i: usize = 0;
        while i < 32
            invariant
                i <= 32,
                forall|j: int| 0 <= j < i ==> self[j] == other[j],
            decreases 32 - i,
        {
            if self[i] != other[i] {
                return false;
            }
            i = i + 1;
        }
        assert(*self =~= *other);
        true
    }

    fn duplicate(&self) -> (result: Self) {
        *self
    }
}

/// The system types of a Substrate chain.
pub struct Substrate;

impl System for Substrate {
    type AccountId = [u8; 32];

    type Index = u32;

    type Hash = [u8; 32];

    open spec fn account_bytes(account: [u8; 32]) -> Seq<u8> {
        account@
    }

    open spec fn index_bytes(index: u32) -> Seq<u8> {
        little_endian(index)
    }

    open spec fn hash(bytes: Seq<u8>) -> [u8; 32] {
        blake_two_256_hash_of(bytes)
    }

    fn encode_account(account: &[u8; 32]) -> (result: Vec<u8>) {
        encode_account_id(account)
    }

    fn encode_index(index: &u32) -> (result: Vec<u8>) {
        encode_u32(index)
    }

    fn hash_of(bytes: &Vec<u8>) -> (result: [u8; 32]) {
        blake_two_256(bytes)
    }
}

} // verus!
