//! Keccak-256 and what is derived with it.

use crate::primitives::{Address, B256, U256};
use vstd::prelude::*;

verus! {

/// The Keccak-256 digest of a byte string, as its 32 bytes.
pub uninterp spec fn keccak256_digest(bytes: Seq<u8>) -> Seq<u8>;

/// The address that the `CREATE2` rule of EIP-1014 derives from a factory address, a salt and
/// the hash of the init code: the last 20 bytes of the digest of
/// `0xff ++ factory ++ salt ++ init_code_hash`.
pub open spec fn create2_address(factory: Seq<u8>, salt: Seq<u8>, init_code_hash: Seq<u8>) -> Seq<
    u8,
> {
    keccak256_digest(seq![0xffu8] + factory + salt + init_code_hash).subrange(12, 32)
}

/// The packed ABI encoding of a `uint256` followed by an `address`: the 32 big-endian bytes
/// of the integer, then the 20 bytes of the address, with no padding.
pub open spec fn packed_nonce_and_address(nonce: Seq<u8>, address: Seq<u8>) -> Seq<u8> {
    nonce + address
}

/// Hashes `bytes` with `alloy_primitives::keccak256`.
///
/// Trusted: the result is the Keccak-256 digest of exactly the bytes given. What the digest
/// of a given input is stays unstated; the contract only gives it a name.
#[verifier::external_body]
pub(crate) fn keccak256(bytes: &[u8]) -> (digest: B256)
    ensures
        digest@ == keccak256_digest(bytes@),
{
    B256 { bytes: alloy_primitives::keccak256(bytes).0 }
}

/// Derives a contract address with `alloy_primitives::Address::create2`.
///
/// Trusted: the result is the EIP-1014 address of `factory`, `salt` and `init_code_hash`,
/// which that method documents as `keccak256(0xff ++ address ++ salt ++ init_code_hash)[12:]`.
#[verifier::external_body]
pub(crate) fn create2(factory: &Address, salt: &B256, init_code_hash: &B256) -> (derived: Address)
    ensures
        derived@ == create2_address(factory@, salt@, init_code_hash@),
{
    let factory = alloy_primitives::Address::new(factory.bytes);
    Address { bytes: factory.create2(salt.bytes, init_code_hash.bytes).0.0 }
}

/// Encodes `(nonce, address)` with `alloy_sol_types::SolValue::abi_encode_packed`.
///
/// Trusted: packed mode writes a `uint256` as its 32 big-endian bytes and an `address` as
/// its 20 bytes, one after the other.
#[verifier::external_body]
pub(crate) fn abi_encode_packed(nonce: &U256, address: &Address) -> (packed: Vec<u8>)
    ensures
        packed@ == packed_nonce_and_address(nonce@, address@),
{
    let nonce = alloy_primitives::U256::from_be_bytes(nonce.bytes);
    let address = alloy_primitives::Address::new(address.bytes);
    alloy_sol_types::SolValue::abi_encode_packed(&(nonce, address))
}

} // verus!
