//! What is fixed of the reward contract.

use crate::miner::Miner;
use crate::primitives::{Address, B256, U256};
use vstd::prelude::*;

verus! {

/// The address of the reward contract, which is also the factory of the search.
pub const REWARDER_ADDRESS: [u8; 20] = [
    0xd6, 0x1e, 0x2a, 0xf6, 0xa7, 0xc3, 0x47, 0x71, 0x3c, 0x47,
    0x8c, 0x4e, 0x9f, 0xef, 0x8f, 0xe5, 0xa2, 0x2c, 0x54, 0x59,
];

/// The address of the name registry.
pub const ENS_ADDRESS: [u8; 20] = [
    0x00, 0x00, 0x00, 0x00, 0x00, 0xd8, 0xe5, 0x04, 0x00, 0x2c,
    0xc2, 0x6e, 0x3e, 0xc4, 0x6d, 0x81, 0x97, 0x1c, 0x16, 0x64,
];

/// The identifier of the chain on which the reward contract lives.
pub const CHAIN_ID: u64 = 8453;

/// The miner of a node, from what the contract answered at startup: it searches under the
/// reward contract as factory, for the wallet's address, from nonce zero on.
pub fn miner_for(wallet: Address, init_hash: B256, difficulty: Address) -> (miner: Miner)
    ensures
        miner.factory().bytes == REWARDER_ADDRESS,
        miner.address() == wallet,
        miner.salt().value() == 0,
        miner.init_hash() == init_hash,
        miner.difficulty() == difficulty,
{
    Miner::new(Address::new(REWARDER_ADDRESS), wallet, U256::zero(), init_hash, difficulty)
}

} // verus!
