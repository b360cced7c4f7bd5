//! The proof-of-work search for addresses below a difficulty.

use crate::hash::{
    abi_encode_packed, create2, create2_address, keccak256, keccak256_digest,
    packed_nonce_and_address,
};
use crate::primitives::{be_value, Address, B256, U256, u256_modulus};
use vstd::prelude::*;

verus! {

/// The salt that a miner at `miner` derives from `nonce`: the digest of the packed encoding
/// of the two.
pub open spec fn mining_salt(nonce: Seq<u8>, miner: Seq<u8>) -> Seq<u8> {
    keccak256_digest(packed_nonce_and_address(nonce, miner))
}

/// The candidate address that `nonce` yields for `miner`, under the given factory and
/// init-code hash.
pub open spec fn candidate_address(
    factory: Seq<u8>,
    miner: Seq<u8>,
    nonce: Seq<u8>,
    init_hash: Seq<u8>,
) -> Seq<u8> {
    create2_address(factory, mining_salt(nonce, miner), init_hash)
}

/// Whether a candidate passes a difficulty: read as big-endian integers, the candidate is
/// strictly below the threshold.
pub open spec fn passes_difficulty(candidate: Seq<u8>, difficulty: Seq<u8>) -> bool {
    be_value(candidate) < be_value(difficulty)
}

/// Why a pair of address and nonce is not accepted as mined.
#[derive(Clone, Copy, Debug, PartialEq, Eq, Structural)]
pub enum MiningError {
    /// The candidate derived from the pair is not below the difficulty.
    DifficultyNotPassed,
}

/// A proof-of-work search: it walks the nonces upwards and reports each one whose candidate
/// address lies below the difficulty.
#[derive(Debug)]
pub struct Miner {
    pub(crate) factory: Address,
    pub(crate) address: Address,
    pub(crate) salt: U256,
    pub(crate) init_hash: B256,
    pub(crate) difficulty: Address,
}

impl Miner {
    /// The factory address of the search.
    pub closed spec fn factory(&self) -> Address {
        self.factory
    }

    /// The miner's own address.
    pub closed spec fn address(&self) -> Address {
        self.address
    }

    /// The last nonce tried.
    pub closed spec fn salt(&self) -> U256 {
        self.salt
    }

    /// The init-code hash of the search.
    pub closed spec fn init_hash(&self) -> B256 {
        self.init_hash
    }

    /// The difficulty threshold.
    pub closed spec fn difficulty(&self) -> Address {
        self.difficulty
    }

    /// The candidate that this miner derives from `nonce` and `init_hash`.
    pub open spec fn candidate(&self, nonce: U256, init_hash: B256) -> Seq<u8> {
        candidate_address(self.factory()@, self.address()@, nonce@, init_hash@)
    }

    /// A miner that starts after `salt`.
    pub fn new(
        factory: Address,
        address: Address,
        salt: U256,
        init_hash: B256,
        difficulty: Address,
    ) -> (miner: Self)
        ensures
            miner.factory() == factory,
            miner.address() == address,
            miner.salt() == salt,
            miner.init_hash() == init_hash,
            miner.difficulty() == difficulty,
    {
        Miner { factory, address, salt, init_hash, difficulty }
    }

    /// Whether `candidate` lies strictly below this miner's difficulty.
    pub fn accepts(&self, candidate: &Address) -> (accepted: bool)
        ensures
            accepted == passes_difficulty(candidate@, self.difficulty()@),
    {
        candidate.is_below(&self.difficulty)
    }

    /// Derives the candidate address of `address` and `nonce` under `init_hash`.
    pub fn derive(&self, address: &Address, nonce: &U256, init_hash: &B256) -> (candidate: Address)
        ensures
            candidate@ == candidate_address(self.factory()@, address@, nonce@, init_hash@),
    {
        let packed = abi_encode_packed(nonce, address);
        let salt = keccak256(packed.as_slice());
        create2(&self.factory, &salt, init_hash)
    }

    /// Tries one nonce: `Some(nonce)` if its candidate passes the difficulty, else `None`.
    /// The miner itself is left as it was.
    pub fn mine(&mut self, nonce: U256, init_hash: B256) -> (found: Option<U256>)
        ensures
            *final(self) == *old(self),
            found == if passes_difficulty(
                old(self).candidate(nonce, init_hash),
                old(self).difficulty()@,
            ) {
                Some(nonce)
            } else {
                None
            },
    {
        let candidate = self.derive(&self.address, &nonce, &init_hash);
        if self.accepts(&candidate) {
            Some(nonce)
        } else {
            None
        }
    }

    /// One step of the search: advances the nonce by one, wrapping at `2^256`, and reports the
    /// miner's address with the new nonce if that nonce's candidate passes the difficulty.
    pub fn run(&mut self) -> (found: Option<(Address, U256)>)
        ensures
            final(self).salt().value() == (old(self).salt().value() + 1) % u256_modulus(),
            final(self).factory() == old(self).factory(),
            final(self).address() == old(self).address(),
            final(self).init_hash() == old(self).init_hash(),
            final(self).difficulty() == old(self).difficulty(),
            found == if passes_difficulty(
                final(self).candidate(final(self).salt(), final(self).init_hash()),
                final(self).difficulty()@,
            ) {
                Some((final(self).address(), final(self).salt()))
            } else {
                None
            },
    {
        self.salt.increment();
        let nonce = self.salt;
        let init_hash = self.init_hash;
        match self.mine(nonce, init_hash) {
            Some(n) => Some((self.address, n)),
            None => None,
        }
    }

    /// Checks a pair claimed as mined: `Ok` exactly if the candidate of `address` and `nonce`
    /// under this miner's init-code hash passes the difficulty.
    pub fn verify(&self, address: Address, nonce: U256) -> (res: Result<(), MiningError>)
        ensures
            res == if passes_difficulty(
                candidate_address(self.factory()@, address@, nonce@, self.init_hash()@),
                self.difficulty()@,
            ) {
                Ok::<(), MiningError>(())
            } else {
                Err(MiningError::DifficultyNotPassed)
            },
    {
        let candidate = self.derive(&address, &nonce, &self.init_hash);
        if self.accepts(&candidate) {
            Ok(())
        } else {
            Err(MiningError::DifficultyNotPassed)
        }
    }
}

} // verus!
