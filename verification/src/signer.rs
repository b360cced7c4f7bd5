//! Key pairs over the secp256k1 curve: signing a digest and recovering the signer of one.

use crate::primitives::{Address, B256, Signature};
use vstd::prelude::*;
use vstd::slice::slice_to_vec;

verus! {

/// The address of the secp256k1 key pair whose secret scalar is given as big-endian bytes;
/// `None` where the bytes are no valid secret key.
pub uninterp spec fn signer_address(secret: Seq<u8>) -> Option<Seq<u8>>;

/// The recoverable signature that the key with the given secret makes over a 32-byte
/// digest, as `(r, s, y_parity)`; `None` where the key is not valid or signing fails.
pub uninterp spec fn signed_prehash(secret: Seq<u8>, digest: Seq<u8>) -> Option<
    (Seq<u8>, Seq<u8>, bool),
>;

/// The address of the key that made a signature over a 32-byte digest, as far as the
/// signature and the digest determine one.
pub uninterp spec fn recovered_signer(r: Seq<u8>, s: Seq<u8>, y_parity: bool, digest: Seq<u8>)
    -> Option<Seq<u8>>;

/// Whether `signature` holds exactly the parts `parts`.
pub open spec fn signature_is(signature: Signature, parts: (Seq<u8>, Seq<u8>, bool)) -> bool {
    signature@.r == parts.0 && signature@.s == parts.1 && signature@.y_parity == parts.2
}

/// Derives the address of a secret key with `alloy_signer_local::PrivateKeySigner::from_slice`
/// and the signer's `address`.
///
/// Trusted: whether the bytes are accepted as a key, and the address that belongs to it,
/// depend on the bytes alone. The contract gives that result a name and says no more of it.
#[verifier::external_body]
fn address_of_secret(secret: &[u8]) -> (address: Option<Address>)
    ensures
        match address {
            Some(a) => signer_address(secret@) == Some(a@),
            None => signer_address(secret@).is_none(),
        },
{
    match alloy_signer_local::PrivateKeySigner::from_slice(secret) {
        Ok(signer) => Some(Address { bytes: signer.address().0.0 }),
        Err(_) => None,
    }
}

/// Signs a digest with `alloy_signer::SignerSync::sign_hash_sync`, on the signer that
/// `alloy_signer_local::PrivateKeySigner::from_slice` makes of the secret.
///
/// Trusted: the signature depends on the secret and the digest alone (the nonce of the
/// signature is derived from them, not drawn at random). The contract gives it a name; it
/// does not claim that the signature verifies.
#[verifier::external_body]
fn sign_prehash(secret: &[u8], digest: &B256) -> (signature: Option<Signature>)
    ensures
        match signature {
            Some(sig) => signed_prehash(secret@, digest@).is_some() && signature_is(
                sig,
                signed_prehash(secret@, digest@).unwrap(),
            ),
            None => signed_prehash(secret@, digest@).is_none(),
        },
{
    let signer = alloy_signer_local::PrivateKeySigner::from_slice(secret).ok()?;
    let digest = alloy_primitives::B256::new(digest.bytes);
    let signature = alloy_signer::SignerSync::sign_hash_sync(&signer, &digest).ok()?;
    Some(
        Signature {
            r: signature.r().to_be_bytes::<32>(),
            s: signature.s().to_be_bytes::<32>(),
            y_parity: signature.v(),
        },
    )
}

/// Recovers the signer of a digest with
/// `alloy_primitives::Signature::recover_address_from_prehash`.
///
/// Trusted: the address recovered, or the failure to recover one, depends on the signature
/// and the digest alone. The contract gives that result a name and says no more of it.
#[verifier::external_body]
pub(crate) fn recover_prehash(signature: &Signature, digest: &B256) -> (signer: Option<Address>)
    ensures
        match signer {
            Some(a) => recovered_signer(signature@.r, signature@.s, signature@.y_parity, digest@)
                == Some(a@),
            None => recovered_signer(
                signature@.r,
                signature@.s,
                signature@.y_parity,
                digest@,
            ).is_none(),
        },
{
    let r = alloy_primitives::U256::from_be_bytes(signature.r);
    let s = alloy_primitives::U256::from_be_bytes(signature.s);
    let signature = alloy_primitives::Signature::new(r, s, signature.y_parity);
    match signature.recover_address_from_prehash(&alloy_primitives::B256::new(digest.bytes)) {
        Ok(address) => Some(Address { bytes: address.0.0 }),
        Err(_) => None,
    }
}

/// The signer that a signature over a digest recovers to, as an address.
pub open spec fn recovered(signature: Signature, digest: B256) -> Option<Seq<u8>> {
    recovered_signer(signature@.r, signature@.s, signature@.y_parity, digest@)
}

/// A signing key and the address that belongs to it.
pub struct Keypair {
    secret: Vec<u8>,
    address: Address,
}

impl Keypair {
    /// The secret scalar, as the bytes that the key pair was made from.
    pub closed spec fn secret(&self) -> Seq<u8> {
        self.secret@
    }

    /// The address recorded for the key.
    pub closed spec fn spec_address(&self) -> Address {
        self.address
    }

    /// What signing `digest` with this key pair yields: the signature that the key makes,
    /// provided that its `r` and `s` have 32 bytes each and that it recovers to the key
    /// pair's own address.
    pub open spec fn signature_over_digest(&self, digest: Seq<u8>) -> Option<
        (Seq<u8>, Seq<u8>, bool),
    > {
        match signed_prehash(self.secret(), digest) {
            Some(parts) => if parts.0.len() == 32 && parts.1.len() == 32 && recovered_signer(
                parts.0,
                parts.1,
                parts.2,
                digest,
            ) == Some(self.spec_address()@) {
                Some(parts)
            } else {
                None
            },
            None => None,
        }
    }

    /// The same, for a digest held as a word.
    pub open spec fn signature_over(&self, digest: B256) -> Option<(Seq<u8>, Seq<u8>, bool)> {
        self.signature_over_digest(digest@)
    }

    /// The key pair of a secret scalar; `None` where the bytes are no valid key.
    pub fn from_slice(secret: &[u8]) -> (keypair: Option<Self>)
        ensures
            match keypair {
                Some(k) => k.secret() == secret@ && signer_address(secret@) == Some(
                    k.spec_address()@,
                ),
                None => signer_address(secret@).is_none(),
            },
    {
        match address_of_secret(secret) {
            Some(address) => Some(Keypair { secret: slice_to_vec(secret), address }),
            None => None,
        }
    }

    /// The address of the key pair.
    #[verifier::when_used_as_spec(spec_address)]
    pub fn address(&self) -> (address: Address)
        ensures
            address == self.spec_address(),
    {
        self.address
    }

    /// Signs `digest`. The signature is handed out only after it has been found to recover
    /// to the key pair's own address, so every signature that comes out verifies.
    pub fn sign_hash(&self, digest: &B256) -> (signature: Option<Signature>)
        ensures
            match signature {
                Some(sig) => self.signature_over(*digest).is_some() && signature_is(
                    sig,
                    self.signature_over(*digest).unwrap(),
                ),
                None => self.signature_over(*digest).is_none(),
            },
            signature.is_some() ==> recovered(signature.unwrap(), *digest) == Some(
                self.spec_address()@,
            ),
    {
        match sign_prehash(self.secret.as_slice(), digest) {
            Some(signature) => {
                match recover_prehash(&signature, digest) {
                    Some(signer) => {
                        if signer.is_equal(&self.address) {
                            Some(signature)
                        } else {
                            None
                        }
                    },
                    None => None,
                }
            },
            None => None,
        }
    }
}

} // verus!
