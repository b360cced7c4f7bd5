//! Signed messages and the channels that carry them: a sender signs what it sends, a
//! receiver hands on only what it has found to come from the address that it claims.

use crate::events::GameEventMessage;
use crate::hash::{keccak256, keccak256_digest};
use crate::payload::Payload;
use crate::primitives::{
    Address, B256, Signature, SignatureView, be_value, lemma_address_by_bytes,
};
use crate::signer::{Keypair, recover_prehash, recovered_signer, signature_is};
use crate::wire::{append, bytes_parsed, lemma_bytes_round_trip, length_prefixed};
use vstd::prelude::*;
use vstd::slice::slice_subrange;

verus! {

/// Why a message could not be signed, sent, received or trusted.
#[derive(Clone, Copy, Debug, PartialEq, Eq, Structural)]
pub enum ChannelError {
    /// The message could not be put into bytes.
    Encode,
    /// The bytes are no message.
    Decode,
    /// The key did not yield a signature that recovers to its own address.
    Sign,
    /// No signer can be recovered from the signature.
    Recover,
    /// The signature was made by another key than that of the address in the message.
    SignerNotApproved,
    /// The other end of the channel is gone.
    Disconnected,
}

/// A payload with the address that vouches for it and a signature over both.
#[derive(Debug, Clone, PartialEq, Eq)]
pub struct SignedMessage<D> {
    pub data: D,
    pub address: Address,
    pub signature: Signature,
}

/// What a signed message holds, as plain values.
pub struct SignedMessageView<P> {
    pub data: P,
    pub address: Seq<u8>,
    pub signature: SignatureView,
}

impl<D: View> View for SignedMessage<D> {
    type V = SignedMessageView<D::V>;

    open spec fn view(&self) -> SignedMessageView<D::V> {
        SignedMessageView { data: self.data@, address: self.address@, signature: self.signature@ }
    }
}

/// The bytes of the signature's parity: an eight-byte big-endian integer that is zero or
/// one.
pub open spec fn parity_bytes(y_parity: bool) -> Seq<u8> {
    seq![0u8, 0u8, 0u8, 0u8, 0u8, 0u8, 0u8, if y_parity {
        1u8
    } else {
        0u8
    }]
}

/// The layout of what follows the payload in a message on the wire: the address, the `r`
/// and the `s` of the signature and the parity, each as a byte string with its length.
pub open spec fn tail_layout(address: Seq<u8>, signature: SignatureView) -> Seq<u8> {
    length_prefixed(address) + length_prefixed(signature.r) + length_prefixed(signature.s)
        + length_prefixed(parity_bytes(signature.y_parity))
}

/// The bytes that bincode's standard configuration writes for an address; `None` where it
/// reports an error.
pub uninterp spec fn bincode_address(address: Seq<u8>) -> Option<Seq<u8>>;

/// The bytes that bincode's standard configuration writes for the pair of an address and a
/// signature `(r, s, y_parity)`; `None` where it reports an error.
pub uninterp spec fn bincode_tail(address: Seq<u8>, r: Seq<u8>, s: Seq<u8>, y_parity: bool)
    -> Option<Seq<u8>>;

/// The parity that the bytes of an eight-byte big-endian integer stand for: false for
/// zero, true for one, and none for any other number.
pub open spec fn parity_parsed(bytes: Seq<u8>) -> Option<bool> {
    if bytes.len() != 8 {
        None
    } else if be_value(bytes) == 0 {
        Some(false)
    } else if be_value(bytes) == 1 {
        Some(true)
    } else {
        None
    }
}

/// The address and the signature at the front of a byte string, as a reader finds them:
/// four byte strings with their lengths, of 20, 32, 32 and 8 bytes, the last of which
/// stands for a parity. What follows them is not looked at.
pub open spec fn tail_parsed(bytes: Seq<u8>) -> Option<(Seq<u8>, SignatureView)> {
    match bytes_parsed(bytes) {
        None => None,
        Some((address, used_a)) => match bytes_parsed(bytes.skip(used_a as int)) {
            None => None,
            Some((r, used_r)) => match bytes_parsed(bytes.skip((used_a + used_r) as int)) {
                None => None,
                Some((s, used_s)) => match bytes_parsed(
                    bytes.skip((used_a + used_r + used_s) as int),
                ) {
                    None => None,
                    Some((parity, used_p)) => if address.len() == 20 && r.len() == 32 && s.len()
                        == 32 && parity_parsed(parity).is_some() {
                        Some(
                            (
                                address,
                                SignatureView { r, s, y_parity: parity_parsed(parity).unwrap() },
                            ),
                        )
                    } else {
                        None
                    },
                },
            },
        },
    }
}

/// An address and a signature that were written are read back, whatever follows them.
pub proof fn lemma_tail_round_trip(address: Seq<u8>, signature: SignatureView, rest: Seq<u8>)
    requires
        address.len() == 20,
        signature.r.len() == 32,
        signature.s.len() == 32,
    ensures
        tail_parsed(tail_layout(address, signature) + rest) == Some((address, signature)),
{
    let a = length_prefixed(address);
    let r = length_prefixed(signature.r);
    let s = length_prefixed(signature.s);
    let parity = parity_bytes(signature.y_parity);
    let p = length_prefixed(parity);
    let bytes = tail_layout(address, signature) + rest;
    assert(bytes =~= a + (r + s + p + rest));
    lemma_bytes_round_trip(address, r + s + p + rest);
    assert(bytes.skip(a.len() as int) =~= r + (s + p + rest));
    lemma_bytes_round_trip(signature.r, s + p + rest);
    assert(bytes.skip((a.len() + r.len()) as int) =~= s + (p + rest));
    lemma_bytes_round_trip(signature.s, p + rest);
    assert(bytes.skip((a.len() + r.len() + s.len()) as int) =~= p + rest);
    lemma_bytes_round_trip(parity, rest);
    assert(parity_parsed(parity) == Some(signature.y_parity)) by {
        reveal_with_fuel(be_value, 9);
    }
}

/// Writes an address with `bincode::serde::encode_to_vec` and the standard configuration.
///
/// Trusted: whether the call succeeds depends on the address alone, and what it writes is
/// the address as a byte string with its length.
#[verifier::external_body]
fn encode_address(address: &Address) -> (bytes: Option<Vec<u8>>)
    ensures
        match bytes {
            Some(b) => bincode_address(address@) == Some(b@) && b@ == length_prefixed(address@),
            None => bincode_address(address@).is_none(),
        },
{
    let address = alloy_primitives::Address::new(address.bytes);
    bincode::serde::encode_to_vec(address, bincode::config::standard()).ok()
}

/// Writes `(address, signature)` with `bincode::serde::encode_to_vec` and the standard
/// configuration.
///
/// Trusted: whether the call succeeds depends on the two alone, and what it writes is the
/// address and the signature's `r`, `s` and parity, each as a byte string with its length.
#[verifier::external_body]
fn encode_tail(address: &Address, signature: &Signature) -> (bytes: Option<Vec<u8>>)
    ensures
        match bytes {
            Some(b) => bincode_tail(
                address@,
                signature@.r,
                signature@.s,
                signature@.y_parity,
            ) == Some(b@) && b@ == tail_layout(address@, signature@),
            None => bincode_tail(
                address@,
                signature@.r,
                signature@.s,
                signature@.y_parity,
            ).is_none(),
        },
{
    let address = alloy_primitives::Address::new(address.bytes);
    let r = alloy_primitives::U256::from_be_bytes(signature.r);
    let s = alloy_primitives::U256::from_be_bytes(signature.s);
    let signature = alloy_primitives::Signature::new(r, s, signature.y_parity);
    bincode::serde::encode_to_vec((address, signature), bincode::config::standard()).ok()
}

/// Reads `(address, signature)` with `bincode::serde::decode_from_slice` and the standard
/// configuration; bytes that follow the two are not looked at.
///
/// Trusted: the call reads four byte strings with their lengths, accepts them exactly if
/// they have 20, 32, 32 and 8 bytes and the last is the number zero or one, and returns the
/// first as the address and the others as the signature's `r`, `s` and parity.
#[verifier::external_body]
fn decode_tail(bytes: &[u8]) -> (tail: Option<(Address, Signature)>)
    ensures
        match tail {
            Some((address, signature)) => tail_parsed(bytes@) == Some((address@, signature@)),
            None => tail_parsed(bytes@).is_none(),
        },
{
    let parsed: Result<
        ((alloy_primitives::Address, alloy_primitives::Signature), usize),
        bincode::error::DecodeError,
    > = bincode::serde::decode_from_slice(bytes, bincode::config::standard());
    let ((address, signature), _) = parsed.ok()?;
    let signature = Signature {
        r: signature.r().to_be_bytes::<32>(),
        s: signature.s().to_be_bytes::<32>(),
        y_parity: signature.v(),
    };
    Some((Address { bytes: address.0.0 }, signature))
}

/// The bytes of a message on the wire, or the error for which it cannot be written: the
/// bytes of its payload, then its address and signature as bincode writes them.
pub open spec fn envelope<D: Payload>(message: SignedMessageView<D::V>) -> Result<
    Seq<u8>,
    ChannelError,
> {
    if bincode_tail(
        message.address,
        message.signature.r,
        message.signature.s,
        message.signature.y_parity,
    ).is_some() {
        Ok(D::encoding(message.data) + tail_layout(message.address, message.signature))
    } else {
        Err(ChannelError::Encode)
    }
}

/// The message at the front of a byte string: first its payload, then its address and
/// signature.
pub open spec fn envelope_parsed<D: Payload>(bytes: Seq<u8>) -> Option<SignedMessageView<D::V>> {
    match D::parsing(bytes) {
        None => None,
        Some((data, used)) => match tail_parsed(bytes.skip(used as int)) {
            None => None,
            Some((address, signature)) => Some(SignedMessageView { data, address, signature }),
        },
    }
}

/// A message that was written is read back, provided that its payload is: a payload that a
/// reader takes from the front of its own bytes, whatever follows them.
pub proof fn lemma_envelope_round_trip<D: Payload>(message: SignedMessageView<D::V>)
    requires
        message.address.len() == 20,
        message.signature.r.len() == 32,
        message.signature.s.len() == 32,
        D::parsing(
            D::encoding(message.data) + tail_layout(message.address, message.signature),
        ) == Some((message.data, D::encoding(message.data).len())),
    ensures
        envelope_parsed::<D>(
            D::encoding(message.data) + tail_layout(message.address, message.signature),
        ) == Some(message),
{
    let head = D::encoding(message.data);
    let tail = tail_layout(message.address, message.signature);
    assert((head + tail).skip(head.len() as int) =~= tail);
    lemma_tail_round_trip(message.address, message.signature, Seq::empty());
    assert(tail + Seq::<u8>::empty() =~= tail);
}

/// Puts messages into bytes and back.
pub struct BincodeHelper;

impl BincodeHelper {
    /// The bytes of a message as they travel.
    pub fn encode<D: Payload>(message: &SignedMessage<D>) -> (res: Result<Vec<u8>, ChannelError>)
        ensures
            match res {
                Ok(bytes) => envelope::<D>(message@) == Ok::<Seq<u8>, ChannelError>(bytes@),
                Err(e) => envelope::<D>(message@) == Err::<Seq<u8>, ChannelError>(e),
            },
    {
        match encode_tail(&message.address, &message.signature) {
            Some(tail) => {
                let mut bytes: Vec<u8> = Vec::new();
                message.data.encode(&mut bytes);
                append(&mut bytes, tail.as_slice());
                assert(bytes@ =~= D::encoding(message@.data) + tail@);
                Ok(bytes)
            },
            None => Err(ChannelError::Encode),
        }
    }

    /// The message that a byte string holds at its front.
    pub fn decode<D: Payload>(bytes: &[u8]) -> (res: Result<SignedMessage<D>, ChannelError>)
        ensures
            match res {
                Ok(message) => envelope_parsed::<D>(bytes@) == Some(message@),
                Err(e) => envelope_parsed::<D>(bytes@).is_none() && e == ChannelError::Decode,
            },
    {
        match D::parse(bytes) {
            None => Err(ChannelError::Decode),
            Some((data, used)) => {
                let rest = slice_subrange(bytes, used, bytes.len());
                assert(rest@ =~= bytes@.skip(used as int));
                match decode_tail(rest) {
                    None => Err(ChannelError::Decode),
                    Some((address, signature)) => Ok(SignedMessage { data, address, signature }),
                }
            },
        }
    }
}

/// What is hashed and signed: the bytes of the payload, then the address as bincode writes
/// it.
pub open spec fn signing_input(payload: Seq<u8>, address: Seq<u8>) -> Option<Seq<u8>> {
    if bincode_address(address).is_some() {
        Some(payload + length_prefixed(address))
    } else {
        None
    }
}

/// The digest that a signature over a payload and an address is made of: the Keccak-256
/// digest of the signing input.
pub open spec fn signing_digest(payload: Seq<u8>, address: Seq<u8>) -> Option<Seq<u8>> {
    match signing_input(payload, address) {
        Some(bytes) => Some(keccak256_digest(bytes)),
        None => None,
    }
}

/// What the check of a recovered signer against the address in a message yields.
pub open spec fn approval(signer: Option<Seq<u8>>, claimed: Seq<u8>) -> Result<(), ChannelError> {
    match signer {
        None => Err(ChannelError::Recover),
        Some(address) => if address == claimed {
            Ok(())
        } else {
            Err(ChannelError::SignerNotApproved)
        },
    }
}

/// What `verify` yields for a message.
pub open spec fn verified<D: Payload>(message: SignedMessageView<D::V>) -> Result<
    (),
    ChannelError,
> {
    match signing_digest(D::encoding(message.data), message.address) {
        None => Err(ChannelError::Encode),
        Some(digest) => approval(
            recovered_signer(
                message.signature.r,
                message.signature.s,
                message.signature.y_parity,
                digest,
            ),
            message.address,
        ),
    }
}

/// Holds the signer recovered from a signature against the address that a message claims:
/// `Ok` exactly if a signer was recovered and is that address.
pub fn approve(signer: Option<Address>, claimed: &Address) -> (res: Result<(), ChannelError>)
    ensures
        res == approval(
            match signer {
                Some(a) => Some(a@),
                None => None,
            },
            claimed@,
        ),
{
    match signer {
        None => Err(ChannelError::Recover),
        Some(address) => {
            if address.is_equal(claimed) {
                Ok(())
            } else {
                Err(ChannelError::SignerNotApproved)
            }
        },
    }
}

impl<D: Payload> SignedMessage<D> {
    /// A message that is not signed yet: it carries the placeholder signature.
    pub fn new(data: D, address: Address) -> (message: Self)
        ensures
            message.data == data,
            message.address == address,
            message.signature@.r == Seq::new(32, |i: int| 0u8),
            message.signature@.s == Seq::new(32, |i: int| 0u8),
            !message.signature@.y_parity,
    {
        SignedMessage { data, address, signature: Signature::empty() }
    }

    /// The bytes that are hashed and signed: payload and address, without the signature.
    pub fn encoded_data(&self) -> (res: Result<Vec<u8>, ChannelError>)
        ensures
            match res {
                Ok(bytes) => signing_input(D::encoding(self@.data), self@.address) == Some(bytes@),
                Err(e) => signing_input(D::encoding(self@.data), self@.address).is_none() && e
                    == ChannelError::Encode,
            },
    {
        match encode_address(&self.address) {
            Some(address) => {
                let mut bytes: Vec<u8> = Vec::new();
                self.data.encode(&mut bytes);
                append(&mut bytes, address.as_slice());
                assert(bytes@ =~= D::encoding(self@.data) + address@);
                Ok(bytes)
            },
            None => Err(ChannelError::Encode),
        }
    }

    /// The address that the message claims to come from.
    pub fn address(&self) -> (address: Address)
        ensures
            address == self.address,
    {
        self.address
    }

    /// The signature that the message carries.
    pub fn signature(&self) -> (signature: Signature)
        ensures
            signature == self.signature,
    {
        self.signature
    }

    /// The digest that this message's signature is made of.
    pub fn digest(&self) -> (res: Result<B256, ChannelError>)
        ensures
            match res {
                Ok(digest) => signing_digest(D::encoding(self@.data), self@.address) == Some(
                    digest@,
                ),
                Err(e) => signing_digest(D::encoding(self@.data), self@.address).is_none() && e
                    == ChannelError::Encode,
            },
    {
        match self.encoded_data() {
            Ok(bytes) => Ok(keccak256(bytes.as_slice())),
            Err(e) => Err(e),
        }
    }

    /// Checks the signature: `Ok` exactly if the signer recovered from the signature and the
    /// digest of payload and address is the address in the message.
    pub fn verify(&self) -> (res: Result<(), ChannelError>)
        ensures
            res == verified::<D>(self@),
    {
        match self.digest() {
            Err(e) => Err(e),
            Ok(digest) => {
                let signer = recover_prehash(&self.signature, &digest);
                approve(signer, &self.address)
            },
        }
    }

    /// What `sign` leaves in the message's signature, or the error it returns.
    pub open spec fn signed_by(self, signer: Keypair) -> Result<
        (Seq<u8>, Seq<u8>, bool),
        ChannelError,
    > {
        match signing_digest(D::encoding(self@.data), self@.address) {
            None => Err(ChannelError::Encode),
            Some(digest) => match signer.signature_over_digest(digest) {
                Some(parts) => Ok(parts),
                None => Err(ChannelError::Sign),
            },
        }
    }

    /// Signs payload and address with `signer` and puts the signature into the message. On
    /// an error the message is left as it was.
    pub fn sign(&mut self, signer: &Keypair) -> (res: Result<(), ChannelError>)
        ensures
            final(self).data == old(self).data,
            final(self).address == old(self).address,
            match res {
                Ok(()) => old(self).signed_by(*signer).is_ok() && signature_is(
                    final(self).signature,
                    old(self).signed_by(*signer).unwrap(),
                ),
                Err(e) => old(self).signed_by(*signer) == Err::<
                    (Seq<u8>, Seq<u8>, bool),
                    ChannelError,
                >(e) && final(self).signature == old(self).signature,
            },
            res.is_ok() ==> verified::<D>(final(self)@) == approval(
                Some(signer.spec_address()@),
                old(self).address@,
            ),
    {
        match self.digest() {
            Err(e) => Err(e),
            Ok(digest) => {
                match signer.sign_hash(&digest) {
                    Some(signature) => {
                        self.signature = signature;
                        Ok(())
                    },
                    None => Err(ChannelError::Sign),
                }
            },
        }
    }
}

/// The sending end of a channel.
pub trait Sender: Sized {
    type Message;

    /// What one call of `send` may do: how the channel after the call and the answer relate
    /// to the channel before it and the message handed over. A channel that says nothing of
    /// itself allows everything.
    open spec fn sends(
        self,
        message: Self::Message,
        after: Self,
        res: Result<(), ChannelError>,
    ) -> bool {
        true
    }

    /// Hands `message` to the channel.
    fn send(&mut self, message: Self::Message) -> (res: Result<(), ChannelError>)
        ensures
            old(self).sends(message, *final(self), res),
    ;
}

/// The receiving end of a channel.
pub trait Receiver: Sized {
    type Message;

    /// What one call of `try_receive` may do: how the channel after the call and the answer
    /// relate to the channel before it. A channel that says nothing of itself allows
    /// everything.
    open spec fn receives(
        self,
        after: Self,
        res: Result<Option<Self::Message>, ChannelError>,
    ) -> bool {
        true
    }

    /// Takes the next message if one is waiting; `Ok(None)` if none is.
    fn try_receive(&mut self) -> (res: Result<Option<Self::Message>, ChannelError>)
        ensures
            old(self).receives(*final(self), res),
    ;
}

/// A message whose origin can be checked.
pub trait SignableMessage: Sized {
    /// What `verify` yields for the message.
    spec fn checked(&self) -> Result<(), ChannelError>;

    /// Checks that the message comes from the address that it claims.
    fn verify(&self) -> (res: Result<(), ChannelError>)
        ensures
            res == self.checked(),
    ;
}

impl<D: Payload> SignableMessage for SignedMessage<D> {
    open spec fn checked(&self) -> Result<(), ChannelError> {
        verified::<D>(self@)
    }

    fn verify(&self) -> (res: Result<(), ChannelError>) {
        SignedMessage::verify(self)
    }
}

/// A message as the gossip network delivers it: the bytes of a signed event.
#[derive(Debug, Clone, PartialEq, Eq)]
pub struct GossipMessage {
    pub data: Vec<u8>,
}

/// What checking the bytes of a signed event yields: they must hold a message, and its
/// signature must verify.
pub open spec fn verified_bytes(bytes: Seq<u8>) -> Result<(), ChannelError> {
    match envelope_parsed::<GameEventMessage>(bytes) {
        None => Err(ChannelError::Decode),
        Some(message) => verified::<GameEventMessage>(message),
    }
}

impl SignableMessage for GossipMessage {
    open spec fn checked(&self) -> Result<(), ChannelError> {
        verified_bytes(self.data@)
    }

    fn verify(&self) -> (res: Result<(), ChannelError>) {
        match BincodeHelper::decode::<GameEventMessage>(self.data.as_slice()) {
            Err(e) => Err(e),
            Ok(message) => SignedMessage::verify(&message),
        }
    }
}

/// What a receiver that checks origins hands on for what the channel gave it: an error and
/// an empty answer as they are, a message only if its check succeeds.
pub open spec fn screened<M: SignableMessage>(raw: Result<Option<M>, ChannelError>) -> Result<
    Option<M>,
    ChannelError,
> {
    match raw {
        Ok(Some(message)) => match message.checked() {
            Ok(()) => raw,
            Err(e) => Err(e),
        },
        _ => raw,
    }
}

/// Checks what a channel gave: a message is handed on only if its check succeeds, and is
/// turned into the error of the check if not.
pub fn screen<M: SignableMessage>(raw: Result<Option<M>, ChannelError>) -> (res: Result<
    Option<M>,
    ChannelError,
>)
    ensures
        res == screened(raw),
{
    match raw {
        Ok(Some(message)) => {
            match message.verify() {
                Ok(()) => Ok(Some(message)),
                Err(e) => Err(e),
            }
        },
        Ok(None) => Ok(None),
        Err(e) => Err(e),
    }
}

/// A sender that signs each message before it sends it.
pub trait SignedSender<D: Payload>: Sender<Message = SignedMessage<D>> {
    /// Signs `message` with `signer` and sends it. If signing fails, nothing is sent and the
    /// channel is left as it was; else the signed message is what `send` is called with, and
    /// the answer is that of `send`.
    fn send_signed(&mut self, message: SignedMessage<D>, signer: &Keypair) -> (res: Result<
        (),
        ChannelError,
    >)
        ensures
            match message.signed_by(*signer) {
                Err(e) => res == Err::<(), ChannelError>(e) && *final(self) == *old(self),
                Ok(parts) => exists|signed: SignedMessage<D>|
                    {
                        &&& signed.data == message.data
                        &&& signed.address == message.address
                        &&& signature_is(signed.signature, parts)
                        &&& #[trigger] old(self).sends(signed, *final(self), res)
                    },
            },
    {
        let mut message = message;
        match message.sign(signer) {
            Err(e) => Err(e),
            Ok(()) => {
                let ghost signed = message;
                let res = self.send(message);
                assert(old(self).sends(signed, *self, res));
                res
            },
        }
    }
}

impl<D: Payload, T: Sender<Message = SignedMessage<D>>> SignedSender<D> for T {

}

/// A receiver that hands on only messages whose origin has been checked.
pub trait SignedReceiver: Receiver where Self::Message: SignableMessage {
    /// Takes the next message from the channel and checks it. The answer is what `screen`
    /// makes of what the channel gave.
    fn receive_signed(&mut self) -> (res: Result<Option<Self::Message>, ChannelError>)
        ensures
            exists|raw: Result<Option<Self::Message>, ChannelError>|
                #[trigger] old(self).receives(*final(self), raw) && res == screened(raw),
    {
        let raw = self.try_receive();
        assert(old(self).receives(*self, raw));
        screen(raw)
    }
}

impl<T: Receiver> SignedReceiver for T where T::Message: SignableMessage {

}

/// A message that carries the signature which `signer` makes over the message's payload and
/// address verifies exactly if the address in the message is the signer's own: signed for
/// that address it is accepted, signed for any other it is refused as not approved.
pub proof fn lemma_signed_message_verifies<D: Payload>(message: SignedMessage<D>, signer: Keypair)
    ensures
        message.signed_by(signer).is_ok() && signature_is(
            message.signature,
            message.signed_by(signer).unwrap(),
        ) ==> verified::<D>(message@) == if message.address == signer.spec_address() {
            Ok::<(), ChannelError>(())
        } else {
            Err(ChannelError::SignerNotApproved)
        },
{
    lemma_address_by_bytes(message.address, signer.spec_address());
}

} // verus!
