//! What a node decides in each turn of its loop: how an event of its own goes out, what
//! becomes of bytes that arrive, and what a step of the search does to the replica.

use crate::channels::{
    BincodeHelper, ChannelError, SignedMessage, SignedMessageView, envelope, envelope_parsed,
    lemma_envelope_round_trip, signing_digest, tail_layout, verified,
};
use crate::events::{
    EventView, GameEvent, GameEventMessage, copy_event, lemma_payload_round_trip, payload,
    well_sized,
};
use crate::mined::{MinerData, claim_entries};
use crate::miner::{Miner, passes_difficulty};
use crate::movements::Position;
use crate::primitives::{Address, SignatureView, U256, u256_modulus};
use crate::signer::Keypair;
use crate::world::{CLAIM_THRESHOLD, World, WorldView, applied, shown_name};
use vstd::prelude::*;

verus! {

/// The bytes that go out for an event signed by `signer`, or the error that keeps it from
/// going out: the event is put into a message under the signer's address, the message is
/// signed and then written as bytes.
pub open spec fn sealed(event: EventView, signer: Keypair) -> Result<Seq<u8>, ChannelError> {
    let address = signer.spec_address()@;
    match signing_digest(payload(event), address) {
        None => Err(ChannelError::Encode),
        Some(digest) => match signer.signature_over_digest(digest) {
            None => Err(ChannelError::Sign),
            Some(parts) => envelope::<GameEventMessage>(
                SignedMessageView {
                    data: event,
                    address,
                    signature: SignatureView { r: parts.0, s: parts.1, y_parity: parts.2 },
                },
            ),
        },
    }
}

/// The author and the event that arriving bytes hold, or the error for which they are
/// dropped: the bytes must start with a message, and the message's signature must verify.
pub open spec fn unsealed(bytes: Seq<u8>) -> Result<(Seq<u8>, EventView), ChannelError> {
    match envelope_parsed::<GameEventMessage>(bytes) {
        None => Err(ChannelError::Decode),
        Some(message) => match verified::<GameEventMessage>(message) {
            Err(e) => Err(e),
            Ok(()) => Ok((message.address, message.data)),
        },
    }
}

/// What a node seals, every node unseals as the same event of the same author: the bytes
/// that go out for an event start with a message whose signature verifies, and that message
/// holds the event under the signer's address.
pub proof fn lemma_sealed_unseals(event: EventView, signer: Keypair)
    requires
        well_sized(event),
    ensures
        match sealed(event, signer) {
            Ok(bytes) => unsealed(bytes) == Ok::<(Seq<u8>, EventView), ChannelError>(
                (signer.spec_address()@, event),
            ),
            Err(_) => true,
        },
{
    let address = signer.spec_address()@;
    if sealed(event, signer).is_ok() {
        let digest = signing_digest(payload(event), address).unwrap();
        let parts = signer.signature_over_digest(digest).unwrap();
        let signature = SignatureView { r: parts.0, s: parts.1, y_parity: parts.2 };
        let message = SignedMessageView { data: event, address, signature };
        lemma_payload_round_trip(event, tail_layout(address, signature));
        lemma_envelope_round_trip::<GameEventMessage>(message);
    }
}

/// Signs an event of the local participant and writes it as the bytes to publish.
pub fn seal(event: &GameEventMessage, signer: &Keypair) -> (res: Result<Vec<u8>, ChannelError>)
    ensures
        match res {
            Ok(bytes) => sealed(event@, *signer) == Ok::<Seq<u8>, ChannelError>(bytes@),
            Err(e) => sealed(event@, *signer) == Err::<Seq<u8>, ChannelError>(e),
        },
{
    let mut message = SignedMessage::new(copy_event(event), signer.address());
    match message.sign(signer) {
        Err(e) => Err(e),
        Ok(()) => BincodeHelper::encode(&message),
    }
}

/// Reads bytes that arrived from a peer: the author's address and the event, if the bytes
/// start with a message whose signature verifies.
pub fn unseal(bytes: &[u8]) -> (res: Result<(Address, GameEventMessage), ChannelError>)
    ensures
        match res {
            Ok((author, event)) => unsealed(bytes@) == Ok::<(Seq<u8>, EventView), ChannelError>(
                (author@, event@),
            ),
            Err(e) => unsealed(bytes@) == Err::<(Seq<u8>, EventView), ChannelError>(e),
        },
{
    match BincodeHelper::decode::<GameEventMessage>(bytes) {
        Err(e) => Err(e),
        Ok(message) => {
            match message.verify() {
                Err(e) => Err(e),
                Ok(()) => Ok((message.address, message.data)),
            }
        },
    }
}

/// Whether applying `event` reads the name resolved for its author: only a chat message
/// does.
pub fn needs_name(event: &GameEventMessage) -> (needed: bool)
    ensures
        needed == (*event is ChatMessage),
{
    match event {
        GameEvent::ChatMessage(_) => true,
        _ => false,
    }
}

impl World {
    /// Applies an event of the node's own participant.
    pub fn apply_local(&mut self, event: &GameEventMessage, resolved_name: Option<String>)
        ensures
            final(self)@ == applied(
                old(self)@,
                old(self)@.identifier,
                *event,
                shown_name(old(self)@.identifier, resolved_name),
            ),
    {
        let identifier = self.identifier();
        self.update(&identifier, event, resolved_name);
    }

    /// One step of the search on behalf of the node: runs `miner` once and, if it found a
    /// pair, applies the find to the replica under the node's own identity and hands the
    /// event back for sending. Without a find the replica stays as it was.
    pub fn mine(&mut self, miner: &mut Miner) -> (event: Option<GameEventMessage>)
        ensures
            final(miner).salt().value() == (old(miner).salt().value() + 1)
                % u256_modulus(),
            final(miner).factory() == old(miner).factory(),
            final(miner).address() == old(miner).address(),
            final(miner).init_hash() == old(miner).init_hash(),
            final(miner).difficulty() == old(miner).difficulty(),
            match event {
                Some(e) => {
                    &&& passes_difficulty(
                        final(miner).candidate(final(miner).salt(), final(miner).init_hash()),
                        final(miner).difficulty()@,
                    )
                    &&& e == GameEvent::<(Address, U256), Position>::PlayerFound(
                        (final(miner).address(), final(miner).salt()),
                    )
                    &&& final(self)@ == applied(
                        old(self)@,
                        old(self)@.identifier,
                        e,
                        Seq::<char>::empty(),
                    )
                },
                None => {
                    &&& !passes_difficulty(
                        final(miner).candidate(final(miner).salt(), final(miner).init_hash()),
                        final(miner).difficulty()@,
                    )
                    &&& *final(self) == *old(self)
                },
            },
    {
        match miner.run() {
            Some(found) => {
                let event = GameEvent::PlayerFound(found);
                self.apply_local(&event, None);
                Some(event)
            },
            None => None,
        }
    }
}

/// What a node takes into one turn of its loop: at most one event of its own participant
/// and at most one event that arrived from a peer and was unsealed, each with the name that
/// the name service gave for its author.
pub struct TurnInput {
    pub local: Option<(GameEventMessage, Option<String>)>,
    pub remote: Option<(Address, GameEventMessage, Option<String>)>,
}

/// What comes out of one turn: the bytes to publish for the node's own event and for a find
/// of this turn, each if there is one and with the error where sealing failed, and the
/// batch to claim if the threshold was reached.
pub struct TurnOutput {
    pub local: Option<Result<Vec<u8>, ChannelError>>,
    pub mined: Option<Result<Vec<u8>, ChannelError>>,
    pub claim: Option<Vec<MinerData>>,
}

/// The replica after the node's own event of a turn, if there is one.
pub open spec fn after_local(
    world: WorldView,
    local: Option<(GameEventMessage, Option<String>)>,
) -> WorldView {
    match local {
        Some((event, name)) => applied(
            world,
            world.identifier,
            event,
            shown_name(world.identifier, name),
        ),
        None => world,
    }
}

/// The replica after the peer's event of a turn, if there is one.
pub open spec fn after_remote(
    world: WorldView,
    remote: Option<(Address, GameEventMessage, Option<String>)>,
) -> WorldView {
    match remote {
        Some((author, event, name)) => applied(world, author, event, shown_name(author, name)),
        None => world,
    }
}

/// Whether the miner, as a step of the search has left it, has found a pair.
pub open spec fn has_found(miner: Miner) -> bool {
    passes_difficulty(miner.candidate(miner.salt(), miner.init_hash()), miner.difficulty()@)
}

/// The find of a miner that has found a pair.
pub open spec fn find_of(miner: Miner) -> GameEventMessage {
    GameEvent::PlayerFound((miner.address(), miner.salt()))
}

/// The replica after the step of the search of a turn.
pub open spec fn after_search(world: WorldView, miner: Miner) -> WorldView {
    if has_found(miner) {
        applied(world, world.identifier, find_of(miner), Seq::<char>::empty())
    } else {
        world
    }
}

/// The replica after the claim of a turn: with enough mined pairs, none is left.
pub open spec fn after_claim(world: WorldView) -> WorldView {
    if world.mined.len() >= CLAIM_THRESHOLD {
        WorldView { mined: Set::<(Address, U256)>::empty(), ..world }
    } else {
        world
    }
}

/// What is to be published for an event, as plain values.
pub open spec fn published(
    out: Option<Result<Vec<u8>, ChannelError>>,
    event: Option<EventView>,
    signer: Keypair,
) -> bool {
    match (out, event) {
        (None, None) => true,
        (Some(Ok(bytes)), Some(e)) => sealed(e, signer) == Ok::<Seq<u8>, ChannelError>(bytes@),
        (Some(Err(error)), Some(e)) => sealed(e, signer) == Err::<Seq<u8>, ChannelError>(error),
        _ => false,
    }
}

impl World {
    /// One turn of a node's loop, in the order in which the loop goes: the node's own event
    /// is applied and sealed for publishing; the event of a peer is applied; the search takes
    /// one step, and a find is applied and sealed for publishing; and once the mined pairs
    /// have reached the threshold, all of them are taken out as the batch to claim.
    pub fn turn(&mut self, miner: &mut Miner, signer: &Keypair, input: TurnInput) -> (out:
        TurnOutput)
        ensures
            final(miner).salt().value() == (old(miner).salt().value() + 1) % u256_modulus(),
            final(miner).factory() == old(miner).factory(),
            final(miner).address() == old(miner).address(),
            final(miner).init_hash() == old(miner).init_hash(),
            final(miner).difficulty() == old(miner).difficulty(),
            final(self)@ == after_claim(
                after_search(
                    after_remote(after_local(old(self)@, input.local), input.remote),
                    *final(miner),
                ),
            ),
            published(
                out.local,
                match input.local {
                    Some((event, _)) => Some(event@),
                    None => None,
                },
                *signer,
            ),
            published(
                out.mined,
                if has_found(*final(miner)) {
                    Some(find_of(*final(miner))@)
                } else {
                    None
                },
                *signer,
            ),
            ({
                let before = after_search(
                    after_remote(after_local(old(self)@, input.local), input.remote),
                    *final(miner),
                );
                match out.claim {
                    Some(batch) => {
                        &&& before.mined.len() >= CLAIM_THRESHOLD
                        &&& batch@.len() == before.mined.len()
                        &&& exists|order: Seq<(Address, U256)>|
                            {
                                &&& order.no_duplicates()
                                &&& order.to_set() == before.mined
                                &&& #[trigger] claim_entries(order) == batch@
                            }
                    },
                    None => before.mined.len() < CLAIM_THRESHOLD,
                }
            }),
    {
        let local = match input.local {
            Some((event, name)) => {
                self.apply_local(&event, name);
                Some(seal(&event, signer))
            },
            None => None,
        };
        match input.remote {
            Some((author, event, name)) => {
                self.update(&author, &event, name);
            },
            None => {},
        }
        let mined = match self.mine(miner) {
            Some(event) => Some(seal(&event, signer)),
            None => None,
        };
        let ghost order = self.mined_order();
        let claim = self.claim_batch();
        proof {
            if claim.is_some() {
                assert(claim_entries(order) == claim.unwrap()@);
            }
        }
        TurnOutput { local, mined, claim }
    }
}

} // verus!
