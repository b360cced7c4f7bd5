//! The events of the game and their bytes on the wire.

use crate::movements::Position;
use crate::primitives::{Address, U256};
use crate::payload::Payload;
use crate::wire::{
    bytes_parsed, i32_parsed, lemma_bytes_round_trip, lemma_i32_round_trip,
    lemma_varint_parsed_bound, lemma_varint_round_trip, length_prefixed, read_bytes, read_i32,
    read_varint, varint, varint_parsed, write_bytes, write_i32, write_varint, zigzag,
};
use vstd::prelude::*;
use vstd::slice::slice_subrange;
use vstd::utf8::{
    decode_utf8, encode_utf8, encode_utf8_decode_utf8, encode_utf8_valid_utf8, valid_utf8,
};

verus! {

/// What can happen in the world: a participant leaves, moves by a displacement, finds
/// something, or says something.
#[derive(Debug, Clone, PartialEq, Eq)]
pub enum GameEvent<F, P> {
    Quit,
    PlayerMovement(P),
    PlayerFound(F),
    ChatMessage(String),
}

/// The events that nodes exchange: a find is a miner's address with the nonce that it mined.
pub type GameEventMessage = GameEvent<(Address, U256), Position>;

/// An event together with the address of its author and a signature.
#[derive(Debug, Clone, PartialEq, Eq)]
pub struct SignedEvent<A, S, F, P> {
    pub event: GameEvent<F, P>,
    pub address: A,
    pub signature: S,
}

impl<A, S, F, P> SignedEvent<A, S, F, P> {
    /// Puts an event, an address and a signature together.
    pub fn new(event: GameEvent<F, P>, address: A, signature: S) -> (res: Self)
        ensures
            res.event == event,
            res.address == address,
            res.signature == signature,
    {
        SignedEvent { event, address, signature }
    }
}

/// An exchanged event as plain values: addresses and nonces as their bytes, text as its
/// characters.
pub enum EventView {
    Quit,
    PlayerMovement(Position),
    PlayerFound(Seq<u8>, Seq<u8>),
    ChatMessage(Seq<char>),
}

impl View for GameEvent<(Address, U256), Position> {
    type V = EventView;

    open spec fn view(&self) -> EventView {
        match *self {
            GameEvent::Quit => EventView::Quit,
            GameEvent::PlayerMovement(delta) => EventView::PlayerMovement(delta),
            GameEvent::PlayerFound(found) => EventView::PlayerFound(found.0@, found.1@),
            GameEvent::ChatMessage(text) => EventView::ChatMessage(text@),
        }
    }
}

/// Whether an event can be written: its address and nonce have the lengths of their types,
/// and the length of its text can be written.
pub open spec fn well_sized(event: EventView) -> bool {
    match event {
        EventView::PlayerFound(address, nonce) => address.len() == 20 && nonce.len() == 32,
        EventView::ChatMessage(text) => encode_utf8(text).len() < 0x1_0000_0000_0000_0000,
        _ => true,
    }
}

/// The bytes of an event. First comes the number of its kind. A movement follows with its
/// two coordinates as signed integers; a find with the address and the nonce, each as a
/// byte string with its length; a chat message with its text in UTF-8, as a byte string
/// with its length. A quit has no more bytes. Integers are in the variable-length
/// encoding.
pub open spec fn payload(event: EventView) -> Seq<u8> {
    match event {
        EventView::Quit => varint(0),
        EventView::PlayerMovement(delta) => varint(1) + varint(zigzag(delta.x)) + varint(
            zigzag(delta.y),
        ),
        EventView::PlayerFound(address, nonce) => varint(2) + length_prefixed(address)
            + length_prefixed(nonce),
        EventView::ChatMessage(text) => varint(3) + length_prefixed(encode_utf8(text)),
    }
}

/// The movement at the front of `bytes` with the number of bytes that it takes.
pub open spec fn movement_parsed(bytes: Seq<u8>) -> Option<(EventView, nat)> {
    match i32_parsed(bytes) {
        None => None,
        Some((x, used_x)) => match i32_parsed(bytes.skip(used_x as int)) {
            None => None,
            Some((y, used_y)) => Some(
                (EventView::PlayerMovement(Position { x, y }), used_x + used_y),
            ),
        },
    }
}

/// The find at the front of `bytes` with the number of bytes that it takes. The address
/// must have 20 bytes and the nonce 32.
pub open spec fn find_parsed(bytes: Seq<u8>) -> Option<(EventView, nat)> {
    match bytes_parsed(bytes) {
        None => None,
        Some((address, used_a)) => if address.len() != 20 {
            None
        } else {
            match bytes_parsed(bytes.skip(used_a as int)) {
                None => None,
                Some((nonce, used_n)) => if nonce.len() != 32 {
                    None
                } else {
                    Some((EventView::PlayerFound(address, nonce), used_a + used_n))
                },
            }
        },
    }
}

/// The chat message at the front of `bytes` with the number of bytes that it takes. The
/// text must be valid UTF-8.
pub open spec fn chat_parsed(bytes: Seq<u8>) -> Option<(EventView, nat)> {
    match bytes_parsed(bytes) {
        None => None,
        Some((text, used)) => if valid_utf8(text) {
            Some((EventView::ChatMessage(decode_utf8(text)), used))
        } else {
            None
        },
    }
}

/// The event at the front of `bytes` with the number of bytes that it takes; `None` where
/// the bytes do not start with an event.
pub open spec fn parsed(bytes: Seq<u8>) -> Option<(EventView, nat)> {
    match varint_parsed(bytes, false) {
        None => None,
        Some((kind, used)) => {
            let rest = bytes.skip(used as int);
            let body = if kind == 0 {
                Some((EventView::Quit, 0nat))
            } else if kind == 1 {
                movement_parsed(rest)
            } else if kind == 2 {
                find_parsed(rest)
            } else if kind == 3 {
                chat_parsed(rest)
            } else {
                None
            };
            match body {
                Some((event, more)) => Some((event, used + more)),
                None => None,
            }
        },
    }
}

/// A movement that was written is read back.
proof fn lemma_movement_round_trip(delta: Position, rest: Seq<u8>)
    ensures
        movement_parsed(varint(zigzag(delta.x)) + varint(zigzag(delta.y)) + rest) == Some(
            (
                EventView::PlayerMovement(delta),
                varint(zigzag(delta.x)).len() + varint(zigzag(delta.y)).len(),
            ),
        ),
{
    let x = varint(zigzag(delta.x));
    let y = varint(zigzag(delta.y));
    let body = x + y + rest;
    assert(body =~= x + (y + rest));
    lemma_i32_round_trip(delta.x, y + rest);
    assert(body.skip(x.len() as int) =~= y + rest);
    lemma_i32_round_trip(delta.y, rest);
}

/// A find that was written is read back.
proof fn lemma_find_round_trip(address: Seq<u8>, nonce: Seq<u8>, rest: Seq<u8>)
    requires
        address.len() == 20,
        nonce.len() == 32,
    ensures
        find_parsed(length_prefixed(address) + length_prefixed(nonce) + rest) == Some(
            (
                EventView::PlayerFound(address, nonce),
                length_prefixed(address).len() + length_prefixed(nonce).len(),
            ),
        ),
{
    let a = length_prefixed(address);
    let n = length_prefixed(nonce);
    let body = a + n + rest;
    assert(body =~= a + (n + rest));
    lemma_bytes_round_trip(address, n + rest);
    assert(body.skip(a.len() as int) =~= n + rest);
    lemma_bytes_round_trip(nonce, rest);
}

/// A chat message that was written is read back.
proof fn lemma_chat_round_trip(text: Seq<char>, rest: Seq<u8>)
    requires
        encode_utf8(text).len() < 0x1_0000_0000_0000_0000,
    ensures
        chat_parsed(length_prefixed(encode_utf8(text)) + rest) == Some(
            (EventView::ChatMessage(text), length_prefixed(encode_utf8(text)).len()),
        ),
{
    lemma_bytes_round_trip(encode_utf8(text), rest);
    encode_utf8_valid_utf8(text);
    encode_utf8_decode_utf8(text);
}

/// Reading the bytes of an event gives the event back, whatever follows the bytes.
pub proof fn lemma_payload_round_trip(event: EventView, rest: Seq<u8>)
    requires
        well_sized(event),
    ensures
        parsed(payload(event) + rest) == Some((event, payload(event).len())),
{
    let bytes = payload(event) + rest;
    match event {
        EventView::Quit => {
            lemma_varint_round_trip(0, rest, false);
            assert(varint(0).len() == 1);
        },
        EventView::PlayerMovement(delta) => {
            let body = varint(zigzag(delta.x)) + varint(zigzag(delta.y)) + rest;
            assert(bytes =~= varint(1) + body);
            lemma_varint_round_trip(1, body, false);
            assert(varint(1).len() == 1);
            assert(bytes.skip(1) =~= body);
            lemma_movement_round_trip(delta, rest);
        },
        EventView::PlayerFound(address, nonce) => {
            let body = length_prefixed(address) + length_prefixed(nonce) + rest;
            assert(bytes =~= varint(2) + body);
            lemma_varint_round_trip(2, body, false);
            assert(varint(2).len() == 1);
            assert(bytes.skip(1) =~= body);
            lemma_find_round_trip(address, nonce, rest);
        },
        EventView::ChatMessage(text) => {
            let body = length_prefixed(encode_utf8(text)) + rest;
            assert(bytes =~= varint(3) + body);
            lemma_varint_round_trip(3, body, false);
            assert(varint(3).len() == 1);
            assert(bytes.skip(1) =~= body);
            lemma_chat_round_trip(text, rest);
        },
    }
}

/// Turns bytes into text with `String::from_utf8`.
///
/// Trusted: the call succeeds exactly on valid UTF-8, and the text is then the one that the
/// bytes encode.
#[verifier::external_body]
fn text_from_utf8(bytes: Vec<u8>) -> (text: Option<String>)
    ensures
        match text {
            Some(t) => valid_utf8(bytes@) && t@ == decode_utf8(bytes@),
            None => !valid_utf8(bytes@),
        },
{
    String::from_utf8(bytes).ok()
}

/// Copies `N` bytes into an array.
fn to_array<const N: usize>(bytes: &[u8]) -> (array: [u8; N])
    requires
        bytes@.len() == N,
    ensures
        array@ == bytes@,
{
    let mut array = [0u8; N];
    let mut i: usize = 0;
    while i < N
        invariant
            0 <= i <= N,
            bytes@.len() == N,
            forall|j: int| 0 <= j < i ==> array[j] == bytes@[j],
        decreases N - i,
    {
        array[i] = bytes[i];
        i += 1;
    }
    assert(array@ =~= bytes@);
    array
}

/// Reads the two coordinates of a movement.
fn parse_movement(bytes: &[u8]) -> (res: Option<(GameEventMessage, usize)>)
    ensures
        match res {
            Some((event, used)) => movement_parsed(bytes@) == Some((event@, used as nat))
                && used <= bytes@.len(),
            None => movement_parsed(bytes@).is_none(),
        },
{
    match read_i32(bytes) {
        None => None,
        Some((x, used_x)) => {
            let rest = slice_subrange(bytes, used_x, bytes.len());
            assert(rest@ =~= bytes@.skip(used_x as int));
            match read_i32(rest) {
                None => None,
                Some((y, used_y)) => Some(
                    (GameEvent::PlayerMovement(Position::new(x, y)), used_x + used_y),
                ),
            }
        },
    }
}

/// Reads the address and the nonce of a find.
fn parse_find(bytes: &[u8]) -> (res: Option<(GameEventMessage, usize)>)
    ensures
        match res {
            Some((event, used)) => find_parsed(bytes@) == Some((event@, used as nat)) && used
                <= bytes@.len(),
            None => find_parsed(bytes@).is_none(),
        },
{
    match read_bytes(bytes) {
        None => None,
        Some((address, used_a)) => {
            if address.len() != 20 {
                return None;
            }
            let rest = slice_subrange(bytes, used_a, bytes.len());
            assert(rest@ =~= bytes@.skip(used_a as int));
            match read_bytes(rest) {
                None => None,
                Some((nonce, used_n)) => {
                    if nonce.len() != 32 {
                        return None;
                    }
                    let found = (
                        Address::new(to_array::<20>(address)),
                        U256::from_be_bytes(to_array::<32>(nonce)),
                    );
                    Some((GameEvent::PlayerFound(found), used_a + used_n))
                },
            }
        },
    }
}

/// Reads the text of a chat message.
fn parse_chat(bytes: &[u8]) -> (res: Option<(GameEventMessage, usize)>)
    ensures
        match res {
            Some((event, used)) => chat_parsed(bytes@) == Some((event@, used as nat)) && used
                <= bytes@.len(),
            None => chat_parsed(bytes@).is_none(),
        },
{
    match read_bytes(bytes) {
        None => None,
        Some((text, used)) => {
            match text_from_utf8(vstd::slice::slice_to_vec(text)) {
                Some(text) => Some((GameEvent::ChatMessage(text), used)),
                None => None,
            }
        },
    }
}

impl Payload for GameEvent<(Address, U256), Position> {
    open spec fn encoding(event: EventView) -> Seq<u8> {
        payload(event)
    }

    open spec fn parsing(bytes: Seq<u8>) -> Option<(EventView, nat)> {
        parsed(bytes)
    }

    fn encode(&self, out: &mut Vec<u8>) {
        match self {
            GameEvent::Quit => {
                write_varint(out, 0);
            },
            GameEvent::PlayerMovement(delta) => {
                write_varint(out, 1);
                write_i32(out, delta.x);
                write_i32(out, delta.y);
                assert(out@ =~= old(out)@ + payload(self@));
            },
            GameEvent::PlayerFound(found) => {
                write_varint(out, 2);
                write_bytes(out, found.0.bytes.as_slice());
                write_bytes(out, found.1.bytes.as_slice());
                assert(out@ =~= old(out)@ + payload(self@));
            },
            GameEvent::ChatMessage(text) => {
                write_varint(out, 3);
                write_bytes(out, text.as_str().as_bytes());
                assert(out@ =~= old(out)@ + payload(self@));
            },
        }
    }

    fn parse(bytes: &[u8]) -> (res: Option<(Self, usize)>) {
        proof {
            lemma_varint_parsed_bound(bytes@, false);
        }
        match read_varint(bytes, false) {
            None => None,
            Some((kind, used)) => {
                let rest = slice_subrange(bytes, used, bytes.len());
                assert(rest@ =~= bytes@.skip(used as int));
                let body = if kind == 0 {
                    Some((GameEvent::Quit, 0usize))
                } else if kind == 1 {
                    parse_movement(rest)
                } else if kind == 2 {
                    parse_find(rest)
                } else if kind == 3 {
                    parse_chat(rest)
                } else {
                    None
                };
                match body {
                    Some((event, more)) => Some((event, used + more)),
                    None => None,
                }
            },
        }
    }
}

/// A copy of an event.
pub fn copy_event(event: &GameEventMessage) -> (copy: GameEventMessage)
    ensures
        copy@ == event@,
{
    match event {
        GameEvent::Quit => GameEvent::Quit,
        GameEvent::PlayerMovement(delta) => GameEvent::PlayerMovement(*delta),
        GameEvent::PlayerFound(found) => GameEvent::PlayerFound(*found),
        GameEvent::ChatMessage(text) => GameEvent::ChatMessage(text.clone()),
    }
}

/// Writes an event as bytes.
pub fn encode_event(event: &GameEventMessage) -> (bytes: Vec<u8>)
    ensures
        bytes@ == payload(event@),
{
    let mut bytes: Vec<u8> = Vec::new();
    event.encode(&mut bytes);
    bytes
}

/// The event that `bytes` hold, if they hold one event and nothing more.
pub open spec fn parsed_whole(bytes: Seq<u8>) -> Option<EventView> {
    match parsed(bytes) {
        Some((event, used)) => if used == bytes.len() {
            Some(event)
        } else {
            None
        },
        None => None,
    }
}

/// An event that was written is read back from its bytes.
pub proof fn lemma_event_round_trip(event: EventView)
    requires
        well_sized(event),
    ensures
        parsed_whole(payload(event)) == Some(event),
{
    lemma_payload_round_trip(event, Seq::empty());
    assert(payload(event) + Seq::<u8>::empty() =~= payload(event));
}

/// Reads an event from bytes; `None` where the bytes are not exactly the bytes of one
/// event.
pub fn decode_event(bytes: &[u8]) -> (event: Option<GameEventMessage>)
    ensures
        match event {
            Some(e) => parsed_whole(bytes@) == Some(e@),
            None => parsed_whole(bytes@).is_none(),
        },
{
    match GameEventMessage::parse(bytes) {
        Some((event, used)) => {
            if used == bytes.len() {
                Some(event)
            } else {
                None
            }
        },
        None => None,
    }
}

} // verus!
