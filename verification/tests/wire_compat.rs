use game_core::channels::{BincodeHelper, SignedMessage};
use game_core::events::{GameEvent, GameEventMessage};
use game_core::movements::Position;
use game_core::primitives::{Address, Signature, U256};
use game_core::runner::{seal, unseal};
use game_core::signer::Keypair;
use serde::de::{Deserialize, Deserializer, EnumAccess, Error, SeqAccess, VariantAccess, Visitor};
use serde::ser::{Serialize, SerializeStruct, Serializer};

/// A position as serde sees a struct of two named integers.
struct WirePosition {
    x: i32,
    y: i32,
}

impl Serialize for WirePosition {
    fn serialize<S: Serializer>(&self, serializer: S) -> Result<S::Ok, S::Error> {
        let mut s = serializer.serialize_struct("Position", 2)?;
        s.serialize_field("x", &self.x)?;
        s.serialize_field("y", &self.y)?;
        s.end()
    }
}

/// An event as serde sees an enum of four variants, in their order.
enum WireEvent {
    Quit,
    PlayerMovement(WirePosition),
    PlayerFound((alloy_primitives::Address, alloy_primitives::U256)),
    ChatMessage(String),
}

impl Serialize for WireEvent {
    fn serialize<S: Serializer>(&self, serializer: S) -> Result<S::Ok, S::Error> {
        match self {
            WireEvent::Quit => serializer.serialize_unit_variant("GameEvent", 0, "Quit"),
            WireEvent::PlayerMovement(p) => {
                serializer.serialize_newtype_variant("GameEvent", 1, "PlayerMovement", p)
            }
            WireEvent::PlayerFound(f) => {
                serializer.serialize_newtype_variant("GameEvent", 2, "PlayerFound", f)
            }
            WireEvent::ChatMessage(t) => {
                serializer.serialize_newtype_variant("GameEvent", 3, "ChatMessage", t)
            }
        }
    }
}

/// A signed message as serde sees a struct of three named fields.
struct WireSigned {
    data: WireEvent,
    address: alloy_primitives::Address,
    signature: alloy_primitives::Signature,
}

impl Serialize for WireSigned {
    fn serialize<S: Serializer>(&self, serializer: S) -> Result<S::Ok, S::Error> {
        let mut s = serializer.serialize_struct("SignedMessage", 3)?;
        s.serialize_field("data", &self.data)?;
        s.serialize_field("address", &self.address)?;
        s.serialize_field("signature", &self.signature)?;
        s.end()
    }
}

fn wire(event: &GameEventMessage) -> WireEvent {
    match event {
        GameEvent::Quit => WireEvent::Quit,
        GameEvent::PlayerMovement(p) => WireEvent::PlayerMovement(WirePosition { x: p.x, y: p.y }),
        GameEvent::PlayerFound((a, n)) => WireEvent::PlayerFound((
            alloy_primitives::Address::new(a.bytes),
            alloy_primitives::U256::from_be_bytes(n.bytes),
        )),
        GameEvent::ChatMessage(t) => WireEvent::ChatMessage(t.clone()),
    }
}

fn bincode_of<T: Serialize>(value: &T) -> Vec<u8> {
    bincode::serde::encode_to_vec(value, bincode::config::standard()).unwrap()
}

fn events() -> Vec<GameEventMessage> {
    let mut all = vec![
        GameEvent::Quit,
        GameEvent::PlayerFound((Address::new([0x1f; 20]), U256::from_u64(0))),
        GameEvent::PlayerFound((Address::zero(), U256::from_be_bytes([0xff; 32]))),
        GameEvent::ChatMessage(String::new()),
        GameEvent::ChatMessage("gm \u{1F980}".to_string()),
        GameEvent::ChatMessage("y".repeat(250)),
        GameEvent::ChatMessage("y".repeat(251)),
        GameEvent::ChatMessage("y".repeat(70_000)),
    ];
    for v in [
        0,
        1,
        -1,
        125,
        -125,
        126,
        -126,
        127,
        32767,
        -32768,
        32768,
        -32769,
        i32::MAX,
        i32::MIN,
        i32::MIN + 1,
    ] {
        all.push(GameEvent::PlayerMovement(Position::new(v, 0)));
        all.push(GameEvent::PlayerMovement(Position::new(7, v)));
    }
    all
}

#[test]
fn events_are_written_as_bincode_writes_them() {
    for event in events() {
        assert_eq!(game_core::events::encode_event(&event), bincode_of(&wire(&event)));
    }
}

#[test]
fn messages_are_written_as_bincode_writes_them() {
    let signer = Keypair::from_slice(&[5; 32]).unwrap();
    for event in events() {
        let mut message = SignedMessage::new(event.clone(), signer.address());

        // What is hashed is the pair of payload and address.
        let address = alloy_primitives::Address::new(message.address.bytes);
        assert_eq!(message.encoded_data().unwrap(), bincode_of(&(wire(&event), address)));

        message.sign(&signer).unwrap();
        let signature = alloy_primitives::Signature::new(
            alloy_primitives::U256::from_be_bytes(message.signature.r),
            alloy_primitives::U256::from_be_bytes(message.signature.s),
            message.signature.y_parity,
        );
        let twin = WireSigned { data: wire(&event), address, signature };
        let bytes = BincodeHelper::encode(&message).unwrap();
        assert_eq!(bytes, bincode_of(&twin));
        assert_eq!(seal(&event, &signer).unwrap(), bytes);

        // What bincode wrote is read back as the message.
        assert_eq!(BincodeHelper::decode::<GameEventMessage>(&bincode_of(&twin)).unwrap(), message);
        assert_eq!(unseal(&bytes), Ok((signer.address(), event)));
    }
}

#[test]
fn signature_is_the_one_that_the_outside_signer_makes() {
    let secret = [5u8; 32];
    let signer = Keypair::from_slice(&secret).unwrap();
    let outside = alloy_signer_local::PrivateKeySigner::from_slice(&secret).unwrap();
    assert_eq!(signer.address().bytes, outside.address().0 .0);

    let event: GameEventMessage = GameEvent::PlayerMovement(Position::new(1, 0));
    let mut message = SignedMessage::new(event.clone(), signer.address());
    message.sign(&signer).unwrap();

    let input = bincode_of(&(wire(&event), outside.address()));
    let digest = alloy_primitives::keccak256(&input);
    let expected = alloy_signer::SignerSync::sign_hash_sync(&outside, &digest).unwrap();
    assert_eq!(message.signature.r, expected.r().to_be_bytes::<32>());
    assert_eq!(message.signature.s, expected.s().to_be_bytes::<32>());
    assert_eq!(message.signature.y_parity, expected.v());
    assert_eq!(expected.recover_address_from_prehash(&digest).unwrap(), outside.address());
    assert_ne!(message.signature, Signature::empty());
}

/// The address and the signature at the front of `bytes`, read with the library's own reader
/// of byte strings by the rule that the message reader is held to.
fn tail_by_rule(bytes: &[u8]) -> Option<([u8; 20], [u8; 32], [u8; 32], bool)> {
    let (address, used_a) = game_core::wire::read_bytes(bytes)?;
    let (r, used_r) = game_core::wire::read_bytes(&bytes[used_a..])?;
    let (s, used_s) = game_core::wire::read_bytes(&bytes[used_a + used_r..])?;
    let (parity, _) = game_core::wire::read_bytes(&bytes[used_a + used_r + used_s..])?;
    if address.len() != 20 || r.len() != 32 || s.len() != 32 || parity.len() != 8 {
        return None;
    }
    let y_parity = match u64::from_be_bytes(parity.try_into().unwrap()) {
        0 => false,
        1 => true,
        _ => return None,
    };
    Some((address.try_into().unwrap(), r.try_into().unwrap(), s.try_into().unwrap(), y_parity))
}

/// The same, read by bincode.
fn tail_by_bincode(bytes: &[u8]) -> Option<([u8; 20], [u8; 32], [u8; 32], bool)> {
    let parsed: Result<((alloy_primitives::Address, alloy_primitives::Signature), usize), _> =
        bincode::serde::decode_from_slice(bytes, bincode::config::standard());
    parsed.ok().map(|((address, signature), _)| {
        (
            address.0 .0,
            signature.r().to_be_bytes::<32>(),
            signature.s().to_be_bytes::<32>(),
            signature.v(),
        )
    })
}

/// The same, read by the library as a message without payload.
fn tail_by_library(bytes: &[u8]) -> Option<([u8; 20], [u8; 32], [u8; 32], bool)> {
    BincodeHelper::decode::<()>(bytes).ok().map(|message| {
        (
            message.address.bytes,
            message.signature.r,
            message.signature.s,
            message.signature.y_parity,
        )
    })
}

fn same_reading(bytes: &[u8]) -> bool {
    let by_rule = tail_by_rule(bytes);
    assert_eq!(by_rule, tail_by_bincode(bytes), "bytes: {:?}", bytes);
    assert_eq!(by_rule, tail_by_library(bytes), "bytes: {:?}", bytes);
    by_rule.is_some()
}

#[test]
fn tails_are_read_as_the_rule_says() {
    let mut state: u64 = 0x9e37_79b9_7f4a_7c15;
    let mut next = move || {
        state = state.wrapping_mul(6364136223846793005).wrapping_add(1442695040888963407);
        (state >> 33) as usize
    };
    let interesting = [0u8, 1, 2, 7, 8, 9, 19, 20, 21, 31, 32, 33, 127, 128, 250, 251, 252, 253, 254, 255];

    let mut accepted = 0;
    let mut refused = 0;
    for round in 0..40 {
        let mut message = SignedMessage::new((), Address::new([round as u8; 20]));
        message.signature = Signature::new([next() as u8; 32], [next() as u8; 32], round % 2 == 1);
        let valid = BincodeHelper::encode(&message).unwrap();
        assert!(same_reading(&valid));

        // Every truncation.
        for len in 0..valid.len() {
            assert!(!same_reading(&valid[..len]));
        }
        // Bytes that follow.
        let mut longer = valid.clone();
        longer.extend_from_slice(&[next() as u8, next() as u8]);
        assert!(same_reading(&longer));

        // Every position with every interesting byte.
        for at in 0..valid.len() {
            for byte in interesting {
                let mut changed = valid.clone();
                changed[at] = byte;
                if same_reading(&changed) {
                    accepted += 1;
                } else {
                    refused += 1;
                }
            }
        }
        // Changes at random places, several at once.
        for _ in 0..200 {
            let mut changed = valid.clone();
            for _ in 0..(1 + next() % 3) {
                let at = next() % changed.len();
                changed[at] = interesting[next() % interesting.len()];
            }
            if next() % 4 == 0 {
                changed.truncate(next() % (changed.len() + 1));
            }
            same_reading(&changed);
        }
    }
    assert!(accepted > 0 && refused > 0);

    // Lengths in a width that is not the smallest are read all the same.
    let message = SignedMessage::new((), Address::new([7; 20]));
    let valid = BincodeHelper::encode(&message).unwrap();
    for wide in [vec![251u8, 20, 0], vec![252, 20, 0, 0, 0], vec![253, 20, 0, 0, 0, 0, 0, 0, 0]] {
        let mut bytes = wide;
        bytes.extend_from_slice(&valid[1..]);
        assert!(same_reading(&bytes));
    }
    for wide in [vec![254u8, 20, 0], vec![255, 20, 0]] {
        let mut bytes = wide;
        bytes.extend_from_slice(&valid[1..]);
        assert!(!same_reading(&bytes));
    }
    // A length beyond what follows, up to the largest.
    assert!(!same_reading(&[253, 0xff, 0xff, 0xff, 0xff, 0xff, 0xff, 0xff, 0xff, 1, 2, 3]));
    assert!(!same_reading(&[]));
}

#[test]
fn events_are_read_as_bincode_wrote_them_with_anything_behind() {
    for event in events() {
        let mut bytes = bincode_of(&wire(&event));
        let len = bytes.len();
        bytes.extend_from_slice(&[0xde, 0xad]);
        assert_eq!(
            <GameEventMessage as game_core::payload::Payload>::parse(&bytes),
            Some((event, len))
        );
    }
}

struct PositionVisitor;

impl<'de> Visitor<'de> for PositionVisitor {
    type Value = WirePosition;

    fn expecting(&self, f: &mut std::fmt::Formatter) -> std::fmt::Result {
        f.write_str("struct Position")
    }

    fn visit_seq<A: SeqAccess<'de>>(self, mut seq: A) -> Result<WirePosition, A::Error> {
        let x = seq.next_element()?.ok_or_else(|| A::Error::invalid_length(0, &self))?;
        let y = seq.next_element()?.ok_or_else(|| A::Error::invalid_length(1, &self))?;
        Ok(WirePosition { x, y })
    }
}

impl<'de> Deserialize<'de> for WirePosition {
    fn deserialize<D: Deserializer<'de>>(deserializer: D) -> Result<Self, D::Error> {
        deserializer.deserialize_struct("Position", &["x", "y"], PositionVisitor)
    }
}

struct EventVisitor;

impl<'de> Visitor<'de> for EventVisitor {
    type Value = WireEvent;

    fn expecting(&self, f: &mut std::fmt::Formatter) -> std::fmt::Result {
        f.write_str("enum GameEvent")
    }

    fn visit_enum<A: EnumAccess<'de>>(self, data: A) -> Result<WireEvent, A::Error> {
        let (index, variant): (u32, _) = data.variant()?;
        match index {
            0 => variant.unit_variant().map(|_| WireEvent::Quit),
            1 => variant.newtype_variant().map(WireEvent::PlayerMovement),
            2 => variant.newtype_variant().map(WireEvent::PlayerFound),
            3 => variant.newtype_variant().map(WireEvent::ChatMessage),
            _ => Err(A::Error::custom("no such variant")),
        }
    }
}

impl<'de> Deserialize<'de> for WireEvent {
    fn deserialize<D: Deserializer<'de>>(deserializer: D) -> Result<Self, D::Error> {
        const VARIANTS: &[&str] = &["Quit", "PlayerMovement", "PlayerFound", "ChatMessage"];
        deserializer.deserialize_enum("GameEvent", VARIANTS, EventVisitor)
    }
}

fn library(event: WireEvent) -> GameEventMessage {
    match event {
        WireEvent::Quit => GameEvent::Quit,
        WireEvent::PlayerMovement(p) => GameEvent::PlayerMovement(Position::new(p.x, p.y)),
        WireEvent::PlayerFound((a, n)) => {
            GameEvent::PlayerFound((Address::new(a.0 .0), U256::from_be_bytes(n.to_be_bytes::<32>())))
        }
        WireEvent::ChatMessage(t) => GameEvent::ChatMessage(t),
    }
}

/// Reads the front of `bytes` as an event with the library and with bincode, and holds the
/// two against each other. Bincode is kept from reserving room for a text before it has
/// seen that the text is there: a limit far above the length of any input here makes it
/// refuse such a length at once, as it would in the end.
fn same_event(bytes: &[u8]) -> bool {
    assert!(bytes.len() < 100_000);
    let by_library = <GameEventMessage as game_core::payload::Payload>::parse(bytes);
    let parsed: Result<(WireEvent, usize), _> = bincode::serde::decode_from_slice(
        bytes,
        bincode::config::standard().with_limit::<100_000>(),
    );
    let by_bincode = parsed.ok().map(|(event, used)| (library(event), used));
    assert_eq!(by_library, by_bincode, "bytes: {:?}", bytes);
    by_library.is_some()
}

#[test]
fn events_are_read_as_bincode_reads_them() {
    let mut state: u64 = 0x2545_f491_4f6c_dd1d;
    let mut next = move || {
        state = state.wrapping_mul(6364136223846793005).wrapping_add(1442695040888963407);
        (state >> 33) as usize
    };
    let interesting = [
        0u8, 1, 2, 3, 4, 5, 19, 20, 21, 31, 32, 33, 0x7f, 0x80, 0xc3, 0xe2, 0xf0, 250, 251, 252,
        253, 254, 255,
    ];
    let short = [
        GameEvent::Quit,
        GameEvent::PlayerMovement(Position::new(1, -1)),
        GameEvent::PlayerMovement(Position::new(300, -70_000)),
        GameEvent::PlayerMovement(Position::new(i32::MIN, i32::MAX)),
        GameEvent::PlayerFound((Address::new([0x44; 20]), U256::from_u64(3))),
        GameEvent::ChatMessage("h\u{e9}llo \u{1F980}".to_string()),
        GameEvent::ChatMessage("z".repeat(260)),
    ];

    let mut accepted = 0;
    let mut refused = 0;
    for event in short {
        let valid = game_core::events::encode_event(&event);
        assert!(same_event(&valid));
        for len in 0..valid.len() {
            same_event(&valid[..len]);
        }
        for at in 0..valid.len().min(60) {
            for byte in interesting {
                let mut changed = valid.clone();
                changed[at] = byte;
                if same_event(&changed) {
                    accepted += 1;
                } else {
                    refused += 1;
                }
            }
        }
        for _ in 0..400 {
            let mut changed = valid.clone();
            for _ in 0..(1 + next() % 3) {
                let at = next() % changed.len();
                changed[at] = interesting[next() % interesting.len()];
            }
            if next() % 3 == 0 {
                changed.truncate(next() % (changed.len() + 1));
            }
            same_event(&changed);
        }
    }
    assert!(accepted > 0 && refused > 0);

    // Pure noise.
    for _ in 0..3000 {
        let len = next() % 12;
        let bytes: Vec<u8> = (0..len).map(|_| interesting[next() % interesting.len()]).collect();
        same_event(&bytes);
    }
    // Integers in a width that is not the smallest, and in a width that is too large.
    assert!(same_event(&[251, 1, 0, 251, 2, 0, 252, 3, 0, 0, 0]));
    assert!(same_event(&[252, 3, 0, 0, 0, 253, 1, 0, 0, 0, 0, 0, 0, 0, b'a']));
    assert!(!same_event(&[253, 0, 0, 0, 0, 0, 0, 0, 0]));
    assert!(!same_event(&[1, 253, 2, 0, 0, 0, 0, 0, 0, 0, 0]));
    assert!(!same_event(&[252, 4, 0, 0, 0]));
    assert!(!same_event(&[252, 0xff, 0xff, 0xff, 0xff]));
}
