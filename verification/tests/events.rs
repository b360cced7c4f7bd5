use game_core::events::{
    copy_event, decode_event, encode_event, GameEvent, GameEventMessage, SignedEvent,
};
use game_core::movements::Position;
use game_core::primitives::{Address, U256};

fn round_trip(event: GameEventMessage) {
    let bytes = encode_event(&event);
    assert_eq!(decode_event(&bytes), Some(event));
}

#[test]
fn every_kind_of_event_survives_the_wire() {
    round_trip(GameEvent::Quit);
    round_trip(GameEvent::PlayerMovement(Position::new(1, 0)));
    round_trip(GameEvent::PlayerMovement(Position::new(-1, i32::MAX)));
    round_trip(GameEvent::PlayerMovement(Position::new(i32::MIN, -7)));
    round_trip(GameEvent::PlayerFound((Address::new([0xab; 20]), U256::from_u64(77))));
    round_trip(GameEvent::ChatMessage(String::new()));
    round_trip(GameEvent::ChatMessage("gm \u{1F980} fonk".to_string()));
}

#[test]
fn payload_bytes_are_as_laid_out() {
    assert_eq!(encode_event(&GameEvent::Quit), vec![0]);
    assert_eq!(encode_event(&GameEvent::PlayerMovement(Position::new(0, -1))), vec![1, 0, 1]);
    assert_eq!(encode_event(&GameEvent::PlayerMovement(Position::new(1, -2))), vec![1, 2, 3]);
    assert_eq!(
        encode_event(&GameEvent::PlayerMovement(Position::new(125, -126))),
        vec![1, 250, 251, 251, 0]
    );
    assert_eq!(
        encode_event(&GameEvent::PlayerMovement(Position::new(32768, -32769))),
        vec![1, 252, 0, 0, 1, 0, 252, 1, 0, 1, 0]
    );
    assert_eq!(
        encode_event(&GameEvent::PlayerMovement(Position::new(i32::MIN, i32::MAX))),
        vec![1, 252, 0xff, 0xff, 0xff, 0xff, 252, 0xfe, 0xff, 0xff, 0xff]
    );
    let mut found = vec![2u8, 20];
    found.extend_from_slice(&[0xab; 20]);
    found.push(32);
    found.extend_from_slice(&[0u8; 31]);
    found.push(9);
    assert_eq!(
        encode_event(&GameEvent::PlayerFound((Address::new([0xab; 20]), U256::from_u64(9)))),
        found
    );
    assert_eq!(
        encode_event(&GameEvent::ChatMessage("h\u{e9}".to_string())),
        vec![3, 3, b'h', 0xc3, 0xa9]
    );
    let long = "x".repeat(300);
    let bytes = encode_event(&GameEvent::ChatMessage(long.clone()));
    assert_eq!(bytes[..4], [3, 251, 0x2c, 0x01]);
    assert_eq!(bytes[4..], *long.as_bytes());
}

#[test]
fn bytes_that_hold_no_event_are_refused() {
    assert_eq!(decode_event(&[]), None);
    // Bytes after the event.
    assert_eq!(decode_event(&[0, 0]), None);
    assert_eq!(decode_event(&[1, 0, 1, 0]), None);
    // A movement cut short.
    assert_eq!(decode_event(&[1]), None);
    assert_eq!(decode_event(&[1, 0]), None);
    assert_eq!(decode_event(&[1, 252, 0, 0]), None);
    // A coordinate wider than 32 bits.
    assert_eq!(decode_event(&[1, 253, 0, 0, 0, 0, 0, 0, 0, 0, 0]), None);
    assert_eq!(decode_event(&[1, 254, 0, 0]), None);
    assert_eq!(decode_event(&[1, 255, 0]), None);
    // An address or a nonce of the wrong length.
    let mut short = vec![2u8, 19];
    short.extend_from_slice(&[0; 19]);
    short.push(32);
    short.extend_from_slice(&[0; 32]);
    assert_eq!(decode_event(&short), None);
    let mut long = vec![2u8, 20];
    long.extend_from_slice(&[0; 20]);
    long.push(33);
    long.extend_from_slice(&[0; 33]);
    assert_eq!(decode_event(&long), None);
    // A length that promises more than there is.
    assert_eq!(decode_event(&[3, 5, b'a']), None);
    // Text that is no UTF-8.
    assert_eq!(decode_event(&[3, 1, 0xff]), None);
    assert_eq!(decode_event(&[3, 1, 0xc3]), None);
    // A kind that does not exist.
    assert_eq!(decode_event(&[4]), None);
    assert_eq!(decode_event(&[250]), None);
    assert_eq!(decode_event(&[253, 0, 0, 0, 0, 0, 0, 0, 0]), None);
}

#[test]
fn decoding_reads_what_the_layout_says() {
    assert_eq!(decode_event(&[0]), Some(GameEvent::Quit));
    assert_eq!(
        decode_event(&[1, 2, 0]),
        Some(GameEvent::PlayerMovement(Position::new(1, 0)))
    );
    assert_eq!(
        decode_event(&[1, 1, 3]),
        Some(GameEvent::PlayerMovement(Position::new(-1, -2)))
    );
    assert_eq!(decode_event(&[3, 0]), Some(GameEvent::ChatMessage(String::new())));
    assert_eq!(
        decode_event(&[3, 2, b'o', b'k']),
        Some(GameEvent::ChatMessage("ok".to_string()))
    );
    // A reader takes an integer in any width that holds it, the smallest or not.
    assert_eq!(
        decode_event(&[251, 1, 0, 252, 2, 0, 0, 0, 0]),
        Some(GameEvent::PlayerMovement(Position::new(1, 0)))
    );
    assert_eq!(decode_event(&[3, 251, 1, 0, b'a']), Some(GameEvent::ChatMessage("a".to_string())));
    assert_eq!(
        decode_event(&[3, 253, 1, 0, 0, 0, 0, 0, 0, 0, b'a']),
        Some(GameEvent::ChatMessage("a".to_string()))
    );
}

#[test]
fn copy_of_an_event_is_the_event() {
    let event: GameEventMessage = GameEvent::ChatMessage("same".to_string());
    assert_eq!(copy_event(&event), event);
    assert_eq!(copy_event(&GameEvent::Quit), GameEvent::Quit);
}

#[test]
fn signed_event_keeps_its_parts() {
    let event: SignedEvent<u8, u16, (), ()> = SignedEvent::new(GameEvent::Quit, 7u8, 9u16);
    assert_eq!(event.event, GameEvent::Quit);
    assert_eq!(event.address, 7);
    assert_eq!(event.signature, 9);
}
