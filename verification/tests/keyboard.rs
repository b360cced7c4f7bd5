use game_core::events::GameEvent;
use game_core::keyboard::{keyboard_events, KeyCode};
use game_core::movements::Position;

#[test]
fn test_quit_event() {
    let event = KeyCode::Escape;
    let result = keyboard_events(event).unwrap();
    assert_eq!(result, GameEvent::Quit);

    let event = KeyCode::KeyQ;
    let result = keyboard_events(event).unwrap();
    assert_eq!(result, GameEvent::Quit);
}

#[test]
fn arrows_move_by_one_step() {
    assert_eq!(
        keyboard_events(KeyCode::ArrowRight),
        Some(GameEvent::PlayerMovement(Position::new(1, 0)))
    );
    assert_eq!(
        keyboard_events(KeyCode::ArrowLeft),
        Some(GameEvent::PlayerMovement(Position::new(-1, 0)))
    );
    assert_eq!(
        keyboard_events(KeyCode::ArrowUp),
        Some(GameEvent::PlayerMovement(Position::new(0, 1)))
    );
    assert_eq!(
        keyboard_events(KeyCode::ArrowDown),
        Some(GameEvent::PlayerMovement(Position::new(0, -1)))
    );
}

#[test]
fn other_keys_stand_for_nothing() {
    assert_eq!(keyboard_events(KeyCode::Enter), None);
    assert_eq!(keyboard_events(KeyCode::Other), None);
}
