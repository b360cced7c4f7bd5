//! The keys of the front end and the events that they stand for.

use crate::events::{GameEvent, GameEventMessage};
use crate::movements::Position;
use crate::primitives::{Address, U256};
use vstd::prelude::*;

verus! {

/// The keys that the node reacts to; every other key is `Other`.
#[derive(Debug, Clone, Copy, PartialEq, Eq, Structural)]
pub enum KeyCode {
    Escape,
    KeyQ,
    ArrowRight,
    ArrowLeft,
    ArrowUp,
    ArrowDown,
    Enter,
    Other,
}

/// The event that a key stands for: the escape key and `Q` quit, an arrow key moves by one
/// step in its direction, and any other key stands for no event.
pub open spec fn key_event(key: KeyCode) -> Option<GameEventMessage> {
    match key {
        KeyCode::Escape | KeyCode::KeyQ => Some(GameEvent::Quit),
        KeyCode::ArrowRight => Some(GameEvent::PlayerMovement(Position { x: 1, y: 0 })),
        KeyCode::ArrowLeft => Some(GameEvent::PlayerMovement(Position { x: -1i32, y: 0 })),
        KeyCode::ArrowUp => Some(GameEvent::PlayerMovement(Position { x: 0, y: 1 })),
        KeyCode::ArrowDown => Some(GameEvent::PlayerMovement(Position { x: 0, y: -1i32 })),
        KeyCode::Enter | KeyCode::Other => None,
    }
}

/// Turns a key into the event that it stands for.
pub fn keyboard_events(key: KeyCode) -> (event: Option<GameEventMessage>)
    ensures
        event == key_event(key),
{
    let event = match key {
        // Quit keys
        KeyCode::Escape | KeyCode::KeyQ => GameEvent::Quit,
        // Movement keys
        KeyCode::ArrowRight => GameEvent::PlayerMovement(Position::new(1, 0)),
        KeyCode::ArrowLeft => GameEvent::PlayerMovement(Position::new(-1, 0)),
        KeyCode::ArrowUp => GameEvent::PlayerMovement(Position::new(0, 1)),
        KeyCode::ArrowDown => GameEvent::PlayerMovement(Position::new(0, -1)),
        // Confirm keys
        KeyCode::Enter => return None,
        KeyCode::Other => return None,
    };
    Some(event)
}

} // verus!
