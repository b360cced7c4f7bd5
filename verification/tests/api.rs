use game_core::api::{HealthStatus, ResponseAPI, ResponseStatus, WorldStatus, API_SERVER_VERSION};
use game_core::events::{GameEvent, GameEventMessage};
use game_core::movements::Position;
use game_core::player::Character;
use game_core::primitives::{Address, U256};
use game_core::world::World;

#[test]
fn responses_carry_status_and_data() {
    let ok = ResponseAPI::success("OK");
    assert_eq!(ok.status, ResponseStatus::Success);
    assert_eq!(ok.data, "OK");
    let failed = ResponseAPI::error(404u16);
    assert_eq!(failed.status, ResponseStatus::Error);
    assert_eq!(failed.data, 404);
}

#[test]
fn health_endpoints_answer() {
    let index = HealthStatus::index();
    assert_eq!(index.status, ResponseStatus::Success);
    assert_eq!(index.data, API_SERVER_VERSION);
    let health = HealthStatus::health_check();
    assert_eq!(health.status, ResponseStatus::Success);
    assert_eq!(health.data, "OK");
}

#[test]
fn world_endpoints_show_snapshots() {
    let me = Address::new([1; 20]);
    let other = Address::new([2; 20]);
    let mut world = World::new(Character::new(me, 0, (0, 0)));
    let step: GameEventMessage = GameEvent::PlayerMovement(Position::new(2, 3));
    world.update(&other, &step, None);
    world.update(&me, &GameEvent::PlayerFound((me, U256::from_u64(4))), None);
    world.update(&me, &GameEvent::PlayerFound((me, U256::from_u64(5))), None);
    world.update(&me, &GameEvent::ChatMessage("hi".to_string()), Some("me.eth".to_string()));

    let mined = WorldStatus::mined_batch(&world);
    assert_eq!(mined.status, ResponseStatus::Success);
    assert_eq!(mined.data, vec![(me, U256::from_u64(4)), (me, U256::from_u64(5))]);
    assert_eq!(world.get_mining_batch(), mined.data);
    // Looking at the batch does not take it.
    assert_eq!(world.get_mined_count(), 2);

    let players = WorldStatus::players(&world);
    assert_eq!(players.status, ResponseStatus::Success);
    assert_eq!(players.data.len(), 2);
    assert!(players.data.contains(&Character::new(me, 0, (0, 0))));
    assert!(players.data.contains(&Character::new(other, 0, (2, 3))));

    let chat = WorldStatus::chat_messages(&world);
    assert_eq!(chat.status, ResponseStatus::Success);
    assert_eq!(chat.data.len(), 1);
    assert_eq!(chat.data[0].identifier, "me.eth");
    assert_eq!(chat.data[0].message, "hi");
}
