use game_core::events::{GameEvent, GameEventMessage};
use game_core::identifier::Identifier;
use game_core::mined::{MinedSet, MinerData};
use game_core::movements::Position;
use game_core::player::Character;
use game_core::primitives::{Address, U256};
use game_core::world::{display_name, PlayersPool, Player, World, CLAIM_THRESHOLD};

fn local() -> Address {
    Address::new([0xaa; 20])
}

fn remote() -> Address {
    Address::new([0xbb; 20])
}

fn genesis() -> World {
    World::new(Character::new(local(), 0, (0, 0)))
}

fn moved(x: i32, y: i32) -> GameEventMessage {
    GameEvent::PlayerMovement(Position::new(x, y))
}

fn found(nonce: u64) -> GameEventMessage {
    GameEvent::PlayerFound((local(), U256::from_u64(nonce)))
}

#[test]
fn new_world_knows_its_own_player_only() {
    let world = genesis();
    assert_eq!(world.identifier(), local());
    assert_eq!(Identifier::identifier(&world), local());
    assert_eq!(world.get_all_players(), vec![(local(), Character::new(local(), 0, (0, 0)))]);
    assert_eq!(world.get_mining_rewards_count(), 0);
    assert_eq!(world.get_mined_count(), 0);
    assert!(world.get_chat_messages().is_empty());
    assert!(!world.is_exit());
    assert!(!world.exit_status.is_exit());
}

#[test]
fn first_movement_places_and_later_ones_accumulate() {
    let mut world = genesis();
    assert_eq!(world.get_player(&remote()), None);
    world.update(&remote(), &moved(3, -4), None);
    let player = world.get_player(&remote()).unwrap();
    assert_eq!(player.position, Position::new(3, -4));
    assert_eq!(player.name, remote());
    assert_eq!(player.balance, 0);

    world.update(&remote(), &moved(10, 1), None);
    assert_eq!(world.get_player(&remote()).unwrap().position, Position::new(13, -3));

    // The local player was not touched.
    assert_eq!(world.get_player(&local()).unwrap().position, Position::new(0, 0));
    world.update(&local(), &moved(-1, 0), None);
    assert_eq!(world.get_player(&local()).unwrap().position, Position::new(-1, 0));
    assert_eq!(world.get_player(&remote()).unwrap().position, Position::new(13, -3));
    assert_eq!(world.get_all_players().len(), 2);
}

#[test]
fn same_find_twice_is_kept_once() {
    let mut world = genesis();
    world.update(&local(), &found(1), None);
    assert_eq!(world.get_mined_count(), 1);
    world.update(&remote(), &found(1), None);
    assert_eq!(world.get_mined_count(), 1);
    // The counter counts every find that was applied, new or not.
    assert_eq!(world.get_mining_rewards_count(), 2);
    world.update(&local(), &found(2), None);
    assert_eq!(world.get_mined_count(), 2);
    assert_eq!(world.get_mining_rewards_count(), 3);
}

#[test]
fn mined_set_insertion_is_idempotent() {
    let mut set = MinedSet::new();
    assert!(set.insert((local(), U256::from_u64(5))));
    assert_eq!(set.len(), 1);
    assert!(!set.insert((local(), U256::from_u64(5))));
    assert_eq!(set.len(), 1);
    assert!(set.contains(&(local(), U256::from_u64(5))));
    assert!(!set.contains(&(remote(), U256::from_u64(5))));
    assert!(!set.contains(&(local(), U256::from_u64(6))));
    assert!(set.insert((remote(), U256::from_u64(5))));
    assert_eq!(set.len(), 2);
}

#[test]
fn drain_returns_the_contents_and_empties_the_set() {
    let mut set = MinedSet::new();
    set.insert((local(), U256::from_u64(2)));
    set.insert((remote(), U256::from_u64(1)));
    set.insert((local(), U256::from_u64(2)));
    let batch = set.drain();
    assert_eq!(
        batch,
        vec![
            MinerData { miner_address: local(), nonce: U256::from_u64(2) },
            MinerData { miner_address: remote(), nonce: U256::from_u64(1) },
        ]
    );
    assert_eq!(set.len(), 0);
    assert!(set.drain().is_empty());
}

#[test]
fn ten_distinct_finds_make_a_batch_of_ten() {
    let mut world = genesis();
    for nonce in 1..=10u64 {
        world.update(&local(), &found(nonce), None);
    }
    assert_eq!(world.get_mined_count(), 10);
    let batch = world.drain_mined_batch();
    assert_eq!(batch.len(), 10);
    for (i, entry) in batch.iter().enumerate() {
        assert_eq!(entry.miner_address, local());
        assert_eq!(entry.nonce, U256::from_u64(i as u64 + 1));
    }
    assert_eq!(world.get_mined_count(), 0);
    // Draining does not touch the counter.
    assert_eq!(world.get_mining_rewards_count(), 10);
}

#[test]
fn claim_waits_for_the_threshold() {
    assert_eq!(CLAIM_THRESHOLD, 10);
    let mut world = genesis();
    for nonce in 1..=9u64 {
        world.update(&local(), &found(nonce), None);
        assert_eq!(world.claim_batch(), None);
    }
    assert_eq!(world.get_mined_count(), 9);
    world.update(&local(), &found(9), None);
    assert_eq!(world.claim_batch(), None);
    world.update(&local(), &found(10), None);
    let batch = world.claim_batch().unwrap();
    assert_eq!(batch.len(), 10);
    assert_eq!(batch[9].nonce, U256::from_u64(10));
    assert_eq!(world.get_mined_count(), 0);
    assert_eq!(world.claim_batch(), None);
}

#[test]
fn quit_of_the_local_player_stops_the_node() {
    let mut world = genesis();
    assert!(!world.is_exit());
    world.update(&local(), &moved(1, 1), None);
    world.update(&local(), &found(1), None);
    world.update(&local(), &GameEvent::ChatMessage("bye".to_string()), None);
    assert!(!world.is_exit());
    world.update(&local(), &GameEvent::Quit, None);
    assert!(world.is_exit());
    assert_eq!(world.get_player(&local()), None);
    // Nothing lowers the flag again.
    world.update(&local(), &moved(1, 1), None);
    assert!(world.is_exit());
}

#[test]
fn quit_of_another_player_removes_it_and_nothing_more() {
    let mut world = genesis();
    world.update(&remote(), &moved(5, 5), None);
    assert!(world.get_player(&remote()).is_some());
    world.update(&remote(), &GameEvent::Quit, None);
    assert_eq!(world.get_player(&remote()), None);
    assert!(world.get_player(&local()).is_some());
    assert!(!world.is_exit());
    // A quit of somebody unknown changes nothing.
    world.update(&Address::new([0xcc; 20]), &GameEvent::Quit, None);
    assert!(!world.is_exit());
    assert_eq!(world.get_all_players().len(), 1);
}

#[test]
fn chat_lines_are_logged_in_order_under_the_shown_name() {
    let mut world = genesis();
    world.update(&remote(), &GameEvent::ChatMessage("hello".to_string()), Some("gabe.eth".to_string()));
    world.update(&remote(), &GameEvent::ChatMessage("again".to_string()), Some(String::new()));
    world.update(&local(), &GameEvent::ChatMessage("hi".to_string()), None);
    world.add_chat_message("system".to_string(), "started".to_string());
    let log = world.get_chat_messages();
    assert_eq!(log.len(), 4);
    assert_eq!(log[0].identifier, "gabe.eth");
    assert_eq!(log[0].message, "hello");
    assert_eq!(log[1].identifier, remote().to_string());
    assert_eq!(log[1].message, "again");
    assert_eq!(log[2].identifier, local().to_string());
    assert_eq!(log[2].message, "hi");
    assert_eq!(log[3].identifier, "system");
    assert_eq!(log[3].message, "started");
    assert!(log[0].timestamp <= log[1].timestamp);
    assert!(log[2].timestamp <= log[3].timestamp);
    // The copy keeps the times of the log.
    assert_eq!(world.get_chat_messages()[0].timestamp, log[0].timestamp);
    assert_eq!(log[0].clone().timestamp, log[0].timestamp);
}

#[test]
fn shown_name_falls_back_to_the_address() {
    assert_eq!(display_name(&local(), Some("name".to_string())), "name");
    assert_eq!(display_name(&local(), Some(String::new())), local().to_string());
    assert_eq!(display_name(&local(), None), local().to_string());
    assert_eq!(
        display_name(&local(), None),
        "0xaAaAaAaaAaAaAaaAaAAAAAAAAaaaAaAaAaaAaaAa"
    );
}

#[test]
fn pool_holds_one_player_per_identity() {
    let mut pool = PlayersPool::new();
    let first: Player = Character::new(local(), 1, (1, 1));
    let second: Player = Character::new(local(), 2, (2, 2));
    pool.add_player(local(), first);
    pool.add_player(local(), second);
    assert_eq!(pool.snapshot(), vec![(local(), second)]);
    assert_eq!(pool.update_player(&local(), Position::new(1, -1)), Some(Position::new(3, 1)));
    assert_eq!(pool.update_player(&remote(), Position::new(1, -1)), None);
    assert_eq!(pool.get_player(&local()).unwrap().balance, 2);
    pool.add_player(remote(), first);
    pool.remove_player(&local());
    assert_eq!(pool.snapshot(), vec![(remote(), first)]);
    pool.remove_player(&local());
    assert_eq!(pool.snapshot().len(), 1);
}

#[test]
fn character_gives_its_parts() {
    let c = Character::new(local(), 7u8, (2, 3));
    assert_eq!(*c.name(), local());
    assert_eq!(*c.balance(), 7);
    assert_eq!(c.position(), Position::new(2, 3));
    assert_eq!(c.identifier(), local());
}
