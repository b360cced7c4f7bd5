//! A node's replica of the world: the participants, the mined pairs, the chat log and the
//! exit flag, with the reducer that applies events to them.

use crate::events::{GameEvent, GameEventMessage};
use crate::exit::ExitStatus;
use crate::message::{ChatLine, ChatMessage};
use crate::mined::{MinedSet, MinerData, claim_entries};
use crate::movements::Position;
use crate::player::Character;
use crate::primitives::{Address, U256, address_text};
use vstd::prelude::*;

verus! {

/// A participant as the world keeps it: named by its address, with an integer balance.
pub type Player = Character<Address, i32>;

/// Whether no key occurs twice among the entries.
pub open spec fn keys_distinct(entries: Seq<(Address, Player)>) -> bool {
    forall|i: int, j: int|
        0 <= i < j < entries.len() ==> (#[trigger] entries[i]).0 != (#[trigger] entries[j]).0
}

/// Whether some entry has the key `key`.
pub open spec fn has_key(entries: Seq<(Address, Player)>, key: Address) -> bool {
    exists|i: int| 0 <= i < entries.len() && (#[trigger] entries[i]).0 == key
}

/// The place of an entry with the key `key`.
pub open spec fn place_of(entries: Seq<(Address, Player)>, key: Address) -> int {
    choose|i: int| 0 <= i < entries.len() && (#[trigger] entries[i]).0 == key
}

/// The map that a list of entries stands for.
pub open spec fn entries_map(entries: Seq<(Address, Player)>) -> Map<Address, Player> {
    Map::new(
        |key: Address| has_key(entries, key),
        |key: Address| entries[place_of(entries, key)].1,
    )
}

/// With distinct keys, each entry is what the map holds under its key.
pub proof fn lemma_entry_in_map(entries: Seq<(Address, Player)>, i: int)
    requires
        keys_distinct(entries),
        0 <= i < entries.len(),
    ensures
        entries_map(entries).contains_key(entries[i].0),
        entries_map(entries)[entries[i].0] == entries[i].1,
{
    let key = entries[i].0;
    assert(has_key(entries, key));
    let j = place_of(entries, key);
    assert(0 <= j < entries.len() && entries[j].0 == key);
    assert(j == i);
}

/// Appending an entry under a fresh key inserts it into the map.
pub proof fn lemma_map_after_push(entries: Seq<(Address, Player)>, key: Address, player: Player)
    requires
        keys_distinct(entries),
        !has_key(entries, key),
    ensures
        keys_distinct(entries.push((key, player))),
        entries_map(entries.push((key, player))) == entries_map(entries).insert(key, player),
{
    let after = entries.push((key, player));
    assert forall|i: int, j: int| 0 <= i < j < after.len() implies (#[trigger] after[i]).0 != (
    #[trigger] after[j]).0 by {
        if j == entries.len() {
            assert(entries[i].0 != key);
        } else {
            assert(entries[i].0 != entries[j].0);
        }
    }
    let m = entries_map(entries).insert(key, player);
    assert forall|k: Address| #[trigger] entries_map(after).contains_key(k) implies m.contains_key(
        k,
    ) by {
        let i = place_of(after, k);
        if i < entries.len() {
            assert(entries[i].0 == k);
        }
    }
    assert forall|k: Address| #[trigger] m.contains_key(k) implies entries_map(after).contains_key(
        k,
    ) && entries_map(after)[k] == m[k] by {
        if k == key {
            lemma_entry_in_map(after, entries.len() as int);
        } else {
            let i = place_of(entries, k);
            assert(after[i] == entries[i]);
            lemma_entry_in_map(after, i);
            lemma_entry_in_map(entries, i);
        }
    }
    assert(entries_map(after) =~= m);
}

/// Replacing the player of an entry inserts the new player under the entry's key.
pub proof fn lemma_map_after_update(entries: Seq<(Address, Player)>, i: int, player: Player)
    requires
        keys_distinct(entries),
        0 <= i < entries.len(),
    ensures
        keys_distinct(entries.update(i, (entries[i].0, player))),
        entries_map(entries.update(i, (entries[i].0, player))) == entries_map(entries).insert(
            entries[i].0,
            player,
        ),
{
    let key = entries[i].0;
    let after = entries.update(i, (key, player));
    assert forall|a: int, b: int| 0 <= a < b < after.len() implies (#[trigger] after[a]).0 != (
    #[trigger] after[b]).0 by {
        assert(after[a].0 == entries[a].0);
        assert(after[b].0 == entries[b].0);
    }
    let m = entries_map(entries).insert(key, player);
    assert forall|k: Address| #[trigger] entries_map(after).contains_key(k) implies m.contains_key(
        k,
    ) by {
        let j = place_of(after, k);
        assert(entries[j].0 == k);
    }
    assert forall|k: Address| #[trigger] m.contains_key(k) implies entries_map(after).contains_key(
        k,
    ) && entries_map(after)[k] == m[k] by {
        if k == key {
            lemma_entry_in_map(after, i);
        } else {
            let j = place_of(entries, k);
            assert(after[j] == entries[j]);
            lemma_entry_in_map(after, j);
            lemma_entry_in_map(entries, j);
        }
    }
    assert(entries_map(after) =~= m);
}

/// Taking an entry out removes its key from the map.
pub proof fn lemma_map_after_remove(entries: Seq<(Address, Player)>, i: int)
    requires
        keys_distinct(entries),
        0 <= i < entries.len(),
    ensures
        keys_distinct(entries.remove(i)),
        entries_map(entries.remove(i)) == entries_map(entries).remove(entries[i].0),
{
    let key = entries[i].0;
    let after = entries.remove(i);
    assert forall|a: int, b: int| 0 <= a < b < after.len() implies (#[trigger] after[a]).0 != (
    #[trigger] after[b]).0 by {
        let a0 = if a < i { a } else { a + 1 };
        let b0 = if b < i { b } else { b + 1 };
        assert(after[a] == entries[a0]);
        assert(after[b] == entries[b0]);
    }
    let m = entries_map(entries).remove(key);
    assert forall|k: Address| #[trigger] entries_map(after).contains_key(k) implies m.contains_key(
        k,
    ) by {
        let j = place_of(after, k);
        let j0 = if j < i { j } else { j + 1 };
        assert(after[j] == entries[j0]);
        assert(entries[j0].0 == k);
        if k == key {
            assert(entries[i].0 != entries[j0].0 || i == j0);
            if j0 < i {
                assert(entries[j0].0 != entries[i].0);
            } else {
                assert(entries[i].0 != entries[j0].0);
            }
        }
    }
    assert forall|k: Address| #[trigger] m.contains_key(k) implies entries_map(after).contains_key(
        k,
    ) && entries_map(after)[k] == m[k] by {
        let j0 = place_of(entries, k);
        assert(j0 != i);
        let j = if j0 < i { j0 } else { j0 - 1 };
        assert(after[j] == entries[j0]);
        lemma_entry_in_map(after, j);
        lemma_entry_in_map(entries, j0);
    }
    assert(entries_map(after) =~= m);
}

/// The participants that a node knows of, each under its identity.
#[derive(Debug)]
pub struct PlayersPool {
    entries: Vec<(Address, Player)>,
}

impl PlayersPool {
    #[verifier::type_invariant]
    spec fn well_formed(self) -> bool {
        keys_distinct(self.entries@)
    }

    /// The participants as a map from identity to character.
    pub closed spec fn view(&self) -> Map<Address, Player> {
        entries_map(self.entries@)
    }

    /// The pool without any participant.
    pub fn new() -> (pool: Self)
        ensures
            pool@ == Map::<Address, Player>::empty(),
    {
        let pool = PlayersPool { entries: Vec::new() };
        assert(pool@ =~= Map::<Address, Player>::empty());
        pool
    }

    /// The place of the entry for `identifier`, if there is one.
    fn find(&self, identifier: &Address) -> (place: Option<usize>)
        ensures
            match place {
                Some(i) => i < self.entries.len() && self.entries[i as int].0 == *identifier,
                None => !has_key(self.entries@, *identifier),
            },
    {
        let mut i: usize = 0;
        while i < self.entries.len()
            invariant
                0 <= i <= self.entries.len(),
                forall|j: int| 0 <= j < i ==> (#[trigger] self.entries[j]).0 != *identifier,
            decreases self.entries.len() - i,
        {
            if self.entries[i].0.is_equal(identifier) {
                return Some(i);
            }
            i += 1;
        }
        None
    }

    /// Puts `player` under `identifier`, in place of whoever stood there.
    pub fn add_player(&mut self, identifier: Address, player: Player)
        ensures
            final(self)@ == old(self)@.insert(identifier, player),
    {
        proof {
            use_type_invariant(&*self);
        }
        let place = self.find(&identifier);
        let mut entries = Vec::new();
        std::mem::swap(&mut entries, &mut self.entries);
        let ghost before = entries@;
        match place {
            Some(i) => {
                proof {
                    lemma_map_after_update(before, i as int, player);
                }
                entries.set(i, (identifier, player));
            },
            None => {
                proof {
                    lemma_map_after_push(before, identifier, player);
                }
                entries.push((identifier, player));
            },
        }
        self.entries = entries;
    }

    /// Takes the participant under `identifier` out, if there is one.
    pub fn remove_player(&mut self, identifier: &Address)
        ensures
            final(self)@ == old(self)@.remove(*identifier),
    {
        proof {
            use_type_invariant(&*self);
        }
        let place = self.find(identifier);
        match place {
            Some(i) => {
                let mut entries = Vec::new();
                std::mem::swap(&mut entries, &mut self.entries);
                proof {
                    lemma_map_after_remove(entries@, i as int);
                }
                entries.remove(i);
                self.entries = entries;
            },
            None => {
                assert(self@.remove(*identifier) =~= self@);
            },
        }
    }

    /// Moves the participant under `identifier` by `delta` and returns the position
    /// reached; `None`, and no change, if nobody stands under `identifier`.
    pub fn update_player(&mut self, identifier: &Address, delta: Position) -> (reached: Option<
        Position,
    >)
        ensures
            old(self)@.contains_key(*identifier) ==> {
                let before = old(self)@[*identifier];
                let after = Character { position: before.position.plus(delta), ..before };
                &&& reached == Some(after.position)
                &&& final(self)@ == old(self)@.insert(*identifier, after)
            },
            !old(self)@.contains_key(*identifier) ==> reached.is_none() && final(self)@ == old(
                self,
            )@,
    {
        proof {
            use_type_invariant(&*self);
        }
        let place = self.find(identifier);
        match place {
            Some(i) => {
                let mut entries = Vec::new();
                std::mem::swap(&mut entries, &mut self.entries);
                let (key, mut player) = entries[i];
                proof {
                    lemma_entry_in_map(entries@, i as int);
                }
                player.position.add_assign(delta);
                proof {
                    lemma_map_after_update(entries@, i as int, player);
                }
                entries.set(i, (key, player));
                self.entries = entries;
                Some(player.position)
            },
            None => None,
        }
    }

    /// The participant under `identifier`, if there is one.
    pub fn get_player(&self, identifier: &Address) -> (player: Option<Player>)
        ensures
            player == if self@.contains_key(*identifier) {
                Some(self@[*identifier])
            } else {
                None
            },
    {
        proof {
            use_type_invariant(self);
        }
        match self.find(identifier) {
            Some(i) => {
                proof {
                    lemma_entry_in_map(self.entries@, i as int);
                }
                Some(self.entries[i].1)
            },
            None => None,
        }
    }

    /// Every participant with its identity, in no stated order: each identity once, and
    /// together the same map as the pool.
    pub fn snapshot(&self) -> (all: Vec<(Address, Player)>)
        ensures
            keys_distinct(all@),
            entries_map(all@) == self@,
    {
        proof {
            use_type_invariant(self);
        }
        let mut all: Vec<(Address, Player)> = Vec::new();
        let mut i: usize = 0;
        while i < self.entries.len()
            invariant
                0 <= i <= self.entries.len(),
                all@ == self.entries@.take(i as int),
            decreases self.entries.len() - i,
        {
            all.push(self.entries[i]);
            assert(self.entries@.take(i + 1) =~= self.entries@.take(i as int).push(
                self.entries@[i as int],
            ));
            i += 1;
        }
        assert(self.entries@.take(self.entries.len() as int) =~= self.entries@);
        all
    }
}

/// The number of mined pairs from which on a claim is made.
pub const CLAIM_THRESHOLD: usize = 10;

/// The state of a node's replica of the world, as plain values.
pub struct WorldView {
    /// Whether the node has been told to stop
    pub exit: bool,
    /// The identity of the node's own participant
    pub identifier: Address,
    /// The participants known, each under its identity
    pub players: Map<Address, Player>,
    /// The number of finds applied
    pub mining_rewards: u32,
    /// The mined pairs that wait for a claim
    pub mined: Set<(Address, U256)>,
    /// The chat log, oldest line first
    pub messages: Seq<ChatLine>,
}

/// The name under which a participant's chat lines are logged: the name resolved for its
/// address where there is one and it is not empty, else the address in its text form.
pub open spec fn shown_name(identifier: Address, resolved: Option<String>) -> Seq<char> {
    match resolved {
        Some(name) => if name@.len() > 0 {
            name@
        } else {
            address_text(identifier@)
        },
        None => address_text(identifier@),
    }
}

/// The participants after `identifier` has moved by `delta`: one that is known moves from
/// where it stands, one that is not appears at `delta` with a balance of zero.
pub open spec fn moved(players: Map<Address, Player>, identifier: Address, delta: Position) -> Map<
    Address,
    Player,
> {
    if players.contains_key(identifier) {
        let before = players[identifier];
        players.insert(identifier, Character { position: before.position.plus(delta), ..before })
    } else {
        players.insert(identifier, Character { name: identifier, balance: 0i32, position: delta })
    }
}

/// The counter of finds after one more find: one more, but never beyond the largest `u32`.
pub open spec fn counted(count: u32) -> u32 {
    if count < u32::MAX {
        (count + 1) as u32
    } else {
        count
    }
}

/// The reducer: the world after `event`, authored by `identifier`, has been applied.
/// `author` is the name under which a chat line of `identifier` is logged.
pub open spec fn applied(
    world: WorldView,
    identifier: Address,
    event: GameEventMessage,
    author: Seq<char>,
) -> WorldView {
    match event {
        GameEvent::PlayerMovement(delta) => WorldView {
            players: moved(world.players, identifier, delta),
            ..world
        },
        GameEvent::PlayerFound(found) => WorldView {
            mined: world.mined.insert(found),
            mining_rewards: counted(world.mining_rewards),
            ..world
        },
        GameEvent::ChatMessage(text) => WorldView {
            messages: world.messages.push(ChatLine { author, text: text@ }),
            ..world
        },
        GameEvent::Quit => WorldView {
            players: world.players.remove(identifier),
            exit: world.exit || identifier == world.identifier,
            ..world
        },
    }
}

/// The lines of a chat log without their times.
pub open spec fn chat_lines(messages: Seq<ChatMessage>) -> Seq<ChatLine> {
    messages.map_values(|message: ChatMessage| message@)
}

/// The name under which `identifier` is logged in the chat, given what the name service
/// answered for it.
pub fn display_name(identifier: &Address, resolved: Option<String>) -> (name: String)
    ensures
        name@ == shown_name(*identifier, resolved),
{
    match resolved {
        Some(name) => {
            if name.as_str().is_empty() {
                identifier.to_string()
            } else {
                name
            }
        },
        None => identifier.to_string(),
    }
}

/// A node's replica of the world.
#[derive(Debug)]
pub struct World {
    pub exit_status: ExitStatus,
    identifier: Address,
    players: PlayersPool,
    mining_rewards: u32,
    mined: MinedSet,
    messages: Vec<ChatMessage>,
}

impl World {
    /// The state of the replica.
    pub closed spec fn view(&self) -> WorldView {
        WorldView {
            exit: self.exit_status@,
            identifier: self.identifier,
            players: self.players@,
            mining_rewards: self.mining_rewards,
            mined: self.mined@,
            messages: chat_lines(self.messages@),
        }
    }

    /// The mined pairs that wait for a claim, in the order in which they first came.
    pub closed spec fn mined_order(&self) -> Seq<(Address, U256)> {
        self.mined.order()
    }

    /// The chat log with its times.
    pub closed spec fn chat_log(&self) -> Seq<ChatMessage> {
        self.messages@
    }

    /// The world of a node whose own participant is `player`: it knows `player` alone, has
    /// not been told to stop, and has neither finds nor chat lines.
    pub fn new(player: Player) -> (world: Self)
        ensures
            world@ == (WorldView {
                exit: false,
                identifier: player.name,
                players: Map::<Address, Player>::empty().insert(player.name, player),
                mining_rewards: 0,
                mined: Set::<(Address, U256)>::empty(),
                messages: Seq::<ChatLine>::empty(),
            }),
            world.mined_order() == Seq::<(Address, U256)>::empty(),
    {
        let mut players = PlayersPool::new();
        players.add_player(player.name, player);
        let world = World {
            exit_status: ExitStatus::new(),
            identifier: player.name,
            players,
            mining_rewards: 0,
            mined: MinedSet::new(),
            messages: Vec::new(),
        };
        assert(chat_lines(world.messages@) =~= Seq::<ChatLine>::empty());
        world
    }

    /// The identity of the node's own participant.
    pub fn identifier(&self) -> (identifier: Address)
        ensures
            identifier == self@.identifier,
    {
        self.identifier
    }

    /// Applies `event`, authored by `identifier`, to the replica. `resolved_name` is what
    /// the name service answered for `identifier`; only a chat message reads it.
    pub fn update(
        &mut self,
        identifier: &Address,
        event: &GameEventMessage,
        resolved_name: Option<String>,
    )
        ensures
            final(self)@ == applied(
                old(self)@,
                *identifier,
                *event,
                shown_name(*identifier, resolved_name),
            ),
            final(self).mined_order() == match *event {
                GameEvent::PlayerFound(found) => if old(self)@.mined.contains(found) {
                    old(self).mined_order()
                } else {
                    old(self).mined_order().push(found)
                },
                _ => old(self).mined_order(),
            },
    {
        match event {
            GameEvent::PlayerMovement(p) => {
                let res = self.players.update_player(identifier, *p);
                if res.is_none() {
                    let mut new_player = Character::new(*identifier, 0i32, (0, 0));
                    new_player.position = *p;
                    self.players.add_player(*identifier, new_player);
                }
            },
            GameEvent::PlayerFound(f) => {
                self.mined.insert(*f);
                if self.mining_rewards < u32::MAX {
                    self.mining_rewards = self.mining_rewards + 1;
                }
            },
            GameEvent::ChatMessage(message) => {
                let name = display_name(identifier, resolved_name);
                self.add_chat_message(name, message.clone());
            },
            GameEvent::Quit => {
                self.players.remove_player(identifier);
                if identifier.is_equal(&self.identifier) {
                    self.exit_status.exit();
                }
            },
        }
    }

    /// Takes every mined pair out, as claim entries in the order in which the pairs first
    /// came. Nothing else changes.
    pub fn drain_mined_batch(&mut self) -> (batch: Vec<MinerData>)
        ensures
            final(self)@ == (WorldView { mined: Set::<(Address, U256)>::empty(), ..old(self)@ }),
            final(self).mined_order() == Seq::<(Address, U256)>::empty(),
            final(self).chat_log() == old(self).chat_log(),
            batch@ == claim_entries(old(self).mined_order()),
            batch@.len() == old(self)@.mined.len(),
            final(self)@.mined.len() == 0,
            old(self).mined_order().no_duplicates(),
            old(self).mined_order().to_set() == old(self)@.mined,
    {
        // The count's contract records that no pair occurs twice in the order.
        let _count = self.mined.len();
        self.mined.drain()
    }

    /// The number of mined pairs that wait for a claim.
    pub fn get_mined_count(&self) -> (count: usize)
        ensures
            count == self@.mined.len(),
            count == self.mined_order().len(),
    {
        self.mined.len()
    }

    /// The mined pairs that wait for a claim, in the order in which they first came. The
    /// replica keeps them.
    pub fn get_mining_batch(&self) -> (pairs: Vec<(Address, U256)>)
        ensures
            pairs@ == self.mined_order(),
            pairs@.to_set() == self@.mined,
    {
        self.mined.snapshot()
    }

    /// The batch to claim, once enough pairs have been mined: with `CLAIM_THRESHOLD` pairs
    /// or more, all of them are taken out and returned, each once; with fewer, nothing
    /// changes.
    pub fn claim_batch(&mut self) -> (batch: Option<Vec<MinerData>>)
        ensures
            match batch {
                Some(entries) => {
                    &&& old(self)@.mined.len() >= CLAIM_THRESHOLD
                    &&& final(self)@ == (WorldView {
                        mined: Set::<(Address, U256)>::empty(),
                        ..old(self)@
                    })
                    &&& entries@ == claim_entries(old(self).mined_order())
                    &&& entries@.len() == old(self)@.mined.len()
                    &&& old(self).mined_order().no_duplicates()
                    &&& old(self).mined_order().to_set() == old(self)@.mined
                },
                None => old(self)@.mined.len() < CLAIM_THRESHOLD && *final(self) == *old(self),
            },
    {
        if self.get_mined_count() >= CLAIM_THRESHOLD {
            Some(self.drain_mined_batch())
        } else {
            None
        }
    }

    /// Appends a line to the chat log.
    pub fn add_chat_message(&mut self, identifier: String, message: String)
        ensures
            final(self)@ == (WorldView {
                messages: old(self)@.messages.push(
                    ChatLine { author: identifier@, text: message@ },
                ),
                ..old(self)@
            }),
            final(self).mined_order() == old(self).mined_order(),
    {
        let line = ChatMessage::new(identifier, message);
        let ghost before = self.messages@;
        self.messages.push(line);
        assert(chat_lines(before.push(line)) =~= chat_lines(before).push(line@));
    }

    /// Whether the node has been told to stop.
    pub fn is_exit(&self) -> (exit: bool)
        ensures
            exit == self@.exit,
    {
        self.exit_status.is_exit()
    }

    /// Every participant known, with its identity: each identity once, and together the
    /// map of the participants.
    pub fn get_all_players(&self) -> (all: Vec<(Address, Player)>)
        ensures
            keys_distinct(all@),
            entries_map(all@) == self@.players,
    {
        self.players.snapshot()
    }

    /// The participant under `identifier`, if it is known.
    pub fn get_player(&self, identifier: &Address) -> (player: Option<Player>)
        ensures
            player == if self@.players.contains_key(*identifier) {
                Some(self@.players[*identifier])
            } else {
                None
            },
    {
        self.players.get_player(identifier)
    }

    /// The number of finds applied.
    pub fn get_mining_rewards_count(&self) -> (count: u32)
        ensures
            count == self@.mining_rewards,
    {
        self.mining_rewards
    }

    /// A copy of the chat log, oldest line first.
    pub fn get_chat_messages(&self) -> (log: Vec<ChatMessage>)
        ensures
            chat_lines(log@) == self@.messages,
            log@.len() == self.chat_log().len(),
            forall|i: int|
                0 <= i < log@.len() ==> log@[i].timestamp == self.chat_log()[i].timestamp,
    {
        let mut log: Vec<ChatMessage> = Vec::new();
        let mut i: usize = 0;
        while i < self.messages.len()
            invariant
                0 <= i <= self.messages.len(),
                log@.len() == i,
                forall|j: int| 0 <= j < i ==> log@[j]@ == self.messages@[j]@,
                forall|j: int| 0 <= j < i ==> log@[j].timestamp == self.messages@[j].timestamp,
            decreases self.messages.len() - i,
        {
            log.push(self.messages[i].duplicate());
            i += 1;
        }
        assert(chat_lines(log@) =~= chat_lines(self.messages@));
        log
    }
}

/// The first movement of a participant that was not known puts it at the displacement
/// itself, and its next movement takes it on from there: after `d` and then `d2` it stands at
/// `d` moved by `d2`. What others do in between does not matter, as long as they neither
/// move nor remove this participant.
pub proof fn lemma_movements_accumulate(
    world: WorldView,
    identifier: Address,
    d: Position,
    d2: Position,
    author: Seq<char>,
)
    requires
        !world.players.contains_key(identifier),
    ensures
        ({
            let first = applied(
                world,
                identifier,
                GameEvent::<(Address, U256), Position>::PlayerMovement(d),
                author,
            );
            let second = applied(
                first,
                identifier,
                GameEvent::<(Address, U256), Position>::PlayerMovement(d2),
                author,
            );
            &&& first.players.contains_key(identifier)
            &&& first.players[identifier].name == identifier
            &&& first.players[identifier].position == d
            &&& second.players.contains_key(identifier)
            &&& second.players[identifier].position == d.plus(d2)
        }),
{
}

/// A movement changes nobody but the participant that moves.
pub proof fn lemma_movement_leaves_others(
    world: WorldView,
    identifier: Address,
    other: Address,
    d: Position,
    author: Seq<char>,
)
    requires
        other != identifier,
    ensures
        ({
            let next = applied(
                world,
                identifier,
                GameEvent::<(Address, U256), Position>::PlayerMovement(d),
                author,
            );
            &&& next.players.contains_key(other) == world.players.contains_key(other)
            &&& world.players.contains_key(other) ==> next.players[other] == world.players[other]
        }),
{
}

/// Applying the same find twice leaves the set of mined pairs, and so their number, as it
/// is after the first time.
pub proof fn lemma_find_is_idempotent(
    world: WorldView,
    first_author: Address,
    second_author: Address,
    found: (Address, U256),
    author: Seq<char>,
)
    ensures
        ({
            let once = applied(
                world,
                first_author,
                GameEvent::<(Address, U256), Position>::PlayerFound(found),
                author,
            );
            let twice = applied(
                once,
                second_author,
                GameEvent::<(Address, U256), Position>::PlayerFound(found),
                author,
            );
            &&& once.mined.contains(found)
            &&& twice.mined == once.mined
            &&& twice.mined.len() == once.mined.len()
        }),
{
    let once = world.mined.insert(found);
    assert(once.insert(found) =~= once);
}

/// A quit of the node's own participant tells the node to stop. A quit of another
/// participant takes that participant out and leaves the node's exit flag as it is. No
/// event but a quit of the node's own participant changes the exit flag.
pub proof fn lemma_quit(
    world: WorldView,
    identifier: Address,
    event: GameEventMessage,
    author: Seq<char>,
)
    ensures
        ({
            let next = applied(world, identifier, event, author);
            &&& event is Quit && identifier == world.identifier ==> next.exit
            &&& event is Quit ==> !next.players.contains_key(identifier)
            &&& !(event is Quit && identifier == world.identifier) ==> next.exit == world.exit
            &&& next.identifier == world.identifier
        }),
{
}

} // verus!
