//! The answers of the status endpoints.

use crate::message::ChatMessage;
use crate::primitives::{Address, U256};
use crate::world::{Player, World, chat_lines, entries_map, keys_distinct};
use vstd::prelude::*;

verus! {

/// Whether a request was served or failed.
#[derive(Debug, PartialEq, Eq, Structural, Hash, Clone, Copy)]
pub enum ResponseStatus {
    Success,
    Error,
}

/// What an endpoint answers: a status and the data that goes with it.
#[derive(Debug)]
pub struct ResponseAPI<D> {
    pub status: ResponseStatus,
    pub data: D,
}

impl<D> ResponseAPI<D> {
    fn new(status: ResponseStatus, data: D) -> (response: Self)
        ensures
            response.status == status,
            response.data == data,
    {
        ResponseAPI { status, data }
    }

    /// The answer of a request that was served.
    pub fn success(data: D) -> (response: Self)
        ensures
            response.status == ResponseStatus::Success,
            response.data == data,
    {
        Self::new(ResponseStatus::Success, data)
    }

    /// The answer of a request that failed.
    pub fn error(data: D) -> (response: Self)
        ensures
            response.status == ResponseStatus::Error,
            response.data == data,
    {
        Self::new(ResponseStatus::Error, data)
    }
}

/// The version that the index endpoint reports.
pub const API_SERVER_VERSION: &'static str = "0.1.0";

/// The endpoints that tell whether the server is alive.
pub struct HealthStatus;

impl HealthStatus {
    /// The answer of the index endpoint: the server's version.
    pub fn index() -> (response: ResponseAPI<&'static str>)
        ensures
            response.status == ResponseStatus::Success,
            response.data@ == API_SERVER_VERSION@,
    {
        ResponseAPI::success(API_SERVER_VERSION)
    }

    /// The answer of the health endpoint.
    pub fn health_check() -> (response: ResponseAPI<&'static str>)
        ensures
            response.status == ResponseStatus::Success,
            response.data@ == "OK"@,
    {
        ResponseAPI::success("OK")
    }
}

/// The endpoints that show the state of the world.
pub struct WorldStatus;

impl WorldStatus {
    /// The mined pairs that wait for a claim, in the order in which they first came.
    pub fn mined_batch(world: &World) -> (response: ResponseAPI<Vec<(Address, U256)>>)
        ensures
            response.status == ResponseStatus::Success,
            response.data@ == world.mined_order(),
            response.data@.to_set() == world@.mined,
    {
        ResponseAPI::success(world.get_mining_batch())
    }

    /// The participants known: each once, in no stated order.
    pub fn players(world: &World) -> (response: ResponseAPI<Vec<Player>>)
        ensures
            response.status == ResponseStatus::Success,
            exists|all: Seq<(Address, Player)>|
                {
                    &&& keys_distinct(all)
                    &&& #[trigger] entries_map(all) == world@.players
                    &&& response.data@ == all.map_values(|entry: (Address, Player)| entry.1)
                },
    {
        let all = world.get_all_players();
        let mut players: Vec<Player> = Vec::new();
        let mut i: usize = 0;
        while i < all.len()
            invariant
                0 <= i <= all.len(),
                players@ == all@.take(i as int).map_values(|entry: (Address, Player)| entry.1),
            decreases all.len() - i,
        {
            players.push(all[i].1);
            proof {
                assert(all@.take(i + 1) =~= all@.take(i as int).push(all@[i as int]));
                assert(all@.take(i + 1).map_values(|entry: (Address, Player)| entry.1)
                    =~= all@.take(i as int).map_values(|entry: (Address, Player)| entry.1).push(
                    all@[i as int].1,
                ));
            }
            i += 1;
        }
        assert(all@.take(all.len() as int) =~= all@);
        ResponseAPI::success(players)
    }

    /// The chat log, oldest line first.
    pub fn chat_messages(world: &World) -> (response: ResponseAPI<Vec<ChatMessage>>)
        ensures
            response.status == ResponseStatus::Success,
            chat_lines(response.data@) == world@.messages,
    {
        ResponseAPI::success(world.get_chat_messages())
    }
}

} // verus!
