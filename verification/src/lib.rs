//! The core of a peer-to-peer game whose progress is anchored to a reward contract: signed
//! events between nodes, each node's replica of the world, the proof-of-work search and the
//! batching of reward claims.

pub mod api;
pub mod channels;
pub mod contract;
pub mod events;
pub mod exit;
pub mod hash;
pub mod identifier;
pub mod keyboard;
pub mod message;
pub mod mined;
pub mod miner;
pub mod movements;
pub mod network;
pub mod payload;
pub mod player;
pub mod primitives;
pub mod queue;
pub mod runner;
pub mod signer;
pub mod sprite;
pub mod wire;
pub mod world;
