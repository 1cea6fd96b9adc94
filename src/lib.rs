//! Queries of a game master server and of the game servers it lists: request
//! framing, reply parsing and the assembly of per-server records.

pub mod segment;
pub mod directory;
pub mod info;
pub mod packet;
pub mod game;
pub mod challenge;
pub mod query;
pub mod laws;
pub mod cache;
