//! Server-side networking substrate of a small multiplayer board game:
//! a binary wire codec with stream resynchronization, a per-connection
//! protocol handler, a room registry, and a multicast hub that fans
//! broadcasts out to the connections joined to the same room.

pub mod board;
pub mod coord;
pub mod data_repr;
pub mod game_state;
pub mod multicast;
pub mod player;
pub mod print;
pub mod protocol;
pub mod recorder;
pub mod room;
pub mod server;
