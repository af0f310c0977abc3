//! Game-state logic of a small client/server multiplayer game: the actions a
//! player records, the frames exchanged over the network, the ring buffers
//! that hold them, and the decisions the client and the server take on them.

pub mod clock;
pub mod common;
pub mod ring;
pub mod player;
pub mod client;
pub mod server;
