//! Game logic of a small multiplayer game: players connect with a token,
//! feed a princess whose life drains every tick, and every connected client
//! hears about what happens through an event registry.

pub mod client;
pub mod events;
pub mod model;
pub mod options;
pub mod rng;
pub mod server;
pub mod text;
