//! A verified game-logic library for a Tibia 1.03 game server.

pub mod chat;
pub mod config;
pub mod constants;
pub mod io;
pub mod map;
pub mod network;
pub mod player;
pub mod util;
pub mod world;
