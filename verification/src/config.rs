//! Server configuration, loaded from `server.toml` at startup.
//!
//! All configurable settings live in a single TOML file. The library keeps the parsed
//! values as plain data; reading and parsing the file happens in the server binary.

use vstd::prelude::*;

verus! {

/// Top-level configuration, corresponding to the sections in `server.toml`.
#[derive(Debug)]
pub struct Config {
    pub server: Server,
    pub world: World,
}

/// Network and gameplay settings for the server process.
#[derive(Debug)]
pub struct Server {
    /// The IPv4 address to listen on, as its four octets.
    pub ip: [u8; 4],
    pub port: u16,
    pub debug_messages: bool,
    pub status_message: String,
    pub message_of_the_day: String,
}

/// World settings, currently just the path to the map file.
#[derive(Debug)]
pub struct World {
    pub map_file: String,
}

/// Returns `true` if `debug_messages = true` is set in the loaded configuration.
///
/// Returns `false` if no configuration has been loaded yet.
pub fn is_debug(config: Option<&Config>) -> (debug: bool)
    ensures
        debug == match config {
            Some(c) => c.server.debug_messages,
            None => false,
        },
{
    match config {
        Some(c) => c.server.debug_messages,
        None => false,
    }
}

} // verus!
