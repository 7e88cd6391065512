# Albe's Journey - a verified game server core for Tibia 1.03

This crate holds the game logic of a Tibia 1.03 server, written in Verus: every function
in `src/` carries a contract and is proved against it, except a few small wrappers whose
contracts are taken on trust: `io::push_char`, which calls std's `String::push`;
`to_uppercase` and `utf8_text` in `network/connection/receive.rs`, which call std's
`str::to_uppercase` and `std::str::from_utf8`;
and `new_queue`, `queue_push` and `queue_pop` in `network/connection/mod.rs`, which call
`crossbeam_queue::SegQueue`'s `new`, `push` and `pop` for the queue of outgoing packets.

- `src/chat` - chat types and the Windows-1252 text encoding.
- `src/io.rs` - reading and writing the protocol's fields (`ReadExt`, `WriteExt`).
- `src/map` - item properties, positions, and the world map with its containers.
- `src/player.rs` - players, their equipment, outfits and open container windows.
- `src/world` - the world: who is online, and who hears which event.
- `src/network` - packet ids, and one client's connection: the login handshake, every
  incoming packet (walking, auto-walk path finding, chat, looking, using and pushing
  items, container windows), the packets sent back and the events for the world.
- `src/util.rs` - sequence and text helpers.

The server around it lives in `app/`: it reads `server.toml` and the JSON map, runs the
TCP listener, one task per client and the world task, and hands the library plain
values. Besides `[server]` and `[world]`, `server.toml` has a `[protocol]` section with
the wire ids of the outgoing (`outgoing`, 12 ids) and incoming (`incoming`, 15 ids)
packets, in the order `PacketOut` and `PacketIn` list them.
