//! Message types for communication between player connections and the game world.
//!
//! [`PlayerToWorld`] carries events from a player's connection into the world, and
//! [`WorldToPlayer`] carries world events back out to one or more connected players.

use vstd::prelude::*;
use crate::chat::ChatType;
use crate::map::position::Position;
use crate::player::{Player, PlayerView};

verus! {

/// A message sent from a player's connection to the world.
#[derive(Debug)]
pub enum PlayerToWorld {
    /// A new player has authenticated and is entering the world. (The channel that
    /// reaches the player's connection is registered by the server alongside.)
    Login(Player),
    /// A player has disconnected and should be removed from the world.
    Logout(Player),
    /// A player has moved; broadcast their new position to nearby players.
    UpdatePosition(Player),
    /// A player's appearance or stats have changed; broadcast the update.
    UpdateInfo(Player),
    /// A player sent a chat message (position, type, encoded text, speaker name, receiver name).
    /// `receiver` is only meaningful for [`ChatType::Private`]; it carries the name parsed
    /// out of the `*Name*` / `@Name@` prefix so the world can route the message to that
    /// single player instead of by map distance.
    Chat(Position, ChatType, Vec<u8>, String, Option<String>),
    /// A tile on the map has changed and nearby players should receive the update.
    MapUpdate(Position),
    /// A player added or removed an item from a map container.
    /// Fields: map position of the container, container item id, new item list.
    ContainerUpdate(Position, u16, Vec<u16>),
}

/// The abstract content of a [`PlayerToWorld`] message.
pub enum PlayerToWorldView {
    Login(PlayerView),
    Logout(PlayerView),
    UpdatePosition(PlayerView),
    UpdateInfo(PlayerView),
    Chat(Position, ChatType, Seq<u8>, Seq<char>, Option<Seq<char>>),
    MapUpdate(Position),
    ContainerUpdate(Position, u16, Seq<u16>),
}

impl View for PlayerToWorld {
    type V = PlayerToWorldView;

    open spec fn view(&self) -> PlayerToWorldView {
        match self {
            PlayerToWorld::Login(p) => PlayerToWorldView::Login(p@),
            PlayerToWorld::Logout(p) => PlayerToWorldView::Logout(p@),
            PlayerToWorld::UpdatePosition(p) => PlayerToWorldView::UpdatePosition(p@),
            PlayerToWorld::UpdateInfo(p) => PlayerToWorldView::UpdateInfo(p@),
            PlayerToWorld::Chat(pos, t, text, name, receiver) => PlayerToWorldView::Chat(
                *pos,
                *t,
                text@,
                name@,
                match receiver {
                    Some(r) => Some(r@),
                    None => None,
                },
            ),
            PlayerToWorld::MapUpdate(pos) => PlayerToWorldView::MapUpdate(*pos),
            PlayerToWorld::ContainerUpdate(pos, id, items) => PlayerToWorldView::ContainerUpdate(
                *pos,
                *id,
                items@,
            ),
        }
    }
}

/// A message sent from the world to a player's connection.
#[derive(Debug)]
pub enum WorldToPlayer {
    /// The current list of players online.
    PlayerList(Vec<Player>),
    /// A chat message to relay to this player (position, type, encoded text, speaker name).
    Chat(Position, ChatType, Vec<u8>, String),
    /// A nearby tile has changed; the player's client should redraw the map.
    MapUpdate,
    /// A status bar message for this player's connection, e.g. a private chat error.
    StatusMessage(String),
    /// A map container's contents changed; if this player has it open, refresh the window.
    ContainerUpdate(Position, u16, Vec<u16>),
}

/// The abstract content of a [`WorldToPlayer`] message.
pub enum WorldToPlayerView {
    PlayerList(Seq<PlayerView>),
    Chat(Position, ChatType, Seq<u8>, Seq<char>),
    MapUpdate,
    StatusMessage(Seq<char>),
    ContainerUpdate(Position, u16, Seq<u16>),
}

/// The views of a list of players.
pub open spec fn players_view(ps: Seq<Player>) -> Seq<PlayerView> {
    ps.map_values(|p: Player| p@)
}

impl View for WorldToPlayer {
    type V = WorldToPlayerView;

    open spec fn view(&self) -> WorldToPlayerView {
        match self {
            WorldToPlayer::PlayerList(ps) => WorldToPlayerView::PlayerList(players_view(ps@)),
            WorldToPlayer::Chat(pos, t, text, name) => WorldToPlayerView::Chat(
                *pos,
                *t,
                text@,
                name@,
            ),
            WorldToPlayer::MapUpdate => WorldToPlayerView::MapUpdate,
            WorldToPlayer::StatusMessage(s) => WorldToPlayerView::StatusMessage(s@),
            WorldToPlayer::ContainerUpdate(pos, id, items) => WorldToPlayerView::ContainerUpdate(
                *pos,
                *id,
                items@,
            ),
        }
    }
}

} // verus!
