//! Chat message types for Tibia 1.03.
//!
//! Tibia 1.03 supported a limited set of chat modes. The game manual documents three
//! for players:
//!
//! - `#W` -> Whisper
//! - `#Y` -> Yell
//! - `#B` -> Broadcast
//!
//! It was also possible to send private messages using `*Name* message` and `@Name@ message`.

pub mod encoding;

use vstd::prelude::*;

verus! {

/// Identifies the type of a chat message, as sent in the Tibia 1.03 protocol.
///
/// Each type has a single-byte protocol identifier (see [`ChatType::to_u8`]).
/// `Look` and `Normal` are not player-selectable via chat prefix - they are assigned
/// by the server based on context.
#[derive(Debug, Copy, Clone, PartialEq, Eq, Structural)]
pub enum ChatType {
    Broadcast,
    Look,
    Private,
    Normal,
    Whisper,
    Yell,
}

/// The protocol identifier of a chat type.
pub open spec fn spec_chat_type_byte(t: ChatType) -> u8 {
    match t {
        ChatType::Broadcast => 0x42,
        ChatType::Look => 0x4D,
        ChatType::Private => 0x50,
        ChatType::Normal => 0x53,
        ChatType::Whisper => 0x57,
        ChatType::Yell => 0x59,
    }
}

/// The chat type selected by the character after `#` in a chat line.
pub open spec fn spec_chat_type_from_prefix(value: Option<char>) -> ChatType {
    match value {
        Some(c) => if c == 'w' || c == 'W' {
            ChatType::Whisper
        } else if c == 'y' || c == 'Y' {
            ChatType::Yell
        } else if c == 'b' || c == 'B' {
            ChatType::Broadcast
        } else {
            ChatType::Normal
        },
        None => ChatType::Normal,
    }
}

impl ChatType {
    /// The single-byte protocol identifier (`'B'`, `'M'`, `'P'`, `'S'`, `'W'`, `'Y'`).
    pub fn to_u8(self) -> (b: u8)
        ensures
            b == spec_chat_type_byte(self),
    {
        match self {
            ChatType::Broadcast => 0x42,
            ChatType::Look => 0x4D,
            ChatType::Private => 0x50,
            ChatType::Normal => 0x53,
            ChatType::Whisper => 0x57,
            ChatType::Yell => 0x59,
        }
    }

    /// Decodes a protocol identifier; other bytes name no chat type.
    pub fn from_u8(b: u8) -> (t: Option<ChatType>)
        ensures
            t matches Some(ty) ==> spec_chat_type_byte(ty) == b,
            t is None ==> forall|ty: ChatType| spec_chat_type_byte(ty) != b,
    {
        match b {
            0x42 => Some(ChatType::Broadcast),
            0x4D => Some(ChatType::Look),
            0x50 => Some(ChatType::Private),
            0x53 => Some(ChatType::Normal),
            0x57 => Some(ChatType::Whisper),
            0x59 => Some(ChatType::Yell),
            _ => None,
        }
    }
}

impl From<Option<char>> for ChatType {
    /// Parses a chat prefix character (e.g. from `#W`) into a [`ChatType`].
    ///
    /// Matches the three player-accessible prefixes case-insensitively.
    /// Any unrecognised or absent prefix defaults to [`ChatType::Normal`].
    fn from(value: Option<char>) -> (t: Self) {
        match value {
            Some('w') | Some('W') => ChatType::Whisper,
            Some('y') | Some('Y') => ChatType::Yell,
            Some('b') | Some('B') => ChatType::Broadcast,
            _ => ChatType::Normal,
        }
    }
}

impl vstd::std_specs::convert::FromSpecImpl<Option<char>> for ChatType {
    open spec fn obeys_from_spec() -> bool {
        true
    }

    open spec fn from_spec(value: Option<char>) -> ChatType {
        spec_chat_type_from_prefix(value)
    }
}

/// Different chat types travel as different bytes.
pub proof fn lemma_chat_type_byte_injective(a: ChatType, b: ChatType)
    ensures
        spec_chat_type_byte(a) == spec_chat_type_byte(b) ==> a == b,
{
}

} // verus!
